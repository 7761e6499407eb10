//! Column-level lineage of compiled SQL: which input datasets and fields
//! each output column of a model is derived from, and how.
use vstd::prelude::*;
use crate::project::{Model, Project, strings_view};
use crate::search::{first_where, lemma_first_where, lemma_first_where_found, lemma_first_where_none};
use crate::sql::{SqlError, parse_statements, sql_parsed};
use crate::text::{chars_of, join_exec, join_with, push_all, string_of};

verus! {

/// A SQL expression, as far as lineage analysis reads it.
#[derive(Debug)]
pub enum SqlExpr {
    Identifier(String),
    /// The parts of a dotted name.
    CompoundIdentifier(Vec<String>),
    BinaryOp { left: Box<SqlExpr>, op: String, right: Box<SqlExpr> },
    UnaryOp { op: String, expr: Box<SqlExpr> },
    Nested(Box<SqlExpr>),
    /// A function call with its arguments.
    Function { name: String, arguments: SqlFunctionArgs },
    Cast { expr: Box<SqlExpr>, data_type: String },
    Extract(Box<SqlExpr>),
    Case { conditions: Vec<SqlCaseWhen>, else_result: Option<Box<SqlExpr>> },
    /// A scalar subquery; the body of the query.
    Subquery(Box<SqlSetExpr>),
    /// `x IN (subquery)`; the body of the subquery.
    InSubquery(Box<SqlSetExpr>),
    /// `EXISTS (subquery)`; the body of the subquery.
    Exists(Box<SqlSetExpr>),
    /// A literal, in its debugging form.
    Value(String),
    Other,
}

/// One `WHEN ... THEN ...` of a `CASE`.
#[derive(Debug)]
pub struct SqlCaseWhen {
    pub condition: SqlExpr,
    pub result: SqlExpr,
}

/// The arguments of a function call.
#[derive(Debug)]
pub enum SqlFunctionArgs {
    /// No argument list, as in `CURRENT_TIMESTAMP`.
    Absent,
    /// The arguments in order; an argument that is not a plain expression
    /// (a wildcard) is `None`.
    List(Vec<Option<SqlExpr>>),
    /// A subquery as the argument; the body of the query.
    Subquery(Box<SqlSetExpr>),
}

/// The body of a query.
#[derive(Debug)]
pub enum SqlSetExpr {
    Select(Box<SqlSelect>),
    SetOperation { left: Box<SqlSetExpr>, right: Box<SqlSetExpr> },
    Other,
}

/// A `SELECT`.
#[derive(Debug)]
pub struct SqlSelect {
    /// The items of the `FROM` clause.
    pub from: Vec<SqlFrom>,
    /// The `WHERE` condition.
    pub selection: Option<SqlExpr>,
    pub projection: Vec<SqlSelectItem>,
}

/// A relation of a `FROM` clause with its joins.
#[derive(Debug)]
pub struct SqlFrom {
    pub relation: SqlTableFactor,
    pub joins: Vec<SqlTableFactor>,
}

/// A relation named in a `FROM` clause or a join.
#[derive(Debug)]
pub enum SqlTableFactor {
    /// A table, by its written name.
    Table(String),
    /// A derived table; the body of its query.
    Derived(Box<SqlSetExpr>),
    /// A table-valued function, by its name.
    Function(String),
    /// `TABLE(expr)`, with the expression written out.
    TableFunction(String),
    Unnest,
    JsonTable,
    Other,
}

/// An item of a `SELECT` list.
#[derive(Debug)]
pub enum SqlSelectItem {
    UnnamedExpr(SqlExpr),
    ExprWithAlias { expr: SqlExpr, alias: String },
    /// `*`, with the columns of its `EXCEPT` list when it has one.
    Wildcard { except: Option<Vec<String>> },
    /// `q.*`, with `q` written out as the parser writes it.
    QualifiedWildcard(String),
    Other,
}

/// A table defined by a `WITH` clause.
#[derive(Debug)]
pub struct SqlCte {
    pub name: String,
    /// The body of its query.
    pub body: SqlSetExpr,
}

/// A query: the tables its `WITH` clause defines, in order, and its body.
#[derive(Debug)]
pub struct SqlQuery {
    pub ctes: Vec<SqlCte>,
    pub body: SqlSetExpr,
}

/// A statement, as far as lineage analysis reads it.
#[derive(Debug)]
pub enum SqlStatement {
    Query(SqlQuery),
    /// `CREATE TABLE`; its `AS` query when it has one.
    CreateTable(Option<SqlQuery>),
    Other,
}

/// The column name an unaliased expression gets.
pub open spec fn expr_column_name(e: SqlExpr) -> Seq<char>
    decreases e,
{
    match e {
        SqlExpr::Identifier(v) => v@,
        SqlExpr::CompoundIdentifier(parts) => join_with(strings_view(parts@), "."@),
        SqlExpr::Function { name, .. } => name@,
        SqlExpr::BinaryOp { left, op, right } => expr_column_name(*left) + "_"@ + op@ + "_"@
            + expr_column_name(*right),
        SqlExpr::UnaryOp { op, expr } => op@ + "_"@ + expr_column_name(*expr),
        SqlExpr::Value(v) => v@,
        SqlExpr::Cast { expr, data_type } => expr_column_name(*expr) + "_"@ + data_type@,
        SqlExpr::Case { .. } => "case_when"@,
        _ => "expr"@,
    }
}

fn cat3(a: &Vec<char>, b: &Vec<char>, c: &Vec<char>) -> (r: Vec<char>)
    ensures
        r@ == a@ + b@ + c@,
{
    let mut r: Vec<char> = Vec::new();
    push_all(&mut r, a);
    push_all(&mut r, b);
    push_all(&mut r, c);
    r
}

/// The column name an unaliased expression gets.
pub fn column_name(e: &SqlExpr) -> (r: Vec<char>)
    ensures
        r@ == expr_column_name(*e),
    decreases e,
{
    let us = chars_of("_");
    match e {
        SqlExpr::Identifier(v) => chars_of(v.as_str()),
        SqlExpr::CompoundIdentifier(parts) => join_exec(parts, "."),
        SqlExpr::Function { name, .. } => chars_of(name.as_str()),
        SqlExpr::BinaryOp { left, op, right } => {
            let l = cat3(&column_name(left), &us, &chars_of(op.as_str()));
            cat3(&l, &us, &column_name(right))
        },
        SqlExpr::UnaryOp { op, expr } => cat3(&chars_of(op.as_str()), &us, &column_name(expr)),
        SqlExpr::Value(v) => chars_of(v.as_str()),
        SqlExpr::Cast { expr, data_type } => cat3(&column_name(expr), &us, &chars_of(data_type.as_str())),
        SqlExpr::Case { .. } => chars_of("case_when"),
        _ => chars_of("expr"),
    }
}

} // verus!

verus! {

/// The sequences one after another.
pub open spec fn concat_all<T>(s: Seq<Seq<T>>) -> Seq<T>
    decreases s.len(),
{
    if s.len() == 0 {
        Seq::empty()
    } else {
        concat_all(s.drop_last()) + s.last()
    }
}

/// The tables each `WITH` table in scope reads, by name, in order of
/// definition.
pub type CteTables = Seq<(Seq<char>, Seq<Seq<char>>)>;

/// What the `WITH` table named `n` reads: the latest of that name in scope.
pub open spec fn cte_lookup(env: CteTables, n: Seq<char>) -> Option<Seq<Seq<char>>>
    decreases env.len(),
{
    if env.len() == 0 {
        None
    } else if env.last().0 == n {
        Some(env.last().1)
    } else {
        cte_lookup(env.drop_last(), n)
    }
}

/// The mathematical form of the `WITH` tables in scope.
pub open spec fn cte_tables_view(env: Seq<(String, Vec<String>)>) -> CteTables {
    Seq::new(env.len(), |i: int| (env[i].0@, strings_view(env[i].1@)))
}

/// Tables read by the subqueries of an expression.
pub open spec fn expr_tables(e: SqlExpr, env: CteTables) -> Seq<Seq<char>>
    decreases e,
{
    match e {
        SqlExpr::Subquery(b) => body_tables(*b, env),
        SqlExpr::InSubquery(b) => body_tables(*b, env),
        SqlExpr::Exists(b) => body_tables(*b, env),
        SqlExpr::BinaryOp { left, right, .. } => expr_tables(*left, env) + expr_tables(*right, env),
        SqlExpr::UnaryOp { expr, .. } => expr_tables(*expr, env),
        SqlExpr::Nested(expr) => expr_tables(*expr, env),
        SqlExpr::Cast { expr, .. } => expr_tables(*expr, env),
        SqlExpr::Extract(expr) => expr_tables(*expr, env),
        SqlExpr::Case { conditions, else_result } => concat_all(case_tables(conditions@, env))
            + match else_result {
            Some(x) => expr_tables(*x, env),
            None => Seq::empty(),
        },
        SqlExpr::Function { arguments, .. } => match arguments {
            SqlFunctionArgs::List(args) => concat_all(args_tables(args@, env)),
            SqlFunctionArgs::Subquery(b) => body_tables(*b, env),
            SqlFunctionArgs::Absent => Seq::empty(),
        },
        _ => Seq::empty(),
    }
}

/// Tables read by each branch of a `CASE`: its condition's, then its result's.
pub open spec fn case_tables(cs: Seq<SqlCaseWhen>, env: CteTables) -> Seq<Seq<Seq<char>>>
    decreases cs,
{
    Seq::new(
        cs.len(),
        |i: int|
            if 0 <= i < cs.len() {
                expr_tables(cs[i].condition, env) + expr_tables(cs[i].result, env)
            } else {
                Seq::empty()
            },
    )
}

/// Tables read by each function argument.
pub open spec fn args_tables(args: Seq<Option<SqlExpr>>, env: CteTables) -> Seq<Seq<Seq<char>>>
    decreases args,
{
    Seq::new(
        args.len(),
        |i: int|
            if 0 <= i < args.len() {
                match args[i] {
                    Some(a) => expr_tables(a, env),
                    None => Seq::empty(),
                }
            } else {
                Seq::empty()
            },
    )
}

/// Tables read by a query body: those of its `SELECT`, if it is one.
pub open spec fn body_tables(q: SqlSetExpr, env: CteTables) -> Seq<Seq<char>>
    decreases q,
{
    match q {
        SqlSetExpr::Select(s) => select_tables(*s, env),
        _ => Seq::empty(),
    }
}

/// Tables read by a `SELECT`: the relation of its first `FROM` item and the
/// relations that item joins (later items are not read), then those of its
/// `WHERE` condition.
pub open spec fn select_tables(s: SqlSelect, env: CteTables) -> Seq<Seq<char>>
    decreases s,
{
    (if s.from@.len() > 0 {
        relation_tables(s.from@[0].relation, env) + concat_all(joins_tables(s.from@[0].joins@, env))
    } else {
        Seq::empty()
    }) + match s.selection {
        Some(e) => expr_tables(e, env),
        None => Seq::empty(),
    }
}

/// Tables read by each joined relation.
pub open spec fn joins_tables(js: Seq<SqlTableFactor>, env: CteTables) -> Seq<Seq<Seq<char>>>
    decreases js,
{
    Seq::new(
        js.len(),
        |i: int|
            if 0 <= i < js.len() {
                relation_tables(js[i], env)
            } else {
                Seq::empty()
            },
    )
}

/// Tables a `FROM` relation reads. A table that names a `WITH` table of the
/// query reads what that table reads.
pub open spec fn relation_tables(t: SqlTableFactor, env: CteTables) -> Seq<Seq<char>>
    decreases t,
{
    match t {
        SqlTableFactor::Table(n) => match cte_lookup(env, n@) {
            Some(ts) => ts,
            None => seq![n@],
        },
        SqlTableFactor::Derived(b) => body_tables(*b, env),
        SqlTableFactor::Function(n) => seq![n@],
        SqlTableFactor::TableFunction(x) => seq!["TABLE("@ + x@ + ")"@],
        SqlTableFactor::Unnest => seq!["unnest"@],
        SqlTableFactor::JsonTable => seq!["json_table"@],
        SqlTableFactor::Other => seq!["subquery"@],
    }
}

} // verus!

verus! {

fn push_str_vec(out: &mut Vec<String>, s: String)
    ensures
        strings_view(final(out)@) == strings_view(old(out)@).push(s@),
{
    out.push(s);
    assert(strings_view(out@) =~= strings_view(old(out)@).push(s@));
}

/// Appends each of `ts`.
fn push_strings(out: &mut Vec<String>, ts: &Vec<String>)
    ensures
        strings_view(final(out)@) == strings_view(old(out)@) + strings_view(ts@),
{
    let ghost start = strings_view(out@);
    let mut i: usize = 0;
    while i < ts.len()
        invariant
            i <= ts.len(),
            strings_view(out@) == start + strings_view(ts@).take(i as int),
        decreases ts.len() - i,
    {
        push_str_vec(out, ts[i].clone());
        assert(strings_view(ts@).take(i + 1) =~= strings_view(ts@).take(i as int).push(ts@[i as int]@));
        i += 1;
    }
    assert(strings_view(ts@).take(ts.len() as int) =~= strings_view(ts@));
}

/// What the `WITH` table named `n` reads, by the latest entry of that name.
fn cte_tables_of<'a>(env: &'a Vec<(String, Vec<String>)>, n: &str) -> (r: Option<&'a Vec<String>>)
    ensures
        match r {
            Some(ts) => cte_lookup(cte_tables_view(env@), n@) == Some(strings_view(ts@)),
            None => cte_lookup(cte_tables_view(env@), n@) is None,
        },
{
    let ghost ev = cte_tables_view(env@);
    let mut i: usize = env.len();
    assert(ev.take(i as int) =~= ev);
    while i > 0
        invariant
            i <= env.len(),
            ev == cte_tables_view(env@),
            cte_lookup(ev, n@) == cte_lookup(ev.take(i as int), n@),
        decreases i,
    {
        assert(ev.take(i as int).drop_last() =~= ev.take(i - 1));
        if crate::json::str_eq(env[i - 1].0.as_str(), n) {
            return Some(&env[i - 1].1);
        }
        i -= 1;
    }
    None
}

/// Appends the tables read by the subqueries of an expression.
#[verifier::loop_isolation(false)]
pub fn expr_tables_into(e: &SqlExpr, env: &Vec<(String, Vec<String>)>, out: &mut Vec<String>)
    ensures
        strings_view(final(out)@) == strings_view(old(out)@) + expr_tables(*e, cte_tables_view(env@)),
    decreases e,
{
    let ghost start = strings_view(out@);
    match e {
        SqlExpr::Subquery(b) => body_tables_into(b, env, out),
        SqlExpr::InSubquery(b) => body_tables_into(b, env, out),
        SqlExpr::Exists(b) => body_tables_into(b, env, out),
        SqlExpr::BinaryOp { left, right, .. } => {
            expr_tables_into(left, env, out);
            expr_tables_into(right, env, out);
            assert(strings_view(out@) =~= start + expr_tables(*e, cte_tables_view(env@)));
        },
        SqlExpr::UnaryOp { expr, .. } => expr_tables_into(expr, env, out),
        SqlExpr::Nested(expr) => expr_tables_into(expr, env, out),
        SqlExpr::Cast { expr, .. } => expr_tables_into(expr, env, out),
        SqlExpr::Extract(expr) => expr_tables_into(expr, env, out),
        SqlExpr::Case { conditions, else_result } => {
            let ghost parts = case_tables(conditions@, cte_tables_view(env@));
            let mut i: usize = 0;
            while i < conditions.len()
                invariant
                    i <= conditions.len(),
                    parts == case_tables(conditions@, cte_tables_view(env@)),
                    strings_view(out@) == start + concat_all(parts.take(i as int)),
                decreases conditions.len() - i,
            {
                expr_tables_into(&conditions[i].condition, env, out);
                expr_tables_into(&conditions[i].result, env, out);
                assert(parts.take(i + 1).drop_last() =~= parts.take(i as int));
                assert(strings_view(out@) =~= start + concat_all(parts.take(i + 1)));
                i += 1;
            }
            assert(parts.take(conditions.len() as int) =~= parts);
            match else_result {
                Some(x) => expr_tables_into(x, env, out),
                None => {},
            }
            assert(strings_view(out@) =~= start + expr_tables(*e, cte_tables_view(env@)));
        },
        SqlExpr::Function { arguments, .. } => match arguments {
            SqlFunctionArgs::List(args) => {
                let ghost parts = args_tables(args@, cte_tables_view(env@));
                let mut i: usize = 0;
                while i < args.len()
                    invariant
                        i <= args.len(),
                        parts == args_tables(args@, cte_tables_view(env@)),
                        strings_view(out@) == start + concat_all(parts.take(i as int)),
                    decreases args.len() - i,
                {
                    match &args[i] {
                        Some(a) => expr_tables_into(a, env, out),
                        None => {},
                    }
                    assert(parts.take(i + 1).drop_last() =~= parts.take(i as int));
                    assert(strings_view(out@) =~= start + concat_all(parts.take(i + 1)));
                    i += 1;
                }
                assert(parts.take(args.len() as int) =~= parts);
            },
            SqlFunctionArgs::Subquery(b) => body_tables_into(b, env, out),
            SqlFunctionArgs::Absent => {
                assert(strings_view(out@) =~= start + expr_tables(*e, cte_tables_view(env@)));
            },
        },
        _ => {
            assert(strings_view(out@) =~= start + expr_tables(*e, cte_tables_view(env@)));
        },
    }
}

/// Appends the tables read by a query body.
pub fn body_tables_into(q: &SqlSetExpr, env: &Vec<(String, Vec<String>)>, out: &mut Vec<String>)
    ensures
        strings_view(final(out)@) == strings_view(old(out)@) + body_tables(*q, cte_tables_view(env@)),
    decreases q,
{
    match q {
        SqlSetExpr::Select(s) => select_tables_into(s, env, out),
        _ => {
            assert(strings_view(out@) =~= strings_view(old(out)@) + body_tables(*q, cte_tables_view(env@)));
        },
    }
}

/// Appends the tables read by a `SELECT`.
#[verifier::loop_isolation(false)]
pub fn select_tables_into(s: &SqlSelect, env: &Vec<(String, Vec<String>)>, out: &mut Vec<String>)
    ensures
        strings_view(final(out)@) == strings_view(old(out)@) + select_tables(*s, cte_tables_view(env@)),
    decreases s,
{
    let ghost start = strings_view(out@);
    if s.from.len() > 0 {
        let f = &s.from[0];
        {
            relation_tables_into(&f.relation, env, out);
            let ghost parts = joins_tables(f.joins@, cte_tables_view(env@));
            let ghost mid = strings_view(out@);
            let mut i: usize = 0;
            while i < f.joins.len()
                invariant
                    i <= f.joins.len(),
                    parts == joins_tables(f.joins@, cte_tables_view(env@)),
                    strings_view(out@) == mid + concat_all(parts.take(i as int)),
                decreases f.joins.len() - i,
            {
                relation_tables_into(&f.joins[i], env, out);
                assert(parts.take(i + 1).drop_last() =~= parts.take(i as int));
                assert(strings_view(out@) =~= mid + concat_all(parts.take(i + 1)));
                i += 1;
            }
            assert(parts.take(f.joins.len() as int) =~= parts);
        }
    }
    match &s.selection {
        Some(e) => expr_tables_into(e, env, out),
        None => {},
    }
    assert(strings_view(out@) =~= start + select_tables(*s, cte_tables_view(env@)));
}

/// Appends the tables a `FROM` relation reads.
pub fn relation_tables_into(t: &SqlTableFactor, env: &Vec<(String, Vec<String>)>, out: &mut Vec<String>)
    ensures
        strings_view(final(out)@) == strings_view(old(out)@) + relation_tables(*t, cte_tables_view(env@)),
    decreases t,
{
    let ghost start = strings_view(out@);
    match t {
        SqlTableFactor::Table(n) => match cte_tables_of(env, n.as_str()) {
            Some(ts) => push_strings(out, ts),
            None => push_str_vec(out, n.clone()),
        },
        SqlTableFactor::Derived(b) => body_tables_into(b, env, out),
        SqlTableFactor::Function(n) => push_str_vec(out, n.clone()),
        SqlTableFactor::TableFunction(x) => {
            let s = cat3(&chars_of("TABLE("), &chars_of(x.as_str()), &chars_of(")"));
            push_str_vec(out, string_of(&s));
        },
        SqlTableFactor::Unnest => push_str_vec(out, String::from_str("unnest")),
        SqlTableFactor::JsonTable => push_str_vec(out, String::from_str("json_table")),
        SqlTableFactor::Other => push_str_vec(out, String::from_str("subquery")),
    }
    assert(strings_view(out@) =~= start + relation_tables(*t, cte_tables_view(env@)));
}

} // verus!

verus! {

/// How an input field becomes part of an output column.
#[derive(Clone, Debug)]
pub struct Transformation {
    pub trans_type: String,
    pub subtype: String,
    pub description: Option<String>,
    pub masking: Option<bool>,
}

/// A field of an input dataset that an output column reads.
#[derive(Clone, Debug)]
pub struct InputField {
    pub dataset: String,
    pub field: String,
    pub transformations: Vec<Transformation>,
}

/// Where an output column comes from.
#[derive(Clone, Debug)]
pub struct ColumnLineage {
    pub input_fields: Vec<InputField>,
    pub transformation_type: String,
    pub transformation_subtype: String,
}

/// The mathematical form of a [`Transformation`].
pub struct TransformationV {
    pub trans_type: Seq<char>,
    pub subtype: Seq<char>,
    pub description: Option<Seq<char>>,
    pub masking: Option<bool>,
}

/// The mathematical form of an [`InputField`].
pub struct InputFieldV {
    pub dataset: Seq<char>,
    pub field: Seq<char>,
    pub transformations: Seq<TransformationV>,
}

/// The mathematical form of a [`ColumnLineage`].
pub struct ColumnLineageV {
    pub input_fields: Seq<InputFieldV>,
    pub transformation_type: Seq<char>,
    pub transformation_subtype: Seq<char>,
}

impl View for Transformation {
    type V = TransformationV;

    open spec fn view(&self) -> TransformationV {
        TransformationV {
            trans_type: self.trans_type@,
            subtype: self.subtype@,
            description: crate::project::opt_view(self.description),
            masking: self.masking,
        }
    }
}

pub open spec fn transformations_view(v: Seq<Transformation>) -> Seq<TransformationV> {
    v.map_values(|t: Transformation| t@)
}

impl View for InputField {
    type V = InputFieldV;

    open spec fn view(&self) -> InputFieldV {
        InputFieldV {
            dataset: self.dataset@,
            field: self.field@,
            transformations: transformations_view(self.transformations@),
        }
    }
}

pub open spec fn fields_view(v: Seq<InputField>) -> Seq<InputFieldV> {
    v.map_values(|f: InputField| f@)
}

impl View for ColumnLineage {
    type V = ColumnLineageV;

    open spec fn view(&self) -> ColumnLineageV {
        ColumnLineageV {
            input_fields: fields_view(self.input_fields@),
            transformation_type: self.transformation_type@,
            transformation_subtype: self.transformation_subtype@,
        }
    }
}

/// A `DIRECT` transformation.
pub open spec fn direct(subtype: Seq<char>, description: Option<Seq<char>>) -> TransformationV {
    TransformationV { trans_type: "DIRECT"@, subtype, description, masking: None }
}

/// The field `field` of every input dataset, each with the one transformation `t`.
pub open spec fn fields_from(inputs: Seq<Seq<char>>, field: Seq<char>, t: TransformationV) -> Seq<
    InputFieldV,
> {
    inputs.map_values(|ds: Seq<char>| InputFieldV { dataset: ds, field, transformations: seq![t] })
}

/// A `DIRECT` lineage with the given fields and subtype.
pub open spec fn lineage_of(fields: Seq<InputFieldV>, subtype: Seq<char>) -> ColumnLineageV {
    ColumnLineageV { input_fields: fields, transformation_type: "DIRECT"@, transformation_subtype: subtype }
}

/// The field a dotted name reads: its first part, a dot, its last part.
pub open spec fn compound_field(parts: Seq<Seq<char>>) -> Seq<char> {
    if parts.len() == 0 {
        "."@
    } else {
        parts[0] + "."@ + parts.last()
    }
}

/// `c.to_uppercase()` is the single character `t`, an ASCII capital letter.
/// Besides `t` itself and its lower-case form, only U+0131 (dotless i, to `I`)
/// and U+017F (long s, to `S`) have an ASCII capital as their upper case;
/// characters whose upper case has several characters never give a single one.
pub open spec fn upper_char_is(c: char, t: char) -> bool {
    ||| c == t
    ||| c as u32 == t as u32 + 32
    ||| t == 'I' && c == '\u{131}'
    ||| t == 'S' && c == '\u{17F}'
}

/// `name.to_uppercase()` is `target`, a word of ASCII capitals in which no
/// two letters that a multi-character upper case produces (`SS`, `FF`, `FI`,
/// `FL`, `ST`) stand together.
pub open spec fn upper_is(name: Seq<char>, target: Seq<char>) -> bool {
    name.len() == target.len() && forall|i: int|
        0 <= i < name.len() ==> upper_char_is(#[trigger] name[i], target[i])
}

/// A function name that, in upper case, is `COUNT`, `SUM`, `AVG`, `MIN` or `MAX`.
pub open spec fn is_aggregate_name(name: Seq<char>) -> bool {
    ||| upper_is(name, "COUNT"@)
    ||| upper_is(name, "SUM"@)
    ||| upper_is(name, "AVG"@)
    ||| upper_is(name, "MIN"@)
    ||| upper_is(name, "MAX"@)
}

/// The lineage of an expression, read against the input datasets gathered so far.
pub open spec fn expr_lineage(e: SqlExpr, inputs: Seq<Seq<char>>) -> ColumnLineageV
    decreases e,
{
    match e {
        SqlExpr::Identifier(v) => lineage_of(
            fields_from(inputs, v@, direct("IDENTITY"@, None)),
            "IDENTITY"@,
        ),
        SqlExpr::CompoundIdentifier(parts) => lineage_of(
            fields_from(inputs, compound_field(strings_view(parts@)), direct("IDENTITY"@, None)),
            "IDENTITY"@,
        ),
        SqlExpr::BinaryOp { left, right, .. } => lineage_of(
            expr_lineage(*left, inputs).input_fields + expr_lineage(*right, inputs).input_fields,
            "TRANSFORMATION"@,
        ),
        SqlExpr::UnaryOp { expr, .. } => expr_lineage(*expr, inputs),
        SqlExpr::Nested(x) => expr_lineage(*x, inputs),
        SqlExpr::Function { name, arguments } => lineage_of(
            match arguments {
                SqlFunctionArgs::List(args) => concat_all(args_fields(args@, inputs)),
                SqlFunctionArgs::Subquery(_) => fields_from(
                    inputs,
                    "subquery"@,
                    direct("TRANSFORMATION"@, Some("subquery function argument"@)),
                ),
                SqlFunctionArgs::Absent => Seq::empty(),
            },
            if is_aggregate_name(name@) {
                "AGGREGATION"@
            } else {
                "TRANSFORMATION"@
            },
        ),
        SqlExpr::Cast { expr, .. } => lineage_of(
            expr_lineage(*expr, inputs).input_fields,
            "TRANSFORMATION"@,
        ),
        SqlExpr::Case { conditions, else_result } => lineage_of(
            concat_all(case_fields(conditions@, inputs)) + match else_result {
                Some(x) => expr_lineage(*x, inputs).input_fields,
                None => Seq::empty(),
            },
            "CONDITIONAL"@,
        ),
        SqlExpr::Subquery(_) => lineage_of(
            fields_from(inputs, "*"@, direct("TRANSFORMATION"@, Some("subquery"@))),
            "TRANSFORMATION"@,
        ),
        SqlExpr::Exists(_) => lineage_of(
            fields_from(inputs, "*"@, direct("TRANSFORMATION"@, Some("subquery"@))),
            "TRANSFORMATION"@,
        ),
        SqlExpr::Value(_) => lineage_of(Seq::empty(), "IDENTITY"@),
        _ => lineage_of(
            fields_from(inputs, "*"@, direct("TRANSFORMATION"@, None)),
            "TRANSFORMATION"@,
        ),
    }
}

/// The input fields of each function argument.
pub open spec fn args_fields(args: Seq<Option<SqlExpr>>, inputs: Seq<Seq<char>>) -> Seq<
    Seq<InputFieldV>,
>
    decreases args,
{
    Seq::new(
        args.len(),
        |i: int|
            if 0 <= i < args.len() {
                match args[i] {
                    Some(a) => expr_lineage(a, inputs).input_fields,
                    None => Seq::empty(),
                }
            } else {
                Seq::empty()
            },
    )
}

/// The input fields of each branch of a `CASE`: its condition's, then its result's.
pub open spec fn case_fields(cs: Seq<SqlCaseWhen>, inputs: Seq<Seq<char>>) -> Seq<Seq<InputFieldV>>
    decreases cs,
{
    Seq::new(
        cs.len(),
        |i: int|
            if 0 <= i < cs.len() {
                expr_lineage(cs[i].condition, inputs).input_fields + expr_lineage(
                    cs[i].result,
                    inputs,
                ).input_fields
            } else {
                Seq::empty()
            },
    )
}

} // verus!

verus! {

/// A `DIRECT` transformation.
fn transformation(subtype: &str, description: Option<String>) -> (t: Transformation)
    ensures
        t@ == direct(subtype@, crate::project::opt_view(description)),
{
    Transformation {
        trans_type: String::from_str("DIRECT"),
        subtype: String::from_str(subtype),
        description,
        masking: None,
    }
}

/// Appends the field `field` of every input dataset, each with one `DIRECT`
/// transformation.
fn push_fields_from(
    out: &mut Vec<InputField>,
    inputs: &Vec<String>,
    field: &str,
    subtype: &str,
    description: Option<&str>,
)
    ensures
        fields_view(final(out)@) == fields_view(old(out)@) + fields_from(
            strings_view(inputs@),
            field@,
            direct(
                subtype@,
                match description {
                    Some(d) => Some(d@),
                    None => None,
                },
            ),
        ),
{
    let ghost start = fields_view(out@);
    let ghost t = direct(
        subtype@,
        match description {
            Some(d) => Some(d@),
            None => None,
        },
    );
    let ghost all = fields_from(strings_view(inputs@), field@, t);
    let mut i: usize = 0;
    while i < inputs.len()
        invariant
            i <= inputs.len(),
            all == fields_from(strings_view(inputs@), field@, t),
            t == direct(
                subtype@,
                match description {
                    Some(d) => Some(d@),
                    None => None,
                },
            ),
            fields_view(out@) =~= start + all.take(i as int),
        decreases inputs.len() - i,
    {
        let desc = match description {
            Some(d) => Some(String::from_str(d)),
            None => None,
        };
        let tr = transformation(subtype, desc);
        let f = InputField {
            dataset: inputs[i].clone(),
            field: String::from_str(field),
            transformations: vec![tr],
        };
        assert(transformations_view(f.transformations@) =~= seq![t]);
        assert(f@ == all[i as int]);
        let ghost before = out@;
        let ghost fv = f@;
        out.push(f);
        assert(fields_view(out@) =~= fields_view(before).push(fv));
        assert(all.take(i + 1) =~= all.take(i as int).push(all[i as int]));
        i += 1;
    }
    assert(all.take(inputs.len() as int) =~= all);
}

fn upper_char_matches(c: char, t: char) -> (b: bool)
    requires
        'A' <= t <= 'Z',
    ensures
        b == upper_char_is(c, t),
{
    let lower = ((t as u32) + 32) as u32;
    c == t || (c as u32) == lower || (t == 'I' && c == '\u{131}') || (t == 'S' && c == '\u{17F}')
}

fn upper_matches(name: &Vec<char>, target: &str) -> (b: bool)
    requires
        forall|i: int| 0 <= i < target@.len() ==> 'A' <= #[trigger] target@[i] <= 'Z',
    ensures
        b == upper_is(name@, target@),
{
    let t = chars_of(target);
    if name.len() != t.len() {
        return false;
    }
    let mut i: usize = 0;
    while i < name.len()
        invariant
            i <= name.len(),
            name.len() == t.len(),
            t@ == target@,
            forall|k: int| 0 <= k < target@.len() ==> 'A' <= #[trigger] target@[k] <= 'Z',
            forall|k: int| 0 <= k < i ==> upper_char_is(#[trigger] name@[k], t@[k]),
        decreases name.len() - i,
    {
        assert('A' <= t@[i as int] <= 'Z');
        if !upper_char_matches(name[i], t[i]) {
            return false;
        }
        i += 1;
    }
    true
}

/// Whether a function name is, in upper case, one of the aggregates
/// `COUNT`, `SUM`, `AVG`, `MIN`, `MAX`.
pub fn is_aggregate(name: &str) -> (b: bool)
    ensures
        b == is_aggregate_name(name@),
{
    let n = chars_of(name);
    proof {
        reveal_strlit("COUNT");
        reveal_strlit("SUM");
        reveal_strlit("AVG");
        reveal_strlit("MIN");
        reveal_strlit("MAX");
    }
    upper_matches(&n, "COUNT") || upper_matches(&n, "SUM") || upper_matches(&n, "AVG")
        || upper_matches(&n, "MIN") || upper_matches(&n, "MAX")
}

} // verus!

verus! {

/// Appends the input fields of an expression's lineage.
#[verifier::loop_isolation(false)]
pub fn fields_into(e: &SqlExpr, inputs: &Vec<String>, out: &mut Vec<InputField>)
    ensures
        fields_view(final(out)@) == fields_view(old(out)@) + expr_lineage(
            *e,
            strings_view(inputs@),
        ).input_fields,
    decreases e,
{
    let ghost iv = strings_view(inputs@);
    let ghost start = fields_view(out@);
    match e {
        SqlExpr::Identifier(v) => push_fields_from(out, inputs, v.as_str(), "IDENTITY", None),
        SqlExpr::CompoundIdentifier(parts) => {
            let first = if parts.len() > 0 {
                chars_of(parts[0].as_str())
            } else {
                Vec::new()
            };
            let last = if parts.len() > 0 {
                chars_of(parts[parts.len() - 1].as_str())
            } else {
                Vec::new()
            };
            let f = string_of(&cat3(&first, &chars_of("."), &last));
            proof {
                reveal_strlit(".");
                if parts.len() == 0 {
                    assert(f@ =~= "."@);
                }
            }
            push_fields_from(out, inputs, f.as_str(), "IDENTITY", None);
        },
        SqlExpr::BinaryOp { left, right, .. } => {
            fields_into(left, inputs, out);
            fields_into(right, inputs, out);
            assert(fields_view(out@) =~= start + expr_lineage(*e, iv).input_fields);
        },
        SqlExpr::UnaryOp { expr, .. } => fields_into(expr, inputs, out),
        SqlExpr::Nested(x) => fields_into(x, inputs, out),
        SqlExpr::Function { arguments, .. } => match arguments {
            SqlFunctionArgs::List(args) => {
                let ghost parts = args_fields(args@, iv);
                let mut i: usize = 0;
                while i < args.len()
                    invariant
                        i <= args.len(),
                        fields_view(out@) == start + concat_all(parts.take(i as int)),
                    decreases args.len() - i,
                {
                    match &args[i] {
                        Some(a) => fields_into(a, inputs, out),
                        None => {},
                    }
                    assert(parts.take(i + 1).drop_last() =~= parts.take(i as int));
                    assert(fields_view(out@) =~= start + concat_all(parts.take(i + 1)));
                    i += 1;
                }
                assert(parts.take(args.len() as int) =~= parts);
            },
            SqlFunctionArgs::Subquery(_) => push_fields_from(
                out,
                inputs,
                "subquery",
                "TRANSFORMATION",
                Some("subquery function argument"),
            ),
            SqlFunctionArgs::Absent => {
                assert(fields_view(out@) =~= start + expr_lineage(*e, iv).input_fields);
            },
        },
        SqlExpr::Cast { expr, .. } => fields_into(expr, inputs, out),
        SqlExpr::Case { conditions, else_result } => {
            let ghost parts = case_fields(conditions@, iv);
            let mut i: usize = 0;
            while i < conditions.len()
                invariant
                    i <= conditions.len(),
                    fields_view(out@) == start + concat_all(parts.take(i as int)),
                decreases conditions.len() - i,
            {
                fields_into(&conditions[i].condition, inputs, out);
                fields_into(&conditions[i].result, inputs, out);
                assert(parts.take(i + 1).drop_last() =~= parts.take(i as int));
                assert(fields_view(out@) =~= start + concat_all(parts.take(i + 1)));
                i += 1;
            }
            assert(parts.take(conditions.len() as int) =~= parts);
            match else_result {
                Some(x) => fields_into(x, inputs, out),
                None => {},
            }
            assert(fields_view(out@) =~= start + expr_lineage(*e, iv).input_fields);
        },
        SqlExpr::Subquery(_) => push_fields_from(out, inputs, "*", "TRANSFORMATION", Some("subquery")),
        SqlExpr::Exists(_) => push_fields_from(out, inputs, "*", "TRANSFORMATION", Some("subquery")),
        SqlExpr::Value(_) => {
            assert(fields_view(out@) =~= start + expr_lineage(*e, iv).input_fields);
        },
        _ => push_fields_from(out, inputs, "*", "TRANSFORMATION", None),
    }
}

/// The lineage of an expression, read against the input datasets gathered so far.
pub fn analyze_expression_lineage(e: &SqlExpr, inputs: &Vec<String>) -> (r: ColumnLineage)
    ensures
        r@ == expr_lineage(*e, strings_view(inputs@)),
    decreases e,
{
    match e {
        SqlExpr::UnaryOp { expr, .. } => analyze_expression_lineage(expr, inputs),
        SqlExpr::Nested(x) => analyze_expression_lineage(x, inputs),
        _ => {
            let mut fields: Vec<InputField> = Vec::new();
            assert(fields_view(fields@) =~= Seq::<InputFieldV>::empty());
            fields_into(e, inputs, &mut fields);
            assert(fields_view(fields@) =~= expr_lineage(*e, strings_view(inputs@)).input_fields);
            let subtype = match e {
                SqlExpr::Identifier(_) => "IDENTITY",
                SqlExpr::CompoundIdentifier(_) => "IDENTITY",
                SqlExpr::Function { name, .. } => if is_aggregate(name.as_str()) {
                    "AGGREGATION"
                } else {
                    "TRANSFORMATION"
                },
                SqlExpr::Case { .. } => "CONDITIONAL",
                SqlExpr::Value(_) => "IDENTITY",
                _ => "TRANSFORMATION",
            };
            ColumnLineage {
                input_fields: fields,
                transformation_type: String::from_str("DIRECT"),
                transformation_subtype: String::from_str(subtype),
            }
        },
    }
}

} // verus!

verus! {

/// The mathematical form of a column map: each column name once, in the order
/// the columns were first seen.
pub open spec fn columns_view(v: Seq<(String, ColumnLineage)>) -> Seq<(Seq<char>, ColumnLineageV)> {
    Seq::new(v.len(), |i: int| (v[i].0@, v[i].1@))
}

/// The condition "is the entry for column `k`".
pub open spec fn column_is(k: Seq<char>) -> spec_fn((Seq<char>, ColumnLineageV)) -> bool {
    |e: (Seq<char>, ColumnLineageV)| e.0 == k
}

/// The columns after setting column `k` to `v`, as a map does.
pub open spec fn column_insert(
    m: Seq<(Seq<char>, ColumnLineageV)>,
    k: Seq<char>,
    v: ColumnLineageV,
) -> Seq<(Seq<char>, ColumnLineageV)> {
    match first_where(m, column_is(k)) {
        Some(i) => m.update(i, (k, v)),
        None => m.push((k, v)),
    }
}

/// The lineage of a column kept by `SELECT * EXCEPT (...)`: the column of the
/// last input dataset, when there is one.
pub open spec fn except_lineage(inputs: Seq<Seq<char>>, col: Seq<char>) -> ColumnLineageV {
    if inputs.len() > 0 {
        lineage_of(
            seq![
                InputFieldV {
                    dataset: inputs.last(),
                    field: col,
                    transformations: seq![direct("IDENTITY"@, Some("wildcard select (except)"@))],
                },
            ],
            "IDENTITY"@,
        )
    } else {
        lineage_of(Seq::empty(), "IDENTITY"@)
    }
}

/// The columns after recording the first `n` columns of an `EXCEPT` list.
pub open spec fn except_effect(
    names: Seq<Seq<char>>,
    n: int,
    inputs: Seq<Seq<char>>,
    cols: Seq<(Seq<char>, ColumnLineageV)>,
) -> Seq<(Seq<char>, ColumnLineageV)>
    decreases n,
{
    if n <= 0 || n > names.len() {
        cols
    } else {
        column_insert(
            except_effect(names, n - 1, inputs, cols),
            names[n - 1],
            except_lineage(inputs, names[n - 1]),
        )
    }
}

/// The lineage of `q.*`: the field `q.*` of the last input dataset.
pub open spec fn qualified_lineage(inputs: Seq<Seq<char>>, c: Seq<char>) -> ColumnLineageV {
    lineage_of(
        seq![
            InputFieldV {
                dataset: inputs.last(),
                field: c,
                transformations: seq![direct("IDENTITY"@, Some("qualified wildcard"@))],
            },
        ],
        "IDENTITY"@,
    )
}

/// The columns after recording one `SELECT` item.
pub open spec fn item_effect(
    item: SqlSelectItem,
    inputs: Seq<Seq<char>>,
    cols: Seq<(Seq<char>, ColumnLineageV)>,
) -> Seq<(Seq<char>, ColumnLineageV)> {
    match item {
        SqlSelectItem::UnnamedExpr(e) => column_insert(cols, expr_column_name(e), expr_lineage(e, inputs)),
        SqlSelectItem::ExprWithAlias { expr, alias } => column_insert(
            cols,
            alias@,
            expr_lineage(expr, inputs),
        ),
        SqlSelectItem::Wildcard { except } => match except {
            Some(names) => except_effect(
                strings_view(names@),
                names@.len() as int,
                inputs,
                cols,
            ),
            None => cols,
        },
        SqlSelectItem::QualifiedWildcard(q) => if inputs.len() > 0 {
            column_insert(cols, q@ + ".*"@, qualified_lineage(inputs, q@ + ".*"@))
        } else {
            cols
        },
        SqlSelectItem::Other => cols,
    }
}

/// The columns after recording the first `n` items of a `SELECT` list.
pub open spec fn items_effect(
    items: Seq<SqlSelectItem>,
    n: int,
    inputs: Seq<Seq<char>>,
    cols: Seq<(Seq<char>, ColumnLineageV)>,
) -> Seq<(Seq<char>, ColumnLineageV)>
    decreases n,
{
    if n <= 0 || n > items.len() {
        cols
    } else {
        item_effect(items[n - 1], inputs, items_effect(items, n - 1, inputs, cols))
    }
}

/// The input datasets and columns after analysing a query body: a `SELECT`
/// adds the tables it reads, then records its items against all inputs so
/// far; a set operation analyses its left side, then its right side.
pub open spec fn query_effect(
    q: SqlSetExpr,
    env: CteTables,
    inputs: Seq<Seq<char>>,
    cols: Seq<(Seq<char>, ColumnLineageV)>,
) -> (Seq<Seq<char>>, Seq<(Seq<char>, ColumnLineageV)>)
    decreases q,
{
    match q {
        SqlSetExpr::Select(s) => {
            let ins = inputs + select_tables(*s, env);
            (ins, items_effect(s.projection@, s.projection@.len() as int, ins, cols))
        },
        SqlSetExpr::SetOperation { left, right } => {
            let l = query_effect(*left, env, inputs, cols);
            query_effect(*right, env, l.0, l.1)
        },
        SqlSetExpr::Other => (inputs, cols),
    }
}

/// Sets column `k` to `v`, as a map does.
fn insert_column(cols: &mut Vec<(String, ColumnLineage)>, k: String, v: ColumnLineage)
    ensures
        columns_view(final(cols)@) == column_insert(columns_view(old(cols)@), k@, v@),
{
    let ghost c = columns_view(cols@);
    let ghost f = column_is(k@);
    let mut i: usize = 0;
    while i < cols.len()
        invariant
            i <= cols.len(),
            c == columns_view(cols@),
            c == columns_view(old(cols)@),
            f == column_is(k@),
            forall|j: int| 0 <= j < i ==> !f(#[trigger] c[j]),
        decreases cols.len() - i,
    {
        if crate::json::str_eq(cols[i].0.as_str(), k.as_str()) {
            proof {
                lemma_first_where_found(c, f, i as int);
            }
            let ghost kv = k@;
            let ghost vv = v@;
            cols.set(i, (k, v));
            assert(columns_view(cols@) =~= c.update(i as int, (kv, vv)));
            return;
        }
        i += 1;
    }
    proof {
        lemma_first_where_none(c, f);
    }
    let ghost kv = k@;
    let ghost vv = v@;
    cols.push((k, v));
    assert(columns_view(cols@) =~= c.push((kv, vv)));
}

fn single_field_lineage(dataset: &String, field: &Vec<char>, description: &str) -> (r: ColumnLineage)
    ensures
        r@ == lineage_of(
            seq![
                InputFieldV {
                    dataset: dataset@,
                    field: field@,
                    transformations: seq![direct("IDENTITY"@, Some(description@))],
                },
            ],
            "IDENTITY"@,
        ),
{
    let t = transformation("IDENTITY", Some(String::from_str(description)));
    let f = InputField { dataset: dataset.clone(), field: string_of(field), transformations: vec![t] };
    assert(transformations_view(f.transformations@) =~= seq![t@]);
    let r = ColumnLineage {
        input_fields: vec![f],
        transformation_type: String::from_str("DIRECT"),
        transformation_subtype: String::from_str("IDENTITY"),
    };
    assert(fields_view(r.input_fields@) =~= seq![f@]);
    r
}

/// Records one `SELECT` item.
fn record_item(item: &SqlSelectItem, inputs: &Vec<String>, cols: &mut Vec<(String, ColumnLineage)>)
    ensures
        columns_view(final(cols)@) == item_effect(
            *item,
            strings_view(inputs@),
            columns_view(old(cols)@),
        ),
{
    let ghost iv = strings_view(inputs@);
    match item {
        SqlSelectItem::UnnamedExpr(e) => {
            let name = string_of(&column_name(e));
            insert_column(cols, name, analyze_expression_lineage(e, inputs));
        },
        SqlSelectItem::ExprWithAlias { expr, alias } => {
            insert_column(cols, alias.clone(), analyze_expression_lineage(expr, inputs));
        },
        SqlSelectItem::Wildcard { except } => match except {
            Some(names) => {
                let ghost nv = strings_view(names@);
                let ghost base = columns_view(cols@);
                let mut i: usize = 0;
                while i < names.len()
                    invariant
                        i <= names.len(),
                        nv == strings_view(names@),
                        iv == strings_view(inputs@),
                        columns_view(cols@) == except_effect(nv, i as int, iv, base),
                    decreases names.len() - i,
                {
                    let col = chars_of(names[i].as_str());
                    let lineage = if inputs.len() > 0 {
                        single_field_lineage(&inputs[inputs.len() - 1], &col, "wildcard select (except)")
                    } else {
                        let r = ColumnLineage {
                            input_fields: Vec::new(),
                            transformation_type: String::from_str("DIRECT"),
                            transformation_subtype: String::from_str("IDENTITY"),
                        };
                        assert(fields_view(r.input_fields@) =~= Seq::<InputFieldV>::empty());
                        r
                    };
                    assert(lineage@ == except_lineage(iv, nv[i as int]));
                    insert_column(cols, names[i].clone(), lineage);
                    i += 1;
                }
            },
            None => {},
        },
        SqlSelectItem::QualifiedWildcard(q) => {
            if inputs.len() > 0 {
                let c = cat3(&chars_of(q.as_str()), &chars_of(".*"), &Vec::new());
                assert(c@ =~= q@ + ".*"@);
                let lineage = single_field_lineage(&inputs[inputs.len() - 1], &c, "qualified wildcard");
                insert_column(cols, string_of(&c), lineage);
            }
        },
        SqlSelectItem::Other => {},
    }
}

/// Analyses a query body: adds the tables it reads to the input datasets and
/// records the columns it selects.
pub fn analyze_query(
    q: &SqlSetExpr,
    env: &Vec<(String, Vec<String>)>,
    inputs: &mut Vec<String>,
    cols: &mut Vec<(String, ColumnLineage)>,
)
    ensures
        (strings_view(final(inputs)@), columns_view(final(cols)@)) == query_effect(
            *q,
            cte_tables_view(env@),
            strings_view(old(inputs)@),
            columns_view(old(cols)@),
        ),
    decreases q,
{
    match q {
        SqlSetExpr::Select(s) => {
            select_tables_into(s, env, inputs);
            let ghost iv = strings_view(inputs@);
            let ghost base = columns_view(cols@);
            let mut i: usize = 0;
            while i < s.projection.len()
                invariant
                    i <= s.projection.len(),
                    iv == strings_view(inputs@),
                    columns_view(cols@) == items_effect(s.projection@, i as int, iv, base),
                decreases s.projection.len() - i,
            {
                record_item(&s.projection[i], inputs, cols);
                i += 1;
            }
        },
        SqlSetExpr::SetOperation { left, right } => {
            analyze_query(left, env, inputs, cols);
            analyze_query(right, env, inputs, cols);
        },
        SqlSetExpr::Other => {},
    }
}

} // verus!

verus! {

/// The lineage of one model.
#[derive(Clone, Debug)]
pub struct ModelLineage {
    pub model_name: String,
    pub relation_name: String,
    /// Each output column once, with where it comes from.
    pub columns: Vec<(String, ColumnLineage)>,
    /// Every dataset read, in the order read, repeats included.
    pub input_datasets: Vec<String>,
    pub output_dataset: String,
}

/// The mathematical form of a [`ModelLineage`].
pub struct ModelLineageV {
    pub model_name: Seq<char>,
    pub relation_name: Seq<char>,
    pub columns: Seq<(Seq<char>, ColumnLineageV)>,
    pub input_datasets: Seq<Seq<char>>,
    pub output_dataset: Seq<char>,
}

impl View for ModelLineage {
    type V = ModelLineageV;

    open spec fn view(&self) -> ModelLineageV {
        ModelLineageV {
            model_name: self.model_name@,
            relation_name: self.relation_name@,
            columns: columns_view(self.columns@),
            input_datasets: strings_view(self.input_datasets@),
            output_dataset: self.output_dataset@,
        }
    }
}

/// The lineage of every model of a project.
#[derive(Clone, Debug)]
pub struct LineageResult {
    pub models: Vec<ModelLineage>,
}

impl LineageResult {
    pub fn new() -> (r: LineageResult)
        ensures
            r.models@ == Seq::<ModelLineage>::empty(),
    {
        LineageResult { models: Vec::new() }
    }
}

/// What the first `n` tables of a `WITH` clause read, each read against the
/// tables defined before it.
pub open spec fn cte_env(ctes: Seq<SqlCte>, n: int) -> CteTables
    decreases n,
{
    if n <= 0 || n > ctes.len() {
        Seq::empty()
    } else {
        let e = cte_env(ctes, n - 1);
        e.push((ctes[n - 1].name@, body_tables(ctes[n - 1].body, e)))
    }
}

/// What each table of a `WITH` clause reads.
pub fn cte_tables(ctes: &Vec<SqlCte>) -> (env: Vec<(String, Vec<String>)>)
    ensures
        cte_tables_view(env@) == cte_env(ctes@, ctes@.len() as int),
{
    let mut env: Vec<(String, Vec<String>)> = Vec::new();
    let mut i: usize = 0;
    assert(cte_tables_view(env@) =~= cte_env(ctes@, 0));
    while i < ctes.len()
        invariant
            i <= ctes.len(),
            cte_tables_view(env@) == cte_env(ctes@, i as int),
        decreases ctes.len() - i,
    {
        let mut ts: Vec<String> = Vec::new();
        assert(strings_view(ts@) =~= Seq::<Seq<char>>::empty());
        body_tables_into(&ctes[i].body, &env, &mut ts);
        let ghost before = cte_tables_view(env@);
        let ghost entry = (ctes@[i as int].name@, strings_view(ts@));
        env.push((ctes[i].name.clone(), ts));
        assert(cte_tables_view(env@) =~= before.push(entry));
        i += 1;
    }
    env
}

/// The input datasets and columns after analysing the first `n` statements:
/// queries and `CREATE TABLE ... AS` queries are analysed, other statements
/// are passed over.
pub open spec fn statements_effect(stmts: Seq<SqlStatement>, n: int) -> (
    Seq<Seq<char>>,
    Seq<(Seq<char>, ColumnLineageV)>,
)
    decreases n,
{
    if n <= 0 || n > stmts.len() {
        (Seq::empty(), Seq::empty())
    } else {
        let prev = statements_effect(stmts, n - 1);
        match stmts[n - 1] {
            SqlStatement::Query(q) => query_effect(q.body, cte_env(q.ctes@, q.ctes@.len() as int), prev.0, prev.1),
            SqlStatement::CreateTable(Some(q)) => query_effect(
                q.body,
                cte_env(q.ctes@, q.ctes@.len() as int),
                prev.0,
                prev.1,
            ),
            _ => prev,
        }
    }
}

/// The lineage of a model whose compiled SQL holds the given statements.
pub open spec fn model_lineage_spec(p: Project, m: Model, stmts: Seq<SqlStatement>) -> ModelLineageV {
    let e = statements_effect(stmts, stmts.len() as int);
    ModelLineageV {
        model_name: m.name@,
        relation_name: p.relation_spec(m),
        columns: e.1,
        input_datasets: e.0,
        output_dataset: p.relation_spec(m),
    }
}

/// The lineage of a model whose compiled SQL holds the given statements.
pub fn lineage_of_statements(project: &Project, model: &Model, stmts: &Vec<SqlStatement>) -> (r:
    ModelLineage)
    requires
        project.has_target(),
    ensures
        r@ == model_lineage_spec(*project, *model, stmts@),
{
    let relation_name = project.relation_name(model);
    let mut inputs: Vec<String> = Vec::new();
    let mut cols: Vec<(String, ColumnLineage)> = Vec::new();
    assert(strings_view(inputs@) =~= Seq::<Seq<char>>::empty());
    assert(columns_view(cols@) =~= Seq::<(Seq<char>, ColumnLineageV)>::empty());
    let mut i: usize = 0;
    while i < stmts.len()
        invariant
            i <= stmts.len(),
            (strings_view(inputs@), columns_view(cols@)) == statements_effect(stmts@, i as int),
        decreases stmts.len() - i,
    {
        match &stmts[i] {
            SqlStatement::Query(q) => analyze_query(&q.body, &cte_tables(&q.ctes), &mut inputs, &mut cols),
            SqlStatement::CreateTable(Some(q)) => analyze_query(
                &q.body,
                &cte_tables(&q.ctes),
                &mut inputs,
                &mut cols,
            ),
            _ => {},
        }
        i += 1;
    }
    ModelLineage {
        model_name: model.name.clone(),
        relation_name: relation_name.clone(),
        columns: cols,
        input_datasets: inputs,
        output_dataset: relation_name,
    }
}

} // verus!

verus! {

/// Why a model's lineage could not be worked out.
#[derive(Debug)]
pub enum LineageError {
    /// The compiled SQL does not parse; the parser's report.
    Parse { model: String, message: String },
}

pub open spec fn lineage_error_text(e: LineageError) -> Seq<char> {
    match e {
        LineageError::Parse { model, message } => "SQL parse error for '"@ + model@ + "': "@ + message@,
    }
}

impl LineageError {
    /// The error's text.
    pub fn message(&self) -> (r: String)
        ensures
            r@ == lineage_error_text(*self),
    {
        match self {
            LineageError::Parse { model, message } => {
                let a = cat3(&chars_of("SQL parse error for '"), &chars_of(model.as_str()), &chars_of("': "));
                string_of(&cat3(&a, &chars_of(message.as_str()), &Vec::new()))
            },
        }
    }
}

/// The lineage of a model from its compiled SQL.
pub fn analyze_model_lineage(project: &Project, model: &Model, compiled_sql: &str) -> (r: Result<
    ModelLineage,
    LineageError,
>)
    requires
        project.has_target(),
    ensures
        match sql_parsed(compiled_sql@) {
            Some(stmts) => r matches Ok(l) && l@ == model_lineage_spec(*project, *model, stmts),
            None => r matches Err(LineageError::Parse { model: n, .. }) && n@ == model.name@,
        },
{
    match parse_statements(compiled_sql) {
        Ok(stmts) => Ok(lineage_of_statements(project, model, &stmts)),
        Err(SqlError::Parse(message)) => Err(LineageError::Parse { model: model.name.clone(), message }),
    }
}

} // verus!

verus! {

/// Every field reads one of the datasets `inputs`.
pub open spec fn fields_within(fields: Seq<InputFieldV>, inputs: Seq<Seq<char>>) -> bool {
    forall|i: int| 0 <= i < fields.len() ==> inputs.contains(#[trigger] fields[i].dataset)
}

/// Every column reads only datasets of `inputs`.
pub open spec fn columns_within(cols: Seq<(Seq<char>, ColumnLineageV)>, inputs: Seq<Seq<char>>) -> bool {
    forall|i: int| 0 <= i < cols.len() ==> fields_within(#[trigger] cols[i].1.input_fields, inputs)
}

proof fn lemma_fields_from_within(inputs: Seq<Seq<char>>, field: Seq<char>, t: TransformationV)
    ensures
        fields_within(fields_from(inputs, field, t), inputs),
{
    let f = fields_from(inputs, field, t);
    assert forall|i: int| 0 <= i < f.len() implies inputs.contains(#[trigger] f[i].dataset) by {
        assert(f[i].dataset == inputs[i]);
    }
}

proof fn lemma_concat_within(parts: Seq<Seq<InputFieldV>>, inputs: Seq<Seq<char>>)
    requires
        forall|i: int| 0 <= i < parts.len() ==> fields_within(#[trigger] parts[i], inputs),
    ensures
        fields_within(concat_all(parts), inputs),
    decreases parts.len(),
{
    if parts.len() > 0 {
        lemma_concat_within(parts.drop_last(), inputs);
        let a = concat_all(parts.drop_last());
        let b = parts.last();
        assert(fields_within(b, inputs));
        assert forall|i: int| 0 <= i < (a + b).len() implies inputs.contains(#[trigger] (a + b)[i].dataset) by {
            if i < a.len() {
                assert((a + b)[i] == a[i]);
            } else {
                assert((a + b)[i] == b[i - a.len()]);
            }
        }
    }
}

proof fn lemma_append_within(a: Seq<InputFieldV>, b: Seq<InputFieldV>, inputs: Seq<Seq<char>>)
    requires
        fields_within(a, inputs),
        fields_within(b, inputs),
    ensures
        fields_within(a + b, inputs),
{
    assert forall|i: int| 0 <= i < (a + b).len() implies inputs.contains(#[trigger] (a + b)[i].dataset) by {
        if i < a.len() {
            assert((a + b)[i] == a[i]);
        } else {
            assert((a + b)[i] == b[i - a.len()]);
        }
    }
}

/// An expression's lineage reads only the datasets it is read against.
pub proof fn lemma_expr_lineage_within(e: SqlExpr, inputs: Seq<Seq<char>>)
    ensures
        fields_within(expr_lineage(e, inputs).input_fields, inputs),
    decreases e,
{
    match e {
        SqlExpr::Identifier(v) => lemma_fields_from_within(inputs, v@, direct("IDENTITY"@, None)),
        SqlExpr::CompoundIdentifier(parts) => lemma_fields_from_within(
            inputs,
            compound_field(strings_view(parts@)),
            direct("IDENTITY"@, None),
        ),
        SqlExpr::BinaryOp { left, right, .. } => {
            lemma_expr_lineage_within(*left, inputs);
            lemma_expr_lineage_within(*right, inputs);
            lemma_append_within(
                expr_lineage(*left, inputs).input_fields,
                expr_lineage(*right, inputs).input_fields,
                inputs,
            );
        },
        SqlExpr::UnaryOp { expr, .. } => lemma_expr_lineage_within(*expr, inputs),
        SqlExpr::Nested(x) => lemma_expr_lineage_within(*x, inputs),
        SqlExpr::Function { name, arguments } => match arguments {
            SqlFunctionArgs::List(args) => {
                let parts = args_fields(args@, inputs);
                assert forall|i: int| 0 <= i < parts.len() implies fields_within(#[trigger] parts[i], inputs) by {
                    match args@[i] {
                        Some(a) => {
                            assert(decreases_to!(e => arguments));
                            assert(decreases_to!(arguments => args));
                            assert(decreases_to!(args => args@)) by {
                                broadcast use vstd::std_specs::vec::group_vec_axioms;
                            }
                            assert(decreases_to!(args@ => args@[i]));
                            assert(decreases_to!(args@[i] => a));
                            lemma_expr_lineage_within(a, inputs);
                        },
                        None => {},
                    }
                }
                lemma_concat_within(parts, inputs);
            },
            SqlFunctionArgs::Subquery(_) => lemma_fields_from_within(
                inputs,
                "subquery"@,
                direct("TRANSFORMATION"@, Some("subquery function argument"@)),
            ),
            SqlFunctionArgs::Absent => {},
        },
        SqlExpr::Cast { expr, .. } => lemma_expr_lineage_within(*expr, inputs),
        SqlExpr::Case { conditions, else_result } => {
            let parts = case_fields(conditions@, inputs);
            assert forall|i: int| 0 <= i < parts.len() implies fields_within(#[trigger] parts[i], inputs) by {
                assert(decreases_to!(e => conditions));
                assert(decreases_to!(conditions => conditions@)) by {
                    broadcast use vstd::std_specs::vec::group_vec_axioms;
                }
                assert(decreases_to!(conditions@ => conditions@[i]));
                assert(decreases_to!(conditions@[i] => conditions@[i].condition));
                assert(decreases_to!(conditions@[i] => conditions@[i].result));
                lemma_expr_lineage_within(conditions@[i].condition, inputs);
                lemma_expr_lineage_within(conditions@[i].result, inputs);
                lemma_append_within(
                    expr_lineage(conditions@[i].condition, inputs).input_fields,
                    expr_lineage(conditions@[i].result, inputs).input_fields,
                    inputs,
                );
            }
            lemma_concat_within(parts, inputs);
            match else_result {
                Some(x) => {
                    lemma_expr_lineage_within(*x, inputs);
                    lemma_append_within(concat_all(parts), expr_lineage(*x, inputs).input_fields, inputs);
                },
                None => {
                    assert(concat_all(parts) + Seq::<InputFieldV>::empty() =~= concat_all(parts));
                },
            }
        },
        SqlExpr::Subquery(_) => lemma_fields_from_within(
            inputs,
            "*"@,
            direct("TRANSFORMATION"@, Some("subquery"@)),
        ),
        SqlExpr::Exists(_) => lemma_fields_from_within(
            inputs,
            "*"@,
            direct("TRANSFORMATION"@, Some("subquery"@)),
        ),
        SqlExpr::Value(_) => {},
        _ => lemma_fields_from_within(inputs, "*"@, direct("TRANSFORMATION"@, None)),
    }
}

} // verus!

verus! {

proof fn lemma_columns_grow(cols: Seq<(Seq<char>, ColumnLineageV)>, a: Seq<Seq<char>>, b: Seq<Seq<char>>)
    requires
        columns_within(cols, a),
        a.len() <= b.len(),
        b.subrange(0, a.len() as int) == a,
    ensures
        columns_within(cols, b),
{
    assert forall|i: int| 0 <= i < cols.len() implies fields_within(#[trigger] cols[i].1.input_fields, b) by {
        let f = cols[i].1.input_fields;
        assert(fields_within(f, a));
        assert forall|j: int| 0 <= j < f.len() implies b.contains(#[trigger] f[j].dataset) by {
            assert(a.contains(f[j].dataset));
            let k = choose|k: int| 0 <= k < a.len() && a[k] == f[j].dataset;
            assert(b[k] == a[k]);
        }
    }
}

proof fn lemma_column_insert_within(
    cols: Seq<(Seq<char>, ColumnLineageV)>,
    k: Seq<char>,
    v: ColumnLineageV,
    ins: Seq<Seq<char>>,
)
    requires
        columns_within(cols, ins),
        fields_within(v.input_fields, ins),
    ensures
        columns_within(column_insert(cols, k, v), ins),
{
    let r = column_insert(cols, k, v);
    crate::search::lemma_first_where(cols, column_is(k));
    match first_where(cols, column_is(k)) {
        Some(p) => {
            assert forall|i: int| 0 <= i < r.len() implies fields_within(#[trigger] r[i].1.input_fields, ins) by {
                if i != p {
                    assert(r[i] == cols[i]);
                }
            }
        },
        None => {
            assert forall|i: int| 0 <= i < r.len() implies fields_within(#[trigger] r[i].1.input_fields, ins) by {
                if i < cols.len() {
                    assert(r[i] == cols[i]);
                }
            }
        },
    }
}

proof fn lemma_single_within(ins: Seq<Seq<char>>, c: Seq<char>, t: TransformationV)
    requires
        ins.len() > 0,
    ensures
        fields_within(seq![InputFieldV { dataset: ins.last(), field: c, transformations: seq![t] }], ins),
{
    assert(ins[ins.len() - 1] == ins.last());
}

proof fn lemma_except_within(
    names: Seq<Seq<char>>,
    n: int,
    ins: Seq<Seq<char>>,
    cols: Seq<(Seq<char>, ColumnLineageV)>,
)
    requires
        columns_within(cols, ins),
    ensures
        columns_within(except_effect(names, n, ins, cols), ins),
    decreases n,
{
    if 0 < n <= names.len() {
        lemma_except_within(names, n - 1, ins, cols);
        if ins.len() > 0 {
            lemma_single_within(ins, names[n - 1], direct("IDENTITY"@, Some("wildcard select (except)"@)));
        }
        lemma_column_insert_within(
            except_effect(names, n - 1, ins, cols),
            names[n - 1],
            except_lineage(ins, names[n - 1]),
            ins,
        );
    }
}

proof fn lemma_items_within(
    items: Seq<SqlSelectItem>,
    n: int,
    ins: Seq<Seq<char>>,
    cols: Seq<(Seq<char>, ColumnLineageV)>,
)
    requires
        columns_within(cols, ins),
    ensures
        columns_within(items_effect(items, n, ins, cols), ins),
    decreases n,
{
    if 0 < n <= items.len() {
        lemma_items_within(items, n - 1, ins, cols);
        let prev = items_effect(items, n - 1, ins, cols);
        match items[n - 1] {
            SqlSelectItem::UnnamedExpr(e) => {
                lemma_expr_lineage_within(e, ins);
                lemma_column_insert_within(prev, expr_column_name(e), expr_lineage(e, ins), ins);
            },
            SqlSelectItem::ExprWithAlias { expr, alias } => {
                lemma_expr_lineage_within(expr, ins);
                lemma_column_insert_within(prev, alias@, expr_lineage(expr, ins), ins);
            },
            SqlSelectItem::Wildcard { except } => match except {
                Some(names) => lemma_except_within(strings_view(names@), names@.len() as int, ins, prev),
                None => {},
            },
            SqlSelectItem::QualifiedWildcard(q) => {
                if ins.len() > 0 {
                    lemma_single_within(ins, q@ + ".*"@, direct("IDENTITY"@, Some("qualified wildcard"@)));
                    lemma_column_insert_within(prev, q@ + ".*"@, qualified_lineage(ins, q@ + ".*"@), ins);
                }
            },
            SqlSelectItem::Other => {},
        }
    }
}

proof fn lemma_query_within(
    q: SqlSetExpr,
    env: CteTables,
    ins: Seq<Seq<char>>,
    cols: Seq<(Seq<char>, ColumnLineageV)>,
)
    requires
        columns_within(cols, ins),
    ensures
        ins.len() <= query_effect(q, env, ins, cols).0.len(),
        query_effect(q, env, ins, cols).0.subrange(0, ins.len() as int) == ins,
        columns_within(query_effect(q, env, ins, cols).1, query_effect(q, env, ins, cols).0),
    decreases q,
{
    match q {
        SqlSetExpr::Select(s) => {
            let ins2 = ins + select_tables(*s, env);
            assert(ins2.subrange(0, ins.len() as int) =~= ins);
            lemma_columns_grow(cols, ins, ins2);
            lemma_items_within(s.projection@, s.projection@.len() as int, ins2, cols);
        },
        SqlSetExpr::SetOperation { left, right } => {
            lemma_query_within(*left, env, ins, cols);
            let l = query_effect(*left, env, ins, cols);
            lemma_query_within(*right, env, l.0, l.1);
            let r = query_effect(*right, env, l.0, l.1);
            assert(r.0.subrange(0, ins.len() as int) =~= l.0.subrange(0, ins.len() as int));
        },
        SqlSetExpr::Other => {
            assert(ins.subrange(0, ins.len() as int) =~= ins);
        },
    }
}

proof fn lemma_statements_within(stmts: Seq<SqlStatement>, n: int)
    ensures
        columns_within(statements_effect(stmts, n).1, statements_effect(stmts, n).0),
    decreases n,
{
    if 0 < n <= stmts.len() {
        lemma_statements_within(stmts, n - 1);
        let prev = statements_effect(stmts, n - 1);
        match stmts[n - 1] {
            SqlStatement::Query(q) => lemma_query_within(
                q.body,
                cte_env(q.ctes@, q.ctes@.len() as int),
                prev.0,
                prev.1,
            ),
            SqlStatement::CreateTable(Some(q)) => lemma_query_within(
                q.body,
                cte_env(q.ctes@, q.ctes@.len() as int),
                prev.0,
                prev.1,
            ),
            _ => {},
        }
    }
}

/// Every dataset a column of a model's lineage reads is one of the model's
/// input datasets.
pub proof fn lemma_lineage_reads_inputs(p: Project, m: Model, stmts: Seq<SqlStatement>)
    ensures
        columns_within(
            model_lineage_spec(p, m, stmts).columns,
            model_lineage_spec(p, m, stmts).input_datasets,
        ),
{
    lemma_statements_within(stmts, stmts.len() as int);
}

} // verus!

verus! {

/// No column name occurs twice.
pub open spec fn distinct_columns(cols: Seq<(Seq<char>, ColumnLineageV)>) -> bool {
    forall|i: int, j: int| 0 <= i < j < cols.len() ==> (#[trigger] cols[i]).0 != (#[trigger] cols[j]).0
}

proof fn lemma_column_insert_distinct(cols: Seq<(Seq<char>, ColumnLineageV)>, k: Seq<char>, v: ColumnLineageV)
    requires
        distinct_columns(cols),
    ensures
        distinct_columns(column_insert(cols, k, v)),
{
    let r = column_insert(cols, k, v);
    crate::search::lemma_first_where(cols, column_is(k));
    match first_where(cols, column_is(k)) {
        Some(p) => {
            assert forall|i: int, j: int| 0 <= i < j < r.len() implies (#[trigger] r[i]).0 != (#[trigger] r[j]).0 by {
                if i != p && j != p {
                    assert(r[i] == cols[i] && r[j] == cols[j]);
                } else if i == p {
                    assert(r[j] == cols[j]);
                    assert(cols[i].0 != cols[j].0);
                } else {
                    assert(r[i] == cols[i]);
                    assert(cols[i].0 != cols[j].0);
                }
            }
        },
        None => {
            assert forall|i: int, j: int| 0 <= i < j < r.len() implies (#[trigger] r[i]).0 != (#[trigger] r[j]).0 by {
                assert(r[i] == cols[i]);
                if j < cols.len() {
                    assert(r[j] == cols[j]);
                } else {
                    assert(!column_is(k)(cols[i]));
                }
            }
        },
    }
}

proof fn lemma_except_distinct(
    names: Seq<Seq<char>>,
    n: int,
    ins: Seq<Seq<char>>,
    cols: Seq<(Seq<char>, ColumnLineageV)>,
)
    requires
        distinct_columns(cols),
    ensures
        distinct_columns(except_effect(names, n, ins, cols)),
    decreases n,
{
    if 0 < n <= names.len() {
        lemma_except_distinct(names, n - 1, ins, cols);
        lemma_column_insert_distinct(
            except_effect(names, n - 1, ins, cols),
            names[n - 1],
            except_lineage(ins, names[n - 1]),
        );
    }
}

proof fn lemma_items_distinct(
    items: Seq<SqlSelectItem>,
    n: int,
    ins: Seq<Seq<char>>,
    cols: Seq<(Seq<char>, ColumnLineageV)>,
)
    requires
        distinct_columns(cols),
    ensures
        distinct_columns(items_effect(items, n, ins, cols)),
    decreases n,
{
    if 0 < n <= items.len() {
        lemma_items_distinct(items, n - 1, ins, cols);
        let prev = items_effect(items, n - 1, ins, cols);
        match items[n - 1] {
            SqlSelectItem::UnnamedExpr(e) => lemma_column_insert_distinct(
                prev,
                expr_column_name(e),
                expr_lineage(e, ins),
            ),
            SqlSelectItem::ExprWithAlias { expr, alias } => lemma_column_insert_distinct(
                prev,
                alias@,
                expr_lineage(expr, ins),
            ),
            SqlSelectItem::Wildcard { except } => match except {
                Some(names) => lemma_except_distinct(strings_view(names@), names@.len() as int, ins, prev),
                None => {},
            },
            SqlSelectItem::QualifiedWildcard(q) => {
                if ins.len() > 0 {
                    lemma_column_insert_distinct(prev, q@ + ".*"@, qualified_lineage(ins, q@ + ".*"@));
                }
            },
            SqlSelectItem::Other => {},
        }
    }
}

proof fn lemma_query_distinct(
    q: SqlSetExpr,
    env: CteTables,
    ins: Seq<Seq<char>>,
    cols: Seq<(Seq<char>, ColumnLineageV)>,
)
    requires
        distinct_columns(cols),
    ensures
        distinct_columns(query_effect(q, env, ins, cols).1),
    decreases q,
{
    match q {
        SqlSetExpr::Select(s) => lemma_items_distinct(
            s.projection@,
            s.projection@.len() as int,
            ins + select_tables(*s, env),
            cols,
        ),
        SqlSetExpr::SetOperation { left, right } => {
            lemma_query_distinct(*left, env, ins, cols);
            let l = query_effect(*left, env, ins, cols);
            lemma_query_distinct(*right, env, l.0, l.1);
        },
        SqlSetExpr::Other => {},
    }
}

proof fn lemma_statements_distinct(stmts: Seq<SqlStatement>, n: int)
    ensures
        distinct_columns(statements_effect(stmts, n).1),
    decreases n,
{
    if 0 < n <= stmts.len() {
        lemma_statements_distinct(stmts, n - 1);
        let prev = statements_effect(stmts, n - 1);
        match stmts[n - 1] {
            SqlStatement::Query(q) => lemma_query_distinct(
                q.body,
                cte_env(q.ctes@, q.ctes@.len() as int),
                prev.0,
                prev.1,
            ),
            SqlStatement::CreateTable(Some(q)) => lemma_query_distinct(
                q.body,
                cte_env(q.ctes@, q.ctes@.len() as int),
                prev.0,
                prev.1,
            ),
            _ => {},
        }
    }
}

/// Each output column of a model's lineage is listed once: a later
/// definition of a column replaces the earlier one.
pub proof fn lemma_lineage_columns_distinct(p: Project, m: Model, stmts: Seq<SqlStatement>)
    ensures
        distinct_columns(model_lineage_spec(p, m, stmts).columns),
{
    lemma_statements_distinct(stmts, stmts.len() as int);
}

} // verus!

verus! {

/// A column read straight from a name reads that field of every input
/// dataset, in input order, each as a direct identity, and nothing else.
pub proof fn lemma_identifier_lineage(v: String, inputs: Seq<Seq<char>>)
    ensures
        ({
            let l = expr_lineage(SqlExpr::Identifier(v), inputs);
            &&& l.transformation_type == "DIRECT"@
            &&& l.transformation_subtype == "IDENTITY"@
            &&& l.input_fields.len() == inputs.len()
            &&& forall|k: int|
                0 <= k < inputs.len() ==> #[trigger] l.input_fields[k] == InputFieldV {
                    dataset: inputs[k],
                    field: v@,
                    transformations: seq![
                        TransformationV {
                            trans_type: "DIRECT"@,
                            subtype: "IDENTITY"@,
                            description: None,
                            masking: None,
                        },
                    ],
                }
        }),
{
}

/// A cast reads exactly what its operand reads, as a transformation.
pub proof fn lemma_cast_lineage(e: SqlExpr, data_type: String, inputs: Seq<Seq<char>>)
    ensures
        expr_lineage(SqlExpr::Cast { expr: Box::new(e), data_type }, inputs).input_fields == expr_lineage(
            e,
            inputs,
        ).input_fields,
        expr_lineage(SqlExpr::Cast { expr: Box::new(e), data_type }, inputs).transformation_subtype
            == "TRANSFORMATION"@,
{
}

/// A binary operation reads what its left operand reads, then what its right
/// operand reads, as a transformation.
pub proof fn lemma_binary_lineage(left: SqlExpr, op: String, right: SqlExpr, inputs: Seq<Seq<char>>)
    ensures
        ({
            let l = expr_lineage(
                SqlExpr::BinaryOp { left: Box::new(left), op, right: Box::new(right) },
                inputs,
            );
            &&& l.input_fields == expr_lineage(left, inputs).input_fields + expr_lineage(
                right,
                inputs,
            ).input_fields
            &&& l.transformation_type == "DIRECT"@
            &&& l.transformation_subtype == "TRANSFORMATION"@
        }),
{
}

/// Parentheses and unary operators leave an expression's lineage as it is.
pub proof fn lemma_transparent_lineage(e: SqlExpr, op: String, inputs: Seq<Seq<char>>)
    ensures
        expr_lineage(SqlExpr::Nested(Box::new(e)), inputs) == expr_lineage(e, inputs),
        expr_lineage(SqlExpr::UnaryOp { op, expr: Box::new(e) }, inputs) == expr_lineage(e, inputs),
{
}

/// A literal reads nothing.
pub proof fn lemma_literal_lineage(v: String, inputs: Seq<Seq<char>>)
    ensures
        expr_lineage(SqlExpr::Value(v), inputs).input_fields == Seq::<InputFieldV>::empty(),
        expr_lineage(SqlExpr::Value(v), inputs).transformation_subtype == "IDENTITY"@,
{
}

/// A call reads what its arguments read, argument by argument in order; an
/// argument that is not a plain expression reads nothing.
pub proof fn lemma_call_lineage(name: String, args: Vec<Option<SqlExpr>>, inputs: Seq<Seq<char>>)
    ensures
        expr_lineage(SqlExpr::Function { name, arguments: SqlFunctionArgs::List(args) }, inputs).input_fields
            == concat_all(
            Seq::new(
                args@.len(),
                |i: int|
                    match args@[i] {
                        Some(a) => expr_lineage(a, inputs).input_fields,
                        None => Seq::<InputFieldV>::empty(),
                    },
            ),
        ),
{
    assert(args_fields(args@, inputs) =~= Seq::new(
        args@.len(),
        |i: int|
            match args@[i] {
                Some(a) => expr_lineage(a, inputs).input_fields,
                None => Seq::<InputFieldV>::empty(),
            },
    ));
}

/// A `CASE` reads what each branch's condition and result read, branch by
/// branch, then what its `ELSE` reads, as a conditional.
pub proof fn lemma_case_lineage(
    conditions: Vec<SqlCaseWhen>,
    else_result: Option<Box<SqlExpr>>,
    inputs: Seq<Seq<char>>,
)
    ensures
        ({
            let l = expr_lineage(SqlExpr::Case { conditions, else_result }, inputs);
            &&& l.input_fields == concat_all(
                Seq::new(
                    conditions@.len(),
                    |i: int|
                        expr_lineage(conditions@[i].condition, inputs).input_fields + expr_lineage(
                            conditions@[i].result,
                            inputs,
                        ).input_fields,
                ),
            ) + match else_result {
                Some(x) => expr_lineage(*x, inputs).input_fields,
                None => Seq::<InputFieldV>::empty(),
            }
            &&& l.transformation_subtype == "CONDITIONAL"@
        }),
{
    assert(case_fields(conditions@, inputs) =~= Seq::new(
        conditions@.len(),
        |i: int|
            expr_lineage(conditions@[i].condition, inputs).input_fields + expr_lineage(
                conditions@[i].result,
                inputs,
            ).input_fields,
    ));
}

} // verus!

verus! {

/// The lineage recorded for column `k`.
pub open spec fn column_lookup(cols: Seq<(Seq<char>, ColumnLineageV)>, k: Seq<char>) -> Option<
    ColumnLineageV,
> {
    match first_where(cols, column_is(k)) {
        Some(i) => Some(cols[i].1),
        None => None,
    }
}

proof fn lemma_column_insert_lookup(
    m: Seq<(Seq<char>, ColumnLineageV)>,
    k: Seq<char>,
    v: ColumnLineageV,
    k2: Seq<char>,
)
    ensures
        column_lookup(column_insert(m, k, v), k) == Some(v),
        k2 != k ==> column_lookup(column_insert(m, k, v), k2) == column_lookup(m, k2),
{
    let f = column_is(k);
    let g = column_is(k2);
    let m2 = column_insert(m, k, v);
    lemma_first_where(m, f);
    lemma_first_where(m, g);
    match first_where(m, f) {
        Some(i) => {
            assert(m2 == m.update(i, (k, v)));
            assert forall|j: int| 0 <= j < i implies !f(#[trigger] m2[j]) by {
                assert(m2[j] == m[j]);
            }
            lemma_first_where_found(m2, f, i);
        },
        None => {
            assert(m2 == m.push((k, v)));
            assert forall|j: int| 0 <= j < m.len() implies !f(#[trigger] m2[j]) by {
                assert(m2[j] == m[j]);
            }
            lemma_first_where_found(m2, f, m.len() as int);
        },
    }
    if k2 != k {
        assert(!g(m2[if first_where(m, f) is Some {
            first_where(m, f)->0
        } else {
            m.len() as int
        }]));
        assert forall|j: int| 0 <= j < m.len() && !f(m[j]) implies #[trigger] m2[j] == m[j] by {
            if first_where(m, f) is Some {
                assert(j != first_where(m, f)->0);
            }
        }
        match first_where(m, g) {
            Some(x) => {
                assert(!f(m[x]));
                assert(m2[x] == m[x]);
                assert forall|j: int| 0 <= j < x implies !g(#[trigger] m2[j]) by {
                    if f(m[j]) {
                        assert(m2[j].0 == k);
                    } else {
                        assert(m2[j] == m[j]);
                    }
                }
                lemma_first_where_found(m2, g, x);
            },
            None => {
                assert forall|j: int| 0 <= j < m2.len() implies !g(#[trigger] m2[j]) by {
                    if j < m.len() && !f(m[j]) {
                        assert(m2[j] == m[j]);
                    } else {
                        assert(m2[j].0 == k);
                    }
                }
                lemma_first_where_none(m2, g);
            },
        }
    }
}

/// Whether recording `item` against `inputs` sets column `k`.
pub open spec fn item_defines(item: SqlSelectItem, inputs: Seq<Seq<char>>, k: Seq<char>) -> bool {
    match item {
        SqlSelectItem::UnnamedExpr(e) => expr_column_name(e) == k,
        SqlSelectItem::ExprWithAlias { alias, .. } => alias@ == k,
        SqlSelectItem::Wildcard { except } => match except {
            Some(names) => strings_view(names@).contains(k),
            None => false,
        },
        SqlSelectItem::QualifiedWildcard(q) => inputs.len() > 0 && q@ + ".*"@ == k,
        SqlSelectItem::Other => false,
    }
}

/// The column an expression item names, with the expression.
pub open spec fn item_column(item: SqlSelectItem) -> Option<(Seq<char>, SqlExpr)> {
    match item {
        SqlSelectItem::UnnamedExpr(e) => Some((expr_column_name(e), e)),
        SqlSelectItem::ExprWithAlias { expr, alias } => Some((alias@, expr)),
        _ => None,
    }
}

proof fn lemma_except_keeps(
    names: Seq<Seq<char>>,
    n: int,
    inputs: Seq<Seq<char>>,
    cols: Seq<(Seq<char>, ColumnLineageV)>,
    k: Seq<char>,
)
    requires
        0 <= n <= names.len(),
        !names.contains(k),
    ensures
        column_lookup(except_effect(names, n, inputs, cols), k) == column_lookup(cols, k),
    decreases n,
{
    if n > 0 {
        lemma_except_keeps(names, n - 1, inputs, cols, k);
        assert(names[n - 1] != k);
        lemma_column_insert_lookup(
            except_effect(names, n - 1, inputs, cols),
            names[n - 1],
            except_lineage(inputs, names[n - 1]),
            k,
        );
    }
}

proof fn lemma_item_keeps(
    item: SqlSelectItem,
    inputs: Seq<Seq<char>>,
    cols: Seq<(Seq<char>, ColumnLineageV)>,
    k: Seq<char>,
)
    requires
        !item_defines(item, inputs, k),
    ensures
        column_lookup(item_effect(item, inputs, cols), k) == column_lookup(cols, k),
{
    match item {
        SqlSelectItem::UnnamedExpr(e) => lemma_column_insert_lookup(
            cols,
            expr_column_name(e),
            expr_lineage(e, inputs),
            k,
        ),
        SqlSelectItem::ExprWithAlias { expr, alias } => lemma_column_insert_lookup(
            cols,
            alias@,
            expr_lineage(expr, inputs),
            k,
        ),
        SqlSelectItem::Wildcard { except } => match except {
            Some(names) => lemma_except_keeps(
                strings_view(names@),
                names@.len() as int,
                inputs,
                cols,
                k,
            ),
            None => {},
        },
        SqlSelectItem::QualifiedWildcard(q) => {
            if inputs.len() > 0 {
                lemma_column_insert_lookup(cols, q@ + ".*"@, qualified_lineage(inputs, q@ + ".*"@), k);
            }
        },
        SqlSelectItem::Other => {},
    }
}

proof fn lemma_items_column(
    items: Seq<SqlSelectItem>,
    n: int,
    inputs: Seq<Seq<char>>,
    cols: Seq<(Seq<char>, ColumnLineageV)>,
    idx: int,
)
    requires
        0 <= idx < n <= items.len(),
        item_column(items[idx]) is Some,
        forall|j: int|
            idx < j < n ==> !item_defines(#[trigger] items[j], inputs, (item_column(items[idx])->0).0),
    ensures
        column_lookup(items_effect(items, n, inputs, cols), (item_column(items[idx])->0).0) == Some(
            expr_lineage((item_column(items[idx])->0).1, inputs),
        ),
    decreases n,
{
    let k = (item_column(items[idx])->0).0;
    let prev = items_effect(items, n - 1, inputs, cols);
    if n - 1 == idx {
        match items[idx] {
            SqlSelectItem::UnnamedExpr(e) => lemma_column_insert_lookup(prev, k, expr_lineage(e, inputs), k),
            SqlSelectItem::ExprWithAlias { expr, .. } => lemma_column_insert_lookup(
                prev,
                k,
                expr_lineage(expr, inputs),
                k,
            ),
            _ => {},
        }
    } else {
        lemma_items_column(items, n - 1, inputs, cols, idx);
        lemma_item_keeps(items[n - 1], inputs, prev, k);
    }
}

/// In a `SELECT`, the column an expression item names (its alias, or the name
/// the expression gets) reads what that expression reads against the inputs
/// so far followed by the tables the `SELECT` reads, unless a later item of
/// the list sets the same column.
pub proof fn lemma_select_column(
    s: SqlSelect,
    env: CteTables,
    ins: Seq<Seq<char>>,
    cols: Seq<(Seq<char>, ColumnLineageV)>,
    idx: int,
)
    requires
        0 <= idx < s.projection@.len(),
        item_column(s.projection@[idx]) is Some,
        forall|j: int|
            idx < j < s.projection@.len() ==> !item_defines(
                #[trigger] s.projection@[j],
                ins + select_tables(s, env),
                (item_column(s.projection@[idx])->0).0,
            ),
    ensures
        ({
            let r = query_effect(SqlSetExpr::Select(Box::new(s)), env, ins, cols);
            let c = item_column(s.projection@[idx])->0;
            &&& r.0 == ins + select_tables(s, env)
            &&& column_lookup(r.1, c.0) == Some(expr_lineage(c.1, ins + select_tables(s, env)))
        }),
{
    lemma_items_column(
        s.projection@,
        s.projection@.len() as int,
        ins + select_tables(s, env),
        cols,
        idx,
    );
}

} // verus!
