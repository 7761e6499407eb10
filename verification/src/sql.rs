//! Reading SQL with the `sqlparser` crate into the statement form lineage
//! analysis works on. The parser's syntax tree is looked at one node at a
//! time through small views; the library builds its own tree from them.
use vstd::prelude::*;
use crate::lineage::{
    SqlCaseWhen, SqlCte, SqlExpr, SqlFrom, SqlFunctionArgs, SqlQuery, SqlSelect, SqlSelectItem, SqlSetExpr,
    SqlStatement, SqlTableFactor,
};
use sqlparser::ast::{Expr, Function, FunctionArg, Query, Select, SelectItem, SetExpr, Statement, TableFactor};
use sqlparser::parser::ParserError;

verus! {

/// `sqlparser::ast::Statement`.
#[verifier::external_type_specification]
#[verifier::external_body]
pub struct ExStatement(Statement);

/// `sqlparser::ast::SetExpr`.
#[verifier::external_type_specification]
#[verifier::external_body]
pub struct ExSetExpr(SetExpr);

/// `sqlparser::ast::Query`.
#[verifier::external_type_specification]
#[verifier::external_body]
pub struct ExQuery(Query);

/// `sqlparser::ast::Select`.
#[verifier::external_type_specification]
#[verifier::external_body]
pub struct ExSelect(Select);

/// `sqlparser::ast::SelectItem`.
#[verifier::external_type_specification]
#[verifier::external_body]
pub struct ExSelectItem(SelectItem);

/// `sqlparser::ast::TableFactor`.
#[verifier::external_type_specification]
#[verifier::external_body]
pub struct ExTableFactor(TableFactor);

/// `sqlparser::ast::Expr`.
#[verifier::external_type_specification]
#[verifier::external_body]
pub struct ExExpr(Expr);

/// `sqlparser::ast::Function`.
#[verifier::external_type_specification]
#[verifier::external_body]
pub struct ExFunction(Function);

/// `sqlparser::ast::FunctionArg`.
#[verifier::external_type_specification]
#[verifier::external_body]
pub struct ExFunctionArg(FunctionArg);

/// `sqlparser::parser::ParserError`.
#[verifier::external_type_specification]
#[verifier::external_body]
pub struct ExParserError(ParserError);

/// The statements `sqlparser` parses the text to with its generic dialect,
/// each in the library's form; `None` when it rejects the text.
pub uninterp spec fn sql_parsed(sql: Seq<char>) -> Option<Seq<SqlStatement>>;

/// Whether `sqlparser` parses the text with its generic dialect.
pub open spec fn sql_parses(sql: Seq<char>) -> bool {
    sql_parsed(sql) is Some
}

/// Parses SQL with `sqlparser::parser::Parser::parse_sql` and the generic
/// dialect, and turns each statement into the library's form with
/// [`lower_statement`]. Claimed: the outcome depends on the text alone.
#[verifier::external_body]
fn parse_sql(sql: &str) -> (r: Result<Vec<SqlStatement>, ParserError>)
    ensures
        match r {
            Ok(v) => sql_parsed(sql@) == Some(v@),
            Err(_) => sql_parsed(sql@) is None,
        },
{
    let stmts = sqlparser::parser::Parser::parse_sql(&sqlparser::dialect::GenericDialect {}, sql)?;
    Ok(stmts.iter().map(lower_statement).collect())
}

/// The message of a parser error, as its `Display` writes it. Nothing is
/// claimed of the text.
#[verifier::external_body]
fn parse_error_text(e: &ParserError) -> String {
    e.to_string()
}

/// A statement, seen one level deep.
pub enum StatementShape<'a> {
    Query(&'a Query),
    /// `CREATE TABLE`; its `AS` query, if any.
    CreateTable(Option<&'a Query>),
    Other,
}

/// Tells the statements lineage reads apart. No claim is made of the result.
#[verifier::external_body]
fn statement_shape(s: &Statement) -> StatementShape<'_> {
    match s {
        Statement::Query(q) => StatementShape::Query(q),
        Statement::CreateTable(c) => StatementShape::CreateTable(c.query.as_deref()),
        _ => StatementShape::Other,
    }
}

/// The tables a query's `WITH` clause defines, each by its name and the body
/// of its query, and the query's body. No claim is made of the result.
#[verifier::external_body]
fn query_parts(q: &Query) -> (Vec<(String, &SetExpr)>, &SetExpr) {
    let ctes = match &q.with {
        Some(w) => w.cte_tables.iter().map(|c| (c.alias.name.value.clone(), &*c.query.body)).collect(),
        None => Vec::new(),
    };
    (ctes, &q.body)
}

/// A query body, seen one level deep.
pub enum SetShape<'a> {
    Select(&'a Select),
    SetOperation(&'a SetExpr, &'a SetExpr),
    Other,
}

/// Tells query bodies apart. No claim is made of the result.
#[verifier::external_body]
fn set_expr_shape(q: &SetExpr) -> SetShape<'_> {
    match q {
        SetExpr::Select(s) => SetShape::Select(s),
        SetExpr::SetOperation { left, right, .. } => SetShape::SetOperation(left, right),
        _ => SetShape::Other,
    }
}

/// The parts of a `SELECT` that lineage reads.
pub struct SelectParts<'a> {
    /// Each `FROM` item: its relation with the relations it joins.
    pub from: Vec<(&'a TableFactor, Vec<&'a TableFactor>)>,
    pub selection: Option<&'a Expr>,
    pub projection: Vec<&'a SelectItem>,
}

/// Picks out the fields of a `SELECT`. No claim is made of the result.
#[verifier::external_body]
fn select_parts(s: &Select) -> SelectParts<'_> {
    SelectParts {
        from: s.from.iter().map(|f| (&f.relation, f.joins.iter().map(|j| &j.relation).collect())).collect(),
        selection: s.selection.as_ref(),
        projection: s.projection.iter().collect(),
    }
}

/// A `SELECT` item, seen one level deep.
pub enum ItemShape<'a> {
    Unnamed(&'a Expr),
    Aliased(&'a Expr, String),
    /// `*` with the column names of its `EXCEPT` list.
    Wildcard(Option<Vec<String>>),
    /// `q.*`, with the qualifier as `sqlparser` displays it.
    Qualified(String),
    Other,
}

/// Tells `SELECT` items apart. No claim is made of the result.
#[verifier::external_body]
fn select_item_shape(i: &SelectItem) -> ItemShape<'_> {
    match i {
        SelectItem::UnnamedExpr(e) => ItemShape::Unnamed(e),
        SelectItem::ExprWithAlias { expr, alias } => ItemShape::Aliased(expr, alias.value.clone()),
        SelectItem::Wildcard(w) => ItemShape::Wildcard(w.opt_except.as_ref().map(|x| {
            std::iter::once(&x.first_element).chain(&x.additional_elements).map(|c| c.value.clone()).collect()
        })),
        SelectItem::QualifiedWildcard(kind, _) => ItemShape::Qualified(kind.to_string()),
        _ => ItemShape::Other,
    }
}

/// A `FROM` relation, seen one level deep.
pub enum TableShape<'a> {
    /// A table, with its name as `sqlparser` displays it.
    Table(String),
    /// A derived table; the body of its query.
    Derived(&'a SetExpr),
    Function(String),
    /// `TABLE(expr)`, with the expression as `sqlparser` displays it.
    TableFunction(String),
    Unnest,
    JsonTable,
    Other,
}

/// Tells `FROM` relations apart. No claim is made of the result.
#[verifier::external_body]
fn table_factor_shape(t: &TableFactor) -> TableShape<'_> {
    match t {
        TableFactor::Table { name, .. } => TableShape::Table(name.to_string()),
        TableFactor::Derived { subquery, .. } => TableShape::Derived(&subquery.body),
        TableFactor::Function { name, .. } => TableShape::Function(name.to_string()),
        TableFactor::TableFunction { expr, .. } => TableShape::TableFunction(expr.to_string()),
        TableFactor::UNNEST { .. } => TableShape::Unnest,
        TableFactor::JsonTable { .. } => TableShape::JsonTable,
        _ => TableShape::Other,
    }
}

/// An expression, seen one level deep.
pub enum ExprShape<'a> {
    Identifier(String),
    Compound(Vec<String>),
    /// A literal in its debugging form.
    Value(String),
    Nested(&'a Expr),
    /// Left side, operator as displayed, right side.
    Binary(&'a Expr, String, &'a Expr),
    /// Operator as displayed, operand.
    Unary(String, &'a Expr),
    Function(&'a Function),
    /// Operand, type as displayed.
    Cast(&'a Expr, String),
    Extract(&'a Expr),
    Case(Vec<(&'a Expr, &'a Expr)>, Option<&'a Expr>),
    /// A scalar subquery; the body of its query.
    Subquery(&'a SetExpr),
    InSubquery(&'a SetExpr),
    Exists(&'a SetExpr),
    /// A kind [`expr_shape`] leaves to [`expr_shape_more`].
    Rest,
    Other,
}

/// Tells apart the expressions that carry names, literals and operators;
/// every other kind is `Rest`. No claim is made of the result.
#[verifier::external_body]
fn expr_shape(e: &Expr) -> ExprShape<'_> {
    match e {
        Expr::Identifier(i) => ExprShape::Identifier(i.value.clone()),
        Expr::CompoundIdentifier(p) => ExprShape::Compound(p.iter().map(|i| i.value.clone()).collect()),
        Expr::Value(v) => ExprShape::Value(format!("{:?}", v)),
        Expr::Nested(x) => ExprShape::Nested(x),
        Expr::BinaryOp { left, op, right } => ExprShape::Binary(left, op.to_string(), right),
        Expr::UnaryOp { op, expr } => ExprShape::Unary(op.to_string(), expr),
        _ => ExprShape::Rest,
    }
}

/// Tells apart calls, casts, `CASE` and subqueries; every other kind is
/// `Other`. No claim is made of the result.
#[verifier::external_body]
fn expr_shape_more(e: &Expr) -> ExprShape<'_> {
    match e {
        Expr::Function(f) => ExprShape::Function(f),
        Expr::Cast { expr, data_type, .. } => ExprShape::Cast(expr, data_type.to_string()),
        Expr::Extract { expr, .. } => ExprShape::Extract(expr),
        Expr::Case { conditions, else_result, .. } => ExprShape::Case(
            conditions.iter().map(|w| (&w.condition, &w.result)).collect(),
            else_result.as_deref(),
        ),
        Expr::Subquery(q) => ExprShape::Subquery(&q.body),
        Expr::InSubquery { subquery, .. } => ExprShape::InSubquery(&subquery.body),
        Expr::Exists { subquery, .. } => ExprShape::Exists(&subquery.body),
        _ => ExprShape::Other,
    }
}

/// The arguments of a call, seen one level deep.
pub enum ParamShape<'a> {
    Absent,
    List(Vec<&'a FunctionArg>),
    /// A subquery; the body of its query.
    Subquery(&'a SetExpr),
}

/// The name of a called function as displayed, and its arguments. No claim
/// is made of the result.
#[verifier::external_body]
fn function_parts(f: &Function) -> (String, ParamShape<'_>) {
    let params = match &f.args {
        sqlparser::ast::FunctionArguments::List(l) => ParamShape::List(l.args.iter().collect()),
        sqlparser::ast::FunctionArguments::Subquery(q) => ParamShape::Subquery(&q.body),
        sqlparser::ast::FunctionArguments::None => ParamShape::Absent,
    };
    (f.name.to_string(), params)
}

/// The expression a function argument passes, when it passes a plain
/// expression. No claim is made of the result.
#[verifier::external_body]
fn function_arg_expr(a: &FunctionArg) -> Option<&Expr> {
    let arg = match a {
        FunctionArg::Named { arg, .. } | FunctionArg::ExprNamed { arg, .. } | FunctionArg::Unnamed(arg) => arg,
    };
    match arg {
        sqlparser::ast::FunctionArgExpr::Expr(e) => Some(e),
        _ => None,
    }
}

} // verus!

verus! {

/// Why SQL text could not be read.
#[derive(Debug)]
pub enum SqlError {
    /// `sqlparser` rejected the text; its report.
    Parse(String),
}

/// `x` is a query body that lowering builds within `n` steps: each level of
/// nesting takes one step.
spec fn set_within(x: SqlSetExpr, n: nat) -> bool
    decreases n,
{
    n > 0 && match x {
        SqlSetExpr::Select(s) => select_within(*s, (n - 1) as nat),
        SqlSetExpr::SetOperation { left, right } => set_within(*left, (n - 1) as nat)
            && set_within(*right, (n - 1) as nat),
        SqlSetExpr::Other => true,
    }
}

/// A boxed query body built within `n` steps.
spec fn body_within(x: SqlSetExpr, n: nat) -> bool
    decreases n,
{
    n > 0 && set_within(x, (n - 1) as nat)
}

/// A `SELECT` built within `n` steps.
spec fn select_within(s: SqlSelect, n: nat) -> bool
    decreases n,
{
    n > 0 && (forall|k: int|
        0 <= k < s.from@.len() ==> table_within(#[trigger] s.from@[k].relation, (n - 1) as nat) && forall|j: int|
            0 <= j < s.from@[k].joins@.len() ==> table_within(#[trigger] s.from@[k].joins@[j], (n - 1) as nat))
        && (match s.selection {
        Some(e) => expr_within(e, (n - 1) as nat),
        None => true,
    }) && forall|j: int|
        0 <= j < s.projection@.len() ==> item_within(#[trigger] s.projection@[j], (n - 1) as nat)
}

/// A `FROM` item, its relation and its joins, each built within `n` steps.
spec fn from_within(f: SqlFrom, n: nat) -> bool {
    table_within(f.relation, n) && forall|j: int|
        0 <= j < f.joins@.len() ==> table_within(#[trigger] f.joins@[j], n)
}

/// A `SELECT` item built within `n` steps.
spec fn item_within(i: SqlSelectItem, n: nat) -> bool
    decreases n,
{
    n > 0 && match i {
        SqlSelectItem::UnnamedExpr(e) => expr_within(e, (n - 1) as nat),
        SqlSelectItem::ExprWithAlias { expr, .. } => expr_within(expr, (n - 1) as nat),
        _ => true,
    }
}

/// A `FROM` relation built within `n` steps.
spec fn table_within(t: SqlTableFactor, n: nat) -> bool
    decreases n,
{
    n > 0 && match t {
        SqlTableFactor::Derived(b) => body_within(*b, (n - 1) as nat),
        _ => true,
    }
}

/// A boxed expression built within `n` steps.
spec fn boxed_within(e: SqlExpr, n: nat) -> bool
    decreases n,
{
    n > 0 && expr_within(e, (n - 1) as nat)
}

/// The arguments of a call built within `n` steps.
spec fn params_within(p: SqlFunctionArgs, n: nat) -> bool
    decreases n,
{
    n > 0 && match p {
        SqlFunctionArgs::Absent => true,
        SqlFunctionArgs::Subquery(b) => body_within(*b, (n - 1) as nat),
        SqlFunctionArgs::List(args) => forall|j: int|
            0 <= j < args@.len() ==> match #[trigger] args@[j] {
                Some(a) => expr_within(a, (n - 1) as nat),
                None => true,
            },
    }
}

/// An expression built within `n` steps.
spec fn expr_within(e: SqlExpr, n: nat) -> bool
    decreases n,
{
    n > 0 && match e {
        SqlExpr::Nested(x) => boxed_within(*x, (n - 1) as nat),
        SqlExpr::UnaryOp { expr, .. } => boxed_within(*expr, (n - 1) as nat),
        SqlExpr::Cast { expr, .. } => boxed_within(*expr, (n - 1) as nat),
        SqlExpr::Extract(x) => boxed_within(*x, (n - 1) as nat),
        SqlExpr::BinaryOp { left, right, .. } => boxed_within(*left, (n - 1) as nat)
            && boxed_within(*right, (n - 1) as nat),
        SqlExpr::Function { arguments, .. } => params_within(arguments, (n - 1) as nat),
        SqlExpr::Case { conditions, else_result } => (forall|j: int|
            0 <= j < conditions@.len() ==> expr_within(#[trigger] conditions@[j].condition, (n - 1) as nat)
                && expr_within(conditions@[j].result, (n - 1) as nat)) && match else_result {
            Some(x) => boxed_within(*x, (n - 1) as nat),
            None => true,
        },
        SqlExpr::Subquery(b) => body_within(*b, (n - 1) as nat),
        SqlExpr::InSubquery(b) => body_within(*b, (n - 1) as nat),
        SqlExpr::Exists(b) => body_within(*b, (n - 1) as nat),
        _ => true,
    }
}

/// The nesting limit lowering works within.
spec fn lowering_limit() -> nat {
    0xFFFF_FFFF_FFFF_FFFFnat
}

/// A query whose body and `WITH` tables lowering built within its nesting
/// limit.
spec fn query_within(q: SqlQuery) -> bool {
    &&& set_within(q.body, lowering_limit())
    &&& forall|i: int| 0 <= i < q.ctes@.len() ==> set_within(#[trigger] q.ctes@[i].body, lowering_limit())
}

/// A statement whose queries lowering built within its nesting limit.
spec fn statement_within(s: SqlStatement) -> bool {
    match s {
        SqlStatement::Query(q) => query_within(q),
        SqlStatement::CreateTable(Some(q)) => query_within(q),
        _ => true,
    }
}

fn lower_set(q: &SetExpr, fuel: u64) -> (r: Option<SqlSetExpr>)
    ensures
        r matches Some(x) ==> set_within(x, fuel as nat),
    decreases fuel,
{
    if fuel == 0 {
        return None;
    }
    match set_expr_shape(q) {
        SetShape::Select(s) => match lower_select(s, fuel - 1) {
            Some(x) => Some(SqlSetExpr::Select(Box::new(x))),
            None => None,
        },
        SetShape::SetOperation(l, r) => {
            let left = match lower_set(l, fuel - 1) {
                Some(x) => x,
                None => {
                    return None;
                },
            };
            let right = match lower_set(r, fuel - 1) {
                Some(x) => x,
                None => {
                    return None;
                },
            };
            Some(SqlSetExpr::SetOperation { left: Box::new(left), right: Box::new(right) })
        },
        SetShape::Other => Some(SqlSetExpr::Other),
    }
}

fn lower_body(q: &SetExpr, fuel: u64) -> (r: Option<Box<SqlSetExpr>>)
    ensures
        r matches Some(x) ==> body_within(*x, fuel as nat),
    decreases fuel,
{
    if fuel == 0 {
        return None;
    }
    match lower_set(q, fuel - 1) {
        Some(x) => Some(Box::new(x)),
        None => None,
    }
}

fn lower_select(s: &Select, fuel: u64) -> (r: Option<SqlSelect>)
    ensures
        r matches Some(x) ==> select_within(x, fuel as nat),
    decreases fuel,
{
    if fuel == 0 {
        return None;
    }
    let parts = select_parts(s);
    let mut from: Vec<SqlFrom> = Vec::new();
    let mut k: usize = 0;
    while k < parts.from.len()
        invariant
            k <= parts.from.len(),
            fuel > 0,
            from.len() == k,
            forall|j: int| 0 <= j < from.len() ==> from_within(#[trigger] from@[j], (fuel - 1) as nat),
        decreases parts.from.len() - k,
    {
        let (rel, joins) = &parts.from[k];
        let relation = match lower_table(rel, fuel - 1) {
            Some(x) => x,
            None => {
                return None;
            },
        };
        let mut js: Vec<SqlTableFactor> = Vec::new();
        let mut i: usize = 0;
        while i < joins.len()
            invariant
                i <= joins.len(),
                fuel > 0,
                js.len() == i,
                forall|j: int| 0 <= j < js.len() ==> table_within(#[trigger] js@[j], (fuel - 1) as nat),
            decreases joins.len() - i,
        {
            match lower_table(joins[i], fuel - 1) {
                Some(x) => js.push(x),
                None => {
                    return None;
                },
            }
            i += 1;
        }
        from.push(SqlFrom { relation, joins: js });
        k += 1;
    }
    let selection = match parts.selection {
        Some(e) => match lower_expr(e, fuel - 1) {
            Some(x) => Some(x),
            None => {
                return None;
            },
        },
        None => None,
    };
    let mut projection: Vec<SqlSelectItem> = Vec::new();
    let mut i: usize = 0;
    while i < parts.projection.len()
        invariant
            i <= parts.projection.len(),
            fuel > 0,
            projection.len() == i,
            forall|j: int|
                0 <= j < projection.len() ==> item_within(#[trigger] projection@[j], (fuel - 1) as nat),
            forall|j: int| 0 <= j < from.len() ==> from_within(#[trigger] from@[j], (fuel - 1) as nat),
            selection matches Some(e) ==> expr_within(e, (fuel - 1) as nat),
        decreases parts.projection.len() - i,
    {
        match lower_item(parts.projection[i], fuel - 1) {
            Some(x) => projection.push(x),
            None => {
                return None;
            },
        }
        i += 1;
    }
    Some(SqlSelect { from, selection, projection })
}

fn lower_item(i: &SelectItem, fuel: u64) -> (r: Option<SqlSelectItem>)
    ensures
        r matches Some(x) ==> item_within(x, fuel as nat),
    decreases fuel,
{
    if fuel == 0 {
        return None;
    }
    match select_item_shape(i) {
        ItemShape::Unnamed(e) => match lower_expr(e, fuel - 1) {
            Some(x) => Some(SqlSelectItem::UnnamedExpr(x)),
            None => None,
        },
        ItemShape::Aliased(e, alias) => match lower_expr(e, fuel - 1) {
            Some(x) => Some(SqlSelectItem::ExprWithAlias { expr: x, alias }),
            None => None,
        },
        ItemShape::Wildcard(except) => Some(SqlSelectItem::Wildcard { except }),
        ItemShape::Qualified(q) => Some(SqlSelectItem::QualifiedWildcard(q)),
        ItemShape::Other => Some(SqlSelectItem::Other),
    }
}

fn lower_table(t: &TableFactor, fuel: u64) -> (r: Option<SqlTableFactor>)
    ensures
        r matches Some(x) ==> table_within(x, fuel as nat),
    decreases fuel,
{
    if fuel == 0 {
        return None;
    }
    match table_factor_shape(t) {
        TableShape::Table(n) => Some(SqlTableFactor::Table(n)),
        TableShape::Derived(b) => match lower_body(b, fuel - 1) {
            Some(x) => Some(SqlTableFactor::Derived(x)),
            None => None,
        },
        TableShape::Function(n) => Some(SqlTableFactor::Function(n)),
        TableShape::TableFunction(x) => Some(SqlTableFactor::TableFunction(x)),
        TableShape::Unnest => Some(SqlTableFactor::Unnest),
        TableShape::JsonTable => Some(SqlTableFactor::JsonTable),
        TableShape::Other => Some(SqlTableFactor::Other),
    }
}

fn lower_boxed(e: &Expr, fuel: u64) -> (r: Option<Box<SqlExpr>>)
    ensures
        r matches Some(x) ==> boxed_within(*x, fuel as nat),
    decreases fuel,
{
    if fuel == 0 {
        return None;
    }
    match lower_expr(e, fuel - 1) {
        Some(x) => Some(Box::new(x)),
        None => None,
    }
}

fn lower_params(f: &Function, fuel: u64) -> (r: Option<(String, SqlFunctionArgs)>)
    ensures
        r matches Some(x) ==> params_within(x.1, fuel as nat),
    decreases fuel,
{
    if fuel == 0 {
        return None;
    }
    let (name, params) = function_parts(f);
    let p = match params {
        ParamShape::Absent => SqlFunctionArgs::Absent,
        ParamShape::Subquery(b) => match lower_body(b, fuel - 1) {
            Some(x) => SqlFunctionArgs::Subquery(x),
            None => {
                return None;
            },
        },
        ParamShape::List(args) => {
            let mut out: Vec<Option<SqlExpr>> = Vec::new();
            let mut i: usize = 0;
            while i < args.len()
                invariant
                    i <= args.len(),
                    fuel > 0,
                    out.len() == i,
                    forall|j: int|
                        0 <= j < out.len() ==> match #[trigger] out@[j] {
                            Some(a) => expr_within(a, (fuel - 1) as nat),
                            None => true,
                        },
                decreases args.len() - i,
            {
                match function_arg_expr(args[i]) {
                    Some(e) => match lower_expr(e, fuel - 1) {
                        Some(x) => out.push(Some(x)),
                        None => {
                            return None;
                        },
                    },
                    None => out.push(None),
                }
                i += 1;
            }
            SqlFunctionArgs::List(out)
        },
    };
    Some((name, p))
}

fn lower_expr(e: &Expr, fuel: u64) -> (r: Option<SqlExpr>)
    ensures
        r matches Some(x) ==> expr_within(x, fuel as nat),
    decreases fuel,
{
    if fuel == 0 {
        return None;
    }
    let shape = match expr_shape(e) {
        ExprShape::Rest => expr_shape_more(e),
        s => s,
    };
    match shape {
        ExprShape::Identifier(v) => Some(SqlExpr::Identifier(v)),
        ExprShape::Compound(parts) => Some(SqlExpr::CompoundIdentifier(parts)),
        ExprShape::Value(v) => Some(SqlExpr::Value(v)),
        ExprShape::Nested(x) => match lower_boxed(x, fuel - 1) {
            Some(y) => Some(SqlExpr::Nested(y)),
            None => None,
        },
        ExprShape::Binary(l, op, r) => {
            let left = match lower_boxed(l, fuel - 1) {
                Some(y) => y,
                None => {
                    return None;
                },
            };
            let right = match lower_boxed(r, fuel - 1) {
                Some(y) => y,
                None => {
                    return None;
                },
            };
            Some(SqlExpr::BinaryOp { left, op, right })
        },
        ExprShape::Unary(op, x) => match lower_boxed(x, fuel - 1) {
            Some(y) => Some(SqlExpr::UnaryOp { op, expr: y }),
            None => None,
        },
        ExprShape::Function(f) => match lower_params(f, fuel - 1) {
            Some((name, arguments)) => Some(SqlExpr::Function { name, arguments }),
            None => None,
        },
        ExprShape::Cast(x, data_type) => match lower_boxed(x, fuel - 1) {
            Some(y) => Some(SqlExpr::Cast { expr: y, data_type }),
            None => None,
        },
        ExprShape::Extract(x) => match lower_boxed(x, fuel - 1) {
            Some(y) => Some(SqlExpr::Extract(y)),
            None => None,
        },
        ExprShape::Case(conds, els) => {
            let mut conditions: Vec<SqlCaseWhen> = Vec::new();
            let mut i: usize = 0;
            while i < conds.len()
                invariant
                    i <= conds.len(),
                    fuel > 0,
                    conditions.len() == i,
                    forall|j: int|
                        0 <= j < conditions.len() ==> expr_within(#[trigger] conditions@[j].condition, (fuel - 1) as nat)
                            && expr_within(conditions@[j].result, (fuel - 1) as nat),
                decreases conds.len() - i,
            {
                let (c, r) = conds[i];
                let condition = match lower_expr(c, fuel - 1) {
                    Some(y) => y,
                    None => {
                        return None;
                    },
                };
                let result = match lower_expr(r, fuel - 1) {
                    Some(y) => y,
                    None => {
                        return None;
                    },
                };
                conditions.push(SqlCaseWhen { condition, result });
                i += 1;
            }
            let else_result = match els {
                Some(x) => match lower_boxed(x, fuel - 1) {
                    Some(y) => Some(y),
                    None => {
                        return None;
                    },
                },
                None => None,
            };
            Some(SqlExpr::Case { conditions, else_result })
        },
        ExprShape::Subquery(b) => match lower_body(b, fuel - 1) {
            Some(x) => Some(SqlExpr::Subquery(x)),
            None => None,
        },
        ExprShape::InSubquery(b) => match lower_body(b, fuel - 1) {
            Some(x) => Some(SqlExpr::InSubquery(x)),
            None => None,
        },
        ExprShape::Exists(b) => match lower_body(b, fuel - 1) {
            Some(x) => Some(SqlExpr::Exists(x)),
            None => None,
        },
        ExprShape::Rest => Some(SqlExpr::Other),
        ExprShape::Other => Some(SqlExpr::Other),
    }
}

/// A query in the library's form, with its `WITH` tables; `None` past the
/// nesting limit.
fn lower_query(q: &Query) -> (r: Option<SqlQuery>)
    ensures
        r matches Some(x) ==> query_within(x),
{
    let fuel: u64 = 0xFFFF_FFFF_FFFF_FFFF;
    let (parts, body) = query_parts(q);
    let mut ctes: Vec<SqlCte> = Vec::new();
    let mut i: usize = 0;
    while i < parts.len()
        invariant
            i <= parts.len(),
            fuel == 0xFFFF_FFFF_FFFF_FFFFu64,
            ctes.len() == i,
            forall|j: int| 0 <= j < ctes.len() ==> set_within(#[trigger] ctes@[j].body, lowering_limit()),
        decreases parts.len() - i,
    {
        let (name, b) = &parts[i];
        match lower_set(b, fuel) {
            Some(x) => ctes.push(SqlCte { name: name.clone(), body: x }),
            None => {
                return None;
            },
        }
        i += 1;
    }
    match lower_set(body, fuel) {
        Some(x) => Some(SqlQuery { ctes, body: x }),
        None => None,
    }
}

/// A statement in the library's form. The nesting limit is out of reach of
/// any tree in memory; a statement beyond it would read as `Other`.
fn lower_statement(s: &Statement) -> (r: SqlStatement)
    ensures
        statement_within(r),
{
    match statement_shape(s) {
        StatementShape::Query(q) => match lower_query(q) {
            Some(x) => SqlStatement::Query(x),
            None => SqlStatement::Other,
        },
        StatementShape::CreateTable(Some(q)) => match lower_query(q) {
            Some(x) => SqlStatement::CreateTable(Some(x)),
            None => SqlStatement::Other,
        },
        StatementShape::CreateTable(None) => SqlStatement::CreateTable(None),
        StatementShape::Other => SqlStatement::Other,
    }
}

/// Reads SQL text into statements: the statements `sqlparser` parses it
/// to, or `Err(Parse)` exactly when `sqlparser` rejects it.
pub fn parse_statements(sql: &str) -> (r: Result<Vec<SqlStatement>, SqlError>)
    ensures
        match r {
            Ok(v) => sql_parsed(sql@) == Some(v@),
            Err(_) => sql_parsed(sql@) is None,
        },
{
    match parse_sql(sql) {
        Ok(v) => Ok(v),
        Err(e) => Err(SqlError::Parse(parse_error_text(&e))),
    }
}

} // verus!
