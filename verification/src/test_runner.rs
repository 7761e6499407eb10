//! Compiling data tests to SQL that counts failing rows, and summarising
//! test outcomes.
use vstd::prelude::*;
use crate::compiler::{cat, ref_needs_target, resolve_ref_name, resolve_ref_spec};
use crate::project::{
    Project, Source, SourceTable, Test, TestType, TestTypeV, TestV, or_default, test_type_spec,
};
use crate::search::{first_where, lemma_first_where_found, lemma_first_where_none};
use crate::text::{
    join_with, chars_of, string_of, matches_at, matches_at_exec, replace_exec, replace_seq, split_exec, split_seq,
    trim_start_matches, trim_start_matches_exec,
};

verus! {

/// Outcome of a data test.
#[derive(Clone, Copy, Debug, PartialEq, Eq, Structural)]
pub enum TestStatus {
    Pass,
    Fail,
    Error,
    Skipped,
}

/// The outcome of one test.
#[derive(Clone, Debug)]
pub struct TestResult {
    pub test_name: String,
    pub model_name: String,
    pub test_type: String,
    pub column_name: Option<String>,
    pub status: TestStatus,
    pub error_message: Option<String>,
    pub execution_sql: Option<String>,
}

/// Counts of test outcomes.
#[derive(Clone, Debug)]
pub struct TestSummary {
    pub total: usize,
    pub passed: usize,
    pub failed: usize,
    pub errors: usize,
    pub skipped: usize,
}

/// The outcomes of a test run with their counts.
#[derive(Clone, Debug)]
pub struct TestSuiteResult {
    pub results: Vec<TestResult>,
    pub summary: TestSummary,
}

/// Why a test could not be compiled.
#[derive(Debug)]
pub enum TestError {
    /// The test's `type` entry is missing, not a string, or unknown.
    UnknownType { test: String },
}

pub open spec fn test_error_text(e: TestError) -> Seq<char> {
    match e {
        TestError::UnknownType { test } => "Unknown test type for '"@ + test@ + "'"@,
    }
}

impl TestError {
    /// The error's text.
    pub fn message(&self) -> (r: String)
        ensures
            r@ == test_error_text(*self),
    {
        match self {
            TestError::UnknownType { test } => {
                let a = chars_of("Unknown test type for '");
                let t = chars_of(test.as_str());
                let b = chars_of("'");
                let r = cat(&vec![&a, &t, &b]);
                proof {
                    reveal_with_fuel(Seq::fold_left, 4);
                }
                string_of(&r)
            },
        }
    }
}

/// The condition "is the source called `n`".
pub open spec fn source_named(n: Seq<char>) -> spec_fn(Source) -> bool {
    |s: Source| s.name@ == n
}

/// The condition "is the table called `n`".
pub open spec fn table_named(n: Seq<char>) -> spec_fn(SourceTable) -> bool {
    |t: SourceTable| t.name@ == n
}

/// A name that designates a source table: it starts with `source:`.
pub open spec fn is_source_name(name: Seq<char>) -> bool {
    matches_at(name, 0, "source:"@)
}

/// The relation a test's model name designates. `source:src.table` names a
/// table of the first source called `src`: its relation when the source has
/// such a table, `schema.table` when it does not, and the name itself when no
/// source is called `src` or the name does not have two dot-separated parts.
/// Any other name is resolved as a model reference.
pub open spec fn model_table_spec(p: Project, name: Seq<char>) -> Seq<char> {
    if is_source_name(name) {
        let parts = split_seq(trim_start_matches(name, "source:"@), '.');
        if parts.len() == 2 {
            match first_where(p.sources@, source_named(parts[0])) {
                Some(i) => {
                    let s = p.sources@[i];
                    let schema = or_default(s.schema, s.name@);
                    match first_where(s.tables@, table_named(parts[1])) {
                        Some(j) => schema + "."@ + or_default(
                            s.tables@[j].identifier,
                            s.tables@[j].name@,
                        ),
                        None => schema + "."@ + parts[1],
                    }
                },
                None => name,
            }
        } else {
            name
        }
    } else {
        resolve_ref_spec(p, name)
    }
}

/// Whether resolving the name reads the selected target.
pub open spec fn table_needs_target(p: Project, name: Seq<char>) -> bool {
    !is_source_name(name) && ref_needs_target(p, name)
}

fn opt_or(o: &Option<String>, d: &String) -> (r: Vec<char>)
    ensures
        r@ == or_default(*o, d@),
{
    match o {
        Some(x) => chars_of(x.as_str()),
        None => chars_of(d.as_str()),
    }
}

/// The relation a test's model name designates.
pub fn resolve_model_table(model_name: &str, project: &Project) -> (r: String)
    requires
        table_needs_target(*project, model_name@) ==> project.has_target(),
    ensures
        r@ == model_table_spec(*project, model_name@),
{
    let name = chars_of(model_name);
    let prefix = chars_of("source:");
    if !matches_at_exec(&name, 0, &prefix) {
        return resolve_ref_name(model_name, project);
    }
    let rest = trim_start_matches_exec(&name, &prefix);
    let parts = split_exec(&rest, '.');
    let ghost pv = split_seq(trim_start_matches(model_name@, "source:"@), '.');
    assert(parts@.map_values(|v: Vec<char>| v@) == pv);
    if parts.len() != 2 {
        return String::from_str(model_name);
    }
    assert(pv[0] == parts@[0]@ && pv[1] == parts@[1]@);
    let a = string_of(&parts[0]);
    let b = string_of(&parts[1]);
    let ghost fs = source_named(pv[0]);
    let mut i: usize = 0;
    while i < project.sources.len()
        invariant
            i <= project.sources.len(),
            pv.len() == 2,
            parts.len() == 2,
            a@ == pv[0],
            b@ == pv[1],
            parts@[1]@ == pv[1],
            pv == split_seq(trim_start_matches(model_name@, "source:"@), '.'),
            matches_at(model_name@, 0, "source:"@),
            fs == source_named(pv[0]),
            forall|j: int| 0 <= j < i ==> !fs(#[trigger] project.sources@[j]),
        decreases project.sources.len() - i,
    {
        let s = &project.sources[i];
        if crate::json::str_eq(s.name.as_str(), a.as_str()) {
            proof {
                lemma_first_where_found(project.sources@, fs, i as int);
            }
            let schema = opt_or(&s.schema, &s.name);
            let dot = chars_of(".");
            let ghost ft = table_named(pv[1]);
            let mut j: usize = 0;
            while j < s.tables.len()
                invariant
                    j <= s.tables.len(),
                    b@ == pv[1],
                    pv.len() == 2,
                    pv == split_seq(trim_start_matches(model_name@, "source:"@), '.'),
                    matches_at(model_name@, 0, "source:"@),
                    i < project.sources.len(),
                    *s == project.sources@[i as int],
                    first_where(project.sources@, source_named(pv[0])) == Some(i as int),
                    schema@ == or_default(s.schema, s.name@),
                    dot@ == "."@,
                    ft == table_named(pv[1]),
                    forall|k: int| 0 <= k < j ==> !ft(#[trigger] s.tables@[k]),
                decreases s.tables.len() - j,
            {
                let t = &s.tables[j];
                if crate::json::str_eq(t.name.as_str(), b.as_str()) {
                    proof {
                        lemma_first_where_found(s.tables@, ft, j as int);
                        reveal_with_fuel(Seq::fold_left, 4);
                    }
                    let ident = opt_or(&t.identifier, &t.name);
                    return string_of(&cat(&vec![&schema, &dot, &ident]));
                }
                j += 1;
            }
            proof {
                lemma_first_where_none(s.tables@, ft);
                reveal_with_fuel(Seq::fold_left, 4);
            }
            return string_of(&cat(&vec![&schema, &dot, &parts[1]]));
        }
        i += 1;
    }
    proof {
        lemma_first_where_none(project.sources@, fs);
    }
    String::from_str(model_name)
}

} // verus!

verus! {

/// A SQL string literal: quoted, with each quote doubled.
pub open spec fn sql_quote(v: Seq<char>) -> Seq<char> {
    "'"@ + replace_seq(v, "'"@, "''"@) + "'"@
}

/// The first words of every compiled test.
pub open spec fn count_prefix() -> Seq<char> {
    "SELECT COUNT(*) AS failures FROM "@
}

/// The SQL a test of kind `ty` compiles to: a query counting the rows that
/// fail it. The column defaults to `id`.
#[verifier::opaque]
pub open spec fn test_sql_spec(p: Project, t: TestV, ty: TestTypeV) -> Seq<char> {
    let relation = model_table_spec(p, t.model_name);
    let col = match t.column_name {
        Some(c) => c,
        None => "id"@,
    };
    match ty {
        TestTypeV::NotNull => count_prefix() + relation + " WHERE "@ + col + " IS NULL"@,
        TestTypeV::Unique => count_prefix() + "(SELECT "@ + col + " FROM "@ + relation + " GROUP BY "@
            + col + " HAVING COUNT(*) > 1) sub"@,
        TestTypeV::AcceptedValues(vs) => count_prefix() + relation + " WHERE "@ + col + " NOT IN ("@
            + join_with(vs.map_values(|v: Seq<char>| sql_quote(v)), ", "@) + ")"@,
        TestTypeV::Relationships(to, field) => count_prefix() + relation + " t LEFT JOIN "@
            + model_table_spec(p, to) + " ref ON t."@ + col + " = ref."@ + field + " WHERE ref."@
            + field + " IS NULL AND t."@ + col + " IS NOT NULL"@,
        TestTypeV::Custom(sql) => count_prefix() + "("@ + sql + ") sub"@,
    }
}

/// Whether compiling the test reads the selected target.
pub open spec fn test_needs_target(p: Project, t: TestV) -> bool {
    match test_type_spec(t.type_specific) {
        Some(ty) => table_needs_target(p, t.model_name) || (ty matches TestTypeV::Relationships(to, _)
            && table_needs_target(p, to)),
        None => false,
    }
}

/// The quoted values joined with `, `.
fn quoted_list(values: &Vec<String>) -> (r: Vec<char>)
    ensures
        r@ == join_with(crate::project::strings_view(values@).map_values(|v: Seq<char>| sql_quote(v)), ", "@),
{
    let ghost items = crate::project::strings_view(values@).map_values(|v: Seq<char>| sql_quote(v));
    let q = chars_of("'");
    let qq = chars_of("''");
    let sep = chars_of(", ");
    proof {
        reveal_strlit("'");
    }
    let mut out: Vec<char> = Vec::new();
    let mut i: usize = 0;
    while i < values.len()
        invariant
            i <= values.len(),
            items == crate::project::strings_view(values@).map_values(|v: Seq<char>| sql_quote(v)),
            q@ == "'"@,
            qq@ == "''"@,
            sep@ == ", "@,
            q@.len() > 0,
            out@ == join_with(items.take(i as int), ", "@),
        decreases values.len() - i,
    {
        let v = chars_of(values[i].as_str());
        let body = replace_exec(&v, &q, &qq);
        let item = cat(&vec![&q, &body, &q]);
        proof {
            reveal_with_fuel(Seq::fold_left, 4);
        }
        assert(item@ == items[i as int]);
        let ghost before = out@;
        if i > 0 {
            crate::text::push_all(&mut out, &sep);
        }
        crate::text::push_all(&mut out, &item);
        assert(items.take(i + 1).drop_last() =~= items.take(i as int));
        assert(out@ == join_with(items.take(i + 1), ", "@)) by {
            if i == 0 {
                assert(before =~= Seq::<char>::empty());
                assert(out@ =~= item@);
            }
        }
        i += 1;
    }
    assert(items.take(values.len() as int) =~= items);
    out
}

/// Compiles a data test to a query counting its failing rows.
pub fn compile_test(test: &Test, project: &Project) -> (r: Result<String, TestError>)
    requires
        test_needs_target(*project, test@) ==> project.has_target(),
    ensures
        match test_type_spec(test@.type_specific) {
            Some(ty) => r matches Ok(s) && s@ == test_sql_spec(*project, test@, ty),
            None => r matches Err(TestError::UnknownType { test: n }) && n@ == test.name@,
        },
        r matches Ok(s) ==> matches_at(s@, 0, count_prefix()),
{
    let test_type = match test.test_type() {
        Some(t) => t,
        None => {
            return Err(TestError::UnknownType { test: test.name.clone() });
        },
    };
    let relation = chars_of(resolve_model_table(test.model_name.as_str(), project).as_str());
    let col = match &test.column_name {
        Some(c) => chars_of(c.as_str()),
        None => chars_of("id"),
    };
    let head = chars_of("SELECT COUNT(*) AS failures FROM ");
    let out = match &test_type {
        TestType::NotNull => {
            let a = chars_of(" WHERE ");
            let b = chars_of(" IS NULL");
            cat(&vec![&head, &relation, &a, &col, &b])
        },
        TestType::Unique => {
            let a = chars_of("(SELECT ");
            let b = chars_of(" FROM ");
            let c = chars_of(" GROUP BY ");
            let d = chars_of(" HAVING COUNT(*) > 1) sub");
            cat(&vec![&head, &a, &col, &b, &relation, &c, &col, &d])
        },
        TestType::AcceptedValues { values } => {
            let a = chars_of(" WHERE ");
            let b = chars_of(" NOT IN (");
            let list = quoted_list(values);
            let c = chars_of(")");
            cat(&vec![&head, &relation, &a, &col, &b, &list, &c])
        },
        TestType::Relationships { to, field } => {
            let to_rel = chars_of(resolve_model_table(to.as_str(), project).as_str());
            let f = chars_of(field.as_str());
            let a = chars_of(" t LEFT JOIN ");
            let b = chars_of(" ref ON t.");
            let c = chars_of(" = ref.");
            let d = chars_of(" WHERE ref.");
            let e = chars_of(" IS NULL AND t.");
            let g = chars_of(" IS NOT NULL");
            cat(&vec![&head, &relation, &a, &to_rel, &b, &col, &c, &f, &d, &f, &e, &col, &g])
        },
        TestType::Custom { sql } => {
            let a = chars_of("(");
            let s = chars_of(sql.as_str());
            let b = chars_of(") sub");
            cat(&vec![&head, &a, &s, &b])
        },
    };
    proof {
        reveal(test_sql_spec);
        reveal_with_fuel(Seq::fold_left, 14);
        assert(matches_at(out@, 0, count_prefix())) by {
            assert(out@.subrange(0, count_prefix().len() as int) =~= count_prefix());
        }
    }
    Ok(string_of(&out))
}

} // verus!

verus! {

/// How many of the results have status `st`.
pub open spec fn status_count(s: Seq<TestResult>, st: TestStatus) -> nat
    decreases s.len(),
{
    if s.len() == 0 {
        0
    } else {
        status_count(s.drop_last(), st) + if s.last().status == st {
            1nat
        } else {
            0nat
        }
    }
}

/// Every result has one of the four statuses, so the four counts add up to
/// the number of results.
pub proof fn lemma_status_counts_total(s: Seq<TestResult>)
    ensures
        status_count(s, TestStatus::Pass) + status_count(s, TestStatus::Fail) + status_count(
            s,
            TestStatus::Error,
        ) + status_count(s, TestStatus::Skipped) == s.len(),
    decreases s.len(),
{
    if s.len() > 0 {
        lemma_status_counts_total(s.drop_last());
    }
}

impl TestSuiteResult {
    /// The results with their counts.
    pub fn new(results: Vec<TestResult>) -> (r: TestSuiteResult)
        ensures
            r.results@ == results@,
            r.summary.total == results.len(),
            r.summary.passed == status_count(results@, TestStatus::Pass),
            r.summary.failed == status_count(results@, TestStatus::Fail),
            r.summary.errors == status_count(results@, TestStatus::Error),
            r.summary.skipped == status_count(results@, TestStatus::Skipped),
            r.summary.passed + r.summary.failed + r.summary.errors + r.summary.skipped
                == r.summary.total,
    {
        let mut passed: usize = 0;
        let mut failed: usize = 0;
        let mut errors: usize = 0;
        let mut skipped: usize = 0;
        let mut i: usize = 0;
        while i < results.len()
            invariant
                i <= results.len(),
                passed == status_count(results@.take(i as int), TestStatus::Pass),
                failed == status_count(results@.take(i as int), TestStatus::Fail),
                errors == status_count(results@.take(i as int), TestStatus::Error),
                skipped == status_count(results@.take(i as int), TestStatus::Skipped),
            decreases results.len() - i,
        {
            proof {
                assert(results@.take(i + 1).drop_last() =~= results@.take(i as int));
                lemma_status_counts_total(results@.take(i as int));
            }
            match results[i].status {
                TestStatus::Pass => passed += 1,
                TestStatus::Fail => failed += 1,
                TestStatus::Error => errors += 1,
                TestStatus::Skipped => skipped += 1,
            }
            i += 1;
        }
        proof {
            assert(results@.take(results.len() as int) =~= results@);
            lemma_status_counts_total(results@);
        }
        let total = results.len();
        TestSuiteResult { results, summary: TestSummary { total, passed, failed, errors, skipped } }
    }
}

} // verus!

verus! {

/// The mathematical form of a [`TestResult`].
pub struct TestResultV {
    pub test_name: Seq<char>,
    pub model_name: Seq<char>,
    pub test_type: Seq<char>,
    pub column_name: Option<Seq<char>>,
    pub status: TestStatus,
    pub error_message: Option<Seq<char>>,
    pub execution_sql: Option<Seq<char>>,
}

impl View for TestResult {
    type V = TestResultV;

    open spec fn view(&self) -> TestResultV {
        TestResultV {
            test_name: self.test_name@,
            model_name: self.model_name@,
            test_type: self.test_type@,
            column_name: crate::project::opt_view(self.column_name),
            status: self.status,
            error_message: crate::project::opt_view(self.error_message),
            execution_sql: crate::project::opt_view(self.execution_sql),
        }
    }
}

pub open spec fn results_view(v: Seq<TestResult>) -> Seq<TestResultV> {
    v.map_values(|r: TestResult| r@)
}

} // verus!

verus! {

/// The query each kind of test compiles to, over the test's table `rel` (the
/// table of the model or source it names) and its column `col` (`id` when it
/// names none): the rows counted as failures are those with a null column
/// (`not_null`), the column values that occur more than once (`unique`), the
/// rows whose column is outside the accepted values, each quoted
/// (`accepted_values`), the rows whose non-null column has no match in the
/// referenced table's field (`relationships`), and the rows of the custom
/// query (`custom`).
pub proof fn lemma_test_queries(p: Project, t: TestV, ty: TestTypeV)
    ensures
        ({
            let rel = model_table_spec(p, t.model_name);
            let col = match t.column_name {
                Some(c) => c,
                None => "id"@,
            };
            let q = test_sql_spec(p, t, ty);
            let head = "SELECT COUNT(*) AS failures FROM "@;
            &&& ty is NotNull ==> q == head + rel + " WHERE "@ + col + " IS NULL"@
            &&& ty is Unique ==> q == head + "(SELECT "@ + col + " FROM "@ + rel + " GROUP BY "@ + col
                + " HAVING COUNT(*) > 1) sub"@
            &&& ty matches TestTypeV::AcceptedValues(vs) ==> q == head + rel + " WHERE "@ + col
                + " NOT IN ("@ + join_with(vs.map_values(|v: Seq<char>| sql_quote(v)), ", "@) + ")"@
            &&& ty matches TestTypeV::Relationships(to, field) ==> q == head + rel + " t LEFT JOIN "@
                + model_table_spec(p, to) + " ref ON t."@ + col + " = ref."@ + field + " WHERE ref."@
                + field + " IS NULL AND t."@ + col + " IS NOT NULL"@
            &&& ty matches TestTypeV::Custom(sql) ==> q == head + "("@ + sql + ") sub"@
        }),
{
    reveal(test_sql_spec);
}

} // verus!
