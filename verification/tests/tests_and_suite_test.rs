use openpipe_engine::json::JsonValue;
use openpipe_engine::project::{Profile, Project, RawModel, RawProject, Source, SourceTable, TargetConfig, Test};
use openpipe_engine::service::{compile_tests, get_test_suite, test_type_name, RequestError};
use openpipe_engine::test_runner::{
    compile_test, resolve_model_table, TestError, TestResult, TestStatus, TestSuiteResult,
};

fn s(x: &str) -> String {
    x.to_string()
}

fn project(tests: Vec<JsonValue>) -> Project {
    let raw = RawProject {
        name: None,
        profile: Profile {
            target: s("dev"),
            outputs: vec![(
                s("dev"),
                TargetConfig { engine_type: s("trino"), catalog: None, schema: None, threads: Some(4) },
            )],
        },
        models: Some(vec![
            RawModel { name: s("orders"), config: None, python_source: None, sql_source: Some(s("SELECT 1")) },
            RawModel { name: s("customers"), config: None, python_source: None, sql_source: Some(s("SELECT 2")) },
        ]),
        sources: Some(vec![Source {
            name: s("raw"),
            schema: None,
            database: None,
            tables: vec![SourceTable { name: s("events"), identifier: Some(s("events_v1")), columns: None, freshness: None }],
        }]),
        tests: Some(tests),
    };
    Project::load("/p", raw).unwrap()
}

fn test_def(name: &str, model: &str, column: Option<&str>, extra: Vec<(&str, JsonValue)>) -> JsonValue {
    let mut members = vec![(s("name"), JsonValue::Str(s(name))), (s("model_name"), JsonValue::Str(s(model)))];
    if let Some(c) = column {
        members.push((s("column_name"), JsonValue::Str(s(c))));
    }
    for (k, v) in extra {
        members.push((s(k), v));
    }
    JsonValue::Object(members)
}

fn t(ty: &str) -> (&'static str, JsonValue) {
    ("type", JsonValue::Str(s(ty)))
}

#[test]
fn not_null_and_unique_tests() {
    let p = project(vec![
        test_def("nn", "orders", Some("id"), vec![t("not_null")]),
        test_def("uq", "orders", None, vec![t("unique")]),
    ]);
    assert_eq!(
        compile_test(&p.tests[0], &p).unwrap(),
        "SELECT COUNT(*) AS failures FROM openpipe.analytics.orders WHERE id IS NULL"
    );
    assert_eq!(
        compile_test(&p.tests[1], &p).unwrap(),
        "SELECT COUNT(*) AS failures FROM (SELECT id FROM openpipe.analytics.orders GROUP BY id HAVING COUNT(*) > 1) sub"
    );
}

#[test]
fn accepted_values_are_quoted() {
    let vals = JsonValue::Array(vec![JsonValue::Str(s("a")), JsonValue::Str(s("it's"))]);
    let p = project(vec![test_def("av", "orders", Some("status"), vec![t("accepted_values"), ("values", vals)])]);
    assert_eq!(
        compile_test(&p.tests[0], &p).unwrap(),
        "SELECT COUNT(*) AS failures FROM openpipe.analytics.orders WHERE status NOT IN ('a', 'it''s')"
    );
}

#[test]
fn relationships_and_custom_tests() {
    let p = project(vec![
        test_def(
            "rel",
            "orders",
            Some("customer_id"),
            vec![t("relationships"), ("to", JsonValue::Str(s("customers"))), ("field", JsonValue::Str(s("id")))],
        ),
        test_def("cu", "orders", None, vec![t("custom"), ("sql", JsonValue::Str(s("SELECT * FROM x WHERE y < 0")))]),
    ]);
    assert_eq!(
        compile_test(&p.tests[0], &p).unwrap(),
        "SELECT COUNT(*) AS failures FROM openpipe.analytics.orders t LEFT JOIN openpipe.analytics.customers ref ON t.customer_id = ref.id WHERE ref.id IS NULL AND t.customer_id IS NOT NULL"
    );
    assert_eq!(
        compile_test(&p.tests[1], &p).unwrap(),
        "SELECT COUNT(*) AS failures FROM (SELECT * FROM x WHERE y < 0) sub"
    );
}

#[test]
fn unknown_type_is_an_error() {
    let p = project(vec![test_def("bad", "orders", None, vec![t("mystery")])]);
    let e = compile_test(&p.tests[0], &p).unwrap_err();
    assert!(matches!(e, TestError::UnknownType { ref test } if test == "bad"));
    assert_eq!(e.message(), "Unknown test type for 'bad'");
}

#[test]
fn source_tables_resolve() {
    let p = project(vec![]);
    assert_eq!(resolve_model_table("source:raw.events", &p), "raw.events_v1");
    assert_eq!(resolve_model_table("source:raw.other", &p), "raw.other");
    assert_eq!(resolve_model_table("source:nope.events", &p), "source:nope.events");
    assert_eq!(resolve_model_table("source:raw", &p), "source:raw");
    assert_eq!(resolve_model_table("source:source:raw.events", &p), "raw.events_v1");
    assert_eq!(resolve_model_table("customers", &p), "openpipe.analytics.customers");
}

#[test]
fn suite_counts_outcomes() {
    let p = project(vec![
        test_def("nn", "orders", Some("id"), vec![t("not_null")]),
        test_def("bad", "orders", None, vec![t("mystery")]),
        test_def("none", "orders", None, vec![]),
    ]);
    let suite = get_test_suite(&p);
    assert_eq!(suite.summary.total, 3);
    assert_eq!(suite.summary.passed, 1);
    assert_eq!(suite.summary.errors, 2);
    assert_eq!(suite.summary.failed, 0);
    assert_eq!(suite.summary.skipped, 0);
    assert_eq!(suite.results[0].status, TestStatus::Pass);
    assert_eq!(
        suite.results[0].execution_sql.as_deref(),
        Some("SELECT COUNT(*) AS failures FROM openpipe.analytics.orders WHERE id IS NULL")
    );
    assert_eq!(suite.results[1].status, TestStatus::Error);
    assert_eq!(suite.results[1].error_message.as_deref(), Some("Compilation error: Unknown test type for 'bad'"));
    assert_eq!(suite.results[1].test_type, "mystery");
    assert_eq!(suite.results[2].test_type, "unknown");
    assert_eq!(suite.results[2].execution_sql, None);
}

#[test]
fn summary_of_given_results() {
    let r = |st: TestStatus| TestResult {
        test_name: s("x"),
        model_name: s("m"),
        test_type: s("unique"),
        column_name: None,
        status: st,
        error_message: None,
        execution_sql: None,
    };
    let suite = TestSuiteResult::new(vec![r(TestStatus::Pass), r(TestStatus::Fail), r(TestStatus::Skipped), r(TestStatus::Pass)]);
    assert_eq!(suite.summary.total, 4);
    assert_eq!(suite.summary.passed, 2);
    assert_eq!(suite.summary.failed, 1);
    assert_eq!(suite.summary.skipped, 1);
    assert_eq!(suite.summary.errors, 0);
    let empty = TestSuiteResult::new(vec![]);
    assert_eq!(empty.summary.total, 0);
}

#[test]
fn compile_tests_by_name_and_first_failure() {
    let p = project(vec![
        test_def("a", "orders", None, vec![t("unique")]),
        test_def("b", "orders", None, vec![t("mystery")]),
        test_def("a", "customers", None, vec![t("not_null")]),
    ]);
    let entries = compile_tests(&p, Some("a")).unwrap();
    assert_eq!(entries.len(), 2);
    assert_eq!(entries[1].model_name, "customers");
    assert_eq!(entries[1].test_type, "not_null");
    assert_eq!(entries[1].compiled_sql, "SELECT COUNT(*) AS failures FROM openpipe.analytics.customers WHERE id IS NULL");
    let err = compile_tests(&p, None).unwrap_err();
    assert!(matches!(err, RequestError::TestFailed { ref test, .. } if test == "b"));
    assert_eq!(err.message(), "Test 'b' error: Unknown test type for 'b'");
    assert_eq!(compile_tests(&p, Some("zzz")).unwrap().len(), 0);
}

#[test]
fn test_type_name_reads_type_entry() {
    let p = project(vec![test_def("a", "orders", None, vec![("type", JsonValue::Bool(true))])]);
    let test: &Test = &p.tests[0];
    assert_eq!(test_type_name(test), "unknown");
}
