use openpipe_engine::json::JsonValue;
use openpipe_engine::project::{
    extract_refs_and_sources_python, ModelLanguage, Profile, Project, ProjectError, RawModel,
    RawProject, Source, SourceColumn, SourceTable, TargetConfig, Test, TestType,
};

fn s(x: &str) -> String {
    x.to_string()
}

fn profile() -> Profile {
    Profile {
        target: s("dev"),
        outputs: vec![(s("dev"), TargetConfig { engine_type: s("spark"), catalog: None, schema: None, threads: None })],
    }
}

fn raw(models: Vec<RawModel>, sources: Vec<Source>, tests: Option<Vec<JsonValue>>) -> RawProject {
    RawProject { name: None, profile: profile(), models: Some(models), sources: Some(sources), tests }
}

fn sql(name: &str, text: &str) -> RawModel {
    RawModel { name: s(name), config: None, python_source: None, sql_source: Some(s(text)) }
}

#[test]
fn load_builds_models_and_maps() {
    let p = Project::load(
        "/proj",
        raw(
            vec![
                sql("a", "SELECT * FROM {{ source('raw', 'e') }}"),
                sql("b", "SELECT * FROM {{ ref('a') }} JOIN {{ ref('zz') }}"),
                RawModel { name: s("c"), config: None, python_source: None, sql_source: None },
            ],
            vec![Source { name: s("raw"), schema: None, database: None, tables: vec![] }],
            None,
        ),
    )
    .unwrap();
    assert_eq!(p.name, "openpipe_project");
    assert_eq!(p.project_path, "/proj");
    assert_eq!(p.models.len(), 3);
    assert_eq!(p.models[0].file_path, "/proj/models/a.sql");
    assert_eq!(p.models[1].refs, vec![s("a"), s("zz")]);
    assert_eq!(p.models[0].sources, vec![s("raw")]);
    assert_eq!(p.models[2].language, ModelLanguage::Sql);
    assert_eq!(p.models[2].raw_sql, "");
    assert_eq!(p.model_map, vec![(s("a"), 0), (s("b"), 1), (s("c"), 2)]);
    assert_eq!(p.source_map, vec![(s("raw"), 0)]);
    let edges = p.resolve_refs();
    let triples: Vec<(String, String, String)> =
        edges.iter().map(|e| (e.from.clone(), e.to.clone(), e.edge_type.clone())).collect();
    assert_eq!(
        triples,
        vec![(s("source:raw"), s("a"), s("source")), (s("a"), s("b"), s("ref"))]
    );
}

#[test]
fn python_models_read_dbt_calls() {
    let (refs, sources) = extract_refs_and_sources_python("x = dbt.ref(\"a\")\ny = dbt.source('raw', \"e\")");
    assert_eq!(refs, vec![s("a")]);
    assert_eq!(sources, vec![s("raw")]);
    let p = Project::load(
        "/q",
        raw(vec![RawModel { name: s("py"), config: None, python_source: Some(s("r = dbt.ref('a')")), sql_source: Some(s("x")) }], vec![], None),
    )
    .unwrap();
    assert_eq!(p.models[0].language, ModelLanguage::Python);
    assert_eq!(p.models[0].file_path, "/q/models/py.py");
    assert_eq!(p.models[0].raw_sql, "");
    assert_eq!(p.models[0].refs, vec![s("a")]);
}

#[test]
fn tests_are_read_and_source_tests_added() {
    let column_tests = vec![
        vec![(s("not_null"), JsonValue::Null)],
        vec![(
            s("accepted_values"),
            JsonValue::Object(vec![(s("values"), JsonValue::Array(vec![JsonValue::Str(s("x"))]))]),
        )],
    ];
    let src = Source {
        name: s("raw"),
        schema: None,
        database: None,
        tables: vec![SourceTable {
            name: s("orders"),
            identifier: None,
            columns: Some(vec![SourceColumn { name: s("status"), data_type: None, description: None, tests: column_tests }]),
            freshness: None,
        }],
    };
    let declared = JsonValue::Object(vec![
        (s("name"), JsonValue::Str(s("t1"))),
        (s("model_name"), JsonValue::Str(s("a"))),
        (s("type"), JsonValue::Str(s("unique"))),
    ]);
    let p = Project::load("/p", raw(vec![sql("a", "SELECT 1")], vec![src], Some(vec![declared]))).unwrap();
    assert_eq!(p.tests.len(), 3);
    assert_eq!(p.tests[0].name, "t1");
    assert!(matches!(p.tests[0].test_type(), Some(TestType::Unique)));
    assert_eq!(p.tests[1].name, "raw_orders_not_null");
    assert_eq!(p.tests[1].model_name, "source:raw.orders");
    assert_eq!(p.tests[1].column_name.as_deref(), Some("status"));
    assert!(matches!(p.tests[1].test_type(), Some(TestType::NotNull)));
    match p.tests[2].test_type() {
        Some(TestType::AcceptedValues { values }) => assert_eq!(values, vec![s("x")]),
        other => panic!("unexpected {:?}", other),
    }
}

#[test]
fn invalid_test_definitions() {
    let e = Test::from_value(&JsonValue::Str(s("x"))).unwrap_err();
    assert!(matches!(e, ProjectError::TestNotObject));
    assert_eq!(e.message(), "Test must be an object");
    let e = Test::from_value(&JsonValue::Object(vec![(s("model_name"), JsonValue::Str(s("m")))])).unwrap_err();
    assert_eq!(e.message(), "Test missing 'name'");
    let e = Test::from_value(&JsonValue::Object(vec![(s("name"), JsonValue::Str(s("n")))])).unwrap_err();
    assert_eq!(e.message(), "Test missing 'model_name'");
    let bad = Project::load("/p", raw(vec![], vec![], Some(vec![JsonValue::Null])));
    assert!(matches!(bad, Err(ProjectError::TestNotObject)));
}

#[test]
fn test_definition_keeps_other_members() {
    let t = Test::from_value(&JsonValue::Object(vec![
        (s("name"), JsonValue::Str(s("n"))),
        (s("model_name"), JsonValue::Str(s("m"))),
        (s("column_name"), JsonValue::Number(s("3"))),
        (s("type"), JsonValue::Str(s("relationships"))),
        (s("to"), JsonValue::Str(s("other"))),
    ]))
    .unwrap();
    assert_eq!(t.column_name, None);
    assert_eq!(t.type_specific.len(), 2);
    match t.test_type() {
        Some(TestType::Relationships { to, field }) => {
            assert_eq!(to, "other");
            assert_eq!(field, "");
        }
        other => panic!("unexpected {:?}", other),
    }
}
