use openpipe_engine::compiler::Engine;
use openpipe_engine::json::JsonValue;
use openpipe_engine::openlineage::{
    build_event, generate_events, sort_unique_exec, str_less, OpenLineageError,
};
use openpipe_engine::project::{Profile, Project, RawModel, RawProject, TargetConfig};
use openpipe_engine::service::{compile, get_lineage, get_model_types, RequestError};

fn s(x: &str) -> String {
    x.to_string()
}

fn project(models: Vec<(&str, &str)>) -> Project {
    let raw = RawProject {
        name: Some(s("p")),
        profile: Profile {
            target: s("prod"),
            outputs: vec![(s("prod"), TargetConfig { engine_type: s("spark"), catalog: None, schema: Some(s("mart")), threads: None })],
        },
        models: Some(
            models
                .into_iter()
                .map(|(n, sql)| RawModel { name: s(n), config: None, python_source: None, sql_source: Some(s(sql)) })
                .collect(),
        ),
        sources: None,
        tests: None,
    };
    Project::load("/p", raw).unwrap()
}

fn member<'a>(members: &'a [(String, JsonValue)], k: &str) -> &'a JsonValue {
    &members.iter().find(|(n, _)| n == k).unwrap().1
}

#[test]
fn string_order_and_sorting() {
    assert!(str_less("a", "b"));
    assert!(str_less("a", "ab"));
    assert!(!str_less("b", "a"));
    assert!(!str_less("a", "a"));
    assert!(str_less("Z", "a"));
    let v = vec![s("t2"), s("t1"), s("t2"), s("a")];
    assert_eq!(sort_unique_exec(&v), vec![s("a"), s("t1"), s("t2")]);
}

#[test]
fn one_event_per_model() {
    let p = project(vec![("a", "SELECT x FROM z JOIN y ON 1 = 1 JOIN z ON 2 = 2"), ("b", "SELECT 1 AS one")]);
    let mut engine = Engine::new();
    let evs = generate_events(&p, &mut engine).unwrap();
    assert_eq!(evs.events.len(), 2);
    let e = &evs.events[0];
    assert_eq!(e.event_type, "COMPLETE");
    assert_eq!(e.producer, "https://github.com/openingest/openpipe");
    assert_eq!(e.schema_url, "https://openlineage.io/spec/1-1-0/OpenLineage.json");
    assert_eq!(e.job.namespace, "openpipe");
    assert_eq!(e.job.name, "openpipe.mart.a");
    let names: Vec<&str> = e.inputs.iter().map(|d| d.name.as_str()).collect();
    assert_eq!(names, vec!["y", "z"]);
    assert!(e.inputs.iter().all(|d| d.namespace == "spark::lakehouse" && d.facets.is_none()));
    assert_eq!(e.outputs.len(), 1);
    assert_eq!(e.outputs[0].name, "openpipe.mart.a");
    assert!(!e.run.run_id.is_empty());
    assert_ne!(e.run.run_id, evs.events[1].run.run_id);
    let b = &evs.events[1];
    assert_eq!(b.inputs.len(), 1);
    assert_eq!(b.inputs[0].name, "unknown_input");
    assert!(engine.cached("a", false).is_some());
}

#[test]
fn event_facets() {
    let p = project(vec![("a", "SELECT x FROM t")]);
    let mut engine = Engine::new();
    let compiled = engine.compile_at(&p, &p.models[0], false, "t0").unwrap();
    let l = openpipe_engine::lineage::analyze_model_lineage(&p, &p.models[0], &compiled.compiled_sql).unwrap();
    let e = build_event(&p, &compiled, &l, s("run-1"), s("2024-01-01T00:00:00Z"));
    assert_eq!(e.run.run_id, "run-1");
    assert_eq!(e.event_time, "2024-01-01T00:00:00Z");
    let job_facets = e.job.facets.as_ref().unwrap();
    match member(job_facets, "sql") {
        JsonValue::Object(m) => assert!(matches!(member(m, "query"), JsonValue::Str(q) if q == "SELECT x FROM t")),
        _ => panic!("sql facet"),
    }
    let out = e.outputs[0].facets.as_ref().unwrap();
    let facet = match member(out, "columnLineage") {
        JsonValue::Object(m) => m,
        _ => panic!("facet"),
    };
    assert!(matches!(member(facet, "schema"), JsonValue::Null));
    let fields = match member(facet, "fields") {
        JsonValue::Object(m) => m,
        _ => panic!("fields"),
    };
    let x = match member(fields, "x") {
        JsonValue::Object(m) => m,
        _ => panic!("x"),
    };
    let inputs = match member(x, "inputFields") {
        JsonValue::Array(a) => a,
        _ => panic!("inputFields"),
    };
    assert_eq!(inputs.len(), 1);
    let input = match &inputs[0] {
        JsonValue::Object(m) => m,
        _ => panic!("input"),
    };
    assert!(matches!(member(input, "namespace"), JsonValue::Str(v) if v == "spark::lakehouse"));
    assert!(matches!(member(input, "name"), JsonValue::Str(v) if v == "t"));
    assert!(matches!(member(input, "field"), JsonValue::Str(v) if v == "x"));
    let ts = match member(input, "transformations") {
        JsonValue::Array(a) => a,
        _ => panic!("transformations"),
    };
    let t0 = match &ts[0] {
        JsonValue::Object(m) => m,
        _ => panic!("transformation"),
    };
    assert!(matches!(member(t0, "type"), JsonValue::Str(v) if v == "DIRECT"));
    assert!(matches!(member(t0, "subtype"), JsonValue::Str(v) if v == "IDENTITY"));
    assert!(matches!(member(t0, "description"), JsonValue::Null));
    assert!(matches!(member(t0, "masking"), JsonValue::Null));
}

#[test]
fn events_stop_at_unparsable_sql() {
    let p = project(vec![("bad", "SELEC oops")]);
    let mut engine = Engine::new();
    let e = generate_events(&p, &mut engine).unwrap_err();
    assert!(matches!(e, OpenLineageError::Lineage(_)));
    assert!(e.message().starts_with("SQL parse error for 'bad'"));
}

#[test]
fn compile_request_selects_models() {
    let p = project(vec![("a", "SELECT 1"), ("b", "SELECT * FROM {{ ref('a') }}")]);
    let mut engine = Engine::new();
    let all = compile(&mut engine, &p, None, false).unwrap();
    assert_eq!(all.models.len(), 2);
    assert_eq!(all.models[1].compiled_sql, "SELECT * FROM openpipe.mart.a");
    assert_eq!(all.dag_edges.len(), 1);
    assert_eq!(all.dag_edges[0].from, "a");
    assert_eq!(all.dag_edges[0].to, "b");
    assert_eq!(all.dag_edges[0].edge_type, "ref");
    let one = compile(&mut engine, &p, Some("b"), true).unwrap();
    assert_eq!(one.models.len(), 1);
    assert_eq!(one.models[0].name, "b");
    let missing = compile(&mut engine, &p, Some("zzz"), false).unwrap_err();
    assert!(missing.is_not_found());
    assert_eq!(missing.message(), "Model 'zzz' not found");
}

#[test]
fn compile_request_reports_render_errors() {
    let p = project(vec![("c", "{{ config(materialized='table') }}SELECT 1")]);
    let mut engine = Engine::new();
    let e = compile(&mut engine, &p, None, false).unwrap_err();
    assert!(matches!(e, RequestError::CompileFailed { ref model, .. } if model == "c"));
    assert!(!e.is_not_found());
    assert!(e.message().starts_with("Compile error for 'c': Template render error for 'c': "));
}

#[test]
fn lineage_request_covers_every_model() {
    let p = project(vec![("a", "SELECT x FROM t"), ("b", "SELECT y FROM {{ ref('a') }}")]);
    let mut engine = Engine::new();
    let l = get_lineage(&mut engine, &p).unwrap();
    assert_eq!(l.models.len(), 2);
    assert_eq!(l.models[1].input_datasets, vec![s("openpipe.mart.a")]);
}

#[test]
fn model_types() {
    let p = project(vec![("a", "SELECT 1")]);
    let types = get_model_types(&p);
    assert_eq!(types.len(), 1);
    assert_eq!(types[0].name, "a");
    assert_eq!(types[0].language, "sql");
    assert_eq!(types[0].materialization, "view");
}

#[test]
fn no_models_give_no_events() {
    let p = project(vec![]);
    let mut engine = Engine::new();
    let evs = generate_events(&p, &mut engine).unwrap();
    assert!(evs.events.is_empty());
    assert!(get_lineage(&mut engine, &p).unwrap().models.is_empty());
}

#[test]
fn events_stop_at_the_first_failing_model() {
    let p = project(vec![("a", "SELECT 1 AS one"), ("bad", "SELEC oops"), ("c", "SELECT 2 AS two")]);
    let mut engine = Engine::new();
    let e = generate_events(&p, &mut engine).unwrap_err();
    assert!(e.message().starts_with("SQL parse error for 'bad'"));
    assert!(engine.cached("a", false).is_some());
    assert!(engine.cached("bad", false).is_some());
    assert!(engine.cached("c", false).is_none());
    let mut engine = Engine::new();
    let l = get_lineage(&mut engine, &p).unwrap_err();
    assert!(matches!(l, RequestError::Lineage(_)));
    assert!(engine.cached("c", false).is_none());
}

#[test]
fn lineage_follows_model_order() {
    let p = project(vec![("a", "SELECT x AS y FROM t"), ("b", "SELECT 1 AS one")]);
    let mut engine = Engine::new();
    let l = get_lineage(&mut engine, &p).unwrap();
    assert_eq!(l.models.len(), 2);
    assert_eq!(l.models[0].model_name, "a");
    assert_eq!(l.models[0].input_datasets, vec![s("t")]);
    assert_eq!(l.models[1].model_name, "b");
    assert!(l.models[1].input_datasets.is_empty());
}
