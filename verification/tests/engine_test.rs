use openpipe_engine::compiler::{
    evaluate_jinja, extract_config, finish_render, merged_config, resolve_ref_name, CompileError,
    Engine,
};
use openpipe_engine::jinja::render_context;
use openpipe_engine::json::JsonValue;
use openpipe_engine::project::{
    find_project_file, ModelConfig, ModelLanguage, Profile, Project, ProjectError, RawModel,
    RawProject, Source, SourceTable, TargetConfig,
};

fn target(catalog: Option<&str>) -> TargetConfig {
    TargetConfig {
        engine_type: "spark".to_string(),
        catalog: catalog.map(|c| c.to_string()),
        schema: Some("analytics".to_string()),
        threads: None,
    }
}

fn config(materialized: Option<&str>, alias: Option<&str>) -> ModelConfig {
    ModelConfig {
        materialized: materialized.map(|s| s.to_string()),
        unique_key: None,
        schema: None,
        alias: alias.map(|s| s.to_string()),
        tags: Vec::new(),
        extra: Vec::new(),
    }
}

fn sql_model(name: &str, sql: &str, cfg: Option<ModelConfig>) -> RawModel {
    RawModel { name: name.to_string(), config: cfg, python_source: None, sql_source: Some(sql.to_string()) }
}

fn py_model(name: &str, py: &str) -> RawModel {
    RawModel { name: name.to_string(), config: None, python_source: Some(py.to_string()), sql_source: None }
}

fn raw_source() -> Source {
    Source {
        name: "raw".to_string(),
        schema: Some("raw_schema".to_string()),
        database: None,
        tables: vec![
            SourceTable { name: "orders".to_string(), identifier: None, columns: None, freshness: None },
            SourceTable {
                name: "customers".to_string(),
                identifier: Some("customers_v2".to_string()),
                columns: None,
                freshness: None,
            },
        ],
    }
}

fn project(models: Vec<RawModel>) -> Project {
    let raw = RawProject {
        name: Some("demo".to_string()),
        profile: Profile { target: "dev".to_string(), outputs: vec![("dev".to_string(), target(Some("main")))] },
        models: Some(models),
        sources: Some(vec![raw_source()]),
        tests: None,
    };
    Project::load("/work/demo", raw).unwrap()
}

#[test]
fn relation_names_use_target_catalog_schema_and_alias() {
    let p = project(vec![
        sql_model("stg_orders", "SELECT 1", None),
        sql_model("fct", "SELECT 2", Some(config(None, Some("fact_orders")))),
    ]);
    assert_eq!(resolve_ref_name("stg_orders", &p), "main.analytics.stg_orders");
    assert_eq!(resolve_ref_name("fct", &p), "main.analytics.fact_orders");
}

#[test]
fn unknown_reference_resolves_to_first_model() {
    let p = project(vec![sql_model("stg_orders", "SELECT 1", None)]);
    assert_eq!(resolve_ref_name("missing", &p), "main.analytics.stg_orders");
    let empty = project(vec![]);
    assert_eq!(resolve_ref_name("missing", &empty), "missing");
}

#[test]
fn compile_renders_refs_sources_and_this() {
    let p = project(vec![
        sql_model("stg_orders", "SELECT 1", None),
        sql_model(
            "fct",
            "SELECT * FROM {{ ref('stg_orders') }} o JOIN {{ source('raw', 'customers') }} c ON o.id = c.id -- {{ this }}",
            None,
        ),
    ]);
    let mut engine = Engine::new();
    let c = engine.compile_at(&p, &p.models[1], false, "2024-01-01T00:00:00+00:00").unwrap();
    assert_eq!(
        c.compiled_sql,
        "SELECT * FROM main.analytics.stg_orders o JOIN raw_schema.customers_v2 c ON o.id = c.id -- main.analytics.fct"
    );
    assert_eq!(c.language, "sql");
    assert_eq!(c.materialization, "view");
    assert_eq!(c.relation_name, "main.analytics.fct");
    assert_eq!(c.depends_on, vec!["main.analytics.stg_orders".to_string()]);
    assert!(c.compiled_python.is_empty());
}

#[test]
fn unknown_source_renders_as_source_dot_table() {
    let p = project(vec![sql_model("m", "SELECT * FROM {{ source('other', 'tbl') }}", None)]);
    let mut engine = Engine::new();
    let c = engine.compile_at(&p, &p.models[0], false, "t").unwrap();
    assert_eq!(c.compiled_sql, "SELECT * FROM other.tbl");
}

#[test]
fn incremental_block_follows_full_refresh() {
    let p = project(vec![sql_model(
        "inc",
        "SELECT * FROM {{ ref('inc') }}{% if is_incremental() %} WHERE ts > 0{% endif %}",
        None,
    )]);
    let mut engine = Engine::new();
    let inc = engine.compile_at(&p, &p.models[0], false, "t").unwrap();
    assert_eq!(inc.compiled_sql, "SELECT * FROM main.analytics.inc WHERE ts > 0");
    let full = engine.compile_at(&p, &p.models[0], true, "t").unwrap();
    assert_eq!(full.compiled_sql, "SELECT * FROM main.analytics.inc");
}

#[test]
fn run_started_at_and_model_name_are_visible() {
    let p = project(vec![sql_model("m", "-- {{ model_name }} at {{ run_started_at }}\nSELECT 1", None)]);
    let mut engine = Engine::new();
    let c = engine.compile_at(&p, &p.models[0], false, "2024-05-06T07:08:09+00:00").unwrap();
    assert_eq!(c.compiled_sql, "-- m at 2024-05-06T07:08:09+00:00\nSELECT 1");
}

#[test]
fn config_with_keyword_arguments_does_not_render() {
    let p = project(vec![sql_model("m", "{{ config(materialized='table') }}\nSELECT 1", None)]);
    let mut engine = Engine::new();
    let r = engine.compile_at(&p, &p.models[0], false, "t");
    match r {
        Err(CompileError::Render { model, message }) => {
            assert_eq!(model, "m");
            assert!(!message.is_empty());
        }
        Ok(c) => panic!("unexpected success: {}", c.compiled_sql),
    }
    assert!(engine.cached("m", false).is_none());
}

#[test]
fn config_directive_settings_win_over_model_config() {
    let p = project(vec![sql_model(
        "m",
        "{{ config('materialized', 'x') }}\n{{ config(materialized='incremental', unique_key='id') }}",
        Some(config(Some("table"), None)),
    )]);
    let merged = merged_config(&p.models[0]);
    assert_eq!(
        merged,
        vec![
            ("materialized".to_string(), "incremental".to_string()),
            ("unique_key".to_string(), "id".to_string()),
        ]
    );
}

#[test]
fn config_lines_with_raw_prefix_and_quotes() {
    let sql = "  {%- raw -%}{{ config(a=\"1\", b = '2', junk) }}\nSELECT 1\n{{ config(a='3') }}";
    let config = extract_config(sql);
    assert_eq!(
        config,
        vec![("a".to_string(), "3".to_string()), ("b".to_string(), "2".to_string())]
    );
}

#[test]
fn positional_config_renders_empty_and_is_removed() {
    let p = project(vec![sql_model("m", "{{ config('a', 1) }}SELECT 1", None)]);
    let mut engine = Engine::new();
    let c = engine.compile_at(&p, &p.models[0], false, "t").unwrap();
    assert_eq!(c.compiled_sql, "SELECT 1");
}

#[test]
fn finish_render_strips_config_directives_and_whitespace() {
    assert_eq!(finish_render("  {{ config(x='y') }}SELECT 1 \n"), "SELECT 1");
    assert_eq!(finish_render("{{ config() }}SELECT 2"), "{{ config() }}SELECT 2");
}

#[test]
fn unparsable_template_uses_fallback() {
    let p = project(vec![
        sql_model("stg_orders", "SELECT 1", None),
        sql_model(
            "m",
            "{{ config(materialized='table') }}SELECT * FROM {{ ref('stg_orders') }} JOIN {{ source('raw', 'orders') }} {% if %} WHERE {{this}} {% if is_incremental() %}AND x{% endif %}",
            None,
        ),
    ]);
    let mut engine = Engine::new();
    let c = engine.compile_at(&p, &p.models[1], false, "t").unwrap();
    assert_eq!(
        c.compiled_sql,
        "SELECT * FROM main.analytics.stg_orders JOIN raw_schema.orders {% if %} WHERE main.analytics.m"
    );
}

#[test]
fn python_model_is_rewritten_and_wrapped() {
    let p = project(vec![
        sql_model("stg_orders", "SELECT 1", None),
        py_model("py", "df = dbt.ref('stg_orders')\nsrc = dbt.source('raw', 'customers')\nresult = df"),
    ]);
    assert_eq!(p.models[1].language, ModelLanguage::Python);
    let mut engine = Engine::new();
    let c = engine.compile_at(&p, &p.models[1], false, "t").unwrap();
    assert_eq!(
        c.compiled_python,
        "def model(dbt, session):\n    import pyspark.sql.functions as F\n    spark = session.spark\n    df = spark.table(\"main.analytics.stg_orders\")\n    src = spark.table(\"raw_schema.customers_v2\")\n    result = df\n    return result"
    );
    assert_eq!(c.language, "python");
    assert!(c.compiled_sql.is_empty());
    assert!(engine.cached("py", false).is_none());
}

#[test]
fn python_model_with_entry_point_is_not_wrapped() {
    let p = project(vec![py_model("py", "def model(dbt, session):\n    return dbt.ref('py')")]);
    let mut engine = Engine::new();
    let c = engine.compile_at(&p, &p.models[0], false, "t").unwrap();
    assert_eq!(c.compiled_python, "def model(dbt, session):\n    return spark.table(\"main.analytics.py\")");
}

#[test]
fn compiled_sql_models_are_cached_until_cleared() {
    let p = project(vec![sql_model("a", "SELECT 1", None)]);
    let mut engine = Engine::new();
    assert!(engine.cached("a", false).is_none());
    let c = engine.compile(&p, &p.models[0], false).unwrap();
    let cached = engine.cached("a", false).unwrap();
    assert_eq!(cached.compiled_sql, c.compiled_sql);
    assert_eq!(cached.name, "a");
    assert!(engine.cached("a", true).is_none());
    engine.compile(&p, &p.models[0], true).unwrap();
    assert!(engine.cached("a", true).is_some());
    engine.clear_cache();
    assert!(engine.cached("a", false).is_none());
    assert!(engine.cached("a", true).is_none());
}

#[test]
fn render_context_answers_template_functions() {
    let p = project(vec![sql_model("stg", "SELECT 1", None)]);
    let ctx = render_context(&p, "stg", "main.analytics.stg", true, "now");
    assert_eq!(ctx.ref_relation("stg"), "main.analytics.stg");
    assert_eq!(ctx.ref_relation("nope"), "nope");
    assert_eq!(ctx.source_relation("raw", "customers"), "raw_schema.customers_v2");
    assert_eq!(ctx.source_relation("raw", "nope"), "raw.nope");
    assert!(!ctx.is_incremental());
    assert_eq!(ctx.config_output("k"), "");
}

#[test]
fn project_file_preference_and_error() {
    let present = vec!["openpipe.json".to_string(), "openpipe.yaml".to_string()];
    assert_eq!(find_project_file("/p", &present).unwrap(), "/p/openpipe.yaml");
    let err = find_project_file("/p", &vec!["x".to_string()]).unwrap_err();
    assert_eq!(
        err.message(),
        "No openpipe.yml/yaml/json found in /p. Create one with 'name', 'profile', and optionally 'models'/'sources'/'tests'."
    );
    assert!(matches!(err, ProjectError::NoProjectFile { .. }));
}

#[test]
fn compile_error_message_text() {
    let e = CompileError::Render { model: "m".to_string(), message: "boom".to_string() };
    assert_eq!(e.message(), "Template render error for 'm': boom");
}

#[test]
fn json_number_kept_as_text() {
    let v = JsonValue::Number("1.50".to_string());
    assert!(matches!(v.deep_clone(), JsonValue::Number(ref n) if n == "1.50"));
}

#[test]
fn templates_without_ref_render_without_a_target() {
    let mut p = project(vec![sql_model("stg", "SELECT 1", None)]);
    p.profile.target = "missing".to_string();
    let out = evaluate_jinja(&p, "SELECT {{ 1 + 1 }} FROM {{ source('raw', 'customers') }} -- {{ this }}", "stg", "x.y.stg", false, "now").unwrap();
    assert_eq!(out, "SELECT 2 FROM raw_schema.customers_v2 -- x.y.stg");
    let ctx = render_context(&p, "stg", "x.y.stg", false, "now");
    assert_eq!(ctx.ref_relation("stg"), "stg");
}
