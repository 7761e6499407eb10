use openpipe_engine::compiler::extract_config;
use openpipe_engine::lineage::{SqlSelectItem, SqlSetExpr, SqlStatement};
use openpipe_engine::project::extract_refs_and_sources;
use openpipe_engine::scan::{remove_directive_exec, Directive};
use openpipe_engine::sql::parse_statements;

fn text(v: &[char]) -> String {
    v.iter().collect()
}

#[test]
fn test_extract_config() {
    let sql = "{{ config(materialized='table', unique_key='id') }}\nSELECT * FROM raw";
    assert!(sql.contains("config"));
    assert!(sql.contains("materialized"));
    assert!(sql.contains("unique_key"));
    let config = extract_config(sql);
    assert_eq!(
        config,
        vec![
            ("materialized".to_string(), "table".to_string()),
            ("unique_key".to_string(), "id".to_string()),
        ]
    );
}

#[test]
fn test_extract_refs() {
    let sql = "SELECT * FROM {{ ref('stg_customers') }}";
    assert!(sql.contains("ref('stg_customers')"));
    let (refs, sources) = extract_refs_and_sources(sql);
    assert_eq!(refs, vec!["stg_customers".to_string()]);
    assert!(sources.is_empty());
}

#[test]
fn test_extract_sources() {
    let sql = "SELECT * FROM {{ source('raw', 'orders') }}";
    assert!(sql.contains("source('raw', 'orders')"));
    let (refs, sources) = extract_refs_and_sources(sql);
    assert!(refs.is_empty());
    assert_eq!(sources, vec!["raw".to_string()]);
}

#[test]
fn test_is_incremental_block() {
    let sql = "SELECT * FROM raw_data {% if is_incremental() %}WHERE updated_at > (SELECT max(updated_at) FROM {{ this }}){% endif %}";
    assert!(sql.contains("is_incremental()"));
    assert!(sql.contains("this"));
    let chars: Vec<char> = sql.chars().collect();
    let removed = remove_directive_exec(&chars, Directive::IncrementalBlock);
    assert_eq!(text(&removed), "SELECT * FROM raw_data ");
}

#[test]
fn test_lineage_binary_op() {
    let sql = "SELECT a + b AS c FROM t";
    let stmts = parse_statements(sql).unwrap();
    assert_eq!(stmts.len(), 1);
    if let SqlStatement::Query(query) = &stmts[0] {
        assert!(query.ctes.is_empty());
        if let SqlSetExpr::Select(select) = &query.body {
            assert_eq!(select.projection.len(), 1);
            assert!(matches!(select.projection[0], SqlSelectItem::ExprWithAlias { .. }));
        } else {
            panic!("expected a SELECT body");
        }
    } else {
        panic!("expected a query");
    }
}

#[test]
fn test_yaml_project_load() {
    let yaml = r#"
name: test_project
profile:
  target: dev
  outputs:
    dev:
      type: spark
      catalog: test
      schema: analytics
models:
  - name: test_model
    config:
      materialized: view
"#;
    let parsed: serde_yaml::Value = serde_yaml::from_str(yaml).unwrap();
    assert_eq!(parsed["name"], "test_project");
    assert_eq!(parsed["models"][0]["name"], "test_model");
    assert_eq!(parsed["models"][0]["config"]["materialized"], "view");
}
