use openpipe_engine::lineage::{
    analyze_expression_lineage, analyze_model_lineage, is_aggregate, lineage_of_statements,
    column_name, LineageError, SqlExpr, SqlFunctionArgs, SqlSelect, SqlSelectItem, SqlSetExpr,
    SqlStatement, SqlFrom, SqlQuery, SqlTableFactor, ModelLineage, ColumnLineage,
};
use openpipe_engine::project::{Profile, Project, RawModel, RawProject, TargetConfig};

fn s(x: &str) -> String {
    x.to_string()
}

fn project() -> Project {
    let raw = RawProject {
        name: None,
        profile: Profile {
            target: s("dev"),
            outputs: vec![(s("dev"), TargetConfig { engine_type: s("spark"), catalog: Some(s("c")), schema: Some(s("s")), threads: None })],
        },
        models: Some(vec![RawModel { name: s("m"), config: None, python_source: None, sql_source: Some(s("SELECT 1")) }]),
        sources: None,
        tests: None,
    };
    Project::load("/p", raw).unwrap()
}

fn column<'a>(l: &'a ModelLineage, name: &str) -> &'a ColumnLineage {
    &l.columns.iter().find(|(n, _)| n == name).unwrap().1
}

fn lineage(sql: &str) -> ModelLineage {
    let p = project();
    analyze_model_lineage(&p, &p.models[0], sql).unwrap()
}

#[test]
fn identifiers_read_every_input_dataset() {
    let l = lineage("SELECT a, t.b, x + y AS total FROM t JOIN u ON t.id = u.id");
    assert_eq!(l.model_name, "m");
    assert_eq!(l.relation_name, "c.s.m");
    assert_eq!(l.output_dataset, "c.s.m");
    assert_eq!(l.input_datasets, vec![s("t"), s("u")]);
    let a = column(&l, "a");
    assert_eq!(a.transformation_type, "DIRECT");
    assert_eq!(a.transformation_subtype, "IDENTITY");
    assert_eq!(a.input_fields.len(), 2);
    assert_eq!(a.input_fields[0].dataset, "t");
    assert_eq!(a.input_fields[1].dataset, "u");
    assert_eq!(a.input_fields[0].field, "a");
    assert_eq!(a.input_fields[0].transformations[0].subtype, "IDENTITY");
    let b = column(&l, "t.b");
    assert_eq!(b.input_fields[0].field, "t.b");
    let total = column(&l, "total");
    assert_eq!(total.transformation_subtype, "TRANSFORMATION");
    assert_eq!(total.input_fields.len(), 4);
    assert_eq!(total.input_fields[2].field, "y");
    assert_eq!(l.columns.len(), 3);
}

#[test]
fn aggregates_and_case_and_literals() {
    let l = lineage("SELECT count(id) AS n, CASE WHEN a > 0 THEN b ELSE c END AS k, 1 AS one, max(v) FROM t");
    let n = column(&l, "n");
    assert_eq!(n.transformation_subtype, "AGGREGATION");
    let nf: Vec<(&str, &str)> = n.input_fields.iter().map(|f| (f.dataset.as_str(), f.field.as_str())).collect();
    assert_eq!(nf, vec![("t", "id")]);
    let k = column(&l, "k");
    assert_eq!(k.transformation_subtype, "CONDITIONAL");
    let fields: Vec<&str> = k.input_fields.iter().map(|f| f.field.as_str()).collect();
    assert_eq!(fields, vec!["a", "b", "c"]);
    let one = column(&l, "one");
    assert_eq!(one.transformation_subtype, "IDENTITY");
    assert!(one.input_fields.is_empty());
    assert_eq!(column(&l, "max").transformation_subtype, "AGGREGATION");
}

#[test]
fn subqueries_add_inputs_and_union_accumulates() {
    let l = lineage("SELECT a FROM t WHERE b IN (SELECT b FROM u) UNION SELECT a FROM v");
    assert_eq!(l.input_datasets, vec![s("t"), s("u"), s("v")]);
    let a = column(&l, "a");
    assert_eq!(a.input_fields.len(), 3);
    assert_eq!(l.columns.len(), 1);
}

#[test]
fn wildcards() {
    let l = lineage("SELECT * EXCEPT (x, y), t.* FROM t");
    let x = column(&l, "x");
    assert_eq!(x.input_fields.len(), 1);
    assert_eq!(x.input_fields[0].dataset, "t");
    assert_eq!(x.input_fields[0].transformations[0].description.as_deref(), Some("wildcard select (except)"));
    assert!(l.columns.iter().any(|(n, c)| n.ends_with(".*") && c.input_fields[0].field == *n));
}

#[test]
fn derived_tables_and_create_table_as() {
    let l = lineage("CREATE TABLE z AS SELECT q FROM (SELECT q FROM inner_t) AS d; INSERT INTO w VALUES (1)");
    assert_eq!(l.input_datasets, vec![s("inner_t")]);
    assert_eq!(column(&l, "q").input_fields[0].dataset, "inner_t");
}

#[test]
fn parse_errors_are_reported() {
    let p = project();
    let e = analyze_model_lineage(&p, &p.models[0], "SELEC nonsense FROM").unwrap_err();
    assert!(matches!(e, LineageError::Parse { ref model, .. } if model == "m"));
    assert!(e.message().starts_with("SQL parse error for 'm': "));
}

#[test]
fn aggregate_names_any_case() {
    assert!(is_aggregate("count"));
    assert!(is_aggregate("Sum"));
    assert!(is_aggregate("mın"));
    assert!(is_aggregate("ſum"));
    assert!(!is_aggregate("counts"));
    assert!(!is_aggregate("avg2"));
}

#[test]
fn lineage_of_hand_built_statements() {
    let p = project();
    let e = SqlExpr::BinaryOp {
        left: Box::new(SqlExpr::Identifier(s("a"))),
        op: s("*"),
        right: Box::new(SqlExpr::Function { name: s("f"), arguments: SqlFunctionArgs::Absent }),
    };
    let name: String = column_name(&e).into_iter().collect();
    assert_eq!(name, "a_*_f");
    let select = SqlSelect {
        from: vec![
            SqlFrom {
                relation: SqlTableFactor::TableFunction(s("gen()")),
                joins: vec![SqlTableFactor::Unnest, SqlTableFactor::JsonTable, SqlTableFactor::Other],
            },
            SqlFrom { relation: SqlTableFactor::Table(s("later")), joins: vec![] },
        ],
        selection: None,
        projection: vec![SqlSelectItem::UnnamedExpr(e)],
    };
    let query = SqlQuery { ctes: vec![], body: SqlSetExpr::Select(Box::new(select)) };
    let stmts = vec![SqlStatement::Query(query), SqlStatement::Other];
    let l = lineage_of_statements(&p, &p.models[0], &stmts);
    assert_eq!(l.input_datasets, vec![s("TABLE(gen())"), s("unnest"), s("json_table"), s("subquery")]);
    assert_eq!(l.columns[0].0, "a_*_f");
    assert_eq!(l.columns[0].1.input_fields.len(), 4);
    let inputs = vec![s("t")];
    let other = analyze_expression_lineage(&SqlExpr::Other, &inputs);
    assert_eq!(other.input_fields[0].field, "*");
    assert_eq!(other.transformation_subtype, "TRANSFORMATION");
}

#[test]
fn only_the_first_from_item_is_read() {
    let l = lineage("SELECT x FROM z, y JOIN w ON 1 = 1");
    assert_eq!(l.input_datasets, vec![s("z")]);
}

#[test]
fn aggregates_read_their_arguments() {
    let l = lineage("SELECT SUM(x) AS total, count(*) AS n FROM t");
    let total = &l.columns.iter().find(|(c, _)| c == "total").unwrap().1;
    assert_eq!(total.transformation_subtype, "AGGREGATION");
    assert_eq!(total.input_fields.len(), 1);
    assert_eq!(total.input_fields[0].dataset, "t");
    assert_eq!(total.input_fields[0].field, "x");
    let n = &l.columns.iter().find(|(c, _)| c == "n").unwrap().1;
    assert_eq!(n.transformation_subtype, "AGGREGATION");
    assert!(n.input_fields.is_empty());
}

#[test]
fn with_tables_read_through_to_their_sources() {
    let l = lineage(
        "WITH a AS (SELECT x FROM t), b AS (SELECT y FROM a JOIN u ON 1 = 1) SELECT y AS out FROM b",
    );
    assert_eq!(l.input_datasets, vec![s("t"), s("u")]);
    let out = &l.columns.iter().find(|(c, _)| c == "out").unwrap().1;
    let ds: Vec<&str> = out.input_fields.iter().map(|f| f.dataset.as_str()).collect();
    assert_eq!(ds, vec!["t", "u"]);
    assert!(l.columns.iter().all(|(c, _)| c == "out"));
}

#[test]
fn a_with_table_is_seen_only_after_its_definition() {
    let l = lineage("WITH a AS (SELECT x FROM a) SELECT x FROM a");
    assert_eq!(l.input_datasets, vec![s("a")]);
}
