# openpipe_engine

The compilation engine of OpenPipe: it compiles dbt-style SQL and Python
models, works out column-level lineage, exports OpenLineage events and
compiles data tests, behind a small HTTP interface.

The library under `src/` is written in Verus, and Verus proves each of its
own functions against its contract. The calls into `minijinja`, `sqlparser`,
`chrono` and `uuid` sit in small trusted wrappers whose contracts Verus takes
as given; each says in its doc comment what it claims. What `sqlparser` parses
a text to is named (`sql_parsed`), not written out, and the views of its syntax
tree that the library reads node by node carry no contract at all.

- `project` — the project model, loading a project file's contents, test
  definitions, the dependency graph.
- `scan`, `text`, `rewrite`, `search` — the template grammar (`ref`,
  `source`, `config`, incremental blocks) and the text operations it needs.
- `jinja` — rendering templates with `minijinja`; the template functions
  answer from a precomputed context.
- `compiler` — compiling models, the fallback compiler, Python models, the
  compile cache.
- `sql`, `lineage` — reading SQL with `sqlparser` into the library's own
  statement form, and column-level lineage over it. A function's lineage
  comes from its arguments, and a table that names a `WITH` table of the
  statement's query reads what that table reads.
- `openlineage` — OpenLineage run events with the column-lineage facet.
- `test_runner` — data tests compiled to `COUNT(*) AS failures` queries, and
  suite summaries.
- `service` — what each HTTP request computes.

`app/` holds the HTTP server (axum), reading project files from disk, and the
serialised forms of the library's values.
