//! The project: its profile, models, sources and data tests, and the
//! dependency graph between them.
use vstd::prelude::*;
use crate::json::{JsonValue, JsonV};
use crate::scan::{
    scan_all, scan_exec, caps_view, sql_ref_pattern, sql_source_pattern, py_ref_pattern,
    py_source_pattern, sql_ref_tokens, sql_source_tokens, py_ref_tokens, py_source_tokens,
};
use crate::text::{chars_of, string_of, push_all};

verus! {

/// Connection settings of one deployment target.
#[derive(Clone, Debug)]
pub struct TargetConfig {
    pub engine_type: String,
    pub catalog: Option<String>,
    pub schema: Option<String>,
    pub threads: Option<u32>,
}

/// The selected target and all targets by name.
#[derive(Clone, Debug)]
pub struct Profile {
    pub target: String,
    pub outputs: Vec<(String, TargetConfig)>,
}

/// The language a model is written in.
#[derive(Clone, Copy, Debug, PartialEq, Eq, Structural)]
pub enum ModelLanguage {
    Sql,
    Python,
}

impl Default for ModelLanguage {
    fn default() -> (r: ModelLanguage)
        ensures
            r == ModelLanguage::Sql,
    {
        ModelLanguage::Sql
    }
}

/// Per-model settings.
#[derive(Debug)]
pub struct ModelConfig {
    pub materialized: Option<String>,
    pub unique_key: Option<String>,
    pub schema: Option<String>,
    pub alias: Option<String>,
    pub tags: Vec<String>,
    pub extra: Vec<(String, JsonValue)>,
}

impl Default for ModelConfig {
    fn default() -> (r: ModelConfig)
        ensures
            r.materialized is None,
            r.unique_key is None,
            r.schema is None,
            r.alias is None,
            r.tags@.len() == 0,
            r.extra@.len() == 0,
    {
        ModelConfig {
            materialized: None,
            unique_key: None,
            schema: None,
            alias: None,
            tags: Vec::new(),
            extra: Vec::new(),
        }
    }
}

/// A SQL or Python model with the models and sources it reads.
#[derive(Debug)]
pub struct Model {
    pub name: String,
    pub file_path: String,
    pub raw_sql: String,
    pub raw_python: String,
    pub language: ModelLanguage,
    pub config: ModelConfig,
    pub refs: Vec<String>,
    pub sources: Vec<String>,
}

/// A raw data source and its tables.
#[derive(Debug)]
pub struct Source {
    pub name: String,
    pub schema: Option<String>,
    pub database: Option<String>,
    pub tables: Vec<SourceTable>,
}

#[derive(Debug)]
pub struct SourceTable {
    pub name: String,
    pub identifier: Option<String>,
    pub columns: Option<Vec<SourceColumn>>,
    pub freshness: Option<Freshness>,
}

#[derive(Debug)]
pub struct SourceColumn {
    pub name: String,
    pub data_type: Option<String>,
    pub description: Option<String>,
    pub tests: Vec<TestDef>,
}

#[derive(Clone, Debug)]
pub struct Freshness {
    pub warn_after: Option<FreshnessThreshold>,
    pub error_after: Option<FreshnessThreshold>,
    pub filter: Option<String>,
}

#[derive(Clone, Debug)]
pub struct FreshnessThreshold {
    pub count: u32,
    pub period: String,
}

/// A data test on a model or a source table.
#[derive(Debug)]
pub struct Test {
    pub name: String,
    pub model_name: String,
    pub column_name: Option<String>,
    pub type_specific: Vec<(String, JsonValue)>,
}

/// The kinds of data test.
#[derive(Clone, Debug)]
pub enum TestType {
    NotNull,
    Unique,
    AcceptedValues { values: Vec<String> },
    Relationships { to: String, field: String },
    Custom { sql: String },
}

/// Test definitions attached to a source column, by test name.
pub type TestDef = Vec<(String, JsonValue)>;

/// A dependency edge of the model graph.
#[derive(Clone, Debug)]
pub struct Edge {
    pub from: String,
    pub to: String,
    pub edge_type: String,
}

/// A loaded project.
#[derive(Debug)]
pub struct Project {
    pub name: String,
    pub profile: Profile,
    pub models: Vec<Model>,
    pub sources: Vec<Source>,
    pub tests: Vec<Test>,
    /// Model name to its position in `models`.
    pub model_map: Vec<(String, usize)>,
    /// Source name to its position in `sources`.
    pub source_map: Vec<(String, usize)>,
    pub project_path: String,
}

pub open spec fn strings_view(v: Seq<String>) -> Seq<Seq<char>> {
    v.map_values(|s: String| s@)
}

pub open spec fn opt_view(o: Option<String>) -> Option<Seq<char>> {
    match o {
        Some(s) => Some(s@),
        None => None,
    }
}

/// The string held, or `d`.
pub open spec fn or_default(o: Option<String>, d: Seq<char>) -> Seq<char> {
    match o {
        Some(s) => s@,
        None => d,
    }
}

/// Value of the first entry with key `k`.
pub open spec fn index_lookup(m: Seq<(String, usize)>, k: Seq<char>) -> Option<usize>
    decreases m.len(),
{
    if m.len() == 0 {
        None
    } else if m[0].0@ == k {
        Some(m[0].1)
    } else {
        index_lookup(m.drop_first(), k)
    }
}

/// The configuration of the selected target.
pub open spec fn target_lookup(outputs: Seq<(String, TargetConfig)>, k: Seq<char>) -> Option<
    TargetConfig,
>
    decreases outputs.len(),
{
    if outputs.len() == 0 {
        None
    } else if outputs[0].0@ == k {
        Some(outputs[0].1)
    } else {
        target_lookup(outputs.drop_first(), k)
    }
}

impl Project {
    /// The configuration of the selected target, if the profile has it.
    pub open spec fn target_spec(self) -> Option<TargetConfig> {
        target_lookup(self.profile.outputs@, self.profile.target@)
    }

    pub open spec fn has_target(self) -> bool {
        self.target_spec() is Some
    }

    /// Catalog of the selected target, `openpipe` when it names none.
    pub open spec fn catalog_spec(self) -> Seq<char> {
        or_default(self.target_spec()->0.catalog, "openpipe"@)
    }

    /// Schema of the selected target, `analytics` when it names none.
    pub open spec fn schema_spec(self) -> Seq<char> {
        or_default(self.target_spec()->0.schema, "analytics"@)
    }

    /// `catalog.schema.alias` of a model, where the alias defaults to the model's name.
    pub open spec fn relation_spec(self, m: Model) -> Seq<char> {
        self.catalog_spec() + "."@ + self.schema_spec() + "."@ + or_default(
            m.config.alias,
            m.name@,
        )
    }
}

/// Value of the first entry with key `k`.
pub fn lookup_index(m: &Vec<(String, usize)>, k: &str) -> (r: Option<usize>)
    ensures
        r == index_lookup(m@, k@),
{
    let mut i: usize = 0;
    assert(m@.skip(0) == m@);
    while i < m.len()
        invariant
            i <= m.len(),
            index_lookup(m@, k@) == index_lookup(m@.skip(i as int), k@),
        decreases m.len() - i,
    {
        assert(m@.skip(i as int).drop_first() == m@.skip(i + 1));
        if crate::json::str_eq(m[i].0.as_str(), k) {
            return Some(m[i].1);
        }
        i += 1;
    }
    None
}

impl Project {
    /// The configuration of the selected target.
    pub fn target(&self) -> (r: Option<&TargetConfig>)
        ensures
            r matches Some(t) ==> self.target_spec() == Some(*t),
            r is None ==> self.target_spec() is None,
    {
        let outputs = &self.profile.outputs;
        let mut i: usize = 0;
        assert(outputs@.skip(0) == outputs@);
        while i < outputs.len()
            invariant
                i <= outputs.len(),
                outputs == &self.profile.outputs,
                self.target_spec() == target_lookup(outputs@.skip(i as int), self.profile.target@),
            decreases outputs.len() - i,
        {
            assert(outputs@.skip(i as int).drop_first() == outputs@.skip(i + 1));
            if crate::json::str_eq(outputs[i].0.as_str(), self.profile.target.as_str()) {
                return Some(&outputs[i].1);
            }
            i += 1;
        }
        None
    }

    /// `catalog.schema.alias` of a model under the selected target.
    pub fn relation_name(&self, m: &Model) -> (r: String)
        requires
            self.has_target(),
        ensures
            r@ == self.relation_spec(*m),
    {
        let t = self.target().unwrap();
        let mut out = match &t.catalog {
            Some(c) => chars_of(c.as_str()),
            None => chars_of("openpipe"),
        };
        out.push('.');
        let sch = match &t.schema {
            Some(c) => chars_of(c.as_str()),
            None => chars_of("analytics"),
        };
        push_all(&mut out, &sch);
        out.push('.');
        let alias = match &m.config.alias {
            Some(a) => chars_of(a.as_str()),
            None => chars_of(m.name.as_str()),
        };
        push_all(&mut out, &alias);
        proof {
            reveal_strlit(".");
        }
        string_of(&out)
    }
}

pub fn to_strings(v: &Vec<Vec<char>>) -> (r: Vec<String>)
    ensures
        strings_view(r@) == caps_view(v@),
{
    let mut r: Vec<String> = Vec::new();
    let mut i: usize = 0;
    while i < v.len()
        invariant
            i <= v.len(),
            strings_view(r@) == caps_view(v@.take(i as int)),
        decreases v.len() - i,
    {
        r.push(string_of(&v[i]));
        assert(caps_view(v@.take(i + 1)) == caps_view(v@.take(i as int)).push(v@[i as int]@));
        i += 1;
    }
    assert(v@.take(v.len() as int) == v@);
    r
}

/// Names of the models and of the sources that a SQL model reads, in order of
/// appearance: the quoted name of every `{{ ref('name') }}` and the quoted
/// source of every `{{ source('source', 'table') }}`.
pub fn extract_refs_and_sources(sql: &str) -> (r: (Vec<String>, Vec<String>))
    ensures
        strings_view(r.0@) == scan_all(sql@, sql_ref_pattern()),
        strings_view(r.1@) == scan_all(sql@, sql_source_pattern()),
{
    let s = chars_of(sql);
    let refs = scan_exec(&s, &sql_ref_tokens());
    let sources = scan_exec(&s, &sql_source_tokens());
    (to_strings(&refs), to_strings(&sources))
}

/// The same for a Python model: `dbt.ref('name')` and `dbt.source('source', 'table')`.
pub fn extract_refs_and_sources_python(py: &str) -> (r: (Vec<String>, Vec<String>))
    ensures
        strings_view(r.0@) == scan_all(py@, py_ref_pattern()),
        strings_view(r.1@) == scan_all(py@, py_source_pattern()),
{
    let s = chars_of(py);
    let refs = scan_exec(&s, &py_ref_tokens());
    let sources = scan_exec(&s, &py_source_tokens());
    (to_strings(&refs), to_strings(&sources))
}

} // verus!

verus! {

/// The mathematical form of an edge: (from, to, edge type).
pub open spec fn edge_v(e: Edge) -> (Seq<char>, Seq<char>, Seq<char>) {
    (e.from@, e.to@, e.edge_type@)
}

pub open spec fn edges_view(v: Seq<Edge>) -> Seq<(Seq<char>, Seq<char>, Seq<char>)> {
    v.map_values(|e: Edge| edge_v(e))
}

/// A `ref` edge from every name in `refs` that is a known model to the model `to`.
pub open spec fn ref_edges(p: Project, refs: Seq<String>, to: Seq<char>) -> Seq<
    (Seq<char>, Seq<char>, Seq<char>),
>
    decreases refs.len(),
{
    if refs.len() == 0 {
        Seq::empty()
    } else {
        ref_edges(p, refs.drop_last(), to) + if index_lookup(p.model_map@, refs.last()@) is Some {
            seq![(refs.last()@, to, "ref"@)]
        } else {
            Seq::empty()
        }
    }
}

/// A `source` edge from `source:<name>` for every name in `sources` that is a
/// known source to the model `to`.
pub open spec fn source_edges(p: Project, sources: Seq<String>, to: Seq<char>) -> Seq<
    (Seq<char>, Seq<char>, Seq<char>),
>
    decreases sources.len(),
{
    if sources.len() == 0 {
        Seq::empty()
    } else {
        source_edges(p, sources.drop_last(), to) + if index_lookup(
            p.source_map@,
            sources.last()@,
        ) is Some {
            seq![("source:"@ + sources.last()@, to, "source"@)]
        } else {
            Seq::empty()
        }
    }
}

/// The edges into one model: its `ref` edges, then its `source` edges.
pub open spec fn model_edges(p: Project, m: Model) -> Seq<(Seq<char>, Seq<char>, Seq<char>)> {
    ref_edges(p, m.refs@, m.name@) + source_edges(p, m.sources@, m.name@)
}

/// The edges into the given models, model by model.
pub open spec fn project_edges(p: Project, models: Seq<Model>) -> Seq<
    (Seq<char>, Seq<char>, Seq<char>),
>
    decreases models.len(),
{
    if models.len() == 0 {
        Seq::empty()
    } else {
        project_edges(p, models.drop_last()) + model_edges(p, models.last())
    }
}

impl Project {
    /// The dependency graph: for each model in order, an edge from each model it
    /// refers to and from each source it reads, skipping names the project does
    /// not define.
    pub fn resolve_refs(&self) -> (edges: Vec<Edge>)
        ensures
            edges_view(edges@) == project_edges(*self, self.models@),
    {
        let mut edges: Vec<Edge> = Vec::new();
        let mut i: usize = 0;
        while i < self.models.len()
            invariant
                i <= self.models.len(),
                edges_view(edges@) == project_edges(*self, self.models@.take(i as int)),
            decreases self.models.len() - i,
        {
            let model = &self.models[i];
            let ghost base = edges_view(edges@);
            let mut j: usize = 0;
            while j < model.refs.len()
                invariant
                    j <= model.refs.len(),
                    model == &self.models@[i as int],
                    edges_view(edges@) == base + ref_edges(*self, model.refs@.take(j as int), model.name@),
                decreases model.refs.len() - j,
            {
                let dep = &model.refs[j];
                let ghost before = edges_view(edges@);
                assert(model.refs@.take(j + 1).drop_last() == model.refs@.take(j as int));
                if lookup_index(&self.model_map, dep.as_str()).is_some() {
                    let e = Edge {
                        from: dep.clone(),
                        to: model.name.clone(),
                        edge_type: String::from_str("ref"),
                    };
                    edges.push(e);
                    assert(edges_view(edges@) == before.push(edge_v(e)));
                }
                j += 1;
            }
            assert(model.refs@.take(model.refs.len() as int) == model.refs@);
            let ghost mid = edges_view(edges@);
            let mut j: usize = 0;
            while j < model.sources.len()
                invariant
                    j <= model.sources.len(),
                    model == &self.models@[i as int],
                    edges_view(edges@) == mid + source_edges(
                        *self,
                        model.sources@.take(j as int),
                        model.name@,
                    ),
                decreases model.sources.len() - j,
            {
                let src = &model.sources[j];
                let ghost before = edges_view(edges@);
                assert(model.sources@.take(j + 1).drop_last() == model.sources@.take(j as int));
                if lookup_index(&self.source_map, src.as_str()).is_some() {
                    let mut from = chars_of("source:");
                    push_all(&mut from, &chars_of(src.as_str()));
                    let e = Edge {
                        from: string_of(&from),
                        to: model.name.clone(),
                        edge_type: String::from_str("source"),
                    };
                    edges.push(e);
                    assert(edges_view(edges@) == before.push(edge_v(e)));
                }
                j += 1;
            }
            assert(model.sources@.take(model.sources.len() as int) == model.sources@);
            assert(self.models@.take(i + 1).drop_last() == self.models@.take(i as int));
            i += 1;
        }
        assert(self.models@.take(self.models.len() as int) == self.models@);
        edges
    }
}

/// Every edge of the graph points at a model of the project, and is either a
/// `ref` edge from a name the model map knows or a `source` edge from
/// `source:` followed by a name the source map knows.
pub proof fn lemma_edges_well_formed(p: Project, models: Seq<Model>)
    ensures
        forall|k: int|
            0 <= k < project_edges(p, models).len() ==> {
                let e = #[trigger] project_edges(p, models)[k];
                &&& exists|m: int| 0 <= m < models.len() && models[m].name@ == e.1
                &&& (e.2 == "ref"@ && index_lookup(p.model_map@, e.0) is Some) || (e.2
                    == "source"@ && exists|s: Seq<char>|
                    e.0 == "source:"@ + s && index_lookup(p.source_map@, s) is Some)
            },
    decreases models.len(),
{
    if models.len() > 0 {
        let prev = models.drop_last();
        lemma_edges_well_formed(p, prev);
        lemma_ref_edges(p, models.last().refs@, models.last().name@);
        lemma_source_edges(p, models.last().sources@, models.last().name@);
        let es = project_edges(p, models);
        assert forall|k: int| 0 <= k < es.len() implies {
            let e = #[trigger] es[k];
            &&& exists|m: int| 0 <= m < models.len() && models[m].name@ == e.1
            &&& (e.2 == "ref"@ && index_lookup(p.model_map@, e.0) is Some) || (e.2 == "source"@
                && exists|s: Seq<char>| e.0 == "source:"@ + s && index_lookup(p.source_map@, s) is Some)
        } by {
            let n = project_edges(p, prev).len();
            if k < n {
                assert(es[k] == project_edges(p, prev)[k]);
                let e = es[k];
                let m = choose|m: int| 0 <= m < prev.len() && prev[m].name@ == e.1;
                assert(models[m] == prev[m]);
            } else {
                let last = models.last();
                let r = ref_edges(p, last.refs@, last.name@);
                if k - n < r.len() {
                    assert(es[k] == r[k - n]);
                } else {
                    assert(es[k] == source_edges(p, last.sources@, last.name@)[k - n - r.len()]);
                }
                assert(models[models.len() - 1].name@ == es[k].1);
            }
        }
    }
}

proof fn lemma_ref_edges(p: Project, refs: Seq<String>, to: Seq<char>)
    ensures
        forall|k: int|
            0 <= k < ref_edges(p, refs, to).len() ==> (#[trigger] ref_edges(p, refs, to)[k]).1 == to
                && ref_edges(p, refs, to)[k].2 == "ref"@ && index_lookup(
                p.model_map@,
                ref_edges(p, refs, to)[k].0,
            ) is Some,
    decreases refs.len(),
{
    if refs.len() > 0 {
        lemma_ref_edges(p, refs.drop_last(), to);
    }
}

proof fn lemma_source_edges(p: Project, sources: Seq<String>, to: Seq<char>)
    ensures
        forall|k: int|
            0 <= k < source_edges(p, sources, to).len() ==> {
                let e = #[trigger] source_edges(p, sources, to)[k];
                e.1 == to && e.2 == "source"@ && exists|s: Seq<char>|
                    e.0 == "source:"@ + s && index_lookup(p.source_map@, s) is Some
            },
    decreases sources.len(),
{
    if sources.len() > 0 {
        lemma_source_edges(p, sources.drop_last(), to);
        let es = source_edges(p, sources, to);
        let prev = source_edges(p, sources.drop_last(), to);
        assert forall|k: int| 0 <= k < es.len() implies {
            let e = #[trigger] es[k];
            e.1 == to && e.2 == "source"@ && exists|s: Seq<char>|
                e.0 == "source:"@ + s && index_lookup(p.source_map@, s) is Some
        } by {
            if k < prev.len() {
                assert(es[k] == prev[k]);
            } else {
                let s = sources.last()@;
                assert(es[k].0 == "source:"@ + s);
            }
        }
    }
}

} // verus!

verus! {

/// Errors of building a project.
#[derive(Debug)]
pub enum ProjectError {
    /// The directory holds none of the project file names.
    NoProjectFile { path: String },
    /// A test definition is not an object.
    TestNotObject,
    /// A test definition has no string `name`.
    TestMissingName,
    /// A test definition has no string `model_name`.
    TestMissingModelName,
}

impl ProjectError {
    pub fn message(&self) -> (r: String)
        ensures
            r@ == match self {
                ProjectError::NoProjectFile { path } => "No openpipe.yml/yaml/json found in "@ + path@
                    + ". Create one with 'name', 'profile', and optionally 'models'/'sources'/'tests'."@,
                ProjectError::TestNotObject => "Test must be an object"@,
                ProjectError::TestMissingName => "Test missing 'name'"@,
                ProjectError::TestMissingModelName => "Test missing 'model_name'"@,
            },
    {
        match self {
            ProjectError::NoProjectFile { path } => {
                let mut out = chars_of("No openpipe.yml/yaml/json found in ");
                push_all(&mut out, &chars_of(path.as_str()));
                push_all(
                    &mut out,
                    &chars_of(
                        ". Create one with 'name', 'profile', and optionally 'models'/'sources'/'tests'.",
                    ),
                );
                string_of(&out)
            },
            ProjectError::TestNotObject => String::from_str("Test must be an object"),
            ProjectError::TestMissingName => String::from_str("Test missing 'name'"),
            ProjectError::TestMissingModelName => String::from_str("Test missing 'model_name'"),
        }
    }
}

/// The mathematical form of a [`TestType`].
pub enum TestTypeV {
    NotNull,
    Unique,
    AcceptedValues(Seq<Seq<char>>),
    Relationships(Seq<char>, Seq<char>),
    Custom(Seq<char>),
}

impl View for TestType {
    type V = TestTypeV;

    open spec fn view(&self) -> TestTypeV {
        match self {
            TestType::NotNull => TestTypeV::NotNull,
            TestType::Unique => TestTypeV::Unique,
            TestType::AcceptedValues { values } => TestTypeV::AcceptedValues(strings_view(values@)),
            TestType::Relationships { to, field } => TestTypeV::Relationships(to@, field@),
            TestType::Custom { sql } => TestTypeV::Custom(sql@),
        }
    }
}

/// The mathematical form of a [`Test`].
pub struct TestV {
    pub name: Seq<char>,
    pub model_name: Seq<char>,
    pub column_name: Option<Seq<char>>,
    pub type_specific: Seq<(Seq<char>, JsonV)>,
}

impl View for Test {
    type V = TestV;

    open spec fn view(&self) -> TestV {
        TestV {
            name: self.name@,
            model_name: self.model_name@,
            column_name: opt_view(self.column_name),
            type_specific: crate::json::members_deep(self.type_specific@),
        }
    }
}

pub open spec fn tests_view(v: Seq<Test>) -> Seq<TestV> {
    v.map_values(|t: Test| t@)
}

/// The string held by a JSON string, or the empty string.
pub open spec fn str_or_empty(v: Option<JsonV>) -> Seq<char> {
    match v {
        Some(JsonV::Str(s)) => s,
        _ => Seq::empty(),
    }
}

/// The strings of a JSON array made only of strings, otherwise nothing.
pub open spec fn str_array_or_empty(v: Option<JsonV>) -> Seq<Seq<char>> {
    match v {
        Some(JsonV::Array(xs)) => if forall|i: int| 0 <= i < xs.len() ==> (#[trigger] xs[i]) is Str {
            Seq::new(xs.len(), |i: int| xs[i]->Str_0)
        } else {
            Seq::empty()
        },
        _ => Seq::empty(),
    }
}

/// The kind of test named by the `type` entry, with the entries that kind reads.
pub open spec fn test_type_spec(ts: Seq<(Seq<char>, JsonV)>) -> Option<TestTypeV> {
    match crate::json::member_lookup(ts, "type"@) {
        Some(JsonV::Str(t)) => if t == "not_null"@ {
            Some(TestTypeV::NotNull)
        } else if t == "unique"@ {
            Some(TestTypeV::Unique)
        } else if t == "accepted_values"@ {
            Some(
                TestTypeV::AcceptedValues(
                    str_array_or_empty(crate::json::member_lookup(ts, "values"@)),
                ),
            )
        } else if t == "relationships"@ {
            Some(
                TestTypeV::Relationships(
                    str_or_empty(crate::json::member_lookup(ts, "to"@)),
                    str_or_empty(crate::json::member_lookup(ts, "field"@)),
                ),
            )
        } else if t == "custom"@ {
            Some(TestTypeV::Custom(str_or_empty(crate::json::member_lookup(ts, "sql"@))))
        } else {
            None
        },
        _ => None,
    }
}

fn str_entry(ts: &Vec<(String, JsonValue)>, k: &str) -> (r: String)
    ensures
        r@ == str_or_empty(crate::json::member_lookup(crate::json::members_deep(ts@), k@)),
{
    match crate::json::lookup_member(ts, k) {
        Some(JsonValue::Str(s)) => s.clone(),
        _ => String::new(),
    }
}

fn str_array_entry(ts: &Vec<(String, JsonValue)>, k: &str) -> (r: Vec<String>)
    ensures
        strings_view(r@) == str_array_or_empty(
            crate::json::member_lookup(crate::json::members_deep(ts@), k@),
        ),
{
    let found = crate::json::lookup_member(ts, k);
    match found {
        Some(JsonValue::Array(xs)) => {
            let ghost xd = JsonValue::Array(*xs).deep()->Array_0;
            assert(crate::json::member_lookup(crate::json::members_deep(ts@), k@) == Some(
                JsonV::Array(xd),
            ));
            let mut out: Vec<String> = Vec::new();
            let mut i: usize = 0;
            while i < xs.len()
                invariant
                    i <= xs.len(),
                    xd == JsonValue::Array(*xs).deep()->Array_0,
                    crate::json::member_lookup(crate::json::members_deep(ts@), k@) == Some(
                        JsonV::Array(xd),
                    ),
                    forall|j: int| 0 <= j < i ==> (#[trigger] xd[j]) is Str,
                    strings_view(out@) == Seq::new(i as nat, |j: int| xd[j]->Str_0),
                decreases xs.len() - i,
            {
                assert(xd[i as int] == xs@[i as int].deep());
                match &xs[i] {
                    JsonValue::Str(s) => {
                        let ghost before = out@;
                        out.push(s.clone());
                        assert(xd[i as int]->Str_0 == s@);
                        assert(strings_view(out@) == strings_view(before).push(s@));
                        assert(strings_view(out@) =~= Seq::new((i + 1) as nat, |j: int| xd[j]->Str_0));
                    },
                    _ => {
                        assert(!(xd[i as int] is Str));
                        assert(xd.len() == xs.len());
                        assert(!(forall|j: int| 0 <= j < xd.len() ==> (#[trigger] xd[j]) is Str));
                        return Vec::new();
                    },
                }
                i += 1;
            }
            out
        },
        _ => Vec::new(),
    }
}

impl Test {
    /// The kind of the test, read from its `type` entry; `None` for a missing,
    /// non-string or unknown type.
    pub fn test_type(&self) -> (r: Option<TestType>)
        ensures
            r matches Some(t) ==> test_type_spec(self@.type_specific) == Some(t@),
            r is None ==> test_type_spec(self@.type_specific) is None,
    {
        let ts = &self.type_specific;
        match crate::json::lookup_member(ts, "type") {
            Some(JsonValue::Str(t)) => {
                let t = t.as_str();
                if crate::json::str_eq(t, "not_null") {
                    Some(TestType::NotNull)
                } else if crate::json::str_eq(t, "unique") {
                    Some(TestType::Unique)
                } else if crate::json::str_eq(t, "accepted_values") {
                    Some(TestType::AcceptedValues { values: str_array_entry(ts, "values") })
                } else if crate::json::str_eq(t, "relationships") {
                    Some(
                        TestType::Relationships {
                            to: str_entry(ts, "to"),
                            field: str_entry(ts, "field"),
                        },
                    )
                } else if crate::json::str_eq(t, "custom") {
                    Some(TestType::Custom { sql: str_entry(ts, "sql") })
                } else {
                    None
                }
            },
            _ => None,
        }
    }
}

} // verus!

verus! {

/// The members of a test definition other than `name`, `model_name` and
/// `column_name`, among the first `n`, kept as a map keeps them.
pub open spec fn other_members(m: Seq<(Seq<char>, JsonV)>, n: int) -> Seq<(Seq<char>, JsonV)>
    decreases n,
{
    if n <= 0 || n > m.len() {
        Seq::empty()
    } else {
        let prev = other_members(m, n - 1);
        let e = m[n - 1];
        if e.0 == "name"@ || e.0 == "model_name"@ || e.0 == "column_name"@ {
            prev
        } else {
            crate::json::member_insert(prev, e.0, e.1)
        }
    }
}

/// The test a JSON test definition describes.
pub open spec fn test_from_spec(v: JsonV) -> Result<TestV, ProjectError> {
    match v {
        JsonV::Object(m) => match crate::json::member_lookup(m, "name"@) {
            Some(JsonV::Str(n)) => match crate::json::member_lookup(m, "model_name"@) {
                Some(JsonV::Str(mn)) => Ok(
                    TestV {
                        name: n,
                        model_name: mn,
                        column_name: crate::json::json_str_opt(
                            crate::json::member_lookup(m, "column_name"@),
                        ),
                        type_specific: other_members(m, m.len() as int),
                    },
                ),
                _ => Err(ProjectError::TestMissingModelName),
            },
            _ => Err(ProjectError::TestMissingName),
        },
        _ => Err(ProjectError::TestNotObject),
    }
}

impl Test {
    /// Reads a test definition: an object with string `name` and `model_name`,
    /// an optional string `column_name`, and the other members kept for the
    /// kind of test.
    pub fn from_value(v: &JsonValue) -> (r: Result<Test, ProjectError>)
        ensures
            r matches Ok(t) ==> test_from_spec(v.deep()) == Ok::<TestV, ProjectError>(t@),
            r matches Err(e) ==> test_from_spec(v.deep()) == Err::<TestV, ProjectError>(e),
    {
        let obj = match v {
            JsonValue::Object(o) => o,
            _ => {
                return Err(ProjectError::TestNotObject);
            },
        };
        let ghost md = crate::json::members_deep(obj@);
        assert(v.deep() == JsonV::Object(md)) by {
            assert(v.deep()->Object_0 =~= md);
        }
        let name = match crate::json::lookup_member(obj, "name") {
            Some(JsonValue::Str(s)) => s.clone(),
            _ => {
                return Err(ProjectError::TestMissingName);
            },
        };
        let model_name = match crate::json::lookup_member(obj, "model_name") {
            Some(JsonValue::Str(s)) => s.clone(),
            _ => {
                return Err(ProjectError::TestMissingModelName);
            },
        };
        let column_name = match crate::json::lookup_member(obj, "column_name") {
            Some(JsonValue::Str(s)) => Some(s.clone()),
            _ => None,
        };
        let mut type_specific: Vec<(String, JsonValue)> = Vec::new();
        let mut i: usize = 0;
        while i < obj.len()
            invariant
                i <= obj.len(),
                md == crate::json::members_deep(obj@),
                crate::json::members_deep(type_specific@) == other_members(md, i as int),
            decreases obj.len() - i,
        {
            let k = obj[i].0.as_str();
            if crate::json::str_eq(k, "name") || crate::json::str_eq(k, "model_name")
                || crate::json::str_eq(k, "column_name") {
            } else {
                crate::json::insert_member(
                    &mut type_specific,
                    obj[i].0.clone(),
                    obj[i].1.deep_clone(),
                );
            }
            i += 1;
        }
        let t = Test { name, model_name, column_name, type_specific };
        assert(opt_view(t.column_name) == crate::json::json_str_opt(
            crate::json::member_lookup(md, "column_name"@),
        ));
        Ok(t)
    }
}

} // verus!

verus! {

/// `base` with the first `n` members of `ms` set in turn, as a map sets them.
pub open spec fn insert_all(base: Seq<(Seq<char>, JsonV)>, ms: Seq<(Seq<char>, JsonV)>, n: int) -> Seq<
    (Seq<char>, JsonV),
>
    decreases n,
{
    if n <= 0 || n > ms.len() {
        base
    } else {
        crate::json::member_insert(insert_all(base, ms, n - 1), ms[n - 1].0, ms[n - 1].1)
    }
}

/// The entries of a test declared on a source column: `type` set to the test's
/// name, then the members of its configuration if that is an object.
pub open spec fn source_test_members(test_name: Seq<char>, cfg: JsonV) -> Seq<(Seq<char>, JsonV)> {
    let base = seq![("type"@, JsonV::Str(test_name))];
    match cfg {
        JsonV::Object(ms) => insert_all(base, ms, ms.len() as int),
        _ => base,
    }
}

/// The test declared as `test_name: cfg` on column `c` of table `t` of source `s`.
pub open spec fn source_test(
    s: Source,
    t: SourceTable,
    c: SourceColumn,
    test_name: Seq<char>,
    cfg: JsonV,
) -> TestV {
    TestV {
        name: s.name@ + "_"@ + t.name@ + "_"@ + test_name,
        model_name: "source:"@ + s.name@ + "."@ + t.name@,
        column_name: Some(c.name@),
        type_specific: source_test_members(test_name, cfg),
    }
}

pub open spec fn def_tests(s: Source, t: SourceTable, c: SourceColumn, d: Seq<(String, JsonValue)>) -> Seq<
    TestV,
>
    decreases d.len(),
{
    if d.len() == 0 {
        Seq::empty()
    } else {
        def_tests(s, t, c, d.drop_last()).push(source_test(s, t, c, d.last().0@, d.last().1.deep()))
    }
}

pub open spec fn column_tests(s: Source, t: SourceTable, c: SourceColumn, defs: Seq<TestDef>) -> Seq<
    TestV,
>
    decreases defs.len(),
{
    if defs.len() == 0 {
        Seq::empty()
    } else {
        column_tests(s, t, c, defs.drop_last()) + def_tests(s, t, c, defs.last()@)
    }
}

pub open spec fn columns_tests(s: Source, t: SourceTable, cols: Seq<SourceColumn>) -> Seq<TestV>
    decreases cols.len(),
{
    if cols.len() == 0 {
        Seq::empty()
    } else {
        columns_tests(s, t, cols.drop_last()) + column_tests(s, t, cols.last(), cols.last().tests@)
    }
}

pub open spec fn table_tests(s: Source, t: SourceTable) -> Seq<TestV> {
    match t.columns {
        Some(cols) => columns_tests(s, t, cols@),
        None => Seq::empty(),
    }
}

pub open spec fn tables_tests(s: Source, tables: Seq<SourceTable>) -> Seq<TestV>
    decreases tables.len(),
{
    if tables.len() == 0 {
        Seq::empty()
    } else {
        tables_tests(s, tables.drop_last()) + table_tests(s, tables.last())
    }
}

/// The tests declared on source columns, source by source, table by table,
/// column by column.
pub open spec fn sources_tests(sources: Seq<Source>) -> Seq<TestV>
    decreases sources.len(),
{
    if sources.len() == 0 {
        Seq::empty()
    } else {
        sources_tests(sources.drop_last()) + tables_tests(sources.last(), sources.last().tables@)
    }
}

fn cat_strs(parts: &Vec<&str>) -> (r: String)
    ensures
        r@ == parts@.fold_left(Seq::<char>::empty(), |acc: Seq<char>, p: &str| acc + p@),
{
    let mut out: Vec<char> = Vec::new();
    let mut i: usize = 0;
    while i < parts.len()
        invariant
            i <= parts.len(),
            out@ == parts@.take(i as int).fold_left(
                Seq::<char>::empty(),
                |acc: Seq<char>, p: &str| acc + p@,
            ),
        decreases parts.len() - i,
    {
        assert(parts@.take(i + 1).drop_last() == parts@.take(i as int));
        push_all(&mut out, &chars_of(parts[i]));
        i += 1;
    }
    assert(parts@.take(parts.len() as int) == parts@);
    string_of(&out)
}

fn make_source_test(s: &Source, t: &SourceTable, c: &SourceColumn, test_name: &String, cfg: &JsonValue) -> (r:
    Test)
    ensures
        r@ == source_test(*s, *t, *c, test_name@, cfg.deep()),
{
    let name = cat_strs(&vec![s.name.as_str(), "_", t.name.as_str(), "_", test_name.as_str()]);
    let model_name = cat_strs(&vec!["source:", s.name.as_str(), ".", t.name.as_str()]);
    proof {
        reveal_with_fuel(Seq::fold_left, 6);
    }
    let mut config: Vec<(String, JsonValue)> = Vec::new();
    crate::json::insert_member(&mut config, String::from_str("type"), JsonValue::Str(test_name.clone()));
    let ghost base = seq![("type"@, JsonV::Str(test_name@))];
    assert(crate::json::members_deep(config@) =~= base);
    match cfg {
        JsonValue::Object(ms) => {
            let ghost md = crate::json::members_deep(ms@);
            assert(cfg.deep()->Object_0 =~= md);
            let mut i: usize = 0;
            while i < ms.len()
                invariant
                    i <= ms.len(),
                    md == crate::json::members_deep(ms@),
                    crate::json::members_deep(config@) == insert_all(base, md, i as int),
                decreases ms.len() - i,
            {
                crate::json::insert_member(&mut config, ms[i].0.clone(), ms[i].1.deep_clone());
                i += 1;
            }
        },
        _ => {},
    }
    Test { name, model_name, column_name: Some(c.name.clone()), type_specific: config }
}

fn push_def_tests(out: &mut Vec<Test>, s: &Source, t: &SourceTable, c: &SourceColumn, d: &TestDef)
    ensures
        tests_view(final(out)@) == tests_view(old(out)@) + def_tests(*s, *t, *c, d@),
{
    let mut i: usize = 0;
    while i < d.len()
        invariant
            i <= d.len(),
            tests_view(out@) == tests_view(old(out)@) + def_tests(*s, *t, *c, d@.take(i as int)),
        decreases d.len() - i,
    {
        assert(d@.take(i + 1).drop_last() == d@.take(i as int));
        let ghost before = tests_view(out@);
        let tst = make_source_test(s, t, c, &d[i].0, &d[i].1);
        out.push(tst);
        assert(tests_view(out@) == before.push(tst@));
        i += 1;
    }
    assert(d@.take(d.len() as int) == d@);
}

fn push_column_tests(out: &mut Vec<Test>, s: &Source, t: &SourceTable, c: &SourceColumn)
    ensures
        tests_view(final(out)@) == tests_view(old(out)@) + column_tests(*s, *t, *c, c.tests@),
{
    let mut i: usize = 0;
    while i < c.tests.len()
        invariant
            i <= c.tests.len(),
            tests_view(out@) == tests_view(old(out)@) + column_tests(*s, *t, *c, c.tests@.take(i as int)),
        decreases c.tests.len() - i,
    {
        assert(c.tests@.take(i + 1).drop_last() == c.tests@.take(i as int));
        push_def_tests(out, s, t, c, &c.tests[i]);
        i += 1;
    }
    assert(c.tests@.take(c.tests.len() as int) == c.tests@);
}

fn push_table_tests(out: &mut Vec<Test>, s: &Source, t: &SourceTable)
    ensures
        tests_view(final(out)@) == tests_view(old(out)@) + table_tests(*s, *t),
{
    match &t.columns {
        Some(cols) => {
            let mut i: usize = 0;
            while i < cols.len()
                invariant
                    i <= cols.len(),
                    t.columns == Some(*cols),
                    tests_view(out@) == tests_view(old(out)@) + columns_tests(*s, *t, cols@.take(i as int)),
                decreases cols.len() - i,
            {
                assert(cols@.take(i + 1).drop_last() == cols@.take(i as int));
                push_column_tests(out, s, t, &cols[i]);
                i += 1;
            }
            assert(cols@.take(cols.len() as int) == cols@);
        },
        None => {
            assert(tests_view(out@) == tests_view(out@) + Seq::<TestV>::empty());
        },
    }
}

fn push_source_tests(out: &mut Vec<Test>, s: &Source)
    ensures
        tests_view(final(out)@) == tests_view(old(out)@) + tables_tests(*s, s.tables@),
{
    let mut i: usize = 0;
    while i < s.tables.len()
        invariant
            i <= s.tables.len(),
            tests_view(out@) == tests_view(old(out)@) + tables_tests(*s, s.tables@.take(i as int)),
        decreases s.tables.len() - i,
    {
        assert(s.tables@.take(i + 1).drop_last() == s.tables@.take(i as int));
        push_table_tests(out, s, &s.tables[i]);
        i += 1;
    }
    assert(s.tables@.take(s.tables.len() as int) == s.tables@);
}

impl Project {
    /// Adds, after the existing tests, one test for every test declared on a
    /// source column.
    pub fn extract_tests_from_sources(&mut self)
        ensures
            tests_view(final(self).tests@) == tests_view(old(self).tests@) + sources_tests(
                old(self).sources@,
            ),
            final(self).sources == old(self).sources,
            final(self).models == old(self).models,
            final(self).name == old(self).name,
            final(self).model_map == old(self).model_map,
            final(self).source_map == old(self).source_map,
            final(self).profile == old(self).profile,
            final(self).project_path == old(self).project_path,
    {
        let mut new_tests: Vec<Test> = Vec::new();
        let mut i: usize = 0;
        while i < self.sources.len()
            invariant
                i <= self.sources.len(),
                tests_view(new_tests@) == sources_tests(self.sources@.take(i as int)),
            decreases self.sources.len() - i,
        {
            assert(self.sources@.take(i + 1).drop_last() == self.sources@.take(i as int));
            push_source_tests(&mut new_tests, &self.sources[i]);
            i += 1;
        }
        assert(self.sources@.take(self.sources.len() as int) == self.sources@);
        let ghost old_tests = tests_view(self.tests@);
        self.tests.append(&mut new_tests);
        assert(tests_view(self.tests@) =~= old_tests + sources_tests(self.sources@));
    }
}

} // verus!

verus! {

pub open spec fn index_map_view(m: Seq<(String, usize)>) -> Seq<(Seq<char>, usize)> {
    Seq::new(m.len(), |i: int| (m[i].0@, m[i].1))
}

/// Position of the first entry with key `k`.
pub open spec fn key_position(m: Seq<(Seq<char>, usize)>, k: Seq<char>) -> Option<int>
    decreases m.len(),
{
    if m.len() == 0 {
        None
    } else if m[0].0 == k {
        Some(0)
    } else {
        match key_position(m.drop_first(), k) {
            Some(i) => Some(i + 1),
            None => None,
        }
    }
}

/// Entries after setting `k` to `v` as a map does.
pub open spec fn key_insert(m: Seq<(Seq<char>, usize)>, k: Seq<char>, v: usize) -> Seq<
    (Seq<char>, usize),
> {
    match key_position(m, k) {
        Some(i) => m.update(i, (k, v)),
        None => m.push((k, v)),
    }
}

proof fn lemma_key_position(m: Seq<(Seq<char>, usize)>, k: Seq<char>)
    ensures
        key_position(m, k) matches Some(i) ==> 0 <= i < m.len() && m[i].0 == k && forall|j: int|
            0 <= j < i ==> m[j].0 != k,
        key_position(m, k) is None ==> forall|j: int| 0 <= j < m.len() ==> m[j].0 != k,
    decreases m.len(),
{
    if m.len() > 0 && m[0].0 != k {
        lemma_key_position(m.drop_first(), k);
        assert forall|j: int| 1 <= j < m.len() implies m[j] == m.drop_first()[j - 1] by {}
    }
}

fn insert_index(m: &mut Vec<(String, usize)>, k: String, v: usize)
    ensures
        index_map_view(final(m)@) == key_insert(index_map_view(old(m)@), k@, v),
{
    let ghost md = index_map_view(m@);
    proof {
        lemma_key_position(md, k@);
    }
    let mut i: usize = 0;
    while i < m.len()
        invariant
            i <= m.len(),
            md == index_map_view(m@),
            md == index_map_view(old(m)@),
            forall|j: int| 0 <= j < i ==> md[j].0 != k@,
        decreases m.len() - i,
    {
        if crate::json::str_eq(m[i].0.as_str(), k.as_str()) {
            assert(md[i as int].0 == k@);
            assert(key_position(md, k@) == Some(i as int)) by {
                lemma_key_position(md, k@);
                if key_position(md, k@) is Some {
                    let x = key_position(md, k@)->0;
                    assert(!(x < i));
                    assert(!(x > i));
                }
            }
            let ghost kv = k@;
            m[i] = (k, v);
            assert(index_map_view(m@) =~= md.update(i as int, (kv, v)));
            return ;
        }
        i += 1;
    }
    assert(key_position(md, k@) is None) by {
        lemma_key_position(md, k@);
        if key_position(md, k@) is Some {
            let x = key_position(md, k@)->0;
            assert(md[x].0 == k@);
        }
    }
    let ghost kv = k@;
    m.push((k, v));
    assert(index_map_view(m@) =~= md.push((kv, v)));
}

/// The map from each of the first `n` names to its position, a later
/// position replacing an earlier one for a repeated name.
pub open spec fn position_map(names: Seq<Seq<char>>, n: int) -> Seq<(Seq<char>, usize)>
    decreases n,
{
    if n <= 0 || n > names.len() {
        Seq::empty()
    } else {
        key_insert(position_map(names, n - 1), names[n - 1], (n - 1) as usize)
    }
}

/// A model as the project file declares it, with the contents of its files.
#[derive(Debug)]
pub struct RawModel {
    pub name: String,
    pub config: Option<ModelConfig>,
    /// Contents of `models/<name>.py`, when that file exists.
    pub python_source: Option<String>,
    /// Contents of `models/<name>.sql`, when that file exists.
    pub sql_source: Option<String>,
}

/// A project file as read.
#[derive(Debug)]
pub struct RawProject {
    pub name: Option<String>,
    pub profile: Profile,
    pub models: Option<Vec<RawModel>>,
    pub sources: Option<Vec<Source>>,
    pub tests: Option<Vec<JsonValue>>,
}

/// `Path::join` of a relative path that does not start with a separator.
pub open spec fn path_join(dir: Seq<char>, rel: Seq<char>) -> Seq<char> {
    if dir.len() == 0 {
        rel
    } else if dir.last() == '/' {
        dir + rel
    } else {
        dir + "/"@ + rel
    }
}

pub fn path_join_exec(dir: &str, rel: &Vec<char>) -> (r: String)
    ensures
        r@ == path_join(dir@, rel@),
{
    let mut out = chars_of(dir);
    if out.len() > 0 && out[out.len() - 1] != '/' {
        out.push('/');
        proof {
            reveal_strlit("/");
        }
    }
    push_all(&mut out, rel);
    string_of(&out)
}

pub open spec fn config_or_default(c: Option<ModelConfig>, m: ModelConfig) -> bool {
    match c {
        Some(c) => m == c,
        None => m.materialized is None && m.unique_key is None && m.schema is None && m.alias is None
            && m.tags@.len() == 0 && m.extra@.len() == 0,
    }
}

/// How a loaded model follows from its declaration: a Python file makes it a
/// Python model, otherwise it is a SQL model whose text is the SQL file, if
/// any; its references are those its text names.
pub open spec fn model_built_from(dir: Seq<char>, rm: RawModel, m: Model) -> bool {
    let py = rm.python_source is Some;
    &&& m.name@ == rm.name@
    &&& m.language == if py {
        ModelLanguage::Python
    } else {
        ModelLanguage::Sql
    }
    &&& m.raw_python@ == if py {
        rm.python_source->0@
    } else {
        Seq::empty()
    }
    &&& m.raw_sql@ == if py {
        Seq::empty()
    } else {
        or_default(rm.sql_source, Seq::empty())
    }
    &&& m.file_path@ == path_join(
        dir,
        "models/"@ + rm.name@ + if py {
            ".py"@
        } else {
            ".sql"@
        },
    )
    &&& strings_view(m.refs@) == if py {
        scan_all(m.raw_python@, py_ref_pattern())
    } else {
        scan_all(m.raw_sql@, sql_ref_pattern())
    }
    &&& strings_view(m.sources@) == if py {
        scan_all(m.raw_python@, py_source_pattern())
    } else {
        scan_all(m.raw_sql@, sql_source_pattern())
    }
    &&& config_or_default(rm.config, m.config)
}

/// The tests read from the test definitions, or the error of the first one
/// that is not a valid test.
pub open spec fn tests_from_spec(vs: Seq<JsonValue>) -> Result<Seq<TestV>, ProjectError>
    decreases vs.len(),
{
    if vs.len() == 0 {
        Ok(Seq::empty())
    } else {
        match tests_from_spec(vs.drop_last()) {
            Err(e) => Err(e),
            Ok(ts) => match test_from_spec(vs.last().deep()) {
                Ok(t) => Ok(ts.push(t)),
                Err(e) => Err(e),
            },
        }
    }
}

pub open spec fn raw_models(raw: RawProject) -> Seq<RawModel> {
    match raw.models {
        Some(v) => v@,
        None => Seq::empty(),
    }
}

pub open spec fn raw_sources(raw: RawProject) -> Seq<Source> {
    match raw.sources {
        Some(v) => v@,
        None => Seq::empty(),
    }
}

pub open spec fn raw_tests(raw: RawProject) -> Seq<JsonValue> {
    match raw.tests {
        Some(v) => v@,
        None => Seq::empty(),
    }
}

/// What a project loaded from `raw` in the directory `dir` holds.
pub open spec fn loaded_from(raw: RawProject, dir: Seq<char>, p: Project) -> bool {
    let models = raw_models(raw);
    let sources = raw_sources(raw);
    &&& p.name@ == or_default(raw.name, "openpipe_project"@)
    &&& p.profile == raw.profile
    &&& p.project_path@ == dir
    &&& p.models@.len() == models.len()
    &&& forall|i: int| 0 <= i < models.len() ==> model_built_from(dir, models[i], #[trigger] p.models@[i])
    &&& index_map_view(p.model_map@) == position_map(
        Seq::new(models.len(), |i: int| models[i].name@),
        models.len() as int,
    )
    &&& p.sources@ == sources
    &&& index_map_view(p.source_map@) == position_map(
        Seq::new(sources.len(), |i: int| sources[i].name@),
        sources.len() as int,
    )
    &&& tests_from_spec(raw_tests(raw)) matches Ok(ts) && tests_view(p.tests@) == ts + sources_tests(
        sources,
    )
}

fn build_model(dir: &str, rm: RawModel) -> (m: Model)
    ensures
        model_built_from(dir@, rm, m),
{
    let RawModel { name, config, python_source, sql_source } = rm;
    let is_py = python_source.is_some();
    let (raw_sql, raw_python, language) = match python_source {
        Some(py) => (String::new(), py, ModelLanguage::Python),
        None => match sql_source {
            Some(sql) => (sql, String::new(), ModelLanguage::Sql),
            None => (String::new(), String::new(), ModelLanguage::Sql),
        },
    };
    let (refs, sources) = if is_py {
        extract_refs_and_sources_python(raw_python.as_str())
    } else {
        extract_refs_and_sources(raw_sql.as_str())
    };
    let mut rel = chars_of("models/");
    push_all(&mut rel, &chars_of(name.as_str()));
    if is_py {
        push_all(&mut rel, &chars_of(".py"));
    } else {
        push_all(&mut rel, &chars_of(".sql"));
    }
    let file_path = path_join_exec(dir, &rel);
    let config = match config {
        Some(c) => c,
        None => ModelConfig::default(),
    };
    Model { name, file_path, raw_sql, raw_python, language, config, refs, sources }
}

impl Project {
    /// Builds the project that the project file `raw` in directory `dir`
    /// describes, with the tests of its source columns added after its own
    /// tests. Fails with the error of the first invalid test definition.
    pub fn load(dir: &str, raw: RawProject) -> (r: Result<Project, ProjectError>)
        ensures
            r matches Ok(p) ==> loaded_from(raw, dir@, p),
            r is Ok <==> tests_from_spec(raw_tests(raw)) is Ok,
            r matches Err(e) ==> tests_from_spec(raw_tests(raw)) == Err::<Seq<TestV>, ProjectError>(
                e,
            ),
    {
        let ghost raw0 = raw;
        let RawProject { name, profile, models: raw_models_opt, sources: raw_sources_opt, tests } = raw;
        let mut pending = match raw_models_opt {
            Some(v) => v,
            None => Vec::new(),
        };
        let ghost all = pending@;
        let ghost names = Seq::new(all.len(), |i: int| all[i].name@);
        let mut models: Vec<Model> = Vec::new();
        let mut model_map: Vec<(String, usize)> = Vec::new();
        while pending.len() > 0
            invariant
                all == raw_models(raw0),
                names == Seq::new(all.len(), |i: int| all[i].name@),
                models.len() + pending.len() == all.len(),
                pending@ == all.skip(models.len() as int),
                forall|i: int| 0 <= i < models.len() ==> model_built_from(dir@, all[i], #[trigger] models@[i]),
                index_map_view(model_map@) == position_map(names, models.len() as int),
            decreases pending.len(),
        {
            let rm = pending.remove(0);
            let idx = models.len();
            assert(rm == all[idx as int]);
            let key = rm.name.clone();
            let m = build_model(dir, rm);
            insert_index(&mut model_map, key, idx);
            models.push(m);
            assert(all.skip(idx + 1) =~= all.skip(idx as int).drop_first());
        }
        let sources = match raw_sources_opt {
            Some(v) => v,
            None => Vec::new(),
        };
        let ghost snames = Seq::new(sources@.len(), |i: int| sources@[i].name@);
        let mut source_map: Vec<(String, usize)> = Vec::new();
        let mut i: usize = 0;
        while i < sources.len()
            invariant
                i <= sources.len(),
                snames == Seq::new(sources@.len(), |i: int| sources@[i].name@),
                index_map_view(source_map@) == position_map(snames, i as int),
            decreases sources.len() - i,
        {
            insert_index(&mut source_map, sources[i].name.clone(), i);
            i += 1;
        }
        let test_values = match tests {
            Some(v) => v,
            None => Vec::new(),
        };
        let mut parsed: Vec<Test> = Vec::new();
        let mut i: usize = 0;
        assert(test_values@.take(0) =~= Seq::<JsonValue>::empty());
        assert(tests_view(parsed@) =~= Seq::<TestV>::empty());
        while i < test_values.len()
            invariant
                i <= test_values.len(),
                test_values@ == raw_tests(raw0),
                raw0 == raw,
                tests_from_spec(test_values@.take(i as int)) == Ok::<Seq<TestV>, ProjectError>(
                    tests_view(parsed@),
                ),
            decreases test_values.len() - i,
        {
            assert(test_values@.take(i + 1).drop_last() == test_values@.take(i as int));
            match Test::from_value(&test_values[i]) {
                Ok(t) => {
                    let ghost before = tests_view(parsed@);
                    parsed.push(t);
                    assert(tests_view(parsed@) == before.push(t@));
                },
                Err(e) => {
                    proof {
                        lemma_tests_from_error(test_values@, i as int);
                    }
                    return Err(e);
                },
            }
            i += 1;
        }
        assert(test_values@.take(test_values.len() as int) == test_values@);
        let name = match name {
            Some(n) => n,
            None => String::from_str("openpipe_project"),
        };
        let mut project = Project {
            name,
            profile,
            models,
            sources,
            tests: parsed,
            model_map,
            source_map,
            project_path: String::from_str(dir),
        };
        project.extract_tests_from_sources();
        Ok(project)
    }
}

proof fn lemma_tests_from_error(vs: Seq<JsonValue>, i: int)
    requires
        0 <= i < vs.len(),
        tests_from_spec(vs.take(i)) is Ok,
        test_from_spec(vs[i].deep()) is Err,
    ensures
        tests_from_spec(vs) == Err::<Seq<TestV>, ProjectError>(test_from_spec(vs[i].deep())->Err_0),
    decreases vs.len() - i,
{
    assert(vs.take(i + 1).drop_last() == vs.take(i));
    if i + 1 == vs.len() {
        assert(vs.take(i + 1) == vs);
    } else {
        lemma_tests_from_error_prefix(vs, i + 1);
    }
}

proof fn lemma_tests_from_error_prefix(vs: Seq<JsonValue>, n: int)
    requires
        0 < n <= vs.len(),
        tests_from_spec(vs.take(n)) is Err,
    ensures
        tests_from_spec(vs) == tests_from_spec(vs.take(n)),
    decreases vs.len() - n,
{
    if n == vs.len() {
        assert(vs.take(n) == vs);
    } else {
        assert(vs.take(n + 1).drop_last() == vs.take(n));
        lemma_tests_from_error_prefix(vs, n + 1);
    }
}

} // verus!

verus! {

/// The project file names looked for, in order of preference.
pub open spec fn project_file_candidates() -> Seq<Seq<char>> {
    seq!["openpipe.yml"@, "openpipe.yaml"@, "openpipe.json"@]
}

/// The first candidate file name among `present`, joined to `path`.
pub open spec fn project_file_spec(path: Seq<char>, present: Seq<Seq<char>>) -> Option<Seq<char>> {
    let c = project_file_candidates();
    if present.contains(c[0]) {
        Some(path_join(path, c[0]))
    } else if present.contains(c[1]) {
        Some(path_join(path, c[1]))
    } else if present.contains(c[2]) {
        Some(path_join(path, c[2]))
    } else {
        None
    }
}

fn contains_name(present: &Vec<String>, name: &str) -> (r: bool)
    ensures
        r == strings_view(present@).contains(name@),
{
    let mut i: usize = 0;
    while i < present.len()
        invariant
            i <= present.len(),
            forall|j: int| 0 <= j < i ==> present@[j]@ != name@,
        decreases present.len() - i,
    {
        if crate::json::str_eq(present[i].as_str(), name) {
            assert(strings_view(present@)[i as int] == name@);
            return true;
        }
        i += 1;
    }
    assert forall|j: int| 0 <= j < strings_view(present@).len() implies strings_view(present@)[j] != name@ by {
        assert(strings_view(present@)[j] == present@[j]@);
    }
    false
}

/// Picks the project file of directory `path`, whose existing entries are
/// named in `present`: `openpipe.yml`, else `openpipe.yaml`, else `openpipe.json`.
pub fn find_project_file(path: &str, present: &Vec<String>) -> (r: Result<String, ProjectError>)
    ensures
        r matches Ok(f) ==> project_file_spec(path@, strings_view(present@)) == Some(f@),
        r matches Err(e) ==> project_file_spec(path@, strings_view(present@)) is None && e
            == (ProjectError::NoProjectFile { path: e->path }) && e->path@ == path@,
        r is Ok <==> project_file_spec(path@, strings_view(present@)) is Some,
{
    let candidates = vec!["openpipe.yml", "openpipe.yaml", "openpipe.json"];
    let mut i: usize = 0;
    while i < candidates.len()
        invariant
            i <= candidates.len(),
            candidates@ == seq!["openpipe.yml", "openpipe.yaml", "openpipe.json"],
            forall|j: int| 0 <= j < i ==> !strings_view(present@).contains(#[trigger] candidates@[j]@),
        decreases candidates.len() - i,
    {
        if contains_name(present, candidates[i]) {
            let r = path_join_exec(path, &chars_of(candidates[i]));
            return Ok(r);
        }
        i += 1;
    }
    Err(ProjectError::NoProjectFile { path: String::from_str(path) })
}

} // verus!

verus! {

/// Value stored under key `k`.
pub open spec fn key_lookup(m: Seq<(Seq<char>, usize)>, k: Seq<char>) -> Option<usize> {
    match key_position(m, k) {
        Some(i) => Some(m[i].1),
        None => None,
    }
}

proof fn lemma_key_insert_lookup(m: Seq<(Seq<char>, usize)>, k: Seq<char>, v: usize, k2: Seq<char>)
    ensures
        key_lookup(key_insert(m, k, v), k) == Some(v),
        k2 != k ==> key_lookup(key_insert(m, k, v), k2) == key_lookup(m, k2),
{
    let m2 = key_insert(m, k, v);
    lemma_key_position(m, k);
    lemma_key_position(m2, k);
    lemma_key_position(m, k2);
    lemma_key_position(m2, k2);
    match key_position(m, k) {
        Some(i) => {
            assert(m2[i].0 == k);
            if key_position(m2, k) is Some {
                let j = key_position(m2, k)->0;
                assert(!(j < i));
                assert(!(j > i));
            }
            if k2 != k {
                match key_position(m, k2) {
                    Some(x) => {
                        assert(m2[x] == m[x]);
                        let y = key_position(m2, k2)->0;
                        if y < x {
                            assert(m2[y] == m[y]);
                        }
                        assert(!(x < y));
                    },
                    None => {
                        if key_position(m2, k2) is Some {
                            let y = key_position(m2, k2)->0;
                            assert(m2[y] == m[y]);
                        }
                    },
                }
            }
        },
        None => {
            assert(m2[m.len() as int].0 == k);
            if key_position(m2, k) is Some {
                let j = key_position(m2, k)->0;
                if j < m.len() {
                    assert(m2[j] == m[j]);
                }
            }
            if k2 != k {
                match key_position(m, k2) {
                    Some(x) => {
                        assert(m2[x] == m[x]);
                        let y = key_position(m2, k2)->0;
                        if y < x {
                            assert(m2[y] == m[y]);
                        }
                        assert(!(x < y));
                    },
                    None => {
                        if key_position(m2, k2) is Some {
                            let y = key_position(m2, k2)->0;
                            if y < m.len() {
                                assert(m2[y] == m[y]);
                            }
                        }
                    },
                }
            }
        },
    }
}

proof fn lemma_index_lookup_view(m: Seq<(String, usize)>, k: Seq<char>)
    ensures
        index_lookup(m, k) == key_lookup(index_map_view(m), k),
    decreases m.len(),
{
    if m.len() > 0 {
        let v = index_map_view(m);
        assert(v.drop_first() =~= index_map_view(m.drop_first()));
        if m[0].0@ != k {
            lemma_index_lookup_view(m.drop_first(), k);
            lemma_key_position(v.drop_first(), k);
            match key_position(v.drop_first(), k) {
                Some(i) => assert(v.drop_first()[i] == v[i + 1]),
                None => {},
            }
        }
    }
}

proof fn lemma_position_map(names: Seq<Seq<char>>, n: int, k: Seq<char>)
    requires
        0 <= n <= names.len(),
        names.len() <= usize::MAX,
    ensures
        key_lookup(position_map(names, n), k) is Some <==> exists|i: int| 0 <= i < n && names[i] == k,
        key_lookup(position_map(names, n), k) is Some ==> {
            let v = key_lookup(position_map(names, n), k)->0;
            &&& v < n
            &&& names[v as int] == k
            &&& forall|j: int| v < j < n ==> names[j] != k
        },
    decreases n,
{
    if n > 0 {
        lemma_position_map(names, n - 1, k);
        lemma_key_insert_lookup(position_map(names, n - 1), names[n - 1], (n - 1) as usize, k);
        if names[n - 1] != k {
            assert forall|i: int| 0 <= i < n && names[i] == k implies 0 <= i < n - 1 && names[i] == k by {}
        }
    }
}

/// `map` indexes `names`: exactly the listed names are found, and each is
/// found at the last position that holds it.
pub open spec fn indexes_names(map: Seq<(String, usize)>, names: Seq<Seq<char>>) -> bool {
    forall|k: Seq<char>|
        #![trigger index_lookup(map, k)]
        (index_lookup(map, k) is Some <==> names.contains(k)) && (index_lookup(map, k) is Some ==> {
            let v = index_lookup(map, k)->0;
            &&& v < names.len()
            &&& names[v as int] == k
            &&& forall|j: int| v < j < names.len() ==> names[j] != k
        })
}

proof fn lemma_position_map_indexes(map: Seq<(String, usize)>, names: Seq<Seq<char>>)
    requires
        index_map_view(map) == position_map(names, names.len() as int),
        names.len() <= usize::MAX,
    ensures
        indexes_names(map, names),
{
    assert forall|k: Seq<char>|
        #![trigger index_lookup(map, k)]
        (index_lookup(map, k) is Some <==> names.contains(k)) && (index_lookup(map, k) is Some ==> {
            let v = index_lookup(map, k)->0;
            &&& v < names.len()
            &&& names[v as int] == k
            &&& forall|j: int| v < j < names.len() ==> names[j] != k
        }) by {
        lemma_index_lookup_view(map, k);
        lemma_position_map(names, names.len() as int, k);
    }
}

/// After a load, the model map finds exactly the names of the project's
/// models, each at the last model of that name; likewise the source map over
/// the sources.
pub proof fn lemma_load_indexes_names(raw: RawProject, dir: Seq<char>, p: Project)
    requires
        loaded_from(raw, dir, p),
    ensures
        indexes_names(p.model_map@, Seq::new(p.models@.len(), |i: int| p.models@[i].name@)),
        indexes_names(p.source_map@, Seq::new(p.sources@.len(), |i: int| p.sources@[i].name@)),
{
    let models = raw_models(raw);
    let sources = raw_sources(raw);
    let mn = Seq::new(models.len(), |i: int| models[i].name@);
    assert(mn =~= Seq::new(p.models@.len(), |i: int| p.models@[i].name@)) by {
        assert forall|i: int| 0 <= i < models.len() implies mn[i] == p.models@[i].name@ by {
            assert(model_built_from(dir, models[i], p.models@[i]));
        }
    }
    let sn = Seq::new(sources.len(), |i: int| sources[i].name@);
    assert(sn =~= Seq::new(p.sources@.len(), |i: int| p.sources@[i].name@));
    assert(mn.len() <= usize::MAX) by {
        assert(p.models@.len() == p.models.len());
    }
    assert(sn.len() <= usize::MAX) by {
        assert(p.sources@.len() == p.sources.len());
    }
    lemma_position_map_indexes(p.model_map@, mn);
    lemma_position_map_indexes(p.source_map@, sn);
}

} // verus!

verus! {

proof fn lemma_ref_edges_complete(p: Project, refs: Seq<String>, to: Seq<char>, j: int)
    requires
        0 <= j < refs.len(),
        index_lookup(p.model_map@, refs[j]@) is Some,
    ensures
        ref_edges(p, refs, to).contains((refs[j]@, to, "ref"@)),
    decreases refs.len(),
{
    let prev = ref_edges(p, refs.drop_last(), to);
    let tail = if index_lookup(p.model_map@, refs.last()@) is Some {
        seq![(refs.last()@, to, "ref"@)]
    } else {
        Seq::empty()
    };
    assert(ref_edges(p, refs, to) == prev + tail);
    if j < refs.len() - 1 {
        assert(refs.drop_last()[j] == refs[j]);
        lemma_ref_edges_complete(p, refs.drop_last(), to, j);
        let k = choose|k: int| 0 <= k < prev.len() && prev[k] == (refs[j]@, to, "ref"@);
        assert((prev + tail)[k] == prev[k]);
    } else {
        assert((prev + tail)[prev.len() as int] == (refs[j]@, to, "ref"@));
    }
}

proof fn lemma_source_edges_complete(p: Project, sources: Seq<String>, to: Seq<char>, j: int)
    requires
        0 <= j < sources.len(),
        index_lookup(p.source_map@, sources[j]@) is Some,
    ensures
        source_edges(p, sources, to).contains(("source:"@ + sources[j]@, to, "source"@)),
    decreases sources.len(),
{
    let prev = source_edges(p, sources.drop_last(), to);
    let tail = if index_lookup(p.source_map@, sources.last()@) is Some {
        seq![("source:"@ + sources.last()@, to, "source"@)]
    } else {
        Seq::empty()
    };
    assert(source_edges(p, sources, to) == prev + tail);
    if j < sources.len() - 1 {
        assert(sources.drop_last()[j] == sources[j]);
        lemma_source_edges_complete(p, sources.drop_last(), to, j);
        let k = choose|k: int| 0 <= k < prev.len() && prev[k] == ("source:"@ + sources[j]@, to, "source"@);
        assert((prev + tail)[k] == prev[k]);
    } else {
        assert((prev + tail)[prev.len() as int] == ("source:"@ + sources[j]@, to, "source"@));
    }
}

/// The graph is complete: for every model, each name it refers to that the
/// model map knows gives an edge from that name to the model, and each source
/// it reads that the source map knows gives an edge from `source:` and the
/// source's name to the model.
pub proof fn lemma_edges_complete(p: Project, models: Seq<Model>, i: int)
    requires
        0 <= i < models.len(),
    ensures
        forall|j: int|
            0 <= j < models[i].refs@.len() && index_lookup(p.model_map@, models[i].refs@[j]@) is Some
                ==> project_edges(p, models).contains(
                (#[trigger] models[i].refs@[j]@, models[i].name@, "ref"@),
            ),
        forall|j: int|
            0 <= j < models[i].sources@.len() && index_lookup(p.source_map@, models[i].sources@[j]@)
                is Some ==> project_edges(p, models).contains(
                ("source:"@ + #[trigger] models[i].sources@[j]@, models[i].name@, "source"@),
            ),
    decreases models.len(),
{
    let prev = project_edges(p, models.drop_last());
    let last = models.last();
    let me = model_edges(p, last);
    assert(project_edges(p, models) == prev + me);
    if i < models.len() - 1 {
        assert(models.drop_last()[i] == models[i]);
        lemma_edges_complete(p, models.drop_last(), i);
        assert forall|x: (Seq<char>, Seq<char>, Seq<char>)| prev.contains(x) implies (prev + me).contains(x) by {
            let k = choose|k: int| 0 <= k < prev.len() && prev[k] == x;
            assert((prev + me)[k] == prev[k]);
        }
    } else {
        let r = ref_edges(p, last.refs@, last.name@);
        let s = source_edges(p, last.sources@, last.name@);
        assert(me == r + s);
        assert forall|j: int|
            0 <= j < models[i].refs@.len() && index_lookup(p.model_map@, models[i].refs@[j]@) is Some
                implies project_edges(p, models).contains(
                (#[trigger] models[i].refs@[j]@, models[i].name@, "ref"@),
            ) by {
            lemma_ref_edges_complete(p, last.refs@, last.name@, j);
            let k = choose|k: int| 0 <= k < r.len() && r[k] == (last.refs@[j]@, last.name@, "ref"@);
            assert((prev + (r + s))[prev.len() + k] == r[k]);
        }
        assert forall|j: int|
            0 <= j < models[i].sources@.len() && index_lookup(p.source_map@, models[i].sources@[j]@)
                is Some implies project_edges(p, models).contains(
                ("source:"@ + #[trigger] models[i].sources@[j]@, models[i].name@, "source"@),
            ) by {
            lemma_source_edges_complete(p, last.sources@, last.name@, j);
            let k = choose|k: int|
                0 <= k < s.len() && s[k] == ("source:"@ + last.sources@[j]@, last.name@, "source"@);
            assert((prev + (r + s))[prev.len() + r.len() + k] == s[k]);
        }
    }
}

} // verus!
