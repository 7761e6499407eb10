//! Rendering SQL templates with the `minijinja` engine. The engine is given
//! dbt's functions `ref`, `source`, `config` and `is_incremental`; each of them
//! answers from a [`RenderContext`] computed beforehand.
use vstd::prelude::*;
use crate::compiler::{source_tables, source_table_relation};
use crate::project::{Project, index_lookup, opt_view};
use crate::text::{chars_of, string_of, push_all};

verus! {

/// What a template is rendered with.
#[derive(Clone, Debug)]
pub struct RenderContext {
    pub model_name: String,
    pub relation_name: String,
    pub full_refresh: bool,
    pub run_started_at: String,
    /// Every entry of the model map: the name and, when it points at a model,
    /// that model's relation.
    pub ref_targets: Vec<(String, Option<String>)>,
    /// Every source table: source name, table name and relation.
    pub source_targets: Vec<(String, String, String)>,
}

/// The mathematical form of a [`RenderContext`].
pub struct RenderContextV {
    pub model_name: Seq<char>,
    pub relation_name: Seq<char>,
    pub full_refresh: bool,
    pub run_started_at: Seq<char>,
    pub ref_targets: Seq<(Seq<char>, Option<Seq<char>>)>,
    pub source_targets: Seq<(Seq<char>, Seq<char>, Seq<char>)>,
}

impl View for RenderContext {
    type V = RenderContextV;

    open spec fn view(&self) -> RenderContextV {
        RenderContextV {
            model_name: self.model_name@,
            relation_name: self.relation_name@,
            full_refresh: self.full_refresh,
            run_started_at: self.run_started_at@,
            ref_targets: Seq::new(
                self.ref_targets@.len(),
                |i: int| (self.ref_targets@[i].0@, opt_view(self.ref_targets@[i].1)),
            ),
            source_targets: Seq::new(
                self.source_targets@.len(),
                |i: int|
                    (
                        self.source_targets@[i].0@,
                        self.source_targets@[i].1@,
                        self.source_targets@[i].2@,
                    ),
            ),
        }
    }
}

/// What the template function `ref(name)` gives: the relation of the model the
/// model map points `name` at, or `name` itself.
pub open spec fn jinja_ref_spec(p: Project, name: Seq<char>) -> Seq<char> {
    match index_lookup(p.model_map@, name) {
        Some(i) => if i < p.models@.len() {
            p.relation_spec(p.models@[i as int])
        } else {
            name
        },
        None => name,
    }
}

/// Position of the first source table named `table` of a source named `source`.
pub open spec fn source_table_position(
    st: Seq<(crate::project::Source, crate::project::SourceTable)>,
    source: Seq<char>,
    table: Seq<char>,
) -> Option<int>
    decreases st.len(),
{
    if st.len() == 0 {
        None
    } else if st[0].0.name@ == source && st[0].1.name@ == table {
        Some(0)
    } else {
        match source_table_position(st.drop_first(), source, table) {
            Some(i) => Some(i + 1),
            None => None,
        }
    }
}

/// What the template function `source(source, table)` gives: the relation of
/// the first matching source table, or `source.table`.
pub open spec fn jinja_source_spec(p: Project, source: Seq<char>, table: Seq<char>) -> Seq<char> {
    let st = source_tables(p.sources@);
    match source_table_position(st, source, table) {
        Some(i) => source_table_relation(st[i].0, st[i].1),
        None => source + "."@ + table,
    }
}

/// The context a model's template is rendered with. Without a selected
/// target no model's relation is known, and `ref` answers the name it is given.
pub open spec fn context_spec(
    p: Project,
    model_name: Seq<char>,
    relation_name: Seq<char>,
    full_refresh: bool,
    run_started_at: Seq<char>,
) -> RenderContextV {
    let st = source_tables(p.sources@);
    RenderContextV {
        model_name,
        relation_name,
        full_refresh,
        run_started_at,
        ref_targets: Seq::new(
            p.model_map@.len(),
            |i: int|
                (
                    p.model_map@[i].0@,
                    if p.model_map@[i].1 < p.models@.len() && p.has_target() {
                        Some(p.relation_spec(p.models@[p.model_map@[i].1 as int]))
                    } else {
                        None
                    },
                ),
        ),
        source_targets: Seq::new(
            st.len(),
            |i: int| (st[i].0.name@, st[i].1.name@, source_table_relation(st[i].0, st[i].1)),
        ),
    }
}

/// Builds the context a model's template is rendered with.
pub fn render_context(
    project: &Project,
    model_name: &str,
    relation_name: &str,
    full_refresh: bool,
    run_started_at: &str,
) -> (ctx: RenderContext)
    ensures
        ctx@ == context_spec(*project, model_name@, relation_name@, full_refresh, run_started_at@),
{
    let mut ref_targets: Vec<(String, Option<String>)> = Vec::new();
    let mut i: usize = 0;
    while i < project.model_map.len()
        invariant
            i <= project.model_map.len(),
            ref_targets.len() == i,
            forall|k: int|
                0 <= k < i ==> (#[trigger] ref_targets@[k]).0@ == project.model_map@[k].0@ && opt_view(
                    ref_targets@[k].1,
                ) == if project.model_map@[k].1 < project.models@.len() && project.has_target() {
                    Some(project.relation_spec(project.models@[project.model_map@[k].1 as int]))
                } else {
                    None
                },
        decreases project.model_map.len() - i,
    {
        let idx = project.model_map[i].1;
        let rel = if idx < project.models.len() && project.target().is_some() {
            Some(project.relation_name(&project.models[idx]))
        } else {
            None
        };
        ref_targets.push((project.model_map[i].0.clone(), rel));
        i += 1;
    }
    let mut source_targets: Vec<(String, String, String)> = Vec::new();
    let ghost all = source_tables(project.sources@);
    let mut i: usize = 0;
    while i < project.sources.len()
        invariant
            i <= project.sources.len(),
            all == source_tables(project.sources@),
            source_targets.len() == source_tables(project.sources@.take(i as int)).len(),
            forall|k: int|
                0 <= k < source_targets.len() ==> {
                    let e = source_tables(project.sources@.take(i as int))[k];
                    &&& (#[trigger] source_targets@[k]).0@ == e.0.name@
                    &&& source_targets@[k].1@ == e.1.name@
                    &&& source_targets@[k].2@ == source_table_relation(e.0, e.1)
                },
        decreases project.sources.len() - i,
    {
        let s = &project.sources[i];
        assert(project.sources@.take(i + 1).drop_last() == project.sources@.take(i as int));
        let ghost prev = source_tables(project.sources@.take(i as int));
        let ghost next = source_tables(project.sources@.take(i + 1));
        assert(next == prev + Seq::new(s.tables@.len(), |j: int| (*s, s.tables@[j])));
        let mut j: usize = 0;
        while j < s.tables.len()
            invariant
                j <= s.tables.len(),
                s == &project.sources@[i as int],
                next == prev + Seq::new(s.tables@.len(), |j: int| (*s, s.tables@[j])),
                source_targets.len() == prev.len() + j,
                forall|k: int|
                    0 <= k < source_targets.len() ==> {
                        let e = next[k];
                        &&& (#[trigger] source_targets@[k]).0@ == e.0.name@
                        &&& source_targets@[k].1@ == e.1.name@
                        &&& source_targets@[k].2@ == source_table_relation(e.0, e.1)
                    },
            decreases s.tables.len() - j,
        {
            let t = &s.tables[j];
            let rel = crate::compiler::source_relation(s, t);
            source_targets.push((s.name.clone(), t.name.clone(), string_of(&rel)));
            j += 1;
        }
        i += 1;
    }
    assert(project.sources@.take(project.sources.len() as int) == project.sources@);
    let ctx = RenderContext {
        model_name: String::from_str(model_name),
        relation_name: String::from_str(relation_name),
        full_refresh,
        run_started_at: String::from_str(run_started_at),
        ref_targets,
        source_targets,
    };
    assert(ctx@.ref_targets =~= context_spec(
        *project,
        model_name@,
        relation_name@,
        full_refresh,
        run_started_at@,
    ).ref_targets);
    assert(ctx@.source_targets =~= context_spec(
        *project,
        model_name@,
        relation_name@,
        full_refresh,
        run_started_at@,
    ).source_targets);
    ctx
}

} // verus!

verus! {

/// Position of the first reference target named `name`.
pub open spec fn ref_target_position(t: Seq<(Seq<char>, Option<Seq<char>>)>, name: Seq<char>) -> Option<
    int,
>
    decreases t.len(),
{
    if t.len() == 0 {
        None
    } else if t[0].0 == name {
        Some(0)
    } else {
        match ref_target_position(t.drop_first(), name) {
            Some(i) => Some(i + 1),
            None => None,
        }
    }
}

/// Position of the first source target for `source` and `table`.
pub open spec fn source_target_position(
    t: Seq<(Seq<char>, Seq<char>, Seq<char>)>,
    source: Seq<char>,
    table: Seq<char>,
) -> Option<int>
    decreases t.len(),
{
    if t.len() == 0 {
        None
    } else if t[0].0 == source && t[0].1 == table {
        Some(0)
    } else {
        match source_target_position(t.drop_first(), source, table) {
            Some(i) => Some(i + 1),
            None => None,
        }
    }
}

/// `ref(name)` answered from a context.
pub open spec fn ctx_ref(c: RenderContextV, name: Seq<char>) -> Seq<char> {
    match ref_target_position(c.ref_targets, name) {
        Some(i) => match c.ref_targets[i].1 {
            Some(r) => r,
            None => name,
        },
        None => name,
    }
}

/// `source(source, table)` answered from a context.
pub open spec fn ctx_source(c: RenderContextV, source: Seq<char>, table: Seq<char>) -> Seq<char> {
    match source_target_position(c.source_targets, source, table) {
        Some(i) => c.source_targets[i].2,
        None => source + "."@ + table,
    }
}

proof fn lemma_ref_target_position(t: Seq<(Seq<char>, Option<Seq<char>>)>, name: Seq<char>)
    ensures
        ref_target_position(t, name) matches Some(i) ==> 0 <= i < t.len() && t[i].0 == name
            && forall|j: int| 0 <= j < i ==> t[j].0 != name,
        ref_target_position(t, name) is None ==> forall|j: int| 0 <= j < t.len() ==> t[j].0 != name,
    decreases t.len(),
{
    if t.len() > 0 && t[0].0 != name {
        lemma_ref_target_position(t.drop_first(), name);
        assert forall|j: int| 1 <= j < t.len() implies t[j] == t.drop_first()[j - 1] by {}
    }
}

proof fn lemma_index_lookup(m: Seq<(String, usize)>, name: Seq<char>)
    ensures
        index_lookup(m, name) is Some ==> exists|i: int|
            0 <= i < m.len() && m[i].0@ == name && m[i].1 == index_lookup(m, name)->0 && forall|j: int|
                0 <= j < i ==> m[j].0@ != name,
        index_lookup(m, name) is None ==> forall|j: int| 0 <= j < m.len() ==> m[j].0@ != name,
    decreases m.len(),
{
    if m.len() > 0 && m[0].0@ != name {
        lemma_index_lookup(m.drop_first(), name);
        assert forall|j: int| 1 <= j < m.len() implies m[j] == m.drop_first()[j - 1] by {}
        if index_lookup(m, name) is Some {
            let i = choose|i: int|
                0 <= i < m.drop_first().len() && m.drop_first()[i].0@ == name && m.drop_first()[i].1
                    == index_lookup(m.drop_first(), name)->0 && forall|j: int|
                    0 <= j < i ==> m.drop_first()[j].0@ != name;
            assert(m[i + 1] == m.drop_first()[i]);
            assert forall|j: int| 0 <= j < i + 1 implies m[j].0@ != name by {
                if j > 0 {
                    assert(m[j] == m.drop_first()[j - 1]);
                }
            }
        }
    }
}

/// Answering `ref` from the context gives what the project defines.
pub proof fn lemma_context_ref(
    p: Project,
    model_name: Seq<char>,
    relation_name: Seq<char>,
    full_refresh: bool,
    run_started_at: Seq<char>,
    name: Seq<char>,
)
    requires
        p.has_target(),
    ensures
        ctx_ref(context_spec(p, model_name, relation_name, full_refresh, run_started_at), name)
            == jinja_ref_spec(p, name),
{
    let c = context_spec(p, model_name, relation_name, full_refresh, run_started_at);
    lemma_ref_target_position(c.ref_targets, name);
    lemma_index_lookup(p.model_map@, name);
    if index_lookup(p.model_map@, name) is Some {
        let i = choose|i: int|
            0 <= i < p.model_map@.len() && p.model_map@[i].0@ == name && p.model_map@[i].1
                == index_lookup(p.model_map@, name)->0 && forall|j: int|
                0 <= j < i ==> p.model_map@[j].0@ != name;
        assert(c.ref_targets[i].0 == name);
        let k = ref_target_position(c.ref_targets, name)->0;
        assert(!(k < i));
        assert(!(k > i)) by {
            if k > i {
                assert(c.ref_targets[i].0 != name);
            }
        }
    } else {
        if ref_target_position(c.ref_targets, name) is Some {
            let k = ref_target_position(c.ref_targets, name)->0;
            assert(c.ref_targets[k].0 == p.model_map@[k].0@);
        }
    }
}

impl RenderContext {
    /// The template function `ref(name)`.
    pub fn ref_relation(&self, name: &str) -> (r: String)
        ensures
            r@ == ctx_ref(self@, name@),
    {
        let ghost t = self@.ref_targets;
        proof {
            lemma_ref_target_position(t, name@);
        }
        let mut i: usize = 0;
        while i < self.ref_targets.len()
            invariant
                i <= self.ref_targets.len(),
                t == self@.ref_targets,
                forall|j: int| 0 <= j < i ==> t[j].0 != name@,
            decreases self.ref_targets.len() - i,
        {
            if crate::json::str_eq(self.ref_targets[i].0.as_str(), name) {
                assert(t[i as int].0 == name@);
                proof {
                    lemma_ref_target_position(t, name@);
                    let k = ref_target_position(t, name@)->0;
                    assert(ref_target_position(t, name@) is Some);
                    assert(!(k < i));
                    assert(!(k > i));
                }
                return match &self.ref_targets[i].1 {
                    Some(rel) => rel.clone(),
                    None => String::from_str(name),
                };
            }
            i += 1;
        }
        proof {
            lemma_ref_target_position(t, name@);
            if ref_target_position(t, name@) is Some {
                let k = ref_target_position(t, name@)->0;
                assert(t[k].0 == name@);
            }
        }
        String::from_str(name)
    }

    /// The template function `source(source, table)`.
    pub fn source_relation(&self, source: &str, table: &str) -> (r: String)
        ensures
            r@ == ctx_source(self@, source@, table@),
    {
        let ghost t = self@.source_targets;
        proof {
            lemma_source_target_position(t, source@, table@);
        }
        let mut i: usize = 0;
        while i < self.source_targets.len()
            invariant
                i <= self.source_targets.len(),
                t == self@.source_targets,
                forall|j: int| 0 <= j < i ==> !(t[j].0 == source@ && t[j].1 == table@),
            decreases self.source_targets.len() - i,
        {
            if crate::json::str_eq(self.source_targets[i].0.as_str(), source) && crate::json::str_eq(
                self.source_targets[i].1.as_str(),
                table,
            ) {
                assert(t[i as int].0 == source@ && t[i as int].1 == table@);
                proof {
                    lemma_source_target_position(t, source@, table@);
                    let k = source_target_position(t, source@, table@)->0;
                    assert(source_target_position(t, source@, table@) is Some);
                    assert(!(k < i));
                    assert(!(k > i));
                }
                return self.source_targets[i].2.clone();
            }
            i += 1;
        }
        proof {
            lemma_source_target_position(t, source@, table@);
            if source_target_position(t, source@, table@) is Some {
                let k = source_target_position(t, source@, table@)->0;
                assert(t[k].0 == source@ && t[k].1 == table@);
            }
        }
        let mut out = chars_of(source);
        out.push('.');
        push_all(&mut out, &chars_of(table));
        proof {
            reveal_strlit(".");
        }
        string_of(&out)
    }

    /// The template function `is_incremental()`: true unless this is a full refresh.
    pub fn is_incremental(&self) -> (r: bool)
        ensures
            r == !self.full_refresh,
    {
        !self.full_refresh
    }

    /// The template function `config(...)`, which writes nothing.
    pub fn config_output(&self, key: &str) -> (r: String)
        ensures
            r@ == Seq::<char>::empty(),
    {
        String::new()
    }
}

proof fn lemma_source_target_position(t: Seq<(Seq<char>, Seq<char>, Seq<char>)>, s: Seq<char>, tb: Seq<char>)
    ensures
        source_target_position(t, s, tb) matches Some(i) ==> 0 <= i < t.len() && t[i].0 == s && t[i].1
            == tb && forall|j: int| 0 <= j < i ==> !(t[j].0 == s && t[j].1 == tb),
        source_target_position(t, s, tb) is None ==> forall|j: int|
            0 <= j < t.len() ==> !(t[j].0 == s && t[j].1 == tb),
    decreases t.len(),
{
    if t.len() > 0 && !(t[0].0 == s && t[0].1 == tb) {
        lemma_source_target_position(t.drop_first(), s, tb);
        assert forall|j: int| 1 <= j < t.len() implies t[j] == t.drop_first()[j - 1] by {}
    }
}

} // verus!

verus! {

/// The error type of `minijinja`.
#[verifier::external_type_specification]
#[verifier::external_body]
pub struct ExJinjaError(minijinja::Error);

/// Whether `minijinja` accepts `source` as template syntax.
pub uninterp spec fn jinja_syntax_ok(source: Seq<char>) -> bool;

/// What `minijinja` renders `source` to in the context `ctx`; `None` when
/// rendering fails.
pub uninterp spec fn jinja_rendered(source: Seq<char>, ctx: RenderContextV) -> Option<Seq<char>>;

/// Parses `source` with `minijinja::Environment::template_from_str` on a fresh
/// environment. Claimed: the answer depends on the text alone.
#[verifier::external_body]
pub(crate) fn jinja_parses(source: &str) -> (ok: bool)
    ensures
        ok == jinja_syntax_ok(source@),
{
    minijinja::Environment::new().template_from_str(source).is_ok()
}

/// Renders `source` with `minijinja::Environment::render_str` in an
/// environment whose functions `ref`, `source`, `config` and `is_incremental`
/// are the methods of `ctx`; the variables `this`, `model_name` and
/// `run_started_at` come from `ctx`. Claimed: the outcome depends on the text
/// and the context alone.
#[verifier::external_body]
pub(crate) fn jinja_render(source: &str, ctx: &RenderContext) -> (r: Result<String, minijinja::Error>)
    ensures
        match r {
            Ok(s) => jinja_rendered(source@, ctx@) == Some(s@),
            Err(_) => jinja_rendered(source@, ctx@) is None,
        },
{
    let mut env = minijinja::Environment::new();
    let (a, b, c, d) = (ctx.clone(), ctx.clone(), ctx.clone(), ctx.clone());
    env.add_function("ref", move |n: String| a.ref_relation(&n));
    env.add_function("source", move |s: String, t: String| b.source_relation(&s, &t));
    env.add_function("config", move |k: String, _v: minijinja::Value| c.config_output(&k));
    env.add_function("is_incremental", move || d.is_incremental());
    let vars = [
        ("this", ctx.relation_name.clone()),
        ("model_name", ctx.model_name.clone()),
        ("run_started_at", ctx.run_started_at.clone()),
    ];
    env.render_str(source, std::collections::BTreeMap::from(vars))
}

/// The text of a `minijinja` error, as its `Display` writes it. Nothing is
/// claimed of the text.
#[verifier::external_body]
pub(crate) fn jinja_error_text(e: &minijinja::Error) -> String {
    e.to_string()
}

/// The current time from `chrono::Utc::now`, written by `to_rfc3339`.
/// Nothing is claimed of it.
#[verifier::external_body]
pub(crate) fn now_rfc3339() -> String {
    chrono::Utc::now().to_rfc3339()
}

} // verus!

verus! {

proof fn lemma_source_table_position(
    st: Seq<(crate::project::Source, crate::project::SourceTable)>,
    s: Seq<char>,
    tb: Seq<char>,
)
    ensures
        source_table_position(st, s, tb) matches Some(i) ==> 0 <= i < st.len() && st[i].0.name@ == s
            && st[i].1.name@ == tb && forall|j: int|
            0 <= j < i ==> !(st[j].0.name@ == s && st[j].1.name@ == tb),
        source_table_position(st, s, tb) is None ==> forall|j: int|
            0 <= j < st.len() ==> !(st[j].0.name@ == s && st[j].1.name@ == tb),
    decreases st.len(),
{
    if st.len() > 0 && !(st[0].0.name@ == s && st[0].1.name@ == tb) {
        lemma_source_table_position(st.drop_first(), s, tb);
        assert forall|j: int| 1 <= j < st.len() implies st[j] == st.drop_first()[j - 1] by {}
    }
}

/// Answering `source` from the context gives what the project defines.
pub proof fn lemma_context_source(
    p: Project,
    model_name: Seq<char>,
    relation_name: Seq<char>,
    full_refresh: bool,
    run_started_at: Seq<char>,
    source: Seq<char>,
    table: Seq<char>,
)
    ensures
        ctx_source(context_spec(p, model_name, relation_name, full_refresh, run_started_at), source, table)
            == jinja_source_spec(p, source, table),
{
    let c = context_spec(p, model_name, relation_name, full_refresh, run_started_at);
    let st = source_tables(p.sources@);
    lemma_source_target_position(c.source_targets, source, table);
    lemma_source_table_position(st, source, table);
    match source_table_position(st, source, table) {
        Some(i) => {
            assert(c.source_targets[i].0 == source && c.source_targets[i].1 == table);
            let k = source_target_position(c.source_targets, source, table)->0;
            assert(!(k < i));
            assert(!(k > i));
        },
        None => {
            if source_target_position(c.source_targets, source, table) is Some {
                let k = source_target_position(c.source_targets, source, table)->0;
                assert(c.source_targets[k].0 == st[k].0.name@);
            }
        },
    }
}

} // verus!
