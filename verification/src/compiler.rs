//! Compiling models: resolving `ref`s and `source`s to relation names,
//! reading `config` directives, rendering SQL templates and wrapping
//! Python models.
use vstd::prelude::*;
use crate::project::{
    Model, ModelLanguage, Project, Source, SourceTable, index_lookup, lookup_index, or_default,
    strings_view,
};
use crate::rewrite::{pairs_view, replace_pairs, replace_pairs_exec};
use crate::scan::{Directive, remove_directive, remove_directive_exec};
use crate::text::{
    chars_of, string_of, push_all, replace_seq, replace_exec, contains_seq, contains_exec, trim,
    trim_seq,
};
use crate::sql::sql_parses;
use crate::jinja::{
    context_spec, jinja_error_text, jinja_parses, jinja_render, jinja_rendered, jinja_syntax_ok,
    render_context,
};

verus! {

/// Position of the model a reference resolves to: the model map's entry for
/// the name, or the first model when the map has none.
pub open spec fn ref_position(p: Project, name: Seq<char>) -> int {
    match index_lookup(p.model_map@, name) {
        Some(i) => i as int,
        None => 0,
    }
}

/// The relation a reference resolves to: that of the model at
/// [`ref_position`], or the name itself when there is no model there.
pub open spec fn resolve_ref_spec(p: Project, name: Seq<char>) -> Seq<char> {
    let i = ref_position(p, name);
    if 0 <= i < p.models@.len() {
        p.relation_spec(p.models@[i])
    } else {
        name
    }
}

/// Whether resolving `name` reads the selected target (and so needs it).
pub open spec fn ref_needs_target(p: Project, name: Seq<char>) -> bool {
    0 <= ref_position(p, name) < p.models@.len()
}

pub fn resolve_ref_name(name: &str, project: &Project) -> (r: String)
    requires
        ref_needs_target(*project, name@) ==> project.has_target(),
    ensures
        r@ == resolve_ref_spec(*project, name@),
{
    let idx = match lookup_index(&project.model_map, name) {
        Some(i) => i,
        None => 0,
    };
    if idx < project.models.len() {
        project.relation_name(&project.models[idx])
    } else {
        String::from_str(name)
    }
}

/// `schema.identifier` of a source table; the schema defaults to the
/// source's name and the identifier to the table's name.
pub open spec fn source_table_relation(s: Source, t: SourceTable) -> Seq<char> {
    or_default(s.schema, s.name@) + "."@ + or_default(t.identifier, t.name@)
}

/// Every (source, table) pair of the project, source by source.
pub open spec fn source_tables(sources: Seq<Source>) -> Seq<(Source, SourceTable)>
    decreases sources.len(),
{
    if sources.len() == 0 {
        Seq::empty()
    } else {
        source_tables(sources.drop_last()) + Seq::new(
            sources.last().tables@.len(),
            |j: int| (sources.last(), sources.last().tables@[j]),
        )
    }
}

/// How a Python model's `dbt.source('s', 't')` is rewritten.
pub open spec fn py_source_pair(st: (Source, SourceTable)) -> (Seq<char>, Seq<char>) {
    (
        "dbt.source('"@ + st.0.name@ + "', '"@ + st.1.name@ + "')"@,
        "spark.table(\""@ + source_table_relation(st.0, st.1) + "\")"@,
    )
}

/// How a SQL model's `{{ source('s', 't') }}` is rewritten when the template
/// cannot be parsed.
pub open spec fn sql_source_pair(st: (Source, SourceTable)) -> (Seq<char>, Seq<char>) {
    (
        "{{ source('"@ + st.0.name@ + "', '"@ + st.1.name@ + "') }}"@,
        source_table_relation(st.0, st.1),
    )
}

pub open spec fn source_pairs_spec(sources: Seq<Source>, python: bool) -> Seq<(Seq<char>, Seq<char>)> {
    let st = source_tables(sources);
    Seq::new(
        st.len(),
        |i: int|
            if python {
                py_source_pair(st[i])
            } else {
                sql_source_pair(st[i])
            },
    )
}

pub(crate) fn cat(parts: &Vec<&Vec<char>>) -> (r: Vec<char>)
    ensures
        r@ == parts@.fold_left(Seq::<char>::empty(), |acc: Seq<char>, p: &Vec<char>| acc + p@),
{
    let mut out: Vec<char> = Vec::new();
    let mut i: usize = 0;
    while i < parts.len()
        invariant
            i <= parts.len(),
            out@ == parts@.take(i as int).fold_left(
                Seq::<char>::empty(),
                |acc: Seq<char>, p: &Vec<char>| acc + p@,
            ),
        decreases parts.len() - i,
    {
        assert(parts@.take(i + 1).drop_last() == parts@.take(i as int));
        push_all(&mut out, parts[i]);
        i += 1;
    }
    assert(parts@.take(parts.len() as int) == parts@);
    out
}

pub(crate) fn source_relation(s: &Source, t: &SourceTable) -> (r: Vec<char>)
    ensures
        r@ == source_table_relation(*s, *t),
{
    let schema = match &s.schema {
        Some(x) => chars_of(x.as_str()),
        None => chars_of(s.name.as_str()),
    };
    let ident = match &t.identifier {
        Some(x) => chars_of(x.as_str()),
        None => chars_of(t.name.as_str()),
    };
    let dot = chars_of(".");
    let r = cat(&vec![&schema, &dot, &ident]);
    proof {
        reveal_with_fuel(Seq::fold_left, 4);
    }
    r
}

/// The rewriting pairs of every source table, for a Python model or for SQL.
fn source_pairs(sources: &Vec<Source>, python: bool) -> (r: Vec<(Vec<char>, Vec<char>)>)
    ensures
        pairs_view(r@) == source_pairs_spec(sources@, python),
        forall|i: int| 0 <= i < r.len() ==> (#[trigger] r@[i]).0.len() > 0,
{
    let mut out: Vec<(Vec<char>, Vec<char>)> = Vec::new();
    let mut i: usize = 0;
    while i < sources.len()
        invariant
            i <= sources.len(),
            pairs_view(out@) == source_pairs_spec(sources@.take(i as int), python),
            forall|k: int| 0 <= k < out.len() ==> (#[trigger] out@[k]).0.len() > 0,
        decreases sources.len() - i,
    {
        let s = &sources[i];
        assert(sources@.take(i + 1).drop_last() == sources@.take(i as int));
        let ghost base = pairs_view(out@);
        let ghost prev = source_tables(sources@.take(i as int));
        let mut j: usize = 0;
        while j < s.tables.len()
            invariant
                j <= s.tables.len(),
                s == &sources@[i as int],
                base == source_pairs_spec(sources@.take(i as int), python),
                prev == source_tables(sources@.take(i as int)),
                base.len() == prev.len(),
                pairs_view(out@) == base + Seq::new(
                    j as nat,
                    |k: int|
                        if python {
                            py_source_pair((*s, s.tables@[k]))
                        } else {
                            sql_source_pair((*s, s.tables@[k]))
                        },
                ),
                forall|k: int| 0 <= k < out.len() ==> (#[trigger] out@[k]).0.len() > 0,
            decreases s.tables.len() - j,
        {
            let t = &s.tables[j];
            let rel = source_relation(s, t);
            let sname = chars_of(s.name.as_str());
            let tname = chars_of(t.name.as_str());
            let ghost before = pairs_view(out@);
            if python {
                let a = chars_of("dbt.source('");
                let b = chars_of("', '");
                let c = chars_of("')");
                let pat = cat(&vec![&a, &sname, &b, &tname, &c]);
                let d = chars_of("spark.table(\"");
                let e = chars_of("\")");
                let rep = cat(&vec![&d, &rel, &e]);
                proof {
                    reveal_with_fuel(Seq::fold_left, 6);
                    reveal_strlit("dbt.source('");
                }
                out.push((pat, rep));
            } else {
                let a = chars_of("{{ source('");
                let b = chars_of("', '");
                let c = chars_of("') }}");
                let pat = cat(&vec![&a, &sname, &b, &tname, &c]);
                proof {
                    reveal_with_fuel(Seq::fold_left, 6);
                    reveal_strlit("{{ source('");
                }
                out.push((pat, rel));
            }
            assert(pairs_view(out@) =~= before.push(
                if python {
                    py_source_pair((*s, s.tables@[j as int]))
                } else {
                    sql_source_pair((*s, s.tables@[j as int]))
                },
            ));
            assert(pairs_view(out@) =~= base + Seq::new(
                (j + 1) as nat,
                |k: int|
                    if python {
                        py_source_pair((*s, s.tables@[k]))
                    } else {
                        sql_source_pair((*s, s.tables@[k]))
                    },
            ));
            j += 1;
        }
        assert(pairs_view(out@) =~= source_pairs_spec(sources@.take(i + 1), python));
        i += 1;
    }
    assert(sources@.take(sources.len() as int) == sources@);
    out
}

} // verus!

verus! {

/// How each `dbt.ref('name')` of a Python model is rewritten.
pub open spec fn py_ref_pairs(p: Project, refs: Seq<String>) -> Seq<(Seq<char>, Seq<char>)> {
    Seq::new(
        refs.len(),
        |i: int|
            (
                "dbt.ref('"@ + refs[i]@ + "')"@,
                "spark.table(\""@ + resolve_ref_spec(p, refs[i]@) + "\")"@,
            ),
    )
}

/// The PySpark entry point around a model body, unless it defines one.
pub open spec fn python_wrap(code: Seq<char>) -> Seq<char> {
    if contains_seq(code, "def model("@) {
        code
    } else {
        "def model(dbt, session):\n    import pyspark.sql.functions as F\n    spark = session.spark\n    "@
            + replace_seq(code, "\n"@, "\n    "@) + "\n    return result"@
    }
}

/// A compiled Python model: its references and sources rewritten to Spark
/// table reads, then wrapped in a `model` function if it has none.
pub open spec fn compile_python_spec(p: Project, m: Model) -> Seq<char> {
    let refs = py_ref_pairs(p, m.refs@);
    let srcs = source_pairs_spec(p.sources@, true);
    python_wrap(
        replace_pairs(replace_pairs(m.raw_python@, refs, refs.len() as int), srcs, srcs.len() as int),
    )
}

fn py_ref_pairs_exec(project: &Project, refs: &Vec<String>) -> (r: Vec<(Vec<char>, Vec<char>)>)
    requires
        project.has_target(),
    ensures
        pairs_view(r@) == py_ref_pairs(*project, refs@),
        forall|i: int| 0 <= i < r.len() ==> (#[trigger] r@[i]).0.len() > 0,
{
    let mut out: Vec<(Vec<char>, Vec<char>)> = Vec::new();
    let mut i: usize = 0;
    while i < refs.len()
        invariant
            i <= refs.len(),
            project.has_target(),
            pairs_view(out@) =~= py_ref_pairs(*project, refs@.take(i as int)),
            forall|k: int| 0 <= k < out.len() ==> (#[trigger] out@[k]).0.len() > 0,
        decreases refs.len() - i,
    {
        let resolved = chars_of(resolve_ref_name(refs[i].as_str(), project).as_str());
        let a = chars_of("dbt.ref('");
        let r = chars_of(refs[i].as_str());
        let b = chars_of("')");
        let pat = cat(&vec![&a, &r, &b]);
        let c = chars_of("spark.table(\"");
        let d = chars_of("\")");
        let rep = cat(&vec![&c, &resolved, &d]);
        proof {
            reveal_with_fuel(Seq::fold_left, 4);
            reveal_strlit("dbt.ref('");
        }
        let ghost before = pairs_view(out@);
        out.push((pat, rep));
        assert(pairs_view(out@) =~= before.push(py_ref_pairs(*project, refs@)[i as int]));
        assert(refs@.take(i + 1) =~= refs@.take(i as int).push(refs@[i as int]));
        i += 1;
    }
    out
}

fn compile_python(model: &Model, project: &Project) -> (r: String)
    requires
        project.has_target(),
    ensures
        r@ == compile_python_spec(*project, *model),
{
    let ref_pairs = py_ref_pairs_exec(project, &model.refs);
    let code = replace_pairs_exec(chars_of(model.raw_python.as_str()), &ref_pairs);
    let src_pairs = source_pairs(&project.sources, true);
    let code = replace_pairs_exec(code, &src_pairs);
    if contains_exec(&code, &chars_of("def model(")) {
        string_of(&code)
    } else {
        let nl = chars_of("\n");
        proof {
            reveal_strlit("\n");
        }
        let body = replace_exec(&code, &nl, &chars_of("\n    "));
        let head = chars_of(
            "def model(dbt, session):\n    import pyspark.sql.functions as F\n    spark = session.spark\n    ",
        );
        let tail = chars_of("\n    return result");
        let out = cat(&vec![&head, &body, &tail]);
        proof {
            reveal_with_fuel(Seq::fold_left, 4);
        }
        string_of(&out)
    }
}

/// How each `{{ ref('name') }}` is rewritten when the template cannot be parsed.
pub open spec fn sql_ref_pairs(p: Project) -> Seq<(Seq<char>, Seq<char>)> {
    Seq::new(
        p.models@.len(),
        |i: int| ("{{ ref('"@ + p.models@[i].name@ + "') }}"@, p.relation_spec(p.models@[i])),
    )
}

/// Compiling SQL text without the template engine: `config` directives
/// removed, `ref`s, `source`s and `this` replaced by relation names,
/// incremental blocks removed, surrounding whitespace trimmed.
pub open spec fn fallback_spec(p: Project, raw: Seq<char>, relation: Seq<char>) -> Seq<char> {
    let s1 = remove_directive(raw, Directive::Config);
    let refs = sql_ref_pairs(p);
    let s2 = replace_pairs(s1, refs, refs.len() as int);
    let srcs = source_pairs_spec(p.sources@, false);
    let s3 = replace_pairs(s2, srcs, srcs.len() as int);
    let s4 = replace_seq(s3, "{{ this }}"@, relation);
    let s5 = replace_seq(s4, "{{this}}"@, relation);
    trim_seq(remove_directive(s5, Directive::IncrementalBlock))
}

fn sql_ref_pairs_exec(project: &Project) -> (r: Vec<(Vec<char>, Vec<char>)>)
    requires
        project.models.len() > 0 ==> project.has_target(),
    ensures
        pairs_view(r@) == sql_ref_pairs(*project),
        forall|i: int| 0 <= i < r.len() ==> (#[trigger] r@[i]).0.len() > 0,
{
    let mut out: Vec<(Vec<char>, Vec<char>)> = Vec::new();
    let mut i: usize = 0;
    while i < project.models.len()
        invariant
            i <= project.models.len(),
            project.models.len() > 0 ==> project.has_target(),
            pairs_view(out@) =~= Seq::new(
                i as nat,
                |k: int|
                    (
                        "{{ ref('"@ + project.models@[k].name@ + "') }}"@,
                        project.relation_spec(project.models@[k]),
                    ),
            ),
            forall|k: int| 0 <= k < out.len() ==> (#[trigger] out@[k]).0.len() > 0,
        decreases project.models.len() - i,
    {
        let m = &project.models[i];
        let rel = chars_of(project.relation_name(m).as_str());
        let a = chars_of("{{ ref('");
        let n = chars_of(m.name.as_str());
        let b = chars_of("') }}");
        let pat = cat(&vec![&a, &n, &b]);
        proof {
            reveal_with_fuel(Seq::fold_left, 4);
            reveal_strlit("{{ ref('");
        }
        let ghost before = pairs_view(out@);
        out.push((pat, rel));
        assert(pairs_view(out@) =~= before.push(sql_ref_pairs(*project)[i as int]));
        i += 1;
    }
    out
}

fn fallback_compile(raw_sql: &str, relation_name: &str, project: &Project) -> (r: String)
    requires
        project.models.len() > 0 ==> project.has_target(),
    ensures
        r@ == fallback_spec(*project, raw_sql@, relation_name@),
{
    let s1 = remove_directive_exec(&chars_of(raw_sql), Directive::Config);
    let s2 = replace_pairs_exec(s1, &sql_ref_pairs_exec(project));
    let s3 = replace_pairs_exec(s2, &source_pairs(&project.sources, false));
    let rel = chars_of(relation_name);
    let this1 = chars_of("{{ this }}");
    let this2 = chars_of("{{this}}");
    proof {
        reveal_strlit("{{ this }}");
        reveal_strlit("{{this}}");
    }
    let s4 = replace_exec(&s3, &this1, &rel);
    let s5 = replace_exec(&s4, &this2, &rel);
    let s6 = remove_directive_exec(&s5, Directive::IncrementalBlock);
    string_of(&trim(&s6))
}

} // verus!

verus! {

pub open spec fn str_map_view(m: Seq<(String, String)>) -> Seq<(Seq<char>, Seq<char>)> {
    Seq::new(m.len(), |i: int| (m[i].0@, m[i].1@))
}

/// Position of the first entry with key `k`.
pub open spec fn str_key_position(m: Seq<(Seq<char>, Seq<char>)>, k: Seq<char>) -> Option<int>
    decreases m.len(),
{
    if m.len() == 0 {
        None
    } else if m[0].0 == k {
        Some(0)
    } else {
        match str_key_position(m.drop_first(), k) {
            Some(i) => Some(i + 1),
            None => None,
        }
    }
}

/// Entries after setting `k` to `v` as a map does.
pub open spec fn str_insert(m: Seq<(Seq<char>, Seq<char>)>, k: Seq<char>, v: Seq<char>) -> Seq<
    (Seq<char>, Seq<char>),
> {
    match str_key_position(m, k) {
        Some(i) => m.update(i, (k, v)),
        None => m.push((k, v)),
    }
}

/// Value of the first entry with key `k`.
pub open spec fn str_lookup(m: Seq<(Seq<char>, Seq<char>)>, k: Seq<char>) -> Option<Seq<char>> {
    match str_key_position(m, k) {
        Some(i) => Some(m[i].1),
        None => None,
    }
}

pub proof fn lemma_str_key_position(m: Seq<(Seq<char>, Seq<char>)>, k: Seq<char>)
    ensures
        str_key_position(m, k) matches Some(i) ==> 0 <= i < m.len() && m[i].0 == k && forall|j: int|
            0 <= j < i ==> m[j].0 != k,
        str_key_position(m, k) is None ==> forall|j: int| 0 <= j < m.len() ==> m[j].0 != k,
    decreases m.len(),
{
    if m.len() > 0 && m[0].0 != k {
        lemma_str_key_position(m.drop_first(), k);
        assert forall|j: int| 1 <= j < m.len() implies m[j] == m.drop_first()[j - 1] by {}
    }
}

fn find_str_entry(m: &Vec<(String, String)>, k: &str) -> (r: Option<usize>)
    ensures
        r matches Some(i) ==> str_key_position(str_map_view(m@), k@) == Some(i as int) && i
            < m.len(),
        r is None ==> str_key_position(str_map_view(m@), k@) is None,
{
    let ghost md = str_map_view(m@);
    proof {
        lemma_str_key_position(md, k@);
    }
    let mut i: usize = 0;
    while i < m.len()
        invariant
            i <= m.len(),
            md == str_map_view(m@),
            forall|j: int| 0 <= j < i ==> md[j].0 != k@,
        decreases m.len() - i,
    {
        if crate::json::str_eq(m[i].0.as_str(), k) {
            assert(md[i as int].0 == k@);
            proof {
                lemma_str_key_position(md, k@);
                if str_key_position(md, k@) is Some {
                    let x = str_key_position(md, k@)->0;
                    assert(!(x < i));
                    assert(!(x > i));
                }
            }
            return Some(i);
        }
        i += 1;
    }
    proof {
        lemma_str_key_position(md, k@);
        if str_key_position(md, k@) is Some {
            let x = str_key_position(md, k@)->0;
            assert(md[x].0 == k@);
        }
    }
    None
}

/// Sets `k` to `v` as a map does.
pub fn insert_str_entry(m: &mut Vec<(String, String)>, k: String, v: String)
    ensures
        str_map_view(final(m)@) == str_insert(str_map_view(old(m)@), k@, v@),
{
    let ghost md = str_map_view(m@);
    match find_str_entry(m, k.as_str()) {
        Some(i) => {
            let ghost kv = k@;
            let ghost vv = v@;
            m[i] = (k, v);
            assert(str_map_view(m@) =~= md.update(i as int, (kv, vv)));
        },
        None => {
            let ghost kv = k@;
            let ghost vv = v@;
            m.push((k, v));
            assert(str_map_view(m@) =~= md.push((kv, vv)));
        },
    }
}

/// Value of the first entry with key `k`.
pub fn lookup_str_entry<'a>(m: &'a Vec<(String, String)>, k: &str) -> (r: Option<&'a String>)
    ensures
        r matches Some(v) ==> str_lookup(str_map_view(m@), k@) == Some(v@),
        r is None ==> str_lookup(str_map_view(m@), k@) is None,
{
    match find_str_entry(m, k) {
        Some(i) => Some(&m[i].1),
        None => None,
    }
}

/// A key or value of a `config` directive: trimmed, then stripped of single
/// quotes at both ends, then of double quotes.
pub open spec fn config_clean(s: Seq<char>) -> Seq<char> {
    crate::text::trim_char_seq(crate::text::trim_char_seq(trim_seq(s), '\''), '"')
}

/// The setting a `key=value` item holds: split at its first `=`.
pub open spec fn config_item(item: Seq<char>) -> Option<(Seq<char>, Seq<char>)> {
    match crate::text::find_from(item, '=', 0) {
        Some(k) => Some(
            (config_clean(item.subrange(0, k)), config_clean(item.subrange(k + 1, item.len() as int))),
        ),
        None => None,
    }
}

/// `m` with the settings of the first `n` items set in turn.
pub open spec fn apply_items(m: Seq<(Seq<char>, Seq<char>)>, items: Seq<Seq<char>>, n: int) -> Seq<
    (Seq<char>, Seq<char>),
>
    decreases n,
{
    if n <= 0 || n > items.len() {
        m
    } else {
        let prev = apply_items(m, items, n - 1);
        match config_item(items[n - 1]) {
            Some((k, v)) => str_insert(prev, k, v),
            None => prev,
        }
    }
}

/// A line that opens with a `config` directive, after trimming.
pub open spec fn is_config_line(t: Seq<char>) -> bool {
    crate::text::matches_at(t, 0, "{{ config("@) || crate::text::matches_at(
        t,
        0,
        "{%- raw -%}{{ config("@,
    )
}

/// The argument list of a `config` directive line.
pub open spec fn config_arguments(t: Seq<char>) -> Seq<char> {
    crate::text::trim_end_matches(
        crate::text::trim_start_matches(
            crate::text::trim_end_matches(
                crate::text::trim_start_matches(t, "{{ config("@),
                ") }}"@,
            ),
            "{%- raw -%}{{ config("@,
        ),
        ") }}"@,
    )
}

/// `m` with the settings of the `config` directives of the first `n` lines set in turn.
pub open spec fn apply_lines(m: Seq<(Seq<char>, Seq<char>)>, lines: Seq<Seq<char>>, n: int) -> Seq<
    (Seq<char>, Seq<char>),
>
    decreases n,
{
    if n <= 0 || n > lines.len() {
        m
    } else {
        let prev = apply_lines(m, lines, n - 1);
        let t = trim_seq(lines[n - 1]);
        if is_config_line(t) {
            let items = crate::text::split_seq(config_arguments(t), ',');
            apply_items(prev, items, items.len() as int)
        } else {
            prev
        }
    }
}

/// The settings of the `{{ config(key='value', ...) }}` lines of a SQL model,
/// a later setting of a key replacing an earlier one.
pub open spec fn config_spec(raw: Seq<char>) -> Seq<(Seq<char>, Seq<char>)> {
    let lines = crate::text::split_seq(raw, '\n');
    apply_lines(Seq::empty(), lines, lines.len() as int)
}

fn clean_exec(s: &Vec<char>) -> (r: String)
    ensures
        r@ == config_clean(s@),
{
    let t = trim(s);
    let t = crate::text::trim_char(&t, '\'');
    let t = crate::text::trim_char(&t, '"');
    string_of(&t)
}

fn apply_config_line(config: &mut Vec<(String, String)>, t: &Vec<char>)
    ensures
        str_map_view(final(config)@) == ({
            let items = crate::text::split_seq(config_arguments(t@), ',');
            apply_items(str_map_view(old(config)@), items, items.len() as int)
        }),
{
    let a = chars_of("{{ config(");
    let b = chars_of(") }}");
    let c = chars_of("{%- raw -%}{{ config(");
    let inner = crate::text::trim_start_matches_exec(t, &a);
    let inner = crate::text::trim_end_matches_exec(&inner, &b);
    let inner = crate::text::trim_start_matches_exec(&inner, &c);
    let inner = crate::text::trim_end_matches_exec(&inner, &b);
    let items = crate::text::split_exec(&inner, ',');
    let ghost iv = crate::text::split_seq(config_arguments(t@), ',');
    assert(items@.map_values(|v: Vec<char>| v@) == iv);
    let ghost base = str_map_view(config@);
    let mut i: usize = 0;
    while i < items.len()
        invariant
            i <= items.len(),
            items@.map_values(|v: Vec<char>| v@) == iv,
            str_map_view(config@) == apply_items(base, iv, i as int),
        decreases items.len() - i,
    {
        let item = &items[i];
        assert(iv[i as int] == item@);
        proof {
            crate::text::lemma_find_from(item@, '=', 0);
        }
        match crate::text::find_from_exec(item, '=', 0) {
            Some(k) => {
                let key = clean_exec(&crate::text::sub_vec(item, 0, k));
                let val = clean_exec(&crate::text::sub_vec(item, k + 1, item.len()));
                insert_str_entry(config, key, val);
            },
            None => {},
        }
        i += 1;
    }
}

/// The settings of the `config` directives of a SQL model's text.
pub fn extract_config(raw_sql: &str) -> (r: Vec<(String, String)>)
    ensures
        str_map_view(r@) == config_spec(raw_sql@),
{
    let lines = crate::text::split_exec(&chars_of(raw_sql), '\n');
    let ghost lv = crate::text::split_seq(raw_sql@, '\n');
    let a = chars_of("{{ config(");
    let c = chars_of("{%- raw -%}{{ config(");
    let mut config: Vec<(String, String)> = Vec::new();
    let mut i: usize = 0;
    while i < lines.len()
        invariant
            i <= lines.len(),
            lines@.map_values(|v: Vec<char>| v@) == lv,
            a@ == "{{ config("@,
            c@ == "{%- raw -%}{{ config("@,
            str_map_view(config@) == apply_lines(Seq::empty(), lv, i as int),
        decreases lines.len() - i,
    {
        assert(lv[i as int] == lines@[i as int]@);
        let t = trim(&lines[i]);
        if crate::text::matches_at_exec(&t, 0, &a) || crate::text::matches_at_exec(&t, 0, &c) {
            apply_config_line(&mut config, &t);
        }
        i += 1;
    }
    assert(str_map_view(config@) == config_spec(raw_sql@));
    config
}

} // verus!

verus! {

/// Why compiling a model failed.
#[derive(Debug)]
pub enum CompileError {
    /// The model's template did not render; `message` is the engine's report.
    Render { model: String, message: String },
}

/// The text of a compile error.
pub open spec fn compile_error_text(e: CompileError) -> Seq<char> {
    match e {
        CompileError::Render { model, message } => "Template render error for '"@ + model@ + "': "@
            + message@,
    }
}

impl CompileError {
    /// The error's text.
    pub fn message(&self) -> (r: String)
        ensures
            r@ == compile_error_text(*self),
    {
        match self {
            CompileError::Render { model, message } => {
                let a = chars_of("Template render error for '");
                let m = chars_of(model.as_str());
                let b = chars_of("': ");
                let t = chars_of(message.as_str());
                let r = cat(&vec![&a, &m, &b, &t]);
                proof {
                    reveal_with_fuel(Seq::fold_left, 5);
                }
                string_of(&r)
            },
        }
    }
}

/// What a rendered template becomes: `config` directives removed, then the
/// surrounding whitespace trimmed.
pub open spec fn finish_render_spec(rendered: Seq<char>) -> Seq<char> {
    trim_seq(remove_directive(rendered, Directive::Config))
}

/// Cleans up the text a template rendered to.
pub fn finish_render(rendered: &str) -> (r: String)
    ensures
        r@ == finish_render_spec(rendered@),
{
    string_of(&trim(&remove_directive_exec(&chars_of(rendered), Directive::Config)))
}

/// The SQL a model's template compiles to, or `None` when rendering fails:
/// text the engine cannot parse goes through [`fallback_spec`], text it
/// parses is rendered and cleaned up.
pub open spec fn render_outcome(
    p: Project,
    raw: Seq<char>,
    model_name: Seq<char>,
    relation: Seq<char>,
    full_refresh: bool,
    run_started_at: Seq<char>,
) -> Option<Seq<char>> {
    if !jinja_syntax_ok(raw) {
        Some(fallback_spec(p, raw, relation))
    } else {
        match jinja_rendered(raw, context_spec(p, model_name, relation, full_refresh, run_started_at)) {
            Some(out) => Some(finish_render_spec(out)),
            None => None,
        }
    }
}

/// Whether compiling the template `raw` may read the selected target: when
/// `minijinja` rejects its syntax, the fallback writes out the relation of
/// every model; otherwise a `ref` it renders may resolve to a model's
/// relation, which only a template that mentions `ref` can do.
pub open spec fn template_needs_target(p: Project, raw: Seq<char>) -> bool {
    p.models@.len() > 0 && (!jinja_syntax_ok(raw) || contains_seq(raw, "ref"@))
}

/// Compiles a SQL template.
pub fn evaluate_jinja(
    project: &Project,
    raw_sql: &str,
    model_name: &str,
    relation_name: &str,
    full_refresh: bool,
    run_started_at: &str,
) -> (r: Result<String, CompileError>)
    requires
        template_needs_target(*project, raw_sql@) ==> project.has_target(),
    ensures
        match render_outcome(
            *project,
            raw_sql@,
            model_name@,
            relation_name@,
            full_refresh,
            run_started_at@,
        ) {
            Some(sql) => r matches Ok(s) && s@ == sql,
            None => r matches Err(CompileError::Render { model, .. }) && model@ == model_name@,
        },
{
    if !jinja_parses(raw_sql) {
        return Ok(fallback_compile(raw_sql, relation_name, project));
    }
    let ctx = render_context(project, model_name, relation_name, full_refresh, run_started_at);
    match jinja_render(raw_sql, &ctx) {
        Ok(out) => Ok(finish_render(out.as_str())),
        Err(e) => Err(
            CompileError::Render { model: String::from_str(model_name), message: jinja_error_text(&e) },
        ),
    }
}

} // verus!

verus! {

/// A compiled model.
#[derive(Debug)]
pub struct CompiledModel {
    pub name: String,
    pub compiled_sql: String,
    pub compiled_python: String,
    /// `sql` or `python`.
    pub language: String,
    /// Settings: each key once, every value a string.
    pub config: Vec<(String, String)>,
    pub materialization: String,
    pub relation_name: String,
    /// The relation of each reference, in the order of the references.
    pub depends_on: Vec<String>,
}

/// The mathematical form of a [`CompiledModel`].
pub struct CompiledModelV {
    pub name: Seq<char>,
    pub compiled_sql: Seq<char>,
    pub compiled_python: Seq<char>,
    pub language: Seq<char>,
    pub config: Seq<(Seq<char>, Seq<char>)>,
    pub materialization: Seq<char>,
    pub relation_name: Seq<char>,
    pub depends_on: Seq<Seq<char>>,
}

impl View for CompiledModel {
    type V = CompiledModelV;

    open spec fn view(&self) -> CompiledModelV {
        CompiledModelV {
            name: self.name@,
            compiled_sql: self.compiled_sql@,
            compiled_python: self.compiled_python@,
            language: self.language@,
            config: str_map_view(self.config@),
            materialization: self.materialization@,
            relation_name: self.relation_name@,
            depends_on: strings_view(self.depends_on@),
        }
    }
}

/// A copy of a list of strings.
pub fn copy_strings(v: &Vec<String>) -> (r: Vec<String>)
    ensures
        strings_view(r@) == strings_view(v@),
{
    let mut r: Vec<String> = Vec::new();
    let mut i: usize = 0;
    while i < v.len()
        invariant
            i <= v.len(),
            r.len() == i,
            forall|k: int| 0 <= k < i ==> (#[trigger] r@[k])@ == v@[k]@,
        decreases v.len() - i,
    {
        r.push(v[i].clone());
        i += 1;
    }
    assert(strings_view(r@) =~= strings_view(v@));
    r
}

/// A copy of a list of string pairs.
pub fn copy_str_map(v: &Vec<(String, String)>) -> (r: Vec<(String, String)>)
    ensures
        str_map_view(r@) == str_map_view(v@),
{
    let mut r: Vec<(String, String)> = Vec::new();
    let mut i: usize = 0;
    while i < v.len()
        invariant
            i <= v.len(),
            r.len() == i,
            forall|k: int| 0 <= k < i ==> (#[trigger] r@[k]).0@ == v@[k].0@ && r@[k].1@ == v@[k].1@,
        decreases v.len() - i,
    {
        r.push((v[i].0.clone(), v[i].1.clone()));
        i += 1;
    }
    assert(str_map_view(r@) =~= str_map_view(v@));
    r
}

impl Clone for CompiledModel {
    fn clone(&self) -> (r: Self)
        ensures
            r@ == self@,
    {
        CompiledModel {
            name: self.name.clone(),
            compiled_sql: self.compiled_sql.clone(),
            compiled_python: self.compiled_python.clone(),
            language: self.language.clone(),
            config: copy_str_map(&self.config),
            materialization: self.materialization.clone(),
            relation_name: self.relation_name.clone(),
            depends_on: copy_strings(&self.depends_on),
        }
    }
}

/// `m` with the first `n` pairs of `items` set in turn, as a map does.
pub open spec fn insert_pairs(
    m: Seq<(Seq<char>, Seq<char>)>,
    items: Seq<(Seq<char>, Seq<char>)>,
    n: int,
) -> Seq<(Seq<char>, Seq<char>)>
    decreases n,
{
    if n <= 0 || n > items.len() {
        m
    } else {
        str_insert(insert_pairs(m, items, n - 1), items[n - 1].0, items[n - 1].1)
    }
}

/// The settings a model's configuration gives: `materialized` and `unique_key`.
pub open spec fn model_settings_spec(m: Model) -> Seq<(Seq<char>, Seq<char>)> {
    let c1 = match m.config.materialized {
        Some(v) => str_insert(Seq::empty(), "materialized"@, v@),
        None => Seq::empty(),
    };
    match m.config.unique_key {
        Some(v) => str_insert(c1, "unique_key"@, v@),
        None => c1,
    }
}

/// A model's settings: `materialized` and `unique_key` from its configuration,
/// then, for SQL, those of its `config` directives, which win.
pub open spec fn merged_config_spec(m: Model) -> Seq<(Seq<char>, Seq<char>)> {
    let c2 = model_settings_spec(m);
    if m.language == ModelLanguage::Sql {
        let x = config_spec(m.raw_sql@);
        insert_pairs(c2, x, x.len() as int)
    } else {
        c2
    }
}

/// The materialization a setting list names, `view` when it names none.
pub open spec fn materialization_spec(c: Seq<(Seq<char>, Seq<char>)>) -> Seq<char> {
    match str_lookup(c, "materialized"@) {
        Some(v) => v,
        None => "view"@,
    }
}

/// The relation each reference resolves to.
pub open spec fn depends_on_spec(p: Project, refs: Seq<String>) -> Seq<Seq<char>> {
    Seq::new(refs.len(), |i: int| resolve_ref_spec(p, refs[i]@))
}

/// What compiling a model gives, or `None` when its template does not
/// render; `t` is the time written for `run_started_at`.
pub open spec fn compile_outcome(p: Project, m: Model, full_refresh: bool, t: Seq<char>) -> Option<
    CompiledModelV,
> {
    let rel = p.relation_spec(m);
    let config = merged_config_spec(m);
    if m.language == ModelLanguage::Python {
        Some(
            CompiledModelV {
                name: m.name@,
                compiled_sql: Seq::empty(),
                compiled_python: compile_python_spec(p, m),
                language: "python"@,
                config,
                materialization: materialization_spec(config),
                relation_name: rel,
                depends_on: depends_on_spec(p, m.refs@),
            },
        )
    } else {
        match render_outcome(p, m.raw_sql@, m.name@, rel, full_refresh, t) {
            Some(sql) => Some(
                CompiledModelV {
                    name: m.name@,
                    compiled_sql: sql,
                    compiled_python: Seq::empty(),
                    language: "sql"@,
                    config,
                    materialization: materialization_spec(config),
                    relation_name: rel,
                    depends_on: depends_on_spec(p, m.refs@),
                },
            ),
            None => None,
        }
    }
}

/// The settings of a model.
pub fn merged_config(model: &Model) -> (r: Vec<(String, String)>)
    ensures
        str_map_view(r@) == merged_config_spec(*model),
{
    let mut c: Vec<(String, String)> = Vec::new();
    assert(str_map_view(c@) =~= Seq::empty());
    match &model.config.materialized {
        Some(v) => insert_str_entry(&mut c, String::from_str("materialized"), v.clone()),
        None => {},
    }
    match &model.config.unique_key {
        Some(v) => insert_str_entry(&mut c, String::from_str("unique_key"), v.clone()),
        None => {},
    }
    if model.language == ModelLanguage::Sql {
        let x = extract_config(model.raw_sql.as_str());
        let ghost base = str_map_view(c@);
        let ghost xv = str_map_view(x@);
        let mut i: usize = 0;
        while i < x.len()
            invariant
                i <= x.len(),
                xv == str_map_view(x@),
                str_map_view(c@) == insert_pairs(base, xv, i as int),
            decreases x.len() - i,
        {
            insert_str_entry(&mut c, x[i].0.clone(), x[i].1.clone());
            i += 1;
        }
    }
    c
}

/// The relation of each reference of a model.
pub fn depends_on(project: &Project, refs: &Vec<String>) -> (r: Vec<String>)
    requires
        project.has_target(),
    ensures
        strings_view(r@) == depends_on_spec(*project, refs@),
{
    let mut out: Vec<String> = Vec::new();
    let mut i: usize = 0;
    while i < refs.len()
        invariant
            i <= refs.len(),
            project.has_target(),
            out.len() == i,
            forall|k: int| 0 <= k < i ==> (#[trigger] out@[k])@ == resolve_ref_spec(*project, refs@[k]@),
        decreases refs.len() - i,
    {
        out.push(resolve_ref_name(refs[i].as_str(), project));
        i += 1;
    }
    assert(strings_view(out@) =~= depends_on_spec(*project, refs@));
    out
}

} // verus!

verus! {

/// The mathematical form of cache entries: the key (model name and
/// full-refresh flag) and the compiled model.
pub open spec fn cache_view(c: Seq<(String, bool, CompiledModel)>) -> Seq<
    ((Seq<char>, bool), CompiledModelV),
> {
    Seq::new(c.len(), |i: int| ((c[i].0@, c[i].1), c[i].2@))
}

/// Position of the first entry with key `k`.
pub open spec fn cache_position(c: Seq<((Seq<char>, bool), CompiledModelV)>, k: (Seq<char>, bool)) -> Option<
    int,
>
    decreases c.len(),
{
    if c.len() == 0 {
        None
    } else if c[0].0 == k {
        Some(0)
    } else {
        match cache_position(c.drop_first(), k) {
            Some(i) => Some(i + 1),
            None => None,
        }
    }
}

/// Entries after storing `v` under `k` as a map does.
pub open spec fn cache_insert(
    c: Seq<((Seq<char>, bool), CompiledModelV)>,
    k: (Seq<char>, bool),
    v: CompiledModelV,
) -> Seq<((Seq<char>, bool), CompiledModelV)> {
    match cache_position(c, k) {
        Some(i) => c.update(i, (k, v)),
        None => c.push((k, v)),
    }
}

/// What is stored under `k`.
pub open spec fn cache_lookup(c: Seq<((Seq<char>, bool), CompiledModelV)>, k: (Seq<char>, bool)) -> Option<
    CompiledModelV,
> {
    match cache_position(c, k) {
        Some(i) => Some(c[i].1),
        None => None,
    }
}

pub proof fn lemma_cache_position(c: Seq<((Seq<char>, bool), CompiledModelV)>, k: (Seq<char>, bool))
    ensures
        cache_position(c, k) matches Some(i) ==> 0 <= i < c.len() && c[i].0 == k && forall|j: int|
            0 <= j < i ==> c[j].0 != k,
        cache_position(c, k) is None ==> forall|j: int| 0 <= j < c.len() ==> c[j].0 != k,
    decreases c.len(),
{
    if c.len() > 0 && c[0].0 != k {
        lemma_cache_position(c.drop_first(), k);
        assert forall|j: int| 1 <= j < c.len() implies c[j] == c.drop_first()[j - 1] by {}
    }
}

/// What compiling a model does: the result [`compile_outcome`] names, and,
/// for a SQL model compiled without error, the result stored in the cache.
pub open spec fn compile_done(
    p: Project,
    m: Model,
    full_refresh: bool,
    t: Seq<char>,
    r: Result<CompiledModel, CompileError>,
    before: Seq<((Seq<char>, bool), CompiledModelV)>,
    after: Seq<((Seq<char>, bool), CompiledModelV)>,
) -> bool {
    &&& match compile_outcome(p, m, full_refresh, t) {
        Some(c) => r matches Ok(x) && x@ == c,
        None => r matches Err(CompileError::Render { model, .. }) && model@ == m.name@,
    }
    &&& after == if r is Ok && m.language == ModelLanguage::Sql {
        cache_insert(before, (m.name@, full_refresh), r->Ok_0@)
    } else {
        before
    }
}

/// Compiles models and keeps the compiled SQL models.
pub struct Engine {
    cache: Vec<(String, bool, CompiledModel)>,
}

impl Engine {
    /// The cache: compiled SQL models keyed by model name and full-refresh flag.
    pub closed spec fn cache_spec(&self) -> Seq<((Seq<char>, bool), CompiledModelV)> {
        cache_view(self.cache@)
    }

    pub fn new() -> (e: Engine)
        ensures
            e.cache_spec() == Seq::<((Seq<char>, bool), CompiledModelV)>::empty(),
    {
        let e = Engine { cache: Vec::new() };
        assert(e.cache_spec() =~= Seq::<((Seq<char>, bool), CompiledModelV)>::empty());
        e
    }

    /// Empties the cache.
    pub fn clear_cache(&mut self)
        ensures
            final(self).cache_spec() == Seq::<((Seq<char>, bool), CompiledModelV)>::empty(),
    {
        self.cache = Vec::new();
        assert(self.cache_spec() =~= Seq::<((Seq<char>, bool), CompiledModelV)>::empty());
    }

    fn find_cached(&self, name: &str, full_refresh: bool) -> (r: Option<usize>)
        ensures
            r matches Some(i) ==> cache_position(self.cache_spec(), (name@, full_refresh)) == Some(
                i as int,
            ) && i < self.cache.len(),
            r is None ==> cache_position(self.cache_spec(), (name@, full_refresh)) is None,
    {
        let ghost c = self.cache_spec();
        let ghost k = (name@, full_refresh);
        let mut i: usize = 0;
        while i < self.cache.len()
            invariant
                i <= self.cache.len(),
                c == cache_view(self.cache@),
                k == (name@, full_refresh),
                forall|j: int| 0 <= j < i ==> c[j].0 != k,
            decreases self.cache.len() - i,
        {
            if self.cache[i].1 == full_refresh && crate::json::str_eq(self.cache[i].0.as_str(), name) {
                assert(c[i as int].0 == k);
                proof {
                    lemma_cache_position(c, k);
                    if cache_position(c, k) is Some {
                        let x = cache_position(c, k)->0;
                        assert(!(x < i));
                        assert(!(x > i));
                    }
                }
                return Some(i);
            }
            i += 1;
        }
        proof {
            lemma_cache_position(c, k);
            if cache_position(c, k) is Some {
                let x = cache_position(c, k)->0;
                assert(c[x].0 == k);
            }
        }
        None
    }

    /// The model stored under a name and full-refresh flag.
    pub fn cached(&self, name: &str, full_refresh: bool) -> (r: Option<&CompiledModel>)
        ensures
            r matches Some(c) ==> cache_lookup(self.cache_spec(), (name@, full_refresh)) == Some(c@),
            r is None ==> cache_lookup(self.cache_spec(), (name@, full_refresh)) is None,
    {
        match self.find_cached(name, full_refresh) {
            Some(i) => Some(&self.cache[i].2),
            None => None,
        }
    }

    fn store(&mut self, name: String, full_refresh: bool, c: CompiledModel)
        ensures
            final(self).cache_spec() == cache_insert(old(self).cache_spec(), (name@, full_refresh), c@),
    {
        let ghost before = self.cache_spec();
        let ghost k = (name@, full_refresh);
        let ghost v = c@;
        match self.find_cached(name.as_str(), full_refresh) {
            Some(i) => {
                self.cache.set(i, (name, full_refresh, c));
                assert(self.cache_spec() =~= before.update(i as int, (k, v)));
            },
            None => {
                self.cache.push((name, full_refresh, c));
                assert(self.cache_spec() =~= before.push((k, v)));
            },
        }
    }

    /// Compiles a model, with `run_started_at` as the time its template sees.
    pub fn compile_at(
        &mut self,
        project: &Project,
        model: &Model,
        full_refresh: bool,
        run_started_at: &str,
    ) -> (r: Result<CompiledModel, CompileError>)
        requires
            project.has_target(),
        ensures
            compile_done(
                *project,
                *model,
                full_refresh,
                run_started_at@,
                r,
                old(self).cache_spec(),
                final(self).cache_spec(),
            ),
    {
        let relation_name = project.relation_name(model);
        let config = merged_config(model);
        let materialization = match lookup_str_entry(&config, "materialized") {
            Some(v) => v.clone(),
            None => String::from_str("view"),
        };
        let deps = depends_on(project, &model.refs);
        if model.language == ModelLanguage::Python {
            let compiled_python = compile_python(model, project);
            return Ok(
                CompiledModel {
                    name: model.name.clone(),
                    compiled_sql: String::new(),
                    compiled_python,
                    language: String::from_str("python"),
                    config,
                    materialization,
                    relation_name,
                    depends_on: deps,
                },
            );
        }
        let compiled_sql = match evaluate_jinja(
            project,
            model.raw_sql.as_str(),
            model.name.as_str(),
            relation_name.as_str(),
            full_refresh,
            run_started_at,
        ) {
            Ok(sql) => sql,
            Err(e) => {
                return Err(e);
            },
        };
        let compiled = CompiledModel {
            name: model.name.clone(),
            compiled_sql,
            compiled_python: String::new(),
            language: String::from_str("sql"),
            config,
            materialization,
            relation_name,
            depends_on: deps,
        };
        self.store(model.name.clone(), full_refresh, compiled.clone());
        Ok(compiled)
    }

    /// Compiles a model; its template sees the current time as `run_started_at`.
    pub fn compile(&mut self, project: &Project, model: &Model, full_refresh: bool) -> (r: Result<
        CompiledModel,
        CompileError,
    >)
        requires
            project.has_target(),
        ensures
            exists|t: Seq<char>|
                #[trigger] compile_done(
                    *project,
                    *model,
                    full_refresh,
                    t,
                    r,
                    old(self).cache_spec(),
                    final(self).cache_spec(),
                ),
    {
        let now = crate::jinja::now_rfc3339();
        let r = self.compile_at(project, model, full_refresh, now.as_str());
        assert(compile_done(
            *project,
            *model,
            full_refresh,
            now@,
            r,
            old(self).cache_spec(),
            self.cache_spec(),
        ));
        r
    }
}

} // verus!

verus! {

/// Reading the cache after storing `v` under `k` gives `v` back, and every
/// other key reads as before.
pub proof fn lemma_cache_insert_lookup(
    c: Seq<((Seq<char>, bool), CompiledModelV)>,
    k: (Seq<char>, bool),
    v: CompiledModelV,
    k2: (Seq<char>, bool),
)
    ensures
        cache_lookup(cache_insert(c, k, v), k) == Some(v),
        k2 != k ==> cache_lookup(cache_insert(c, k, v), k2) == cache_lookup(c, k2),
{
    let c2 = cache_insert(c, k, v);
    lemma_cache_position(c, k);
    lemma_cache_position(c2, k);
    lemma_cache_position(c, k2);
    lemma_cache_position(c2, k2);
    match cache_position(c, k) {
        Some(i) => {
            assert(c2[i].0 == k);
            if cache_position(c2, k) is Some {
                let j = cache_position(c2, k)->0;
                assert(!(j < i));
                assert(!(j > i));
            }
            if k2 != k {
                match cache_position(c, k2) {
                    Some(x) => {
                        assert(c2[x] == c[x]);
                        let y = cache_position(c2, k2)->0;
                        if y < x {
                            assert(c2[y] == c[y]);
                        }
                        assert(!(x < y));
                    },
                    None => {
                        if cache_position(c2, k2) is Some {
                            let y = cache_position(c2, k2)->0;
                            assert(c2[y] == c[y]);
                        }
                    },
                }
            }
        },
        None => {
            assert(c2[c.len() as int].0 == k);
            if cache_position(c2, k) is Some {
                let j = cache_position(c2, k)->0;
                if j < c.len() {
                    assert(c2[j] == c[j]);
                }
            }
            if k2 != k {
                match cache_position(c, k2) {
                    Some(x) => {
                        assert(c2[x] == c[x]);
                        let y = cache_position(c2, k2)->0;
                        if y < x {
                            assert(c2[y] == c[y]);
                        }
                        assert(!(x < y));
                    },
                    None => {
                        if cache_position(c2, k2) is Some {
                            let y = cache_position(c2, k2)->0;
                            if y < c.len() {
                                assert(c2[y] == c[y]);
                            }
                        }
                    },
                }
            }
        },
    }
}

} // verus!

verus! {

/// Every key stored in `before` is stored in `after`.
pub open spec fn cache_kept(
    before: Seq<((Seq<char>, bool), CompiledModelV)>,
    after: Seq<((Seq<char>, bool), CompiledModelV)>,
) -> bool {
    forall|k: (Seq<char>, bool)|
        cache_lookup(before, k) is Some ==> #[trigger] cache_lookup(after, k) is Some
}

/// Compiling keeps every cached model's key, and a SQL model compiled without
/// error can be read back under its name and full-refresh flag.
pub proof fn lemma_compile_caches(
    p: Project,
    m: Model,
    full_refresh: bool,
    t: Seq<char>,
    r: Result<CompiledModel, CompileError>,
    before: Seq<((Seq<char>, bool), CompiledModelV)>,
    after: Seq<((Seq<char>, bool), CompiledModelV)>,
)
    requires
        compile_done(p, m, full_refresh, t, r, before, after),
    ensures
        cache_kept(before, after),
        r is Ok && m.language == ModelLanguage::Sql ==> cache_lookup(after, (m.name@, full_refresh))
            == Some(r->Ok_0@),
{
    if r is Ok && m.language == ModelLanguage::Sql {
        let key = (m.name@, full_refresh);
        lemma_cache_insert_lookup(before, key, r->Ok_0@, key);
        assert forall|k: (Seq<char>, bool)|
            cache_lookup(before, k) is Some implies #[trigger] cache_lookup(after, k) is Some by {
            lemma_cache_insert_lookup(before, key, r->Ok_0@, k);
        }
    }
}

/// Compiling a model changes at most what is stored under its own name and
/// full-refresh flag: every other key reads as before.
pub proof fn lemma_compile_touches_own_key(
    p: Project,
    m: Model,
    full_refresh: bool,
    t: Seq<char>,
    r: Result<CompiledModel, CompileError>,
    before: Seq<((Seq<char>, bool), CompiledModelV)>,
    after: Seq<((Seq<char>, bool), CompiledModelV)>,
    k: (Seq<char>, bool),
)
    requires
        compile_done(p, m, full_refresh, t, r, before, after),
        k != (m.name@, full_refresh),
    ensures
        cache_lookup(after, k) == cache_lookup(before, k),
{
    if r is Ok && m.language == ModelLanguage::Sql {
        lemma_cache_insert_lookup(before, (m.name@, full_refresh), r->Ok_0@, k);
    }
}

} // verus!

verus! {

/// A compiled Python model always defines the `model` entry point.
pub proof fn lemma_python_defines_model(code: Seq<char>)
    ensures
        contains_seq(python_wrap(code), "def model("@),
{
    if !contains_seq(code, "def model("@) {
        let w = python_wrap(code);
        reveal_strlit("def model(");
        reveal_strlit("def model(dbt, session):\n    import pyspark.sql.functions as F\n    spark = session.spark\n    ");
        assert(w.subrange(0, 10) =~= "def model("@);
        assert(crate::text::matches_at(w, 0, "def model("@));
    }
}

} // verus!

verus! {

/// No key occurs twice.
pub open spec fn str_distinct(m: Seq<(Seq<char>, Seq<char>)>) -> bool {
    forall|i: int, j: int| 0 <= i < j < m.len() ==> (#[trigger] m[i]).0 != (#[trigger] m[j]).0
}

/// Reading a key after setting it gives the value set; other keys read as before.
pub proof fn lemma_str_insert_lookup(
    m: Seq<(Seq<char>, Seq<char>)>,
    k: Seq<char>,
    v: Seq<char>,
    k2: Seq<char>,
)
    ensures
        str_lookup(str_insert(m, k, v), k) == Some(v),
        k2 != k ==> str_lookup(str_insert(m, k, v), k2) == str_lookup(m, k2),
{
    let m2 = str_insert(m, k, v);
    lemma_str_key_position(m, k);
    lemma_str_key_position(m2, k);
    lemma_str_key_position(m, k2);
    lemma_str_key_position(m2, k2);
    match str_key_position(m, k) {
        Some(i) => {
            assert(m2[i].0 == k);
            if str_key_position(m2, k) is Some {
                let j = str_key_position(m2, k)->0;
                assert(!(j < i));
                assert(!(j > i));
            }
            if k2 != k {
                match str_key_position(m, k2) {
                    Some(x) => {
                        assert(m2[x] == m[x]);
                        let y = str_key_position(m2, k2)->0;
                        if y < x {
                            assert(m2[y] == m[y]);
                        }
                        assert(!(x < y));
                    },
                    None => {
                        if str_key_position(m2, k2) is Some {
                            let y = str_key_position(m2, k2)->0;
                            assert(m2[y] == m[y]);
                        }
                    },
                }
            }
        },
        None => {
            assert(m2[m.len() as int].0 == k);
            if str_key_position(m2, k) is Some {
                let j = str_key_position(m2, k)->0;
                if j < m.len() {
                    assert(m2[j] == m[j]);
                }
            }
            if k2 != k {
                match str_key_position(m, k2) {
                    Some(x) => {
                        assert(m2[x] == m[x]);
                        let y = str_key_position(m2, k2)->0;
                        if y < x {
                            assert(m2[y] == m[y]);
                        }
                        assert(!(x < y));
                    },
                    None => {
                        if str_key_position(m2, k2) is Some {
                            let y = str_key_position(m2, k2)->0;
                            if y < m.len() {
                                assert(m2[y] == m[y]);
                            }
                        }
                    },
                }
            }
        },
    }
}

proof fn lemma_str_insert_distinct(m: Seq<(Seq<char>, Seq<char>)>, k: Seq<char>, v: Seq<char>)
    requires
        str_distinct(m),
    ensures
        str_distinct(str_insert(m, k, v)),
{
    let r = str_insert(m, k, v);
    lemma_str_key_position(m, k);
    match str_key_position(m, k) {
        Some(p) => {
            assert forall|i: int, j: int| 0 <= i < j < r.len() implies (#[trigger] r[i]).0 != (#[trigger] r[j]).0 by {
                if i != p && j != p {
                    assert(r[i] == m[i] && r[j] == m[j]);
                } else if i == p {
                    assert(r[j] == m[j]);
                    assert(m[i].0 != m[j].0);
                } else {
                    assert(r[i] == m[i]);
                    assert(m[i].0 != m[j].0);
                }
            }
        },
        None => {
            assert forall|i: int, j: int| 0 <= i < j < r.len() implies (#[trigger] r[i]).0 != (#[trigger] r[j]).0 by {
                assert(r[i] == m[i]);
                if j < m.len() {
                    assert(r[j] == m[j]);
                }
            }
        },
    }
}

proof fn lemma_apply_items_distinct(m: Seq<(Seq<char>, Seq<char>)>, items: Seq<Seq<char>>, n: int)
    requires
        str_distinct(m),
    ensures
        str_distinct(apply_items(m, items, n)),
    decreases n,
{
    if 0 < n <= items.len() {
        lemma_apply_items_distinct(m, items, n - 1);
        match config_item(items[n - 1]) {
            Some((k, v)) => lemma_str_insert_distinct(apply_items(m, items, n - 1), k, v),
            None => {},
        }
    }
}

proof fn lemma_apply_lines_distinct(m: Seq<(Seq<char>, Seq<char>)>, lines: Seq<Seq<char>>, n: int)
    requires
        str_distinct(m),
    ensures
        str_distinct(apply_lines(m, lines, n)),
    decreases n,
{
    if 0 < n <= lines.len() {
        lemma_apply_lines_distinct(m, lines, n - 1);
        let t = trim_seq(lines[n - 1]);
        if is_config_line(t) {
            let items = crate::text::split_seq(config_arguments(t), ',');
            lemma_apply_items_distinct(apply_lines(m, lines, n - 1), items, items.len() as int);
        }
    }
}

/// Each setting of the `config` directives is listed once.
pub proof fn lemma_config_distinct(raw: Seq<char>)
    ensures
        str_distinct(config_spec(raw)),
{
    let lines = crate::text::split_seq(raw, '\n');
    lemma_apply_lines_distinct(Seq::empty(), lines, lines.len() as int);
}

proof fn lemma_insert_pairs_lookup(
    c: Seq<(Seq<char>, Seq<char>)>,
    x: Seq<(Seq<char>, Seq<char>)>,
    n: int,
    k: Seq<char>,
)
    requires
        str_distinct(x),
        0 <= n <= x.len(),
    ensures
        str_lookup(insert_pairs(c, x, n), k) == match str_key_position(x.take(n), k) {
            Some(j) => Some(x[j].1),
            None => str_lookup(c, k),
        },
    decreases n,
{
    if n > 0 {
        lemma_insert_pairs_lookup(c, x, n - 1, k);
        let prev = insert_pairs(c, x, n - 1);
        lemma_str_insert_lookup(prev, x[n - 1].0, x[n - 1].1, k);
        let t = x.take(n);
        let t0 = x.take(n - 1);
        assert(t.drop_last() =~= t0);
        lemma_str_key_position(t, k);
        lemma_str_key_position(t0, k);
        if x[n - 1].0 == k {
            assert(t[n - 1].0 == k);
            assert forall|j: int| 0 <= j < n - 1 implies t[j].0 != k by {
                assert(t[j] == x[j]);
            }
            let p = str_key_position(t, k)->0;
            assert(!(p < n - 1));
        } else {
            match str_key_position(t0, k) {
                Some(j) => {
                    assert(t[j] == t0[j]);
                    let p = str_key_position(t, k)->0;
                    if p < j {
                        assert(t[p] == t0[p]);
                    }
                    assert(!(j < p));
                },
                None => {
                    if str_key_position(t, k) is Some {
                        let p = str_key_position(t, k)->0;
                        if p < n - 1 {
                            assert(t[p] == t0[p]);
                        }
                    }
                },
            }
        }
    } else {
        lemma_str_key_position(x.take(0), k);
    }
}

/// In a SQL model, a setting made by a `config` directive wins over the
/// model's configuration; a key no directive sets keeps its configured value.
pub proof fn lemma_config_directives_win(m: Model, k: Seq<char>)
    requires
        m.language == ModelLanguage::Sql,
    ensures
        str_lookup(config_spec(m.raw_sql@), k) is Some ==> str_lookup(merged_config_spec(m), k)
            == str_lookup(config_spec(m.raw_sql@), k),
        str_lookup(config_spec(m.raw_sql@), k) is None ==> str_lookup(merged_config_spec(m), k)
            == str_lookup(model_settings_spec(m), k),
{
    let x = config_spec(m.raw_sql@);
    lemma_config_distinct(m.raw_sql@);
    lemma_insert_pairs_lookup(model_settings_spec(m), x, x.len() as int, k);
    assert(x.take(x.len() as int) =~= x);
}

} // verus!

verus! {

/// No key is stored twice.
pub open spec fn cache_distinct(c: Seq<((Seq<char>, bool), CompiledModelV)>) -> bool {
    forall|i: int, j: int| 0 <= i < j < c.len() ==> (#[trigger] c[i]).0 != (#[trigger] c[j]).0
}

/// Compiling never stores a key twice: an empty cache, and any cache the
/// engine goes on to hold, keeps one entry per model name and full-refresh flag.
pub proof fn lemma_compile_keeps_keys_distinct(
    p: Project,
    m: Model,
    full_refresh: bool,
    t: Seq<char>,
    r: Result<CompiledModel, CompileError>,
    before: Seq<((Seq<char>, bool), CompiledModelV)>,
    after: Seq<((Seq<char>, bool), CompiledModelV)>,
)
    requires
        compile_done(p, m, full_refresh, t, r, before, after),
        cache_distinct(before),
    ensures
        cache_distinct(after),
        cache_distinct(Seq::<((Seq<char>, bool), CompiledModelV)>::empty()),
{
    if r is Ok && m.language == ModelLanguage::Sql {
        let k = (m.name@, full_refresh);
        lemma_cache_position(before, k);
        match cache_position(before, k) {
            Some(q) => {
                assert forall|i: int, j: int| 0 <= i < j < after.len() implies (#[trigger] after[i]).0
                    != (#[trigger] after[j]).0 by {
                    if i != q && j != q {
                        assert(after[i] == before[i] && after[j] == before[j]);
                    } else if i == q {
                        assert(after[j] == before[j]);
                        assert(before[i].0 != before[j].0);
                    } else {
                        assert(after[i] == before[i]);
                        assert(before[i].0 != before[j].0);
                    }
                }
            },
            None => {
                assert forall|i: int, j: int| 0 <= i < j < after.len() implies (#[trigger] after[i]).0
                    != (#[trigger] after[j]).0 by {
                    assert(after[i] == before[i]);
                    if j < before.len() {
                        assert(after[j] == before[j]);
                    }
                }
            },
        }
    }
}

} // verus!

verus! {

/// `c` is what compiling `m` gives at some time.
pub open spec fn compiled_from(p: Project, m: Model, full_refresh: bool, c: CompiledModelV) -> bool {
    exists|t: Seq<char>| #[trigger] compile_outcome(p, m, full_refresh, t) == Some(c)
}

/// At some time, `m`'s template does not render.
pub open spec fn render_fails(p: Project, m: Model, full_refresh: bool) -> bool {
    exists|t: Seq<char>| #[trigger] compile_outcome(p, m, full_refresh, t) is None
}

/// At some time, `m` compiles (not as a full refresh) to SQL that does not parse.
pub open spec fn sql_unparsable(p: Project, m: Model) -> bool {
    exists|c: CompiledModelV| #[trigger] compiled_from(p, m, false, c) && !sql_parses(c.compiled_sql)
}

} // verus!

verus! {

/// The value a model's configuration gives setting `k`: `materialized` and
/// `unique_key` are the only settings it has.
pub open spec fn configured_setting(m: Model, k: Seq<char>) -> Option<Seq<char>> {
    if k == "materialized"@ {
        crate::project::opt_view(m.config.materialized)
    } else if k == "unique_key"@ {
        crate::project::opt_view(m.config.unique_key)
    } else {
        None
    }
}

/// Every compiled model carries the model's settings: a setting a `config`
/// directive of a SQL model makes has the directive's value; any other
/// setting has the value the model's configuration gives it (`materialized`,
/// `unique_key`), and there is no other setting. Its materialization is the
/// `materialized` setting, `view` when there is none.
pub proof fn lemma_compiled_settings(p: Project, m: Model, full_refresh: bool, t: Seq<char>, k: Seq<char>)
    ensures
        compile_outcome(p, m, full_refresh, t) is Some ==> {
            let c = compile_outcome(p, m, full_refresh, t)->0;
            &&& str_lookup(c.config, k) == if m.language == ModelLanguage::Sql && str_lookup(
                config_spec(m.raw_sql@),
                k,
            ) is Some {
                str_lookup(config_spec(m.raw_sql@), k)
            } else {
                configured_setting(m, k)
            }
            &&& c.materialization == match str_lookup(c.config, "materialized"@) {
                Some(v) => v,
                None => "view"@,
            }
        },
{
    let c1 = match m.config.materialized {
        Some(v) => str_insert(Seq::empty(), "materialized"@, v@),
        None => Seq::empty(),
    };
    assert(str_lookup(Seq::<(Seq<char>, Seq<char>)>::empty(), k) is None);
    reveal_strlit("materialized");
    reveal_strlit("unique_key");
    assert("materialized"@.len() != "unique_key"@.len());
    match m.config.materialized {
        Some(v) => lemma_str_insert_lookup(Seq::empty(), "materialized"@, v@, k),
        None => {},
    }
    match m.config.unique_key {
        Some(v) => lemma_str_insert_lookup(c1, "unique_key"@, v@, k),
        None => {},
    }
    if k != "materialized"@ && k != "unique_key"@ {
        assert(str_lookup(c1, k) is None);
    }
    if k == "unique_key"@ {
        assert(str_lookup(c1, k) is None);
    }
    assert(str_lookup(model_settings_spec(m), k) == configured_setting(m, k));
    if m.language == ModelLanguage::Sql {
        lemma_config_directives_win(m, k);
    }
}

} // verus!

verus! {

/// `<catalog, or openpipe>.<schema, or analytics>.<alias, or the name>` of
/// model `m` under target `t`.
pub open spec fn written_relation(t: crate::project::TargetConfig, m: Model) -> Seq<char> {
    (match t.catalog {
        Some(x) => x@,
        None => "openpipe"@,
    }) + "."@ + (match t.schema {
        Some(x) => x@,
        None => "analytics"@,
    }) + "."@ + match m.config.alias {
        Some(a) => a@,
        None => m.name@,
    }
}

/// A compiled model keeps the model's name and its language, is written to
/// its relation under the selected target, and depends, reference by
/// reference, on the relation of the model the model map points each name
/// at; a name the map does not know resolves to the first model's relation,
/// or stays as written when the project has no models.
pub proof fn lemma_compiled_names(p: Project, m: Model, full_refresh: bool, t: Seq<char>)
    requires
        p.has_target(),
    ensures
        compile_outcome(p, m, full_refresh, t) is Some ==> {
            let c = compile_outcome(p, m, full_refresh, t)->0;
            let tg = p.target_spec()->0;
            &&& c.name == m.name@
            &&& c.language == if m.language == ModelLanguage::Python {
                "python"@
            } else {
                "sql"@
            }
            &&& c.relation_name == written_relation(tg, m)
            &&& c.depends_on.len() == m.refs@.len()
            &&& forall|i: int|
                0 <= i < m.refs@.len() ==> #[trigger] c.depends_on[i] == match index_lookup(
                    p.model_map@,
                    m.refs@[i]@,
                ) {
                    Some(x) => if x < p.models@.len() {
                        written_relation(tg, p.models@[x as int])
                    } else {
                        m.refs@[i]@
                    },
                    None => if p.models@.len() > 0 {
                        written_relation(tg, p.models@[0])
                    } else {
                        m.refs@[i]@
                    },
                }
        },
{
}

} // verus!
