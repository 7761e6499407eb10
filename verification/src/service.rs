//! What each request of the engine's HTTP interface computes: compiling
//! models, their lineage, compiling data tests and running the test suite,
//! and listing model types. Reading requests and writing responses is left to
//! the server.
use vstd::prelude::*;
use crate::compiler::{
    CompileError, CompiledModel, CompiledModelV, Engine, cache_kept, cache_lookup, compile_done,
    compile_error_text, compile_outcome, compiled_from, lemma_compile_caches,
    lemma_compile_touches_own_key, render_fails, sql_unparsable,
};
use crate::openlineage::{model_lineage_at, model_ok_at, model_succeeds, only_first_compiled};
use crate::json::{JsonV, JsonValue, lookup_member, member_lookup};
use crate::lineage::{
    LineageError, LineageResult, ModelLineageV, analyze_model_lineage, lineage_error_text,
};
use crate::project::{
    Edge, Model, ModelLanguage, Project, Test, TestTypeV, TestV, edges_view, opt_view, or_default,
    project_edges, test_type_spec,
};
use crate::search::{first_where, lemma_first_where_found, lemma_first_where_none};
use crate::test_runner::{
    TestError, TestResult, TestResultV, TestStatus, TestSuiteResult, compile_test, results_view,
    test_error_text, test_needs_target, test_sql_spec,
};
use crate::text::{chars_of, push_all, string_of};

verus! {

/// Why a request failed.
#[derive(Debug)]
pub enum RequestError {
    /// No model has the requested name.
    ModelNotFound { name: String },
    /// Compiling a requested model failed.
    CompileFailed { model: String, error: CompileError },
    /// Compiling a model for its lineage failed.
    LineageCompile(CompileError),
    /// Working out a model's lineage failed.
    Lineage(LineageError),
    /// Compiling a requested data test failed.
    TestFailed { test: String, error: TestError },
}

/// The text of a request error.
pub open spec fn request_error_text(e: RequestError) -> Seq<char> {
    match e {
        RequestError::ModelNotFound { name } => "Model '"@ + name@ + "' not found"@,
        RequestError::CompileFailed { model, error } => "Compile error for '"@ + model@ + "': "@
            + compile_error_text(error),
        RequestError::LineageCompile(error) => compile_error_text(error),
        RequestError::Lineage(error) => lineage_error_text(error),
        RequestError::TestFailed { test, error } => "Test '"@ + test@ + "' error: "@ + test_error_text(
            error,
        ),
    }
}

fn cat3(a: &Vec<char>, b: &Vec<char>, c: &Vec<char>) -> (r: Vec<char>)
    ensures
        r@ == a@ + b@ + c@,
{
    let mut r: Vec<char> = Vec::new();
    push_all(&mut r, a);
    push_all(&mut r, b);
    push_all(&mut r, c);
    r
}

impl RequestError {
    /// The error's text.
    pub fn message(&self) -> (r: String)
        ensures
            r@ == request_error_text(*self),
    {
        match self {
            RequestError::ModelNotFound { name } => string_of(
                &cat3(&chars_of("Model '"), &chars_of(name.as_str()), &chars_of("' not found")),
            ),
            RequestError::CompileFailed { model, error } => {
                let a = cat3(&chars_of("Compile error for '"), &chars_of(model.as_str()), &chars_of("': "));
                string_of(&cat3(&a, &chars_of(error.message().as_str()), &Vec::new()))
            },
            RequestError::LineageCompile(error) => error.message(),
            RequestError::Lineage(error) => error.message(),
            RequestError::TestFailed { test, error } => {
                let a = cat3(&chars_of("Test '"), &chars_of(test.as_str()), &chars_of("' error: "));
                string_of(&cat3(&a, &chars_of(error.message().as_str()), &Vec::new()))
            },
        }
    }

    /// Whether the request named something that does not exist.
    pub fn is_not_found(&self) -> (b: bool)
        ensures
            b == (*self is ModelNotFound),
    {
        match self {
            RequestError::ModelNotFound { .. } => true,
            _ => false,
        }
    }
}

/// The models a compile request names.
#[derive(Debug)]
pub struct CompileResponse {
    pub models: Vec<CompiledModel>,
    pub dag_edges: Vec<Edge>,
}

/// The condition "is the model called `n`".
pub open spec fn model_named(n: Seq<char>) -> spec_fn(Model) -> bool {
    |m: Model| m.name@ == n
}

/// The models a compile request selects: the first model with the requested
/// name, or every model when none is named; `None` when no model has the name.
pub open spec fn selected_models(p: Project, name: Option<Seq<char>>) -> Option<Seq<Model>> {
    match name {
        Some(n) => match first_where(p.models@, model_named(n)) {
            Some(i) => Some(seq![p.models@[i]]),
            None => None,
        },
        None => Some(p.models@),
    }
}

pub open spec fn str_opt_view(o: Option<&str>) -> Option<Seq<char>> {
    match o {
        Some(s) => Some(s@),
        None => None,
    }
}

/// Compiles one model and records what the call did.
fn compile_step(engine: &mut Engine, project: &Project, model: &Model, full_refresh: bool) -> (r: Result<
    CompiledModel,
    CompileError,
>)
    requires
        project.has_target(),
    ensures
        cache_kept(old(engine).cache_spec(), final(engine).cache_spec()),
        forall|k: (Seq<char>, bool)|
            k != (model.name@, full_refresh) ==> #[trigger] cache_lookup(final(engine).cache_spec(), k)
                == cache_lookup(old(engine).cache_spec(), k),
        r matches Ok(c) ==> compiled_from(*project, *model, full_refresh, c@),
        r matches Err(CompileError::Render { model: n, .. }) ==> n@ == model.name@ && render_fails(
            *project,
            *model,
            full_refresh,
        ),
{
    let ghost before = engine.cache_spec();
    let r = engine.compile(project, model, full_refresh);
    proof {
        let t = choose|t: Seq<char>|
            #[trigger] compile_done(
                *project,
                *model,
                full_refresh,
                t,
                r,
                before,
                engine.cache_spec(),
            );
        lemma_compile_caches(*project, *model, full_refresh, t, r, before, engine.cache_spec());
        assert forall|k: (Seq<char>, bool)| k != (model.name@, full_refresh) implies #[trigger] cache_lookup(
            engine.cache_spec(),
            k,
        ) == cache_lookup(before, k) by {
            lemma_compile_touches_own_key(*project, *model, full_refresh, t, r, before, engine.cache_spec(), k);
        }
        if r is Ok {
            assert(compile_outcome(*project, *model, full_refresh, t) == Some(r->Ok_0@));
        } else {
            assert(compile_outcome(*project, *model, full_refresh, t) is None);
        }
    }
    r
}

/// At some time, `m` compiles without error.
pub open spec fn model_compiles(p: Project, m: Model, full_refresh: bool) -> bool {
    exists|c: CompiledModelV| #[trigger] compiled_from(p, m, full_refresh, c)
}

/// Only the first `k` of `models` were compiled with `full_refresh`: every
/// other key of the cache reads as before.
pub open spec fn only_first_compiled_as(
    before: Seq<((Seq<char>, bool), CompiledModelV)>,
    after: Seq<((Seq<char>, bool), CompiledModelV)>,
    models: Seq<Model>,
    k: int,
    full_refresh: bool,
) -> bool {
    forall|key: (Seq<char>, bool)|
        (forall|j: int| 0 <= j < k ==> key != (#[trigger] models[j].name@, full_refresh))
            ==> #[trigger] cache_lookup(after, key) == cache_lookup(before, key)
}

/// Compiles the requested model, or every model, in order, and lists the
/// dependency edges. The first selected model that fails to compile is
/// reported, and no later one is compiled.
#[verifier::loop_isolation(false)]
pub fn compile(engine: &mut Engine, project: &Project, model: Option<&str>, full_refresh: bool) -> (r:
    Result<CompileResponse, RequestError>)
    requires
        selected_models(*project, str_opt_view(model)) matches Some(ms) && ms.len() > 0
            ==> project.has_target(),
    ensures
        selected_models(*project, str_opt_view(model)) is None <==> r matches Err(
            RequestError::ModelNotFound { .. },
        ),
        r matches Err(RequestError::ModelNotFound { name }) ==> str_opt_view(model) == Some(name@),
        r matches Ok(resp) ==> {
            let sel = selected_models(*project, str_opt_view(model))->0;
            &&& resp.models.len() == sel.len()
            &&& forall|i: int|
                0 <= i < sel.len() ==> compiled_from(
                    *project,
                    sel[i],
                    full_refresh,
                    #[trigger] resp.models@[i]@,
                )
            &&& edges_view(resp.dag_edges@) == project_edges(*project, project.models@)
        },
        r matches Err(RequestError::CompileFailed { model: n, .. }) ==> {
            let sel = selected_models(*project, str_opt_view(model))->0;
            exists|k: int|
                0 <= k < sel.len() && sel[k].name@ == n@ && #[trigger] render_fails(
                    *project,
                    sel[k],
                    full_refresh,
                ) && (forall|j: int| 0 <= j < k ==> model_compiles(*project, #[trigger] sel[j], full_refresh))
                    && only_first_compiled_as(
                    old(engine).cache_spec(),
                    final(engine).cache_spec(),
                    sel,
                    k + 1,
                    full_refresh,
                )
        },
        r is Ok ==> only_first_compiled_as(
            old(engine).cache_spec(),
            final(engine).cache_spec(),
            selected_models(*project, str_opt_view(model))->0,
            selected_models(*project, str_opt_view(model))->0.len() as int,
            full_refresh,
        ),
        selected_models(*project, str_opt_view(model)) matches Some(sel) && (forall|j: int|
            0 <= j < sel.len() ==> !render_fails(*project, #[trigger] sel[j], full_refresh)) ==> r is Ok,
        !(r matches Err(RequestError::LineageCompile(_))),
        !(r matches Err(RequestError::Lineage(_))),
        !(r matches Err(RequestError::TestFailed { .. })),
        cache_kept(old(engine).cache_spec(), final(engine).cache_spec()),
{
    match model {
        Some(name) => {
            let ghost f = model_named(name@);
            let mut i: usize = 0;
            while i < project.models.len()
                invariant
                    i <= project.models.len(),
                    f == model_named(name@),
                    engine.cache_spec() == old(engine).cache_spec(),
                    forall|j: int| 0 <= j < i ==> !f(#[trigger] project.models@[j]),
                decreases project.models.len() - i,
            {
                if crate::json::str_eq(project.models[i].name.as_str(), name) {
                    proof {
                        lemma_first_where_found(project.models@, f, i as int);
                    }
                    let m = &project.models[i];
                    let ghost sel = selected_models(*project, str_opt_view(model))->0;
                    assert(sel == seq![project.models@[i as int]]);
                    let c = match compile_step(engine, project, m, full_refresh) {
                        Ok(c) => c,
                        Err(e) => {
                            proof {
                                assert(sel[0].name@ == m.name@);
                                assert(render_fails(*project, sel[0], full_refresh));
                                assert forall|key: (Seq<char>, bool)|
                                    (forall|j: int| 0 <= j < 1 ==> key != (#[trigger] sel[j].name@, full_refresh))
                                        implies #[trigger] cache_lookup(engine.cache_spec(), key)
                                        == cache_lookup(old(engine).cache_spec(), key) by {
                                    assert(key != (sel[0].name@, full_refresh));
                                }
                                assert(only_first_compiled_as(
                                    old(engine).cache_spec(),
                                    engine.cache_spec(),
                                    sel,
                                    1,
                                    full_refresh,
                                ));
                                assert(forall|j: int| 0 <= j < 0 ==> model_compiles(*project, #[trigger] sel[j], full_refresh));
                            }
                            return Err(RequestError::CompileFailed { model: m.name.clone(), error: e });
                        },
                    };
                    proof {
                        assert forall|key: (Seq<char>, bool)|
                            (forall|j: int| 0 <= j < 1 ==> key != (#[trigger] sel[j].name@, full_refresh))
                                implies #[trigger] cache_lookup(engine.cache_spec(), key)
                                == cache_lookup(old(engine).cache_spec(), key) by {
                            assert(key != (sel[0].name@, full_refresh));
                        }
                    }
                    let models = vec![c];
                    return Ok(CompileResponse { models, dag_edges: project.resolve_refs() });
                }
                i += 1;
            }
            proof {
                lemma_first_where_none(project.models@, f);
            }
            Err(RequestError::ModelNotFound { name: String::from_str(name) })
        },
        None => {
            let mut models: Vec<CompiledModel> = Vec::new();
            let mut i: usize = 0;
            while i < project.models.len()
                invariant
                    i <= project.models.len(),
                    project.models.len() > 0 ==> project.has_target(),
                    models.len() == i,
                    forall|j: int|
                        0 <= j < i ==> compiled_from(
                            *project,
                            project.models@[j],
                            full_refresh,
                            #[trigger] models@[j]@,
                        ),
                    cache_kept(old(engine).cache_spec(), engine.cache_spec()),
                    only_first_compiled_as(
                        old(engine).cache_spec(),
                        engine.cache_spec(),
                        project.models@,
                        i as int,
                        full_refresh,
                    ),
                decreases project.models.len() - i,
            {
                let m = &project.models[i];
                let ghost before = engine.cache_spec();
                let cr = compile_step(engine, project, m, full_refresh);
                proof {
                    assert forall|key: (Seq<char>, bool)|
                        (forall|j: int| 0 <= j < i + 1 ==> key != (#[trigger] project.models@[j].name@, full_refresh))
                            implies #[trigger] cache_lookup(engine.cache_spec(), key)
                            == cache_lookup(old(engine).cache_spec(), key) by {
                        assert(key != (project.models@[i as int].name@, full_refresh));
                        assert(cache_lookup(engine.cache_spec(), key) == cache_lookup(before, key));
                        assert forall|j: int| 0 <= j < i implies key != (#[trigger] project.models@[j].name@, full_refresh) by {
                            assert(0 <= j < i + 1);
                        }
                    }
                }
                match cr {
                    Ok(c) => models.push(c),
                    Err(e) => {
                        proof {
                            let ghost sel = selected_models(*project, str_opt_view(model))->0;
                            assert(sel == project.models@);
                            assert forall|j: int| 0 <= j < i implies model_compiles(*project, #[trigger] sel[j], full_refresh) by {
                                assert(compiled_from(*project, project.models@[j], full_refresh, models@[j]@));
                            }
                            assert(render_fails(*project, sel[i as int], full_refresh));
                            assert(sel[i as int].name@ == m.name@);
                            assert(only_first_compiled_as(
                                old(engine).cache_spec(),
                                engine.cache_spec(),
                                sel,
                                i + 1,
                                full_refresh,
                            ));
                        }
                        return Err(RequestError::CompileFailed { model: m.name.clone(), error: e });
                    },
                }
                i += 1;
            }
            Ok(CompileResponse { models, dag_edges: project.resolve_refs() })
        },
    }
}

/// `l` is the lineage of `m` compiled (not as a full refresh) at some time:
/// the lineage of the statements its compiled SQL parses to.
pub open spec fn lineage_from(p: Project, m: Model, l: ModelLineageV) -> bool {
    exists|t: Seq<char>| model_ok_at(p, m, t) && #[trigger] model_lineage_at(p, m, t) == l
}

/// `e` is the error the lineage request reports for model `m`: its template
/// did not render, or the SQL it compiled to does not parse.
pub open spec fn lineage_error_for_model(p: Project, m: Model, e: RequestError) -> bool {
    match e {
        RequestError::LineageCompile(CompileError::Render { model, .. }) => model@ == m.name@
            && render_fails(p, m, false),
        RequestError::Lineage(LineageError::Parse { model, .. }) => model@ == m.name@ && sql_unparsable(
            p,
            m,
        ),
        _ => false,
    }
}

/// The lineage of every model, each compiled without a full refresh, in
/// model order. The first failure is returned, and no later model is compiled.
#[verifier::loop_isolation(false)]
pub fn get_lineage(engine: &mut Engine, project: &Project) -> (r: Result<LineageResult, RequestError>)
    requires
        project.models.len() > 0 ==> project.has_target(),
    ensures
        r matches Ok(res) ==> res.models.len() == project.models.len() && forall|i: int|
            0 <= i < res.models.len() ==> lineage_from(
                *project,
                project.models@[i],
                #[trigger] res.models@[i]@,
            ),
        r is Ok ==> only_first_compiled(
            old(engine).cache_spec(),
            final(engine).cache_spec(),
            project.models@,
            project.models.len() as int,
        ),
        r matches Err(e) ==> exists|k: int|
            0 <= k < project.models.len() && #[trigger] lineage_error_for_model(
                *project,
                project.models@[k],
                e,
            ) && (forall|j: int| 0 <= j < k ==> model_succeeds(*project, #[trigger] project.models@[j]))
                && only_first_compiled(
                old(engine).cache_spec(),
                final(engine).cache_spec(),
                project.models@,
                k + 1,
            ),
        (forall|j: int|
            0 <= j < project.models.len() ==> !render_fails(*project, #[trigger] project.models@[j], false)
                && !sql_unparsable(*project, project.models@[j])) ==> r is Ok,
        cache_kept(old(engine).cache_spec(), final(engine).cache_spec()),
{
    let ghost start = engine.cache_spec();
    let mut res = LineageResult::new();
    let mut i: usize = 0;
    while i < project.models.len()
        invariant
            i <= project.models.len(),
            project.models.len() > 0 ==> project.has_target(),
            start == old(engine).cache_spec(),
            res.models.len() == i,
            forall|j: int|
                0 <= j < i ==> lineage_from(*project, project.models@[j], #[trigger] res.models@[j]@),
            forall|k: int| 0 <= k < i ==> model_succeeds(*project, #[trigger] project.models@[k]),
            only_first_compiled(start, engine.cache_spec(), project.models@, i as int),
            cache_kept(start, engine.cache_spec()),
        decreases project.models.len() - i,
    {
        let m = &project.models[i];
        let ghost before = engine.cache_spec();
        let cr = compile_step(engine, project, m, false);
        proof {
            assert forall|key: (Seq<char>, bool)|
                (forall|j: int| 0 <= j < i + 1 ==> key != (#[trigger] project.models@[j].name@, false))
                    implies #[trigger] cache_lookup(engine.cache_spec(), key) == cache_lookup(start, key) by {
                assert(key != (project.models@[i as int].name@, false));
                assert(cache_lookup(engine.cache_spec(), key) == cache_lookup(before, key));
                assert forall|j: int| 0 <= j < i implies key != (#[trigger] project.models@[j].name@, false) by {
                    assert(0 <= j < i + 1);
                }
            }
        }
        let compiled = match cr {
            Ok(c) => c,
            Err(e) => {
                proof {
                    assert(lineage_error_for_model(*project, project.models@[i as int], RequestError::LineageCompile(e)));
                }
                return Err(RequestError::LineageCompile(e));
            },
        };
        let ghost t = choose|t: Seq<char>| #[trigger] compile_outcome(*project, *m, false, t) == Some(compiled@);
        match analyze_model_lineage(project, m, compiled.compiled_sql.as_str()) {
            Ok(l) => {
                proof {
                    assert(model_ok_at(*project, *m, t));
                    assert(model_lineage_at(*project, *m, t) == l@);
                    assert(model_succeeds(*project, project.models@[i as int]));
                }
                res.models.push(l);
            },
            Err(e) => {
                proof {
                    assert(compiled_from(*project, *m, false, compiled@));
                    assert(sql_unparsable(*project, *m));
                    assert(lineage_error_for_model(*project, project.models@[i as int], RequestError::Lineage(e)));
                }
                return Err(RequestError::Lineage(e));
            },
        }
        i += 1;
    }
    Ok(res)
}

} // verus!

verus! {

/// The `type` entry of a test when it is a string, otherwise `unknown`.
pub open spec fn test_type_name_spec(t: TestV) -> Seq<char> {
    match member_lookup(t.type_specific, "type"@) {
        Some(JsonV::Str(s)) => s,
        _ => "unknown"@,
    }
}

/// The `type` entry of a test when it is a string, otherwise `unknown`.
pub fn test_type_name(test: &Test) -> (r: String)
    ensures
        r@ == test_type_name_spec(test@),
{
    match lookup_member(&test.type_specific, "type") {
        Some(JsonValue::Str(s)) => s.clone(),
        _ => String::from_str("unknown"),
    }
}

/// A compiled data test.
#[derive(Clone, Debug)]
pub struct TestCompileEntry {
    pub name: String,
    pub test_type: String,
    pub compiled_sql: String,
    pub model_name: String,
}

/// The mathematical form of a [`TestCompileEntry`].
pub struct TestCompileEntryV {
    pub name: Seq<char>,
    pub test_type: Seq<char>,
    pub compiled_sql: Seq<char>,
    pub model_name: Seq<char>,
}

impl View for TestCompileEntry {
    type V = TestCompileEntryV;

    open spec fn view(&self) -> TestCompileEntryV {
        TestCompileEntryV {
            name: self.name@,
            test_type: self.test_type@,
            compiled_sql: self.compiled_sql@,
            model_name: self.model_name@,
        }
    }
}

/// Whether a test is among those a request names: all tests when it names
/// none, otherwise the tests with that name.
pub open spec fn test_selected(t: Test, name: Option<Seq<char>>) -> bool {
    match name {
        Some(n) => t.name@ == n,
        None => true,
    }
}

/// The selected tests among `tests`, in order.
#[verifier::opaque]
pub open spec fn tests_named(tests: Seq<Test>, name: Option<Seq<char>>) -> Seq<Test>
    decreases tests.len(),
{
    if tests.len() == 0 {
        Seq::empty()
    } else {
        let prev = tests_named(tests.drop_last(), name);
        if test_selected(tests.last(), name) {
            prev.push(tests.last())
        } else {
            prev
        }
    }
}

/// The entry for a test of kind `ty`.
pub open spec fn entry_spec(p: Project, t: Test, ty: TestTypeV) -> TestCompileEntryV {
    TestCompileEntryV {
        name: t.name@,
        test_type: test_type_name_spec(t@),
        compiled_sql: test_sql_spec(p, t@, ty),
        model_name: t.model_name@,
    }
}

/// The entries of the tests, or the name of the first test of unknown kind.
#[verifier::opaque]
pub open spec fn entries_spec(p: Project, tests: Seq<Test>) -> Result<Seq<TestCompileEntryV>, Seq<char>>
    decreases tests.len(),
{
    if tests.len() == 0 {
        Ok(Seq::empty())
    } else {
        match entries_spec(p, tests.drop_last()) {
            Err(n) => Err(n),
            Ok(prev) => match test_type_spec(tests.last()@.type_specific) {
                Some(ty) => Ok(prev.push(entry_spec(p, tests.last(), ty))),
                None => Err(tests.last().name@),
            },
        }
    }
}

/// Compiles the tests a request names, stopping at the first that fails.
pub fn compile_tests(project: &Project, name: Option<&str>) -> (r: Result<
    Vec<TestCompileEntry>,
    RequestError,
>)
    requires
        forall|i: int|
            0 <= i < project.tests.len() && test_selected(project.tests@[i], str_opt_view(name))
                && entries_spec(*project, tests_named(project.tests@.take(i), str_opt_view(name)))
                is Ok && test_needs_target(*project, (#[trigger] project.tests@[i])@)
                ==> project.has_target(),
    ensures
        match entries_spec(*project, tests_named(project.tests@, str_opt_view(name))) {
            Ok(es) => r matches Ok(v) && v@.map_values(|e: TestCompileEntry| e@) == es,
            Err(n) => r matches Err(RequestError::TestFailed { test, error: TestError::UnknownType { test: t2 } })
                && test@ == n && t2@ == n,
        },
{
    let ghost nm = str_opt_view(name);
    let mut out: Vec<TestCompileEntry> = Vec::new();
    let mut i: usize = 0;
    proof {
        lemma_named_start(project.tests@, nm, *project);
        assert(out@.map_values(|e: TestCompileEntry| e@) =~= Seq::<TestCompileEntryV>::empty());
    }
    while i < project.tests.len()
        invariant
            i <= project.tests.len(),
            nm == str_opt_view(name),
            forall|k: int|
                0 <= k < project.tests.len() && test_selected(project.tests@[k], nm)
                    && entries_spec(*project, tests_named(project.tests@.take(k), nm)) is Ok
                    && test_needs_target(*project, (#[trigger] project.tests@[k])@)
                    ==> project.has_target(),
            entries_spec(*project, tests_named(project.tests@.take(i as int), nm)) matches Ok(es)
                && out@.map_values(|e: TestCompileEntry| e@) == es,
        decreases project.tests.len() - i,
    {
        let t = &project.tests[i];
        proof {
            lemma_named_step(project.tests@, i as int, nm);
        }
        let selected = match name {
            Some(n) => crate::json::str_eq(t.name.as_str(), n),
            None => true,
        };
        if selected {
            let ghost prev = tests_named(project.tests@.take(i as int), nm);
            proof {
                lemma_entries_push(*project, prev, *t);
            }
            match compile_test(t, project) {
                Ok(sql) => {
                    let e = TestCompileEntry {
                        name: t.name.clone(),
                        test_type: test_type_name(t),
                        compiled_sql: sql,
                        model_name: t.model_name.clone(),
                    };
                    let ghost before = out@;
                    out.push(e);
                    assert(out@.map_values(|e: TestCompileEntry| e@) =~= before.map_values(
                        |e: TestCompileEntry| e@,
                    ).push(e@));
                },
                Err(err) => {
                    proof {
                        lemma_entries_err_stays(*project, project.tests@, i as int + 1, nm);
                    }
                    return Err(RequestError::TestFailed { test: t.name.clone(), error: err });
                },
            }
        }
        i += 1;
    }
    assert(project.tests@.take(project.tests.len() as int) =~= project.tests@);
    Ok(out)
}

proof fn lemma_named_start(tests: Seq<Test>, nm: Option<Seq<char>>, p: Project)
    ensures
        tests_named(tests.take(0), nm) == Seq::<Test>::empty(),
        entries_spec(p, Seq::<Test>::empty()) == Ok::<Seq<TestCompileEntryV>, Seq<char>>(Seq::empty()),
{
    reveal(tests_named);
    reveal(entries_spec);
    assert(tests.take(0) =~= Seq::<Test>::empty());
}

proof fn lemma_named_step(tests: Seq<Test>, i: int, nm: Option<Seq<char>>)
    requires
        0 <= i < tests.len(),
    ensures
        tests_named(tests.take(i + 1), nm) == if test_selected(tests[i], nm) {
            tests_named(tests.take(i), nm).push(tests[i])
        } else {
            tests_named(tests.take(i), nm)
        },
{
    reveal(tests_named);
    assert(tests.take(i + 1).drop_last() =~= tests.take(i));
    assert(tests.take(i + 1).last() == tests[i]);
}

proof fn lemma_entries_push(p: Project, prev: Seq<Test>, t: Test)
    ensures
        entries_spec(p, prev.push(t)) == match entries_spec(p, prev) {
            Err(n) => Err(n),
            Ok(es) => match test_type_spec(t@.type_specific) {
                Some(ty) => Ok(es.push(entry_spec(p, t, ty))),
                None => Err(t.name@),
            },
        },
{
    reveal(entries_spec);
    assert(prev.push(t).drop_last() =~= prev);
}

/// Once a test of unknown kind is met, the outcome stays that failure.
proof fn lemma_entries_err_stays(p: Project, tests: Seq<Test>, i: int, nm: Option<Seq<char>>)
    requires
        0 <= i <= tests.len(),
        entries_spec(p, tests_named(tests.take(i), nm)) is Err,
    ensures
        entries_spec(p, tests_named(tests, nm)) == entries_spec(p, tests_named(tests.take(i), nm)),
    decreases tests.len() - i,
{
    if i < tests.len() {
        lemma_named_step(tests, i, nm);
        let prev = tests_named(tests.take(i), nm);
        if test_selected(tests[i], nm) {
            lemma_entries_push(p, prev, tests[i]);
        }
        lemma_entries_err_stays(p, tests, i + 1, nm);
    } else {
        assert(tests.take(i) =~= tests);
    }
}

} // verus!

verus! {

/// The outcome recorded for a test: `Pass` with its compiled SQL, or `Error`
/// with the reason it could not be compiled.
pub open spec fn result_spec(p: Project, t: Test) -> TestResultV {
    match test_type_spec(t@.type_specific) {
        Some(ty) => TestResultV {
            test_name: t.name@,
            model_name: t.model_name@,
            test_type: test_type_name_spec(t@),
            column_name: opt_view(t.column_name),
            status: TestStatus::Pass,
            error_message: None,
            execution_sql: Some(test_sql_spec(p, t@, ty)),
        },
        None => TestResultV {
            test_name: t.name@,
            model_name: t.model_name@,
            test_type: test_type_name_spec(t@),
            column_name: opt_view(t.column_name),
            status: TestStatus::Error,
            error_message: Some("Compilation error: "@ + "Unknown test type for '"@ + t.name@ + "'"@),
            execution_sql: None,
        },
    }
}

/// Compiles every test of the project and summarises the outcomes.
pub fn get_test_suite(project: &Project) -> (r: TestSuiteResult)
    requires
        forall|i: int|
            0 <= i < project.tests.len() && test_needs_target(
                *project,
                (#[trigger] project.tests@[i])@,
            ) ==> project.has_target(),
    ensures
        results_view(r.results@) == project.tests@.map_values(|t: Test| result_spec(*project, t)),
        r.summary.total == project.tests.len(),
        r.summary.passed == crate::test_runner::status_count(r.results@, TestStatus::Pass),
        r.summary.failed == crate::test_runner::status_count(r.results@, TestStatus::Fail),
        r.summary.errors == crate::test_runner::status_count(r.results@, TestStatus::Error),
        r.summary.skipped == crate::test_runner::status_count(r.results@, TestStatus::Skipped),
{
    let mut results: Vec<TestResult> = Vec::new();
    let mut i: usize = 0;
    while i < project.tests.len()
        invariant
            i <= project.tests.len(),
            forall|k: int|
                0 <= k < project.tests.len() && test_needs_target(
                    *project,
                    (#[trigger] project.tests@[k])@,
                ) ==> project.has_target(),
            results.len() == i,
            forall|k: int| 0 <= k < i ==> (#[trigger] results@[k])@ == result_spec(*project, project.tests@[k]),
        decreases project.tests.len() - i,
    {
        let t = &project.tests[i];
        let r = match compile_test(t, project) {
            Ok(sql) => TestResult {
                test_name: t.name.clone(),
                model_name: t.model_name.clone(),
                test_type: test_type_name(t),
                column_name: match &t.column_name {
                    Some(c) => Some(c.clone()),
                    None => None,
                },
                status: TestStatus::Pass,
                error_message: None,
                execution_sql: Some(sql),
            },
            Err(e) => {
                let a = chars_of("Compilation error: ");
                let b = chars_of(e.message().as_str());
                let mut m: Vec<char> = Vec::new();
                push_all(&mut m, &a);
                push_all(&mut m, &b);
                assert(m@ =~= "Compilation error: "@ + "Unknown test type for '"@ + t.name@ + "'"@);
                TestResult {
                    test_name: t.name.clone(),
                    model_name: t.model_name.clone(),
                    test_type: test_type_name(t),
                    column_name: match &t.column_name {
                        Some(c) => Some(c.clone()),
                        None => None,
                    },
                    status: TestStatus::Error,
                    error_message: Some(string_of(&m)),
                    execution_sql: None,
                }
            },
        };
        results.push(r);
        i += 1;
    }
    assert(results_view(results@) =~= project.tests@.map_values(|t: Test| result_spec(*project, t)));
    TestSuiteResult::new(results)
}

/// A model's language and materialization.
#[derive(Clone, Debug)]
pub struct ModelTypeEntry {
    pub name: String,
    pub language: String,
    pub materialization: String,
}

/// The mathematical form of a [`ModelTypeEntry`].
pub struct ModelTypeEntryV {
    pub name: Seq<char>,
    pub language: Seq<char>,
    pub materialization: Seq<char>,
}

impl View for ModelTypeEntry {
    type V = ModelTypeEntryV;

    open spec fn view(&self) -> ModelTypeEntryV {
        ModelTypeEntryV { name: self.name@, language: self.language@, materialization: self.materialization@ }
    }
}

/// A model's entry: its language as `sql` or `python`, and the materialization
/// its configuration names (`view` when it names none).
pub open spec fn model_type_spec(m: Model) -> ModelTypeEntryV {
    ModelTypeEntryV {
        name: m.name@,
        language: if m.language == ModelLanguage::Sql {
            "sql"@
        } else {
            "python"@
        },
        materialization: or_default(m.config.materialized, "view"@),
    }
}

/// Every model's language and materialization.
pub fn get_model_types(project: &Project) -> (r: Vec<ModelTypeEntry>)
    ensures
        r@.map_values(|e: ModelTypeEntry| e@) == project.models@.map_values(|m: Model| model_type_spec(m)),
{
    let mut out: Vec<ModelTypeEntry> = Vec::new();
    let mut i: usize = 0;
    while i < project.models.len()
        invariant
            i <= project.models.len(),
            out.len() == i,
            forall|k: int| 0 <= k < i ==> (#[trigger] out@[k])@ == model_type_spec(project.models@[k]),
        decreases project.models.len() - i,
    {
        let m = &project.models[i];
        let language = match m.language {
            ModelLanguage::Sql => String::from_str("sql"),
            ModelLanguage::Python => String::from_str("python"),
        };
        let materialization = match &m.config.materialized {
            Some(x) => x.clone(),
            None => String::from_str("view"),
        };
        out.push(ModelTypeEntry { name: m.name.clone(), language, materialization });
        i += 1;
    }
    assert(out@.map_values(|e: ModelTypeEntry| e@) =~= project.models@.map_values(
        |m: Model| model_type_spec(m),
    ));
    out
}

} // verus!

verus! {

/// Whether resolving a test's model name reads the selected target.
pub fn table_needs_target_exec(project: &Project, name: &str) -> (b: bool)
    ensures
        b == crate::test_runner::table_needs_target(*project, name@),
{
    let n = chars_of(name);
    let prefix = chars_of("source:");
    if crate::text::matches_at_exec(&n, 0, &prefix) {
        return false;
    }
    match crate::project::lookup_index(&project.model_map, name) {
        Some(i) => i < project.models.len(),
        None => 0 < project.models.len(),
    }
}

/// Whether compiling a test reads the selected target.
pub fn test_needs_target_exec(project: &Project, test: &Test) -> (b: bool)
    ensures
        b == test_needs_target(*project, test@),
{
    match test.test_type() {
        Some(ty) => {
            if table_needs_target_exec(project, test.model_name.as_str()) {
                return true;
            }
            match &ty {
                crate::project::TestType::Relationships { to, .. } => table_needs_target_exec(
                    project,
                    to.as_str(),
                ),
                _ => false,
            }
        },
        None => false,
    }
}

/// Whether [`get_test_suite`] reads the selected target: some test needs it.
pub fn test_suite_reads_target(project: &Project) -> (b: bool)
    ensures
        b == exists|i: int|
            0 <= i < project.tests.len() && test_needs_target(*project, (#[trigger] project.tests@[i])@),
{
    let mut i: usize = 0;
    while i < project.tests.len()
        invariant
            i <= project.tests.len(),
            forall|k: int| 0 <= k < i ==> !test_needs_target(*project, (#[trigger] project.tests@[k])@),
        decreases project.tests.len() - i,
    {
        if test_needs_target_exec(project, &project.tests[i]) {
            return true;
        }
        i += 1;
    }
    false
}

/// Whether [`compile_tests`] reads the selected target: some requested test
/// that it reaches before a failure needs it.
pub fn compile_tests_reads_target(project: &Project, name: Option<&str>) -> (b: bool)
    ensures
        b == exists|i: int|
            0 <= i < project.tests.len() && test_selected(project.tests@[i], str_opt_view(name))
                && entries_spec(*project, tests_named(project.tests@.take(i), str_opt_view(name)))
                is Ok && test_needs_target(*project, (#[trigger] project.tests@[i])@),
{
    let ghost nm = str_opt_view(name);
    let mut ok = true;
    let mut i: usize = 0;
    proof {
        lemma_named_start(project.tests@, nm, *project);
    }
    while i < project.tests.len()
        invariant
            i <= project.tests.len(),
            nm == str_opt_view(name),
            ok == (entries_spec(*project, tests_named(project.tests@.take(i as int), nm)) is Ok),
            forall|k: int|
                0 <= k < i ==> !(test_selected(project.tests@[k], nm) && entries_spec(
                    *project,
                    tests_named(project.tests@.take(k), nm),
                ) is Ok && test_needs_target(*project, (#[trigger] project.tests@[k])@)),
        decreases project.tests.len() - i,
    {
        let t = &project.tests[i];
        proof {
            lemma_named_step(project.tests@, i as int, nm);
        }
        let selected = match name {
            Some(n) => crate::json::str_eq(t.name.as_str(), n),
            None => true,
        };
        let ghost prev = tests_named(project.tests@.take(i as int), nm);
        if selected {
            proof {
                lemma_entries_push(*project, prev, *t);
            }
            let needs = test_needs_target_exec(project, t);
            if ok && needs {
                return true;
            }
            let known = t.test_type().is_some();
            proof {
                assert(entries_spec(*project, prev.push(*t)) is Ok <==> (ok && known));
            }
            ok = ok && known;
        } else {
            assert(tests_named(project.tests@.take(i + 1), nm) == prev);
        }
        i += 1;
    }
    false
}

} // verus!
