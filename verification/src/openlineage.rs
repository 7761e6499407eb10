//! OpenLineage run events for the models of a project: for each model, the
//! datasets it reads, the relation it writes, and the column-level lineage of
//! that relation.
use vstd::prelude::*;
use crate::json::{JsonV, JsonValue};
use crate::lineage::{
    ColumnLineage, ColumnLineageV, InputField, InputFieldV, ModelLineage, ModelLineageV, Transformation,
    TransformationV, columns_view, transformations_view,
};
use crate::compiler::{
    CompileError, CompiledModel, CompiledModelV, Engine, cache_kept, cache_lookup, compile_done,
    compile_error_text, compile_outcome, compiled_from, lemma_compile_caches,
    lemma_compile_touches_own_key, render_fails, sql_unparsable,
};
use crate::lineage::{LineageError, analyze_model_lineage, lineage_error_text, model_lineage_spec};
use crate::sql::{sql_parsed, sql_parses};
use crate::project::{Model, ModelLanguage};
use crate::project::{Project, opt_view, or_default};
use crate::text::{chars_of, push_all, string_of};

verus! {

/// The run of an event.
#[derive(Clone, Debug)]
pub struct OpenLineageRun {
    pub run_id: String,
}

/// A transformation in the column-lineage facet.
#[derive(Clone, Debug)]
pub struct ColumnLineageTransformation {
    pub trans_type: String,
    pub subtype: String,
    pub description: Option<String>,
    pub masking: Option<bool>,
}

/// An input field in the column-lineage facet.
#[derive(Clone, Debug)]
pub struct ColumnLineageInput {
    pub namespace: String,
    pub name: String,
    pub field: String,
    pub transformations: Vec<ColumnLineageTransformation>,
}

/// The inputs of one output column in the column-lineage facet.
#[derive(Clone, Debug)]
pub struct ColumnLineageField {
    pub input_fields: Vec<ColumnLineageInput>,
}

/// The column-lineage facet of an output dataset.
#[derive(Clone, Debug)]
pub struct ColumnLineageFacet {
    pub schema: Option<String>,
    /// Each output column once, with its inputs.
    pub fields: Vec<(String, ColumnLineageField)>,
}

/// The mathematical form of a [`ColumnLineageInput`].
pub struct ColumnLineageInputV {
    pub namespace: Seq<char>,
    pub name: Seq<char>,
    pub field: Seq<char>,
    pub transformations: Seq<TransformationV>,
}

/// The mathematical form of a [`ColumnLineageFacet`].
pub struct ColumnLineageFacetV {
    pub schema: Option<Seq<char>>,
    pub fields: Seq<(Seq<char>, Seq<ColumnLineageInputV>)>,
}

impl View for ColumnLineageTransformation {
    type V = TransformationV;

    open spec fn view(&self) -> TransformationV {
        TransformationV {
            trans_type: self.trans_type@,
            subtype: self.subtype@,
            description: opt_view(self.description),
            masking: self.masking,
        }
    }
}

impl View for ColumnLineageInput {
    type V = ColumnLineageInputV;

    open spec fn view(&self) -> ColumnLineageInputV {
        ColumnLineageInputV {
            namespace: self.namespace@,
            name: self.name@,
            field: self.field@,
            transformations: self.transformations@.map_values(|t: ColumnLineageTransformation| t@),
        }
    }
}

pub open spec fn inputs_view(v: Seq<ColumnLineageInput>) -> Seq<ColumnLineageInputV> {
    v.map_values(|i: ColumnLineageInput| i@)
}

impl View for ColumnLineageFacet {
    type V = ColumnLineageFacetV;

    open spec fn view(&self) -> ColumnLineageFacetV {
        ColumnLineageFacetV {
            schema: opt_view(self.schema),
            fields: Seq::new(
                self.fields@.len(),
                |i: int| (self.fields@[i].0@, inputs_view(self.fields@[i].1.input_fields@)),
            ),
        }
    }
}

/// The facet inputs of one lineage input field.
pub open spec fn facet_input(ns: Seq<char>, f: InputFieldV) -> ColumnLineageInputV {
    ColumnLineageInputV { namespace: ns, name: f.dataset, field: f.field, transformations: f.transformations }
}

/// The column-lineage facet of a model's columns: every input field of every
/// column, in the namespace `ns`.
pub open spec fn facet_spec(ns: Seq<char>, cols: Seq<(Seq<char>, ColumnLineageV)>) -> ColumnLineageFacetV {
    ColumnLineageFacetV {
        schema: None,
        fields: cols.map_values(
            |c: (Seq<char>, ColumnLineageV)|
                (c.0, c.1.input_fields.map_values(|f: InputFieldV| facet_input(ns, f))),
        ),
    }
}

fn facet_transformation(t: &Transformation) -> (r: ColumnLineageTransformation)
    ensures
        r@ == t@,
{
    ColumnLineageTransformation {
        trans_type: t.trans_type.clone(),
        subtype: t.subtype.clone(),
        description: match &t.description {
            Some(d) => Some(d.clone()),
            None => None,
        },
        masking: t.masking,
    }
}

fn facet_input_exec(ns: &String, f: &InputField) -> (r: ColumnLineageInput)
    ensures
        r@ == facet_input(ns@, f@),
{
    let mut ts: Vec<ColumnLineageTransformation> = Vec::new();
    let mut i: usize = 0;
    while i < f.transformations.len()
        invariant
            i <= f.transformations.len(),
            ts.len() == i,
            forall|k: int| 0 <= k < i ==> (#[trigger] ts@[k])@ == f.transformations@[k]@,
        decreases f.transformations.len() - i,
    {
        ts.push(facet_transformation(&f.transformations[i]));
        i += 1;
    }
    let r = ColumnLineageInput {
        namespace: ns.clone(),
        name: f.dataset.clone(),
        field: f.field.clone(),
        transformations: ts,
    };
    assert(r@.transformations =~= transformations_view(f.transformations@));
    r
}

/// The column-lineage facet of a model's columns.
pub fn build_facet(ns: &String, cols: &Vec<(String, ColumnLineage)>) -> (r: ColumnLineageFacet)
    ensures
        r@ == facet_spec(ns@, columns_view(cols@)),
{
    let ghost want = facet_spec(ns@, columns_view(cols@));
    let mut fields: Vec<(String, ColumnLineageField)> = Vec::new();
    let mut i: usize = 0;
    while i < cols.len()
        invariant
            i <= cols.len(),
            want == facet_spec(ns@, columns_view(cols@)),
            fields.len() == i,
            forall|k: int|
                0 <= k < i ==> (#[trigger] fields@[k]).0@ == want.fields[k].0 && inputs_view(
                    fields@[k].1.input_fields@,
                ) == want.fields[k].1,
        decreases cols.len() - i,
    {
        let c = &cols[i].1;
        let mut ins: Vec<ColumnLineageInput> = Vec::new();
        let mut j: usize = 0;
        while j < c.input_fields.len()
            invariant
                j <= c.input_fields.len(),
                ins.len() == j,
                forall|k: int|
                    0 <= k < j ==> (#[trigger] ins@[k])@ == facet_input(ns@, c.input_fields@[k]@),
            decreases c.input_fields.len() - j,
        {
            ins.push(facet_input_exec(ns, &c.input_fields[j]));
            j += 1;
        }
        assert(inputs_view(ins@) =~= want.fields[i as int].1);
        fields.push((cols[i].0.clone(), ColumnLineageField { input_fields: ins }));
        i += 1;
    }
    let r = ColumnLineageFacet { schema: None, fields };
    assert(r@.fields =~= want.fields);
    r
}

} // verus!

verus! {

/// A string, or `null`.
pub open spec fn opt_str_json(o: Option<Seq<char>>) -> JsonV {
    match o {
        Some(s) => JsonV::Str(s),
        None => JsonV::Null,
    }
}

/// A boolean, or `null`.
pub open spec fn opt_bool_json(o: Option<bool>) -> JsonV {
    match o {
        Some(b) => JsonV::Bool(b),
        None => JsonV::Null,
    }
}

/// The JSON form of a facet transformation.
pub open spec fn transformation_json(t: TransformationV) -> JsonV {
    JsonV::Object(
        seq![
            ("type"@, JsonV::Str(t.trans_type)),
            ("subtype"@, JsonV::Str(t.subtype)),
            ("description"@, opt_str_json(t.description)),
            ("masking"@, opt_bool_json(t.masking)),
        ],
    )
}

/// The JSON form of a facet input field.
pub open spec fn input_json(i: ColumnLineageInputV) -> JsonV {
    JsonV::Object(
        seq![
            ("namespace"@, JsonV::Str(i.namespace)),
            ("name"@, JsonV::Str(i.name)),
            ("field"@, JsonV::Str(i.field)),
            (
                "transformations"@,
                JsonV::Array(i.transformations.map_values(|t: TransformationV| transformation_json(t))),
            ),
        ],
    )
}

/// The JSON form of the inputs of one column.
pub open spec fn field_json(inputs: Seq<ColumnLineageInputV>) -> JsonV {
    JsonV::Object(
        seq![("inputFields"@, JsonV::Array(inputs.map_values(|i: ColumnLineageInputV| input_json(i))))],
    )
}

/// The JSON form of a column-lineage facet.
pub open spec fn facet_json(f: ColumnLineageFacetV) -> JsonV {
    JsonV::Object(
        seq![
            ("schema"@, opt_str_json(f.schema)),
            (
                "fields"@,
                JsonV::Object(
                    f.fields.map_values(
                        |e: (Seq<char>, Seq<ColumnLineageInputV>)| (e.0, field_json(e.1)),
                    ),
                ),
            ),
        ],
    )
}

fn str_json(s: &String) -> (r: JsonValue)
    ensures
        r.deep() == JsonV::Str(s@),
{
    JsonValue::Str(s.clone())
}

fn opt_str_json_exec(o: &Option<String>) -> (r: JsonValue)
    ensures
        r.deep() == opt_str_json(opt_view(*o)),
{
    match o {
        Some(s) => JsonValue::Str(s.clone()),
        None => JsonValue::Null,
    }
}

fn transformation_json_exec(t: &ColumnLineageTransformation) -> (r: JsonValue)
    ensures
        r.deep() == transformation_json(t@),
{
    let m = match t.masking {
        Some(b) => JsonValue::Bool(b),
        None => JsonValue::Null,
    };
    assert(m.deep() == opt_bool_json(t.masking));
    let members = vec![
        (String::from_str("type"), str_json(&t.trans_type)),
        (String::from_str("subtype"), str_json(&t.subtype)),
        (String::from_str("description"), opt_str_json_exec(&t.description)),
        (String::from_str("masking"), m),
    ];
    let r = JsonValue::Object(members);
    assert(r.deep()->Object_0 =~= transformation_json(t@)->Object_0);
    r
}

fn input_json_exec(i: &ColumnLineageInput) -> (r: JsonValue)
    ensures
        r.deep() == input_json(i@),
{
    let mut ts: Vec<JsonValue> = Vec::new();
    let mut k: usize = 0;
    while k < i.transformations.len()
        invariant
            k <= i.transformations.len(),
            ts.len() == k,
            forall|j: int|
                0 <= j < k ==> (#[trigger] ts@[j]).deep() == transformation_json(
                    i.transformations@[j]@,
                ),
        decreases i.transformations.len() - k,
    {
        ts.push(transformation_json_exec(&i.transformations[k]));
        k += 1;
    }
    let arr = JsonValue::Array(ts);
    assert(arr.deep()->Array_0 =~= i@.transformations.map_values(
        |t: TransformationV| transformation_json(t),
    ));
    let members = vec![
        (String::from_str("namespace"), str_json(&i.namespace)),
        (String::from_str("name"), str_json(&i.name)),
        (String::from_str("field"), str_json(&i.field)),
        (String::from_str("transformations"), arr),
    ];
    let r = JsonValue::Object(members);
    assert(r.deep()->Object_0 =~= input_json(i@)->Object_0);
    r
}

impl ColumnLineageFacet {
    /// The facet as a JSON object, with the member names OpenLineage uses.
    pub fn to_json(&self) -> (r: JsonValue)
        ensures
            r.deep() == facet_json(self@),
    {
        let ghost want = facet_json(self@)->Object_0[1].1->Object_0;
        let mut fields: Vec<(String, JsonValue)> = Vec::new();
        let mut i: usize = 0;
        while i < self.fields.len()
            invariant
                i <= self.fields.len(),
                want == facet_json(self@)->Object_0[1].1->Object_0,
                fields.len() == i,
                forall|k: int|
                    0 <= k < i ==> (#[trigger] fields@[k]).0@ == want[k].0 && fields@[k].1.deep()
                        == want[k].1,
            decreases self.fields.len() - i,
        {
            let f = &self.fields[i].1;
            let mut ins: Vec<JsonValue> = Vec::new();
            let mut j: usize = 0;
            while j < f.input_fields.len()
                invariant
                    j <= f.input_fields.len(),
                    ins.len() == j,
                    forall|k: int|
                        0 <= k < j ==> (#[trigger] ins@[k]).deep() == input_json(f.input_fields@[k]@),
                decreases f.input_fields.len() - j,
            {
                ins.push(input_json_exec(&f.input_fields[j]));
                j += 1;
            }
            let arr = JsonValue::Array(ins);
            assert(arr.deep()->Array_0 =~= inputs_view(f.input_fields@).map_values(
                |x: ColumnLineageInputV| input_json(x),
            ));
            let obj = JsonValue::Object(vec![(String::from_str("inputFields"), arr)]);
            assert(obj.deep()->Object_0 =~= field_json(inputs_view(f.input_fields@))->Object_0);
            fields.push((self.fields[i].0.clone(), obj));
            i += 1;
        }
        let fobj = JsonValue::Object(fields);
        assert(fobj.deep()->Object_0 =~= want);
        let r = JsonValue::Object(
            vec![
                (String::from_str("schema"), opt_str_json_exec(&self.schema)),
                (String::from_str("fields"), fobj),
            ],
        );
        assert(r.deep()->Object_0 =~= facet_json(self@)->Object_0);
        r
    }
}

} // verus!

verus! {

/// `a` sorts strictly before `b` as `String`s do: by code point, a proper
/// prefix first (UTF-8 byte order is code-point order).
pub open spec fn str_lt(a: Seq<char>, b: Seq<char>) -> bool
    decreases a.len(),
{
    if a.len() == 0 {
        b.len() > 0
    } else if b.len() == 0 {
        false
    } else if a[0] != b[0] {
        (a[0] as u32) < (b[0] as u32)
    } else {
        str_lt(a.drop_first(), b.drop_first())
    }
}

/// `s` with `x` put in place: passed over while the entry is neither `x` nor
/// after `x`; dropped when `x` is already there.
pub open spec fn insert_sorted(s: Seq<Seq<char>>, x: Seq<char>) -> Seq<Seq<char>>
    decreases s.len(),
{
    if s.len() == 0 {
        seq![x]
    } else if s[0] == x {
        s
    } else if str_lt(x, s[0]) {
        seq![x] + s
    } else {
        seq![s[0]] + insert_sorted(s.drop_first(), x)
    }
}

/// The distinct names of `s` in ascending order.
pub open spec fn sort_unique(s: Seq<Seq<char>>) -> Seq<Seq<char>>
    decreases s.len(),
{
    if s.len() == 0 {
        Seq::empty()
    } else {
        insert_sorted(sort_unique(s.drop_last()), s.last())
    }
}

/// Whether `a` sorts strictly before `b`.
pub fn str_less(a: &str, b: &str) -> (r: bool)
    ensures
        r == str_lt(a@, b@),
{
    let av = chars_of(a);
    let bv = chars_of(b);
    let mut i: usize = 0;
    assert(av@.skip(0) =~= av@);
    assert(bv@.skip(0) =~= bv@);
    while i < av.len() && i < bv.len() && av[i] == bv[i]
        invariant
            i <= av.len(),
            i <= bv.len(),
            str_lt(av@.skip(i as int), bv@.skip(i as int)) == str_lt(a@, b@),
            av@ == a@,
            bv@ == b@,
        decreases av.len() - i,
    {
        assert(av@.skip(i + 1) =~= av@.skip(i as int).drop_first());
        assert(bv@.skip(i + 1) =~= bv@.skip(i as int).drop_first());
        i += 1;
    }
    if i == av.len() {
        i < bv.len()
    } else if i == bv.len() {
        false
    } else {
        (av[i] as u32) < (bv[i] as u32)
    }
}

/// Puts `x` in place in `v` as [`insert_sorted`] does.
fn insert_sorted_exec(v: &mut Vec<String>, x: String)
    ensures
        crate::project::strings_view(final(v)@) == insert_sorted(
            crate::project::strings_view(old(v)@),
            x@,
        ),
{
    let ghost s = crate::project::strings_view(v@);
    let mut i: usize = 0;
    assert(s.skip(0) =~= s);
    assert(s.take(0) + insert_sorted(s, x@) =~= insert_sorted(s, x@));
    while i < v.len() && !crate::json::str_eq(v[i].as_str(), x.as_str()) && !str_less(
        x.as_str(),
        v[i].as_str(),
    )
        invariant
            i <= v.len(),
            s == crate::project::strings_view(v@),
            s == crate::project::strings_view(old(v)@),
            insert_sorted(s, x@) == s.take(i as int) + insert_sorted(s.skip(i as int), x@),
        decreases v.len() - i,
    {
        assert(s.skip(i as int).drop_first() =~= s.skip(i + 1));
        assert(s.take(i + 1) =~= s.take(i as int) + seq![s[i as int]]);
        assert(s.skip(i as int)[0] == s[i as int]);
        i += 1;
    }
    if i < v.len() && crate::json::str_eq(v[i].as_str(), x.as_str()) {
        assert(s.skip(i as int)[0] == x@);
        assert(s.take(i as int) + s.skip(i as int) =~= s);
        return;
    }
    let ghost xv = x@;
    v.insert(i, x);
    assert(crate::project::strings_view(v@) =~= s.take(i as int) + seq![xv] + s.skip(i as int));
    proof {
        if i < s.len() {
            assert(s.skip(i as int)[0] == s[i as int]);
        } else {
            assert(s.skip(i as int) =~= Seq::<Seq<char>>::empty());
        }
    }
}

/// The distinct names in ascending order.
pub fn sort_unique_exec(names: &Vec<String>) -> (r: Vec<String>)
    ensures
        crate::project::strings_view(r@) == sort_unique(crate::project::strings_view(names@)),
{
    let ghost s = crate::project::strings_view(names@);
    let mut out: Vec<String> = Vec::new();
    let mut i: usize = 0;
    assert(crate::project::strings_view(out@) =~= sort_unique(s.take(0)));
    while i < names.len()
        invariant
            i <= names.len(),
            s == crate::project::strings_view(names@),
            crate::project::strings_view(out@) == sort_unique(s.take(i as int)),
        decreases names.len() - i,
    {
        insert_sorted_exec(&mut out, names[i].clone());
        assert(s.take(i + 1).drop_last() =~= s.take(i as int));
        i += 1;
    }
    assert(s.take(names.len() as int) =~= s);
    out
}

} // verus!

verus! {

/// The job of an event.
#[derive(Debug)]
pub struct OpenLineageJob {
    pub namespace: String,
    pub name: String,
    pub facets: Option<Vec<(String, JsonValue)>>,
}

/// A dataset read or written by a run.
#[derive(Debug)]
pub struct OpenLineageDataset {
    pub namespace: String,
    pub name: String,
    pub facets: Option<Vec<(String, JsonValue)>>,
}

/// A run event.
#[derive(Debug)]
pub struct OpenLineageEvent {
    pub event_type: String,
    pub event_time: String,
    pub producer: String,
    pub schema_url: String,
    pub job: OpenLineageJob,
    pub run: OpenLineageRun,
    pub inputs: Vec<OpenLineageDataset>,
    pub outputs: Vec<OpenLineageDataset>,
}

/// The events of all models.
#[derive(Debug)]
pub struct OpenLineageEvents {
    pub events: Vec<OpenLineageEvent>,
}

/// The mathematical form of a job or a dataset: namespace, name, facets.
pub struct DatasetV {
    pub namespace: Seq<char>,
    pub name: Seq<char>,
    pub facets: Option<Seq<(Seq<char>, JsonV)>>,
}

/// The mathematical form of an [`OpenLineageEvent`].
pub struct EventV {
    pub event_type: Seq<char>,
    pub event_time: Seq<char>,
    pub producer: Seq<char>,
    pub schema_url: Seq<char>,
    pub job: DatasetV,
    pub run_id: Seq<char>,
    pub inputs: Seq<DatasetV>,
    pub outputs: Seq<DatasetV>,
}

pub open spec fn facets_view(f: Option<Vec<(String, JsonValue)>>) -> Option<Seq<(Seq<char>, JsonV)>> {
    match f {
        Some(m) => Some(crate::json::members_deep(m@)),
        None => None,
    }
}

impl View for OpenLineageJob {
    type V = DatasetV;

    open spec fn view(&self) -> DatasetV {
        DatasetV { namespace: self.namespace@, name: self.name@, facets: facets_view(self.facets) }
    }
}

impl View for OpenLineageDataset {
    type V = DatasetV;

    open spec fn view(&self) -> DatasetV {
        DatasetV { namespace: self.namespace@, name: self.name@, facets: facets_view(self.facets) }
    }
}

pub open spec fn datasets_view(v: Seq<OpenLineageDataset>) -> Seq<DatasetV> {
    v.map_values(|d: OpenLineageDataset| d@)
}

impl View for OpenLineageEvent {
    type V = EventV;

    open spec fn view(&self) -> EventV {
        EventV {
            event_type: self.event_type@,
            event_time: self.event_time@,
            producer: self.producer@,
            schema_url: self.schema_url@,
            job: self.job@,
            run_id: self.run.run_id@,
            inputs: datasets_view(self.inputs@),
            outputs: datasets_view(self.outputs@),
        }
    }
}

/// The namespace of a project's datasets: the target's engine type, `::`,
/// and its catalog (`lakehouse` when it names none).
pub open spec fn namespace_spec(p: Project) -> Seq<char> {
    p.target_spec()->0.engine_type@ + "::"@ + or_default(p.target_spec()->0.catalog, "lakehouse"@)
}

/// The names of the datasets a run reads: the distinct input datasets in
/// ascending order, or `unknown_input` when there are none.
pub open spec fn input_names(inputs: Seq<Seq<char>>) -> Seq<Seq<char>> {
    let names = sort_unique(inputs);
    if names.len() == 0 {
        seq!["unknown_input"@]
    } else {
        names
    }
}

/// The event for one compiled model and its lineage.
pub open spec fn event_spec(
    p: Project,
    compiled: CompiledModelV,
    lineage: ModelLineageV,
    run_id: Seq<char>,
    event_time: Seq<char>,
) -> EventV {
    let ns = namespace_spec(p);
    EventV {
        event_type: "COMPLETE"@,
        event_time,
        producer: "https://github.com/openingest/openpipe"@,
        schema_url: "https://openlineage.io/spec/1-1-0/OpenLineage.json"@,
        job: DatasetV {
            namespace: "openpipe"@,
            name: compiled.relation_name,
            facets: Some(
                seq![("sql"@, JsonV::Object(seq![("query"@, JsonV::Str(compiled.compiled_sql))]))],
            ),
        },
        run_id,
        inputs: input_names(lineage.input_datasets).map_values(
            |n: Seq<char>| DatasetV { namespace: ns, name: n, facets: None },
        ),
        outputs: seq![
            DatasetV {
                namespace: ns,
                name: lineage.output_dataset,
                facets: Some(seq![("columnLineage"@, facet_json(facet_spec(ns, lineage.columns)))]),
            },
        ],
    }
}

/// The namespace of a project's datasets.
pub fn namespace(project: &Project) -> (r: String)
    requires
        project.has_target(),
    ensures
        r@ == namespace_spec(*project),
{
    let t = project.target().unwrap();
    let a = chars_of(t.engine_type.as_str());
    let b = chars_of("::");
    let c = match &t.catalog {
        Some(x) => chars_of(x.as_str()),
        None => chars_of("lakehouse"),
    };
    let mut out: Vec<char> = Vec::new();
    push_all(&mut out, &a);
    push_all(&mut out, &b);
    push_all(&mut out, &c);
    string_of(&out)
}

/// The event for one compiled model and its lineage.
pub fn build_event(
    project: &Project,
    compiled: &CompiledModel,
    lineage: &ModelLineage,
    run_id: String,
    event_time: String,
) -> (e: OpenLineageEvent)
    requires
        project.has_target(),
    ensures
        e@ == event_spec(*project, compiled@, lineage@, run_id@, event_time@),
{
    let ns = namespace(project);
    let names = sort_unique_exec(&lineage.input_datasets);
    let names = if names.len() == 0 {
        let v = vec![String::from_str("unknown_input")];
        assert(crate::project::strings_view(v@) =~= seq!["unknown_input"@]);
        v
    } else {
        names
    };
    let ghost nv = crate::project::strings_view(names@);
    assert(nv == input_names(crate::project::strings_view(lineage.input_datasets@)));
    let mut inputs: Vec<OpenLineageDataset> = Vec::new();
    let mut i: usize = 0;
    while i < names.len()
        invariant
            i <= names.len(),
            nv == crate::project::strings_view(names@),
            inputs.len() == i,
            forall|k: int|
                0 <= k < i ==> (#[trigger] inputs@[k])@ == (DatasetV {
                    namespace: ns@,
                    name: nv[k],
                    facets: None,
                }),
        decreases names.len() - i,
    {
        inputs.push(OpenLineageDataset { namespace: ns.clone(), name: names[i].clone(), facets: None });
        i += 1;
    }
    let facet = build_facet(&ns, &lineage.columns).to_json();
    let out_facets = vec![(String::from_str("columnLineage"), facet)];
    let output = OpenLineageDataset {
        namespace: ns.clone(),
        name: lineage.output_dataset.clone(),
        facets: Some(out_facets),
    };
    assert(facets_view(output.facets).unwrap() =~= seq![
        ("columnLineage"@, facet_json(facet_spec(ns@, columns_view(lineage.columns@)))),
    ]);
    let query = JsonValue::Object(vec![(String::from_str("query"), str_json(&compiled.compiled_sql))]);
    assert(query.deep()->Object_0 =~= seq![("query"@, JsonV::Str(compiled.compiled_sql@))]);
    let job = OpenLineageJob {
        namespace: String::from_str("openpipe"),
        name: compiled.relation_name.clone(),
        facets: Some(vec![(String::from_str("sql"), query)]),
    };
    assert(facets_view(job.facets).unwrap() =~= seq![
        ("sql"@, JsonV::Object(seq![("query"@, JsonV::Str(compiled.compiled_sql@))])),
    ]);
    let outputs = vec![output];
    let e = OpenLineageEvent {
        event_type: String::from_str("COMPLETE"),
        event_time,
        producer: String::from_str("https://github.com/openingest/openpipe"),
        schema_url: String::from_str("https://openlineage.io/spec/1-1-0/OpenLineage.json"),
        job,
        run: OpenLineageRun { run_id },
        inputs,
        outputs,
    };
    assert(e@.inputs =~= event_spec(*project, compiled@, lineage@, run_id@, event_time@).inputs);
    assert(e@.outputs =~= event_spec(*project, compiled@, lineage@, run_id@, event_time@).outputs);
    e
}

} // verus!

verus! {

/// A fresh run id from `uuid::Uuid::now_v7`, in hyphenated form. Nothing is
/// claimed of it.
#[verifier::external_body]
fn new_run_id() -> String {
    uuid::Uuid::now_v7().to_string()
}

/// Why events could not be generated.
#[derive(Debug)]
pub enum OpenLineageError {
    Compile(CompileError),
    Lineage(LineageError),
}

impl OpenLineageError {
    /// The error's text.
    pub fn message(&self) -> (r: String)
        ensures
            r@ == match *self {
                OpenLineageError::Compile(e) => compile_error_text(e),
                OpenLineageError::Lineage(e) => lineage_error_text(e),
            },
    {
        match self {
            OpenLineageError::Compile(e) => e.message(),
            OpenLineageError::Lineage(e) => e.message(),
        }
    }
}

/// Model `m`, compiled (not as a full refresh) at time `t`, gives SQL that
/// parses.
pub open spec fn model_ok_at(p: Project, m: Model, t: Seq<char>) -> bool {
    compile_outcome(p, m, false, t) is Some && sql_parses(compile_outcome(p, m, false, t)->0.compiled_sql)
}

/// The lineage of model `m` compiled (not as a full refresh) at time `t`: the
/// lineage of the statements its compiled SQL parses to.
pub open spec fn model_lineage_at(p: Project, m: Model, t: Seq<char>) -> ModelLineageV {
    model_lineage_spec(p, m, sql_parsed(compile_outcome(p, m, false, t)->0.compiled_sql)->0)
}

/// An event for model `m`: the event of its compilation at some time, with
/// the lineage of the SQL it compiled to, some run id and some event time.
pub open spec fn event_for_model(p: Project, m: Model, e: EventV) -> bool {
    exists|t: Seq<char>, run_id: Seq<char>, time: Seq<char>|
        model_ok_at(p, m, t) && e == #[trigger] event_spec(
            p,
            compile_outcome(p, m, false, t)->0,
            model_lineage_at(p, m, t),
            run_id,
            time,
        )
}

/// At some time, `m` compiles and its SQL parses.
pub open spec fn model_succeeds(p: Project, m: Model) -> bool {
    exists|t: Seq<char>| #[trigger] model_ok_at(p, m, t)
}

/// `e` is the error generating events reports for model `m`: its template
/// did not render, or the SQL it compiled to does not parse.
pub open spec fn error_for_model(p: Project, m: Model, e: OpenLineageError) -> bool {
    match e {
        OpenLineageError::Compile(CompileError::Render { model, .. }) => model@ == m.name@
            && render_fails(p, m, false),
        OpenLineageError::Lineage(LineageError::Parse { model, .. }) => model@ == m.name@
            && sql_unparsable(p, m),
    }
}

/// Only the first `k` models were compiled: every other key of the cache
/// reads as before.
pub open spec fn only_first_compiled(
    before: Seq<((Seq<char>, bool), CompiledModelV)>,
    after: Seq<((Seq<char>, bool), CompiledModelV)>,
    models: Seq<Model>,
    k: int,
) -> bool {
    forall|key: (Seq<char>, bool)|
        (forall|j: int| 0 <= j < k ==> key != (#[trigger] models[j].name@, false)) ==> #[trigger] cache_lookup(
            after,
            key,
        ) == cache_lookup(before, key)
}

/// One event per model, in model order: each model is compiled (not as a
/// full refresh) and the lineage of its compiled SQL analysed. The first
/// failure is returned, and no later model is compiled.
pub fn generate_events(project: &Project, engine: &mut Engine) -> (r: Result<
    OpenLineageEvents,
    OpenLineageError,
>)
    requires
        project.models.len() > 0 ==> project.has_target(),
    ensures
        r matches Ok(evs) ==> evs.events.len() == project.models.len() && forall|i: int|
            0 <= i < evs.events.len() ==> event_for_model(
                *project,
                project.models@[i],
                #[trigger] evs.events@[i]@,
            ),
        r is Ok ==> only_first_compiled(
            old(engine).cache_spec(),
            final(engine).cache_spec(),
            project.models@,
            project.models.len() as int,
        ),
        r matches Err(e) ==> exists|k: int|
            0 <= k < project.models.len() && #[trigger] error_for_model(*project, project.models@[k], e)
                && (forall|j: int| 0 <= j < k ==> model_succeeds(*project, #[trigger] project.models@[j]))
                && only_first_compiled(
                old(engine).cache_spec(),
                final(engine).cache_spec(),
                project.models@,
                k + 1,
            ),
        (forall|j: int|
            0 <= j < project.models.len() ==> !render_fails(*project, #[trigger] project.models@[j], false)
                && !sql_unparsable(*project, project.models@[j])) ==> r is Ok,
        project.models.len() == 0 ==> (r matches Ok(evs) && evs.events.len() == 0),
        cache_kept(old(engine).cache_spec(), final(engine).cache_spec()),
        r is Ok ==> forall|i: int|
            0 <= i < project.models.len() && project.models@[i].language == ModelLanguage::Sql
                ==> #[trigger] cache_lookup(
                final(engine).cache_spec(),
                (project.models@[i].name@, false),
            ) is Some,
{
    let ghost start = engine.cache_spec();
    let mut events: Vec<OpenLineageEvent> = Vec::new();
    let mut i: usize = 0;
    while i < project.models.len()
        invariant
            i <= project.models.len(),
            project.models.len() > 0 ==> project.has_target(),
            start == old(engine).cache_spec(),
            events.len() == i,
            forall|k: int|
                0 <= k < i ==> event_for_model(*project, project.models@[k], #[trigger] events@[k]@),
            forall|k: int| 0 <= k < i ==> model_succeeds(*project, #[trigger] project.models@[k]),
            only_first_compiled(start, engine.cache_spec(), project.models@, i as int),
            cache_kept(start, engine.cache_spec()),
            forall|j: int|
                0 <= j < i && project.models@[j].language == ModelLanguage::Sql
                    ==> #[trigger] cache_lookup(engine.cache_spec(), (project.models@[j].name@, false))
                    is Some,
        decreases project.models.len() - i,
    {
        let model = &project.models[i];
        let ghost before = engine.cache_spec();
        let cr = engine.compile(project, model, false);
        let ghost after = engine.cache_spec();
        let ghost crv = cr;
        let ghost t = choose|t: Seq<char>|
            #[trigger] compile_done(*project, *model, false, t, crv, before, after);
        proof {
            lemma_compile_caches(*project, *model, false, t, crv, before, after);
            assert forall|key: (Seq<char>, bool)|
                (forall|j: int| 0 <= j < i + 1 ==> key != (#[trigger] project.models@[j].name@, false))
                    implies #[trigger] cache_lookup(after, key) == cache_lookup(start, key) by {
                assert(key != (project.models@[i as int].name@, false));
                lemma_compile_touches_own_key(*project, *model, false, t, crv, before, after, key);
                assert forall|j: int| 0 <= j < i implies key != (#[trigger] project.models@[j].name@, false) by {
                    assert(0 <= j < i + 1);
                }
            }
            assert(forall|j: int|
                0 <= j < i && project.models@[j].language == ModelLanguage::Sql
                    ==> #[trigger] cache_lookup(before, (project.models@[j].name@, false)) is Some);
        }
        let compiled = match cr {
            Ok(c) => c,
            Err(e) => {
                proof {
                    assert(compile_outcome(*project, *model, false, t) is None);
                    assert(render_fails(*project, *model, false));
                    assert(error_for_model(*project, project.models@[i as int], OpenLineageError::Compile(e)));
                }
                return Err(OpenLineageError::Compile(e));
            },
        };
        proof {
            assert(compile_outcome(*project, *model, false, t) == Some(compiled@));
        }
        let lineage = match analyze_model_lineage(project, model, compiled.compiled_sql.as_str()) {
            Ok(l) => l,
            Err(e) => {
                proof {
                    assert(compiled_from(*project, *model, false, compiled@));
                    assert(sql_unparsable(*project, *model));
                    assert(error_for_model(*project, project.models@[i as int], OpenLineageError::Lineage(e)));
                }
                return Err(OpenLineageError::Lineage(e));
            },
        };
        let run_id = new_run_id();
        let time = crate::jinja::now_rfc3339();
        let ev = build_event(project, &compiled, &lineage, run_id, time);
        proof {
            assert(model_ok_at(*project, *model, t));
            assert(model_lineage_at(*project, *model, t) == lineage@);
            assert(ev@ == event_spec(
                *project,
                compile_outcome(*project, *model, false, t)->0,
                model_lineage_at(*project, *model, t),
                run_id@,
                time@,
            ));
            assert(model_succeeds(*project, project.models@[i as int]));
        }
        events.push(ev);
        i += 1;
    }
    Ok(OpenLineageEvents { events })
}

} // verus!

verus! {

proof fn lemma_char_code(c: char, d: char)
    ensures
        (c as u32) == (d as u32) ==> c == d,
{
    assert(0 <= c as int <= 0x10FFFF);
    assert(c as u32 == c as int);
    assert(d as u32 == d as int);
}

/// No name sorts before itself.
pub proof fn lemma_str_lt_irreflexive(a: Seq<char>)
    ensures
        !str_lt(a, a),
    decreases a.len(),
{
    if a.len() > 0 {
        lemma_str_lt_irreflexive(a.drop_first());
    }
}

/// Of two different names, exactly one sorts before the other.
pub proof fn lemma_str_lt_total(a: Seq<char>, b: Seq<char>)
    ensures
        a != b ==> str_lt(a, b) || str_lt(b, a),
        !(str_lt(a, b) && str_lt(b, a)),
    decreases a.len(),
{
    if a.len() > 0 && b.len() > 0 && a[0] == b[0] {
        lemma_str_lt_total(a.drop_first(), b.drop_first());
        if a != b {
            assert(a.drop_first() != b.drop_first()) by {
                if a.drop_first() == b.drop_first() {
                    assert(a =~= seq![a[0]] + a.drop_first());
                    assert(b =~= seq![b[0]] + b.drop_first());
                }
            }
        }
    } else if a.len() > 0 && b.len() > 0 {
        lemma_char_code(a[0], b[0]);
    } else if a.len() == 0 && b.len() == 0 {
        assert(a =~= b);
    }
}

/// Sorting before is transitive.
pub proof fn lemma_str_lt_transitive(a: Seq<char>, b: Seq<char>, c: Seq<char>)
    requires
        str_lt(a, b),
        str_lt(b, c),
    ensures
        str_lt(a, c),
    decreases a.len(),
{
    if a.len() > 0 && b.len() > 0 && c.len() > 0 && a[0] == b[0] && b[0] == c[0] {
        lemma_str_lt_transitive(a.drop_first(), b.drop_first(), c.drop_first());
    } else if a.len() > 0 && b.len() > 0 && c.len() > 0 {
        lemma_char_code(a[0], c[0]);
    }
}

/// Each name sorts strictly before every later one.
pub open spec fn strictly_sorted(s: Seq<Seq<char>>) -> bool {
    forall|i: int, j: int| 0 <= i < j < s.len() ==> str_lt(#[trigger] s[i], #[trigger] s[j])
}

proof fn lemma_insert_sorted(s: Seq<Seq<char>>, x: Seq<char>)
    requires
        strictly_sorted(s),
    ensures
        strictly_sorted(insert_sorted(s, x)),
        forall|y: Seq<char>| #[trigger] insert_sorted(s, x).contains(y) <==> (s.contains(y) || y == x),
    decreases s.len(),
{
    let r = insert_sorted(s, x);
    if s.len() == 0 {
        assert forall|y: Seq<char>| #[trigger] r.contains(y) <==> (s.contains(y) || y == x) by {
            if r.contains(y) {
                assert(r[0] == y);
            }
            if y == x {
                assert(r[0] == x);
            }
        }
    } else if s[0] == x {
        assert forall|y: Seq<char>| #[trigger] r.contains(y) <==> (s.contains(y) || y == x) by {
            if y == x {
                assert(s[0] == y);
            }
        }
    } else if str_lt(x, s[0]) {
        assert(r =~= seq![x] + s);
        assert forall|i: int, j: int| 0 <= i < j < r.len() implies str_lt(#[trigger] r[i], #[trigger] r[j]) by {
            if i == 0 {
                assert(r[j] == s[j - 1]);
                if j - 1 > 0 {
                    assert(str_lt(s[0], s[j - 1]));
                    lemma_str_lt_transitive(x, s[0], s[j - 1]);
                }
            } else {
                assert(r[i] == s[i - 1] && r[j] == s[j - 1]);
            }
        }
        assert forall|y: Seq<char>| #[trigger] r.contains(y) <==> (s.contains(y) || y == x) by {
            if r.contains(y) {
                let k = choose|k: int| 0 <= k < r.len() && r[k] == y;
                if k > 0 {
                    assert(s[k - 1] == y);
                }
            }
            if s.contains(y) {
                let k = choose|k: int| 0 <= k < s.len() && s[k] == y;
                assert(r[k + 1] == y);
            }
            if y == x {
                assert(r[0] == y);
            }
        }
    } else {
        lemma_str_lt_total(x, s[0]);
        let rest = s.drop_first();
        assert forall|i: int, j: int| 0 <= i < j < rest.len() implies str_lt(#[trigger] rest[i], #[trigger] rest[j]) by {
            assert(rest[i] == s[i + 1] && rest[j] == s[j + 1]);
        }
        lemma_insert_sorted(rest, x);
        let t = insert_sorted(rest, x);
        assert(r =~= seq![s[0]] + t);
        assert forall|k: int| 0 <= k < t.len() implies str_lt(s[0], #[trigger] t[k]) by {
            assert(t.contains(t[k]));
            if t[k] == x {
            } else {
                assert(rest.contains(t[k]));
                let m = choose|m: int| 0 <= m < rest.len() && rest[m] == t[k];
                assert(s[m + 1] == t[k]);
            }
        }
        assert forall|i: int, j: int| 0 <= i < j < r.len() implies str_lt(#[trigger] r[i], #[trigger] r[j]) by {
            if i == 0 {
                assert(r[j] == t[j - 1]);
            } else {
                assert(r[i] == t[i - 1] && r[j] == t[j - 1]);
            }
        }
        assert forall|y: Seq<char>| #[trigger] r.contains(y) <==> (s.contains(y) || y == x) by {
            if r.contains(y) {
                let k = choose|k: int| 0 <= k < r.len() && r[k] == y;
                if k == 0 {
                    assert(s[0] == y);
                } else {
                    assert(t[k - 1] == y);
                    assert(t.contains(y));
                    if y != x {
                        let m = choose|m: int| 0 <= m < rest.len() && rest[m] == y;
                        assert(s[m + 1] == y);
                    }
                }
            }
            if s.contains(y) {
                let k = choose|k: int| 0 <= k < s.len() && s[k] == y;
                if k == 0 {
                    assert(r[0] == y);
                } else {
                    assert(rest[k - 1] == y);
                    assert(rest.contains(y));
                    assert(t.contains(y));
                    let m = choose|m: int| 0 <= m < t.len() && t[m] == y;
                    assert(r[m + 1] == y);
                }
            }
            if y == x {
                assert(t.contains(y));
                let m = choose|m: int| 0 <= m < t.len() && t[m] == y;
                assert(r[m + 1] == y);
            }
        }
    }
}

/// The distinct names in ascending order: `sort_unique` holds each name of
/// `s` once, sorted strictly ascending, and nothing else.
pub proof fn lemma_sort_unique(s: Seq<Seq<char>>)
    ensures
        strictly_sorted(sort_unique(s)),
        forall|y: Seq<char>| #[trigger] sort_unique(s).contains(y) <==> s.contains(y),
    decreases s.len(),
{
    if s.len() > 0 {
        lemma_sort_unique(s.drop_last());
        lemma_insert_sorted(sort_unique(s.drop_last()), s.last());
        assert forall|y: Seq<char>| #[trigger] sort_unique(s).contains(y) <==> s.contains(y) by {
            if s.drop_last().contains(y) {
                let k = choose|k: int| 0 <= k < s.drop_last().len() && s.drop_last()[k] == y;
                assert(s[k] == y);
            }
            if s.contains(y) && y != s.last() {
                let k = choose|k: int| 0 <= k < s.len() && s[k] == y;
                assert(k < s.len() - 1);
                assert(s.drop_last()[k] == y);
            }
        }
    }
}

/// The datasets of an event's inputs: never empty, in strictly ascending
/// order, and exactly the model's input datasets when it reads any.
pub proof fn lemma_input_names(inputs: Seq<Seq<char>>)
    ensures
        input_names(inputs).len() > 0,
        strictly_sorted(input_names(inputs)),
        inputs.len() > 0 ==> forall|y: Seq<char>|
            #[trigger] input_names(inputs).contains(y) <==> inputs.contains(y),
        inputs.len() == 0 ==> input_names(inputs) == seq!["unknown_input"@],
{
    lemma_sort_unique(inputs);
    if inputs.len() > 0 {
        assert(sort_unique(inputs).contains(inputs[0]));
    }
}

} // verus!

verus! {

/// The column-lineage facet lists every column of the lineage, in order and
/// under its name, and for each one exactly the column's input fields, one
/// facet input per input field in the same order: its dataset as the name,
/// its field, its transformations, in the namespace of the event.
pub proof fn lemma_facet_mirrors_lineage(ns: Seq<char>, cols: Seq<(Seq<char>, ColumnLineageV)>)
    ensures
        ({
            let f = facet_spec(ns, cols);
            &&& f.schema is None
            &&& f.fields.len() == cols.len()
            &&& forall|i: int|
                0 <= i < cols.len() ==> {
                    &&& (#[trigger] f.fields[i]).0 == cols[i].0
                    &&& f.fields[i].1.len() == cols[i].1.input_fields.len()
                    &&& forall|j: int|
                        0 <= j < cols[i].1.input_fields.len() ==> #[trigger] f.fields[i].1[j]
                            == ColumnLineageInputV {
                            namespace: ns,
                            name: cols[i].1.input_fields[j].dataset,
                            field: cols[i].1.input_fields[j].field,
                            transformations: cols[i].1.input_fields[j].transformations,
                        }
                }
        }),
{
}

/// In JSON, the facet's `fields` member lists every column of the lineage in
/// order under its name, each with an `inputFields` array holding one entry
/// per input field of the column, in order: the namespace, the dataset as
/// `name`, the field, and one transformation object per transformation.
pub proof fn lemma_facet_json_mirrors_lineage(ns: Seq<char>, cols: Seq<(Seq<char>, ColumnLineageV)>)
    ensures
        ({
            let j = facet_json(facet_spec(ns, cols));
            &&& j is Object
            &&& j->Object_0.len() == 2
            &&& j->Object_0[1].0 == "fields"@
            &&& j->Object_0[1].1 is Object
            &&& j->Object_0[1].1->Object_0.len() == cols.len()
            &&& forall|i: int|
                0 <= i < cols.len() ==> {
                    let c = #[trigger] j->Object_0[1].1->Object_0[i];
                    let fs = cols[i].1.input_fields;
                    &&& c.0 == cols[i].0
                    &&& c.1 is Object
                    &&& c.1->Object_0.len() == 1
                    &&& c.1->Object_0[0].0 == "inputFields"@
                    &&& c.1->Object_0[0].1 is Array
                    &&& c.1->Object_0[0].1->Array_0.len() == fs.len()
                    &&& forall|k: int|
                        0 <= k < fs.len() ==> {
                            let e = #[trigger] c.1->Object_0[0].1->Array_0[k];
                            &&& e is Object
                            &&& e->Object_0.len() == 4
                            &&& e->Object_0[0] == ("namespace"@, JsonV::Str(ns))
                            &&& e->Object_0[1] == ("name"@, JsonV::Str(fs[k].dataset))
                            &&& e->Object_0[2] == ("field"@, JsonV::Str(fs[k].field))
                            &&& e->Object_0[3].0 == "transformations"@
                            &&& e->Object_0[3].1 is Array
                            &&& e->Object_0[3].1->Array_0.len() == fs[k].transformations.len()
                        }
                }
        }),
{
    let f = facet_spec(ns, cols);
    let j = facet_json(f);
    assert forall|i: int| 0 <= i < cols.len() implies {
        let c = #[trigger] j->Object_0[1].1->Object_0[i];
        let fs = cols[i].1.input_fields;
        &&& c.0 == cols[i].0
        &&& c.1 is Object
        &&& c.1->Object_0.len() == 1
        &&& c.1->Object_0[0].0 == "inputFields"@
        &&& c.1->Object_0[0].1 is Array
        &&& c.1->Object_0[0].1->Array_0.len() == fs.len()
        &&& forall|k: int|
            0 <= k < fs.len() ==> {
                let e = #[trigger] c.1->Object_0[0].1->Array_0[k];
                &&& e is Object
                &&& e->Object_0.len() == 4
                &&& e->Object_0[0] == ("namespace"@, JsonV::Str(ns))
                &&& e->Object_0[1] == ("name"@, JsonV::Str(fs[k].dataset))
                &&& e->Object_0[2] == ("field"@, JsonV::Str(fs[k].field))
                &&& e->Object_0[3].0 == "transformations"@
                &&& e->Object_0[3].1 is Array
                &&& e->Object_0[3].1->Array_0.len() == fs[k].transformations.len()
            }
    } by {
        assert(f.fields[i].1.len() == cols[i].1.input_fields.len());
        assert forall|k: int| 0 <= k < cols[i].1.input_fields.len() implies #[trigger] f.fields[i].1[k]
            == facet_input(ns, cols[i].1.input_fields[k]) by {}
    }
}

} // verus!

verus! {

/// Every event is a `COMPLETE` event of the job named by the model's
/// relation, carrying the compiled SQL; it reads, in the namespace
/// `<engine type>::<catalog, or lakehouse>`, the datasets `input_names` gives,
/// with no facets, and writes exactly one dataset, the lineage's output, whose
/// only facet is the column-lineage facet of the lineage's columns.
pub proof fn lemma_event_shape(
    p: Project,
    c: CompiledModelV,
    l: ModelLineageV,
    run_id: Seq<char>,
    time: Seq<char>,
)
    requires
        p.has_target(),
    ensures
        ({
            let e = event_spec(p, c, l, run_id, time);
            let t = p.target_spec()->0;
            let ns = t.engine_type@ + "::"@ + match t.catalog {
                Some(x) => x@,
                None => "lakehouse"@,
            };
            let names = input_names(l.input_datasets);
            &&& e.event_type == "COMPLETE"@
            &&& e.event_time == time
            &&& e.run_id == run_id
            &&& e.job.namespace == "openpipe"@
            &&& e.job.name == c.relation_name
            &&& e.job.facets == Some(
                seq![("sql"@, JsonV::Object(seq![("query"@, JsonV::Str(c.compiled_sql))]))],
            )
            &&& e.inputs.len() == names.len()
            &&& forall|i: int|
                0 <= i < names.len() ==> #[trigger] e.inputs[i] == DatasetV {
                    namespace: ns,
                    name: names[i],
                    facets: None,
                }
            &&& e.outputs.len() == 1
            &&& e.outputs[0].namespace == ns
            &&& e.outputs[0].name == l.output_dataset
            &&& e.outputs[0].facets == Some(seq![("columnLineage"@, facet_json(facet_spec(ns, l.columns)))])
        }),
{
}

} // verus!
