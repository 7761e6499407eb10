//! JSON-shaped values carried by project files.
use vstd::prelude::*;

verus! {

/// A JSON value as read from a project file.
#[derive(Debug)]
pub enum JsonValue {
    Null,
    Bool(bool),
    /// A number, kept in its textual form.
    Number(String),
    Str(String),
    Array(Vec<JsonValue>),
    /// Members in the order they were read.
    Object(Vec<(String, JsonValue)>),
}

/// The mathematical form of a [`JsonValue`].
pub enum JsonV {
    Null,
    Bool(bool),
    Number(Seq<char>),
    Str(Seq<char>),
    Array(Seq<JsonV>),
    Object(Seq<(Seq<char>, JsonV)>),
}

impl JsonValue {
    pub open spec fn deep(self) -> JsonV
        decreases self,
    {
        match self {
            JsonValue::Null => JsonV::Null,
            JsonValue::Bool(b) => JsonV::Bool(b),
            JsonValue::Number(n) => JsonV::Number(n@),
            JsonValue::Str(s) => JsonV::Str(s@),
            JsonValue::Array(a) => JsonV::Array(
                Seq::new(
                    a@.len(),
                    |i: int|
                        if 0 <= i < a@.len() {
                            a@[i].deep()
                        } else {
                            JsonV::Null
                        },
                ),
            ),
            JsonValue::Object(o) => JsonV::Object(
                Seq::new(
                    o@.len(),
                    |i: int|
                        if 0 <= i < o@.len() {
                            (o@[i].0@, o@[i].1.deep())
                        } else {
                            (Seq::empty(), JsonV::Null)
                        },
                ),
            ),
        }
    }
}

} // verus!

verus! {

/// The mathematical form of a list of object members.
pub open spec fn members_deep(m: Seq<(String, JsonValue)>) -> Seq<(Seq<char>, JsonV)> {
    Seq::new(m.len(), |i: int| (m[i].0@, m[i].1.deep()))
}

/// Value of the first member named `k`.
pub open spec fn member_lookup(m: Seq<(Seq<char>, JsonV)>, k: Seq<char>) -> Option<JsonV>
    decreases m.len(),
{
    if m.len() == 0 {
        None
    } else if m[0].0 == k {
        Some(m[0].1)
    } else {
        member_lookup(m.drop_first(), k)
    }
}

/// Position of the first member named `k`.
pub open spec fn member_index(m: Seq<(Seq<char>, JsonV)>, k: Seq<char>) -> Option<int>
    decreases m.len(),
{
    if m.len() == 0 {
        None
    } else if m[0].0 == k {
        Some(0)
    } else {
        match member_index(m.drop_first(), k) {
            Some(i) => Some(i + 1),
            None => None,
        }
    }
}

/// Members after setting `k` to `v` the way a map does: an existing member
/// named `k` gets the new value, otherwise the member is added at the end.
pub open spec fn member_insert(m: Seq<(Seq<char>, JsonV)>, k: Seq<char>, v: JsonV) -> Seq<
    (Seq<char>, JsonV),
> {
    match member_index(m, k) {
        Some(i) => m.update(i, (k, v)),
        None => m.push((k, v)),
    }
}

pub proof fn lemma_member_index(m: Seq<(Seq<char>, JsonV)>, k: Seq<char>)
    ensures
        member_index(m, k) matches Some(i) ==> 0 <= i < m.len() && m[i].0 == k && forall|j: int|
            0 <= j < i ==> m[j].0 != k,
        member_index(m, k) is None ==> forall|j: int| 0 <= j < m.len() ==> m[j].0 != k,
        member_index(m, k) matches Some(i) ==> member_lookup(m, k) == Some(m[i].1),
        member_index(m, k) is None ==> member_lookup(m, k) is None,
    decreases m.len(),
{
    if m.len() > 0 && m[0].0 != k {
        lemma_member_index(m.drop_first(), k);
        assert forall|j: int| 1 <= j < m.len() implies m[j] == m.drop_first()[j - 1] by {}
    }
}

/// The string held by a JSON value, if it is a string.
pub open spec fn json_str(v: JsonV) -> Option<Seq<char>> {
    match v {
        JsonV::Str(s) => Some(s),
        _ => None,
    }
}

/// The members of a JSON value, if it is an object.
pub open spec fn json_members(v: JsonV) -> Option<Seq<(Seq<char>, JsonV)>> {
    match v {
        JsonV::Object(m) => Some(m),
        _ => None,
    }
}

impl JsonValue {
    /// A copy of the value.
    pub fn deep_clone(&self) -> (r: JsonValue)
        ensures
            r.deep() == self.deep(),
        decreases self,
    {
        match self {
            JsonValue::Null => JsonValue::Null,
            JsonValue::Bool(b) => JsonValue::Bool(*b),
            JsonValue::Number(n) => JsonValue::Number(n.clone()),
            JsonValue::Str(s) => JsonValue::Str(s.clone()),
            JsonValue::Array(a) => {
                let mut out: Vec<JsonValue> = Vec::new();
                let mut i: usize = 0;
                while i < a.len()
                    invariant
                        i <= a.len(),
                        out.len() == i,
                        *self == JsonValue::Array(*a),
                        forall|j: int| 0 <= j < i ==> #[trigger] out@[j].deep() == a@[j].deep(),
                    decreases a.len() - i,
                {
                    proof {
                        broadcast use vstd::std_specs::vec::group_vec_axioms;
                        assert(decreases_to!(*self => self->Array_0));
                        assert(decreases_to!(*a => a@));
                        assert(decreases_to!(a@ => a@[i as int]));
                        assert(decreases_to!(*self => a@[i as int]));
                    }
                    let c = a[i].deep_clone();
                    out.push(c);
                    i += 1;
                }
                let r = JsonValue::Array(out);
                assert(r.deep() == self.deep()) by {
                    let x = r.deep()->Array_0;
                    let y = self.deep()->Array_0;
                    assert forall|j: int| 0 <= j < x.len() implies x[j] == y[j] by {
                        assert(out@[j].deep() == a@[j].deep());
                    }
                    assert(x =~= y);
                }
                r
            },
            JsonValue::Object(o) => {
                let mut out: Vec<(String, JsonValue)> = Vec::new();
                let mut i: usize = 0;
                while i < o.len()
                    invariant
                        i <= o.len(),
                        out.len() == i,
                        *self == JsonValue::Object(*o),
                        forall|j: int|
                            0 <= j < i ==> #[trigger] out@[j].0@ == o@[j].0@ && out@[j].1.deep()
                                == o@[j].1.deep(),
                    decreases o.len() - i,
                {
                    proof {
                        broadcast use vstd::std_specs::vec::group_vec_axioms;
                        assert(decreases_to!(*self => self->Object_0));
                        assert(decreases_to!(*o => o@));
                        assert(decreases_to!(o@ => o@[i as int]));
                        assert(decreases_to!(o@[i as int] => o@[i as int].1));
                        assert(decreases_to!(*self => o@[i as int].1));
                    }
                    let c = o[i].1.deep_clone();
                    out.push((o[i].0.clone(), c));
                    i += 1;
                }
                let r = JsonValue::Object(out);
                assert(r.deep() == self.deep()) by {
                    let x = r.deep()->Object_0;
                    let y = self.deep()->Object_0;
                    assert forall|j: int| 0 <= j < x.len() implies x[j] == y[j] by {
                        assert(out@[j].0@ == o@[j].0@);
                    }
                    assert(x =~= y);
                }
                r
            },
        }
    }
}

/// The value of the first member named `k`.
pub fn lookup_member<'a>(m: &'a Vec<(String, JsonValue)>, k: &str) -> (r: Option<&'a JsonValue>)
    ensures
        r matches Some(v) ==> member_lookup(members_deep(m@), k@) == Some(v.deep()),
        r is None ==> member_lookup(members_deep(m@), k@) is None,
{
    let ghost md = members_deep(m@);
    proof {
        lemma_member_index(md, k@);
    }
    let mut i: usize = 0;
    while i < m.len()
        invariant
            i <= m.len(),
            md == members_deep(m@),
            forall|j: int| 0 <= j < i ==> md[j].0 != k@,
        decreases m.len() - i,
    {
        if str_eq(m[i].0.as_str(), k) {
            assert(md[i as int].0 == k@);
            assert(member_index(md, k@) == Some(i as int)) by {
                lemma_member_index(md, k@);
                if member_index(md, k@) is None {
                } else {
                    let x = member_index(md, k@)->0;
                    assert(!(x < i));
                    assert(!(x > i));
                }
            }
            proof {
                lemma_member_index(md, k@);
                assert(md[i as int].1 == m@[i as int].1.deep());
            }
            return Some(&m[i].1);
        }
        i += 1;
    }
    None
}

/// Character-wise equality of two strings.
pub fn str_eq(a: &str, b: &str) -> (r: bool)
    ensures
        r == (a@ == b@),
{
    let av = crate::text::chars_of(a);
    let bv = crate::text::chars_of(b);
    crate::text::seq_eq(&av, &bv)
}

} // verus!

verus! {

/// Sets member `k` to `v` the way a map does.
pub fn insert_member(m: &mut Vec<(String, JsonValue)>, k: String, v: JsonValue)
    ensures
        members_deep(final(m)@) == member_insert(members_deep(old(m)@), k@, v.deep()),
{
    let ghost md = members_deep(m@);
    proof {
        lemma_member_index(md, k@);
    }
    let mut i: usize = 0;
    while i < m.len()
        invariant
            i <= m.len(),
            md == members_deep(m@),
            md == members_deep(old(m)@),
            forall|j: int| 0 <= j < i ==> md[j].0 != k@,
        decreases m.len() - i,
    {
        if str_eq(m[i].0.as_str(), k.as_str()) {
            assert(md[i as int].0 == k@);
            assert(member_index(md, k@) == Some(i as int)) by {
                lemma_member_index(md, k@);
                if member_index(md, k@) is Some {
                    let x = member_index(md, k@)->0;
                    assert(!(x < i));
                    assert(!(x > i));
                }
            }
            let ghost kv = k@;
            let ghost vd = v.deep();
            m[i] = (k, v);
            assert(members_deep(m@) =~= md.update(i as int, (kv, vd)));
            return ;
        }
        i += 1;
    }
    assert(member_index(md, k@) is None) by {
        lemma_member_index(md, k@);
        if member_index(md, k@) is Some {
            let x = member_index(md, k@)->0;
            assert(md[x].0 == k@);
        }
    }
    let ghost kv = k@;
    let ghost vd = v.deep();
    m.push((k, v));
    assert(members_deep(m@) =~= md.push((kv, vd)));
}

} // verus!

verus! {

/// The string held by a JSON string, if present.
pub open spec fn json_str_opt(v: Option<JsonV>) -> Option<Seq<char>> {
    match v {
        Some(JsonV::Str(s)) => Some(s),
        _ => None,
    }
}

} // verus!
