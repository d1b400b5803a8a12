//! A JSON document tree, generic over the representation of numbers.
//!
//! The GeoJSON reader walks this tree.  Numbers stay opaque (`N`): the
//! application fills them in from the JSON text as floating-point values.
//! Objects keep their members in document order; lookup takes the first
//! member with the key.
use vstd::prelude::*;

verus! {

/// A JSON value whose numbers are of type `N`.
#[verifier::reject_recursive_types(N)]
pub enum Json<N> {
    Null,
    Bool(bool),
    Number(N),
    Str(String),
    Array(Vec<Json<N>>),
    Object(Vec<(String, Json<N>)>),
}

/// Mathematical model of a [`Json`] value.
#[verifier::reject_recursive_types(N)]
pub enum JsonV<N> {
    Null,
    Bool(bool),
    Number(N),
    Str(Seq<char>),
    Array(Seq<JsonV<N>>),
    Object(Seq<(Seq<char>, JsonV<N>)>),
}

/// The model of a JSON value.
pub open spec fn json_view<N>(j: Json<N>) -> JsonV<N>
    decreases j,
{
    match j {
        Json::Null => JsonV::Null,
        Json::Bool(b) => JsonV::Bool(b),
        Json::Number(n) => JsonV::Number(n),
        Json::Str(s) => JsonV::Str(s@),
        Json::Array(v) => JsonV::Array(json_views(v@)),
        Json::Object(fs) => JsonV::Object(member_views(fs@)),
    }
}

/// Models of a sequence of JSON values.
pub open spec fn json_views<N>(s: Seq<Json<N>>) -> Seq<JsonV<N>>
    decreases s,
{
    if s.len() == 0 {
        Seq::empty()
    } else {
        json_views(s.subrange(0, s.len() - 1)).push(json_view(s[s.len() - 1]))
    }
}

/// Models of a sequence of object members.
pub open spec fn member_views<N>(s: Seq<(String, Json<N>)>) -> Seq<(Seq<char>, JsonV<N>)>
    decreases s,
{
    if s.len() == 0 {
        Seq::empty()
    } else {
        member_views(s.subrange(0, s.len() - 1)).push((s[s.len() - 1].0@, json_view(s[s.len() - 1].1)))
    }
}

/// The views of a list of values, one per value, in order.
pub proof fn lemma_json_views<N>(s: Seq<Json<N>>)
    ensures
        json_views(s).len() == s.len(),
        forall|i: int| 0 <= i < s.len() ==> #[trigger] json_views(s)[i] == json_view(s[i]),
    decreases s.len(),
{
    if s.len() > 0 {
        let t = s.subrange(0, s.len() - 1);
        lemma_json_views(t);
        assert forall|i: int| 0 <= i < s.len() implies #[trigger] json_views(s)[i] == json_view(s[i]) by {
            if i < s.len() - 1 {
                assert(t[i] == s[i]);
            }
        }
    }
}

/// The views of an object's members, one per member, in order.
pub proof fn lemma_member_views<N>(s: Seq<(String, Json<N>)>)
    ensures
        member_views(s).len() == s.len(),
        forall|i: int|
            0 <= i < s.len() ==> #[trigger] member_views(s)[i] == (s[i].0@, json_view(s[i].1)),
    decreases s.len(),
{
    if s.len() > 0 {
        let t = s.subrange(0, s.len() - 1);
        lemma_member_views(t);
        assert forall|i: int| 0 <= i < s.len() implies #[trigger] member_views(s)[i] == (
            s[i].0@,
            json_view(s[i].1),
        ) by {
            if i < s.len() - 1 {
                assert(t[i] == s[i]);
            }
        }
    }
}

/// Index of the first member named `key`, if any.
pub open spec fn member_index<N>(fs: Seq<(Seq<char>, JsonV<N>)>, key: Seq<char>) -> Option<int>
    decreases fs.len(),
{
    if fs.len() == 0 {
        None
    } else {
        match member_index(fs.subrange(0, fs.len() - 1), key) {
            Some(i) => Some(i),
            None => if fs[fs.len() - 1].0 == key { Some(fs.len() - 1) } else { None },
        }
    }
}

/// [`member_index`] finds the first member named `key`, or there is none.
pub proof fn lemma_member_index<N>(fs: Seq<(Seq<char>, JsonV<N>)>, key: Seq<char>)
    ensures
        member_index(fs, key) matches Some(i) ==> 0 <= i < fs.len() && fs[i].0 == key && forall|j: int|
            0 <= j < i ==> fs[j].0 != key,
        member_index(fs, key) is None ==> forall|j: int| 0 <= j < fs.len() ==> fs[j].0 != key,
    decreases fs.len(),
{
    if fs.len() > 0 {
        let t = fs.subrange(0, fs.len() - 1);
        lemma_member_index(t, key);
        assert forall|j: int| 0 <= j < t.len() implies t[j] == fs[j] by {}
    }
}

/// A member found by [`member`] is structurally smaller than the object.
pub proof fn lemma_member_decreases<N>(v: JsonV<N>, key: Seq<char>)
    requires
        v is Object,
        member_index(v->Object_0, key) is Some,
    ensures
        decreases_to!(v => member(v, key)),
{
    let fs = v->Object_0;
    lemma_member_index(fs, key);
    let i = member_index(fs, key)->0;
    assert(decreases_to!(v => v->Object_0));
    assert(decreases_to!(fs => fs[i]));
    assert(decreases_to!(fs[i] => fs[i].1));
}

/// `v[key]`: the value of the first member `key` of an object, `Null` for a
/// missing member or a value that is not an object.
pub open spec fn member<N>(v: JsonV<N>, key: Seq<char>) -> JsonV<N> {
    match v {
        JsonV::Object(fs) => match member_index(fs, key) {
            Some(i) => fs[i].1,
            None => JsonV::Null,
        },
        _ => JsonV::Null,
    }
}

/// Deep copy of a JSON value.
pub fn json_clone<N: Copy>(j: &Json<N>) -> (c: Json<N>)
    ensures
        json_view(c) == json_view(*j),
    decreases j,
{
    match j {
        Json::Null => Json::Null,
        Json::Bool(b) => Json::Bool(*b),
        Json::Number(n) => Json::Number(*n),
        Json::Str(s) => Json::Str(s.clone()),
        Json::Array(v) => {
            let mut out: Vec<Json<N>> = Vec::new();
            let mut i: usize = 0;
            while i < v.len()
                invariant
                    *j == Json::Array(*v),
                    i <= v@.len(),
                    out@.len() == i,
                    forall|k: int| 0 <= k < i ==> #[trigger] json_view(out@[k]) == json_view(v@[k]),
                decreases v@.len() - i,
            {
                proof {
                    assert(decreases_to!(*j => (*j)->Array_0));
                    assert(decreases_to!(*v => v[i as int]));
                }
                let c = json_clone(&v[i]);
                out.push(c);
                i = i + 1;
            }
            proof {
                lemma_json_views(out@);
                lemma_json_views(v@);
                assert(json_views(out@) =~= json_views(v@));
            }
            Json::Array(out)
        },
        Json::Object(fs) => {
            let out = members_clone(fs);
            Json::Object(out)
        },
    }
}

/// Deep copy of a member list.
pub fn members_clone<N: Copy>(fs: &Vec<(String, Json<N>)>) -> (out: Vec<(String, Json<N>)>)
    ensures
        member_views(out@) == member_views(fs@),
    decreases fs,
{
    let mut out: Vec<(String, Json<N>)> = Vec::new();
    let mut i: usize = 0;
    while i < fs.len()
        invariant
            i <= fs@.len(),
            out@.len() == i,
            forall|k: int|
                0 <= k < i ==> #[trigger] out@[k].0@ == fs@[k].0@ && json_view(out@[k].1) == json_view(
                    fs@[k].1,
                ),
        decreases fs@.len() - i,
    {
        let (k, v) = &fs[i];
        let c = json_clone(v);
        out.push((k.clone(), c));
        i = i + 1;
    }
    proof {
        lemma_member_views(out@);
        lemma_member_views(fs@);
        assert(member_views(out@) =~= member_views(fs@));
    }
    out
}

/// `v[key]` by reference: the first member `key` of an object, `None` when
/// there is none or `v` is not an object.
pub fn json_member<'a, N>(v: &'a Json<N>, key: &str) -> (r: Option<&'a Json<N>>)
    ensures
        match r {
            Some(x) => json_view(*x) == member(json_view(*v), key@) && decreases_to!(*v => *x),
            None => member(json_view(*v), key@) == JsonV::<N>::Null && !(json_view(*v) is Object
                && member_index(json_view(*v)->Object_0, key@) is Some),
        },
{
    match v {
        Json::Object(fs) => {
            let r = members_get(fs, key);
            proof {
                assert(decreases_to!(*v => (*v)->Object_0));
            }
            r
        },
        _ => None,
    }
}

/// The value of the first member named `key` in a member list.
pub fn members_get<'a, N>(fs: &'a Vec<(String, Json<N>)>, key: &str) -> (r: Option<&'a Json<N>>)
    ensures
        match r {
            Some(x) => json_view(*x) == member(JsonV::Object(member_views(fs@)), key@)
                && decreases_to!(*fs => *x),
            None => member_index(member_views(fs@), key@) is None,
        },
{
    proof {
        lemma_member_views(fs@);
        lemma_member_index(member_views(fs@), key@);
    }
    let mut i: usize = 0;
    while i < fs.len()
        invariant
            i <= fs@.len(),
            member_views(fs@).len() == fs@.len(),
            forall|j: int| 0 <= j < i ==> #[trigger] fs@[j].0@ != key@,
            forall|j: int|
                0 <= j < fs@.len() ==> #[trigger] member_views(fs@)[j] == (fs@[j].0@, json_view(fs@[j].1)),
        decreases fs@.len() - i,
    {
        if crate::text::str_equal(fs[i].0.as_str(), key) {
            proof {
                let mv = member_views(fs@);
                lemma_member_index_first(mv, key@, i as int);
                assert(mv[i as int].1 == json_view(fs@[i as int].1));
                assert(decreases_to!(*fs => fs[i as int]));
                assert(decreases_to!(fs[i as int] => fs[i as int].1));
            }
            return Some(&fs[i].1);
        }
        i = i + 1;
    }
    proof {
        let mv = member_views(fs@);
        if member_index(mv, key@) is Some {
            let j = member_index(mv, key@)->0;
            assert(mv[j].0 == key@);
            assert(fs@[j].0@ == key@);
        }
    }
    None
}

proof fn lemma_member_index_first<N>(fs: Seq<(Seq<char>, JsonV<N>)>, key: Seq<char>, i: int)
    requires
        0 <= i < fs.len(),
        fs[i].0 == key,
        forall|j: int| 0 <= j < i ==> fs[j].0 != key,
    ensures
        member_index(fs, key) == Some(i),
{
    lemma_member_index(fs, key);
    match member_index(fs, key) {
        Some(k) => {
            if k > i {
            } else if k < i {
                assert(fs[k].0 != key);
            }
        },
        None => {
            assert(fs[i].0 != key);
        },
    }
}

} // verus!
