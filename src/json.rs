//! A structured value in the shape of JSON, owned by the library, and the
//! lookups and rewrites the ingestion logic makes on it.

use vstd::prelude::*;

verus! {

/// A JSON-like tree. A number keeps the text that the parser gave it, so no
/// floating-point value is ever held. An object is a list of members, kept
/// in the order they are given; one read by `parse_json` comes with its
/// members sorted by name, a repeated name holding its last value.
pub enum Json {
    Null,
    Bool(bool),
    Number(String),
    Str(String),
    Array(Vec<Json>),
    Object(Vec<(String, Json)>),
}

/// The member that carries transport metadata and never reaches a snapshot.
pub open spec fn links_key() -> Seq<char> {
    seq!['_', 'l', 'i', 'n', 'k', 's']
}

/// The members of `m` in order, without those named `_links`.
pub open spec fn strip_links(m: Seq<(String, Json)>) -> Seq<(String, Json)>
    decreases m.len(),
{
    if m.len() == 0 {
        Seq::empty()
    } else if m.last().0@ == links_key() {
        strip_links(m.drop_last())
    } else {
        strip_links(m.drop_last()).push(m.last())
    }
}

/// The value of the first member of `m` named `key`.
pub open spec fn member(m: Seq<(String, Json)>, key: Seq<char>) -> Option<Json>
    decreases m.len(),
{
    if m.len() == 0 {
        None
    } else if m[0].0@ == key {
        Some(m[0].1)
    } else {
        member(m.drop_first(), key)
    }
}

/// `v[key]` where `v` is an object; nothing otherwise.
pub open spec fn field(v: Json, key: Seq<char>) -> Option<Json> {
    match v {
        Json::Object(m) => member(m@, key),
        _ => None,
    }
}

/// `v[i]` where `v` is an array long enough; nothing otherwise.
pub open spec fn element(v: Json, i: int) -> Option<Json> {
    match v {
        Json::Array(items) => if 0 <= i < items@.len() {
            Some(items@[i])
        } else {
            None
        },
        _ => None,
    }
}

/// `field` applied to a value that may be absent.
pub open spec fn field_of(v: Option<Json>, key: Seq<char>) -> Option<Json> {
    match v {
        Some(x) => field(x, key),
        None => None,
    }
}

/// `element` applied to a value that may be absent.
pub open spec fn element_of(v: Option<Json>, i: int) -> Option<Json> {
    match v {
        Some(x) => element(x, i),
        None => None,
    }
}

/// Whether a borrowed lookup result denotes the value `s`.
pub open spec fn denotes(r: Option<&Json>, s: Option<Json>) -> bool {
    match r {
        Some(x) => s == Some(*x),
        None => s is None,
    }
}

/// `out` is the record `v` with its `_links` member taken out.
pub open spec fn is_stripped(out: Json, v: Json) -> bool {
    match (out, v) {
        (Json::Object(o), Json::Object(m)) => o@ == strip_links(m@),
        _ => false,
    }
}

/// Whether a value is an object.
pub open spec fn is_object(v: Json) -> bool {
    v is Object
}

/// Whether `key` names `k`.
pub(crate) fn has_name(k: &String, key: &str) -> (r: bool)
    ensures
        r == (k@ == key@),
{
    let name = String::from_str(key);
    *k == name
}

/// Whether a member name is the metadata name `_links`.
fn is_links(k: &String) -> (r: bool)
    ensures
        r == (k@ == links_key()),
{
    proof {
        reveal_strlit("_links");
        assert("_links"@ =~= links_key());
    }
    has_name(k, "_links")
}

/// Looks a member up by name: `v[key]`.
pub fn get_field<'a>(v: &'a Json, key: &str) -> (r: Option<&'a Json>)
    ensures
        denotes(r, field(*v, key@)),
{
    match v {
        Json::Object(m) => {
            let mut i: usize = 0;
            assert(m@.subrange(0, m@.len() as int) =~= m@);
            while i < m.len()
                invariant
                    i <= m.len(),
                    field(*v, key@) == member(m@, key@),
                    member(m@, key@) == member(m@.subrange(i as int, m@.len() as int), key@),
                decreases m.len() - i,
            {
                let ghost rest = m@.subrange(i as int, m@.len() as int);
                assert(rest.drop_first() =~= m@.subrange(i + 1, m@.len() as int));
                assert(rest[0] == m@[i as int]);
                if has_name(&m[i].0, key) {
                    assert(rest.len() > 0 && rest[0].0@ == key@);
                    assert(member(rest, key@) == Some(rest[0].1));
                    return Some(&m[i].1);
                }
                i = i + 1;
            }
            None
        },
        _ => None,
    }
}

/// Looks an element up by position: `v[i]`.
pub fn get_element<'a>(v: &'a Json, i: usize) -> (r: Option<&'a Json>)
    ensures
        denotes(r, element(*v, i as int)),
{
    match v {
        Json::Array(items) => if i < items.len() {
            Some(&items[i])
        } else {
            None
        },
        _ => None,
    }
}

/// The record `v` without its `_links` member; nothing where `v` is not an
/// object.
pub fn remove_links(v: Json) -> (r: Option<Json>)
    ensures
        r is Some <==> is_object(v),
        r matches Some(out) ==> is_stripped(out, v),
{
    match v {
        Json::Object(m) => {
            let ghost m0 = m@;
            let mut out: Vec<(String, Json)> = Vec::new();
            for e in it: m
                invariant
                    it.seq() == m0,
                    out@ == strip_links(m0.subrange(0, it.index() as int)),
            {
                let ghost k = it.index() as int;
                assert(m0.subrange(0, k + 1).drop_last() =~= m0.subrange(0, k));
                if !is_links(&e.0) {
                    out.push(e);
                }
            }
            assert(m0.subrange(0, m0.len() as int) =~= m0);
            Some(Json::Object(out))
        },
        _ => None,
    }
}

} // verus!
