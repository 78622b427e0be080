//! Rewrites an upstream listing into the stored shape: each record loses its
//! transport metadata and is keyed by a label made of a prefix and its
//! position.

use vstd::prelude::*;
use crate::json::{
    Json, has_name, member, denotes, element, element_of, field, field_of, get_element, get_field, is_object,
    is_stripped, remove_links,
};

verus! {

/// The decimal digit for `d < 10`.
pub open spec fn digit(d: nat) -> char {
    if d == 0 { '0' }
    else if d == 1 { '1' }
    else if d == 2 { '2' }
    else if d == 3 { '3' }
    else if d == 4 { '4' }
    else if d == 5 { '5' }
    else if d == 6 { '6' }
    else if d == 7 { '7' }
    else if d == 8 { '8' }
    else { '9' }
}

/// The decimal notation of `n`, without leading zeros.
pub open spec fn decimal(n: nat) -> Seq<char>
    decreases n,
{
    if n < 10 {
        seq![digit(n)]
    } else {
        decimal(n / 10).push(digit(n % 10))
    }
}

pub open spec fn items_key() -> Seq<char> {
    seq!['i', 't', 'e', 'm', 's']
}

pub open spec fn spin_prefix() -> Seq<char> {
    seq!['s', 'p', 'i', 'n', '-']
}

pub open spec fn show_prefix() -> Seq<char> {
    seq!['s', 'h', 'o', 'w', '-']
}

/// The records of a listing: the array under its `items` member.
pub open spec fn listing_items(v: Json) -> Option<Seq<Json>> {
    match field(v, items_key()) {
        Some(Json::Array(a)) => Some(a@),
        _ => None,
    }
}

/// Every record is an object.
pub open spec fn all_objects(items: Seq<Json>) -> bool {
    forall|i: int| 0 <= i < items.len() ==> is_object(#[trigger] items[i])
}

/// A listing that the stored shape can be made from.
pub open spec fn well_formed_listing(v: Json) -> bool {
    listing_items(v) matches Some(items) && all_objects(items)
}

/// `o` maps `prefix` followed by `i` to record `i` of `items` stripped of
/// its metadata, in the order of `items`.
pub open spec fn relabeled_members(
    o: Seq<(String, Json)>,
    items: Seq<Json>,
    prefix: Seq<char>,
) -> bool {
    &&& o.len() == items.len()
    &&& forall|i: int|
        0 <= i < items.len() ==> (#[trigger] o[i]).0@ == prefix + decimal(i as nat)
            && is_stripped(o[i].1, items[i])
}

/// `out` is an object whose members are `items` relabeled by `prefix`.
pub open spec fn is_relabeled(out: Json, items: Seq<Json>, prefix: Seq<char>) -> bool {
    match out {
        Json::Object(o) => relabeled_members(o@, items, prefix),
        _ => false,
    }
}

/// The text of `v["items"][i]["_links"]["personas"][0]["href"]`, where all
/// of it is there and the last is a string.
pub open spec fn persona_link(v: Json, i: int) -> Option<Seq<char>> {
    let record = element_of(field(v, items_key()), i);
    let links = field_of(record, seq!['_', 'l', 'i', 'n', 'k', 's']);
    let personas = field_of(links, seq!['p', 'e', 'r', 's', 'o', 'n', 'a', 's']);
    let href = field_of(element_of(personas, 0), seq!['h', 'r', 'e', 'f']);
    match href {
        Some(Json::Str(s)) => Some(s@),
        _ => None,
    }
}

fn digit_text(d: usize) -> (r: &'static str)
    requires
        d < 10,
    ensures
        r@ == seq![digit(d as nat)],
{
    proof {
        reveal_strlit("0");
        reveal_strlit("1");
        reveal_strlit("2");
        reveal_strlit("3");
        reveal_strlit("4");
        reveal_strlit("5");
        reveal_strlit("6");
        reveal_strlit("7");
        reveal_strlit("8");
        reveal_strlit("9");
    }
    if d == 0 {
        "0"
    } else if d == 1 {
        "1"
    } else if d == 2 {
        "2"
    } else if d == 3 {
        "3"
    } else if d == 4 {
        "4"
    } else if d == 5 {
        "5"
    } else if d == 6 {
        "6"
    } else if d == 7 {
        "7"
    } else if d == 8 {
        "8"
    } else {
        "9"
    }
}

/// The decimal notation of `n`.
pub fn decimal_text(n: usize) -> (r: String)
    ensures
        r@ == decimal(n as nat),
    decreases n,
{
    if n < 10 {
        String::from_str(digit_text(n))
    } else {
        let mut s = decimal_text(n / 10);
        s.append(digit_text(n % 10));
        s
    }
}

/// The label `prefix` followed by the decimal notation of `i`.
pub fn label(prefix: &str, i: usize) -> (r: String)
    ensures
        r@ == prefix@ + decimal(i as nat),
{
    let mut s = String::from_str(prefix);
    let d = decimal_text(i);
    s.append(d.as_str());
    s
}

/// Keys record `i` of `items` by `prefix` followed by `i`, each stripped of
/// its metadata; nothing where a record is not an object.
pub fn relabel(items: Vec<Json>, prefix: &str) -> (r: Option<Json>)
    ensures
        r is Some <==> all_objects(items@),
        r matches Some(out) ==> is_relabeled(out, items@, prefix@),
{
    let ghost all = items@;
    let mut out: Vec<(String, Json)> = Vec::new();
    let mut i: usize = 0;
    for record in it: items
        invariant
            it.seq() == all,
            i == it.index(),
            i <= all.len(),
            out@.len() == i,
            forall|j: int| 0 <= j < i ==> is_object(#[trigger] all[j]),
            forall|j: int|
                0 <= j < i ==> (#[trigger] out@[j]).0@ == prefix@ + decimal(j as nat)
                    && is_stripped(out@[j].1, all[j]),
    {
        match remove_links(record) {
            Some(rec) => {
                out.push((label(prefix, i), rec));
                i = out.len();
            },
            None => {
                return None;
            },
        }
    }
    Some(Json::Object(out))
}

/// The member `key` of `v`, taken out of it.
pub fn take_field(v: Json, key: &str) -> (r: Option<Json>)
    ensures
        r == field(v, key@),
{
    let ghost v0 = v;
    match v {
        Json::Object(m) => {
            let ghost all = m@;
            let mut found: Option<Json> = None;
            assert(all.subrange(0, all.len() as int) =~= all);
            for e in it: m
                invariant
                    it.seq() == all,
                    v0 == Json::Object(m),
                    it.index() <= all.len(),
                    found matches Some(x) ==> field(v0, key@) == Some(x),
                    found is None ==> field(v0, key@) == member(
                        all.subrange(it.index() as int, all.len() as int),
                        key@,
                    ),
            {
                let ghost k = it.index() as int;
                let ghost rest = all.subrange(k, all.len() as int);
                assert(rest.drop_first() =~= all.subrange(k + 1, all.len() as int));
                assert(rest[0] == e);
                if found.is_none() && has_name(&e.0, key) {
                    found = Some(e.1);
                }
            }
            found
        },
        _ => None,
    }
}

/// The listing `v` in the stored shape: its records keyed by `prefix`
/// followed by their position.
fn relabel_listing(v: Json, prefix: &str) -> (r: Option<Json>)
    ensures
        r is Some <==> well_formed_listing(v),
        r matches Some(out) ==> is_relabeled(out, listing_items(v)->Some_0, prefix@),
{
    proof {
        reveal_strlit("items");
        assert("items"@ =~= items_key());
    }
    match take_field(v, "items") {
        Some(Json::Array(items)) => relabel(items, prefix),
        _ => None,
    }
}

/// A listing of spins in the stored shape, keyed `spin-0`, `spin-1`, ...
pub fn remove_links_spins(v: Json) -> (r: Option<Json>)
    ensures
        r is Some <==> well_formed_listing(v),
        r matches Some(out) ==> is_relabeled(out, listing_items(v)->Some_0, spin_prefix()),
{
    proof {
        reveal_strlit("spin-");
        assert("spin-"@ =~= spin_prefix());
    }
    relabel_listing(v, "spin-")
}

/// A listing of shows in the stored shape, keyed `show-0`, `show-1`, ...
pub fn remove_links_shows(v: Json) -> (r: Option<Json>)
    ensures
        r is Some <==> well_formed_listing(v),
        r matches Some(out) ==> is_relabeled(out, listing_items(v)->Some_0, show_prefix()),
{
    proof {
        reveal_strlit("show-");
        assert("show-"@ =~= show_prefix());
    }
    relabel_listing(v, "show-")
}

/// The link to the first persona of record `i` of a listing.
pub fn persona_href(v: &Json, i: usize) -> (r: Option<String>)
    ensures
        r matches Some(s) ==> persona_link(*v, i as int) == Some(s@),
        r is None ==> persona_link(*v, i as int) is None,
{
    proof {
        reveal_strlit("items");
        reveal_strlit("_links");
        reveal_strlit("personas");
        reveal_strlit("href");
        assert("items"@ =~= items_key());
        assert("_links"@ =~= seq!['_', 'l', 'i', 'n', 'k', 's']);
        assert("personas"@ =~= seq!['p', 'e', 'r', 's', 'o', 'n', 'a', 's']);
        assert("href"@ =~= seq!['h', 'r', 'e', 'f']);
    }
    let items = match get_field(v, "items") {
        Some(x) => x,
        None => return None,
    };
    let record = match get_element(items, i) {
        Some(x) => x,
        None => return None,
    };
    let links = match get_field(record, "_links") {
        Some(x) => x,
        None => return None,
    };
    let personas = match get_field(links, "personas") {
        Some(x) => x,
        None => return None,
    };
    let first = match get_element(personas, 0) {
        Some(x) => x,
        None => return None,
    };
    match get_field(first, "href") {
        Some(Json::Str(s)) => Some(s.clone()),
        _ => None,
    }
}

} // verus!
