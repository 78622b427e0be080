//! Ingestion: from what the upstream source returned to a committed
//! snapshot, all or nothing. The fetches themselves are made by the caller,
//! which hands over what came back.

use vstd::prelude::*;
use crate::json::{Json, is_object, is_stripped, remove_links};
use crate::normalize::{
    is_relabeled, listing_items, persona_href, persona_link, relabeled_members, remove_links_shows,
    remove_links_spins, show_prefix, spin_prefix, well_formed_listing,
};
use crate::parse::{parse_json, parsed};
use crate::store::{Store, StoreView};

verus! {

/// Why an ingestion did not commit.
#[derive(Debug, Clone, Copy, PartialEq, Eq, Structural)]
pub enum IngestError {
    /// The access token is not configured.
    ConfigurationMissing,
    /// The upstream source could not be reached.
    UpstreamUnavailable,
    /// The upstream source answered with an empty body.
    EmptyResponse,
    /// The body is not JSON, or lacks a member the stored shape needs.
    MalformedPayload,
    /// A resource linked from the listing could not be fetched.
    DependentFetchFailed,
}

impl IngestError {
    /// A short reason, fit to show to the caller that triggered the
    /// ingestion.
    pub fn reason(&self) -> (r: &'static str)
        ensures
            *self == IngestError::ConfigurationMissing ==> r@ == "The access token is not configured."@,
            *self == IngestError::UpstreamUnavailable ==> r@ == "Couldn't reach the upstream source."@,
            *self == IngestError::EmptyResponse ==> r@ == "Response was empty."@,
            *self == IngestError::MalformedPayload ==> r@ == "Response was malformed."@,
            *self == IngestError::DependentFetchFailed ==> r@ == "Couldn't fetch a linked resource."@,
    {
        match self {
            IngestError::ConfigurationMissing => "The access token is not configured.",
            IngestError::UpstreamUnavailable => "Couldn't reach the upstream source.",
            IngestError::EmptyResponse => "Response was empty.",
            IngestError::MalformedPayload => "Response was malformed.",
            IngestError::DependentFetchFailed => "Couldn't fetch a linked resource.",
        }
    }
}

/// The status that answers an ingestion: 200 where it committed, 500 where
/// it failed.
pub fn status_of(r: &Result<(), IngestError>) -> (s: u16)
    ensures
        r is Ok ==> s == 200,
        r is Err ==> s == 500,
{
    match r {
        Ok(_) => 200,
        Err(_) => 500,
    }
}

pub const SPINS_ENDPOINT: &'static str = "https://spinitron.com/api/spins/?access-token=";

pub const SPINS_COUNT: &'static str = "&count=5";

pub const SHOWS_ENDPOINT: &'static str = "https://spinitron.com/api/shows/?access-token=";

pub const SHOWS_COUNT: &'static str = "&count=2";

/// The address of an upstream listing: the endpoint, the access token, and
/// the parameter that bounds the count.
pub fn upstream_url(endpoint: &str, token: Option<&str>, count: &str) -> (r: Result<
    String,
    IngestError,
>)
    ensures
        token is None ==> r == Err::<String, IngestError>(IngestError::ConfigurationMissing),
        token matches Some(t) ==> (r matches Ok(u) && u@ == endpoint@ + t@ + count@),
{
    match token {
        None => Err(IngestError::ConfigurationMissing),
        Some(t) => {
            let mut u = String::from_str(endpoint);
            u.append(t);
            u.append(count);
            Ok(u)
        },
    }
}

/// `after` holds `items` relabeled by `prefix` as its snapshot, committed
/// once over `before`.
pub open spec fn holds_listing(
    after: StoreView,
    before: StoreView,
    items: Seq<Json>,
    prefix: Seq<char>,
) -> bool {
    &&& after.version == before.version + 1
    &&& after.snapshot matches Some(out) && is_relabeled(out, items, prefix)
}

/// What committing the parsed spins listing `v` does: it succeeds exactly
/// when `v` is a well-formed listing, and otherwise leaves the store as it
/// was.
pub open spec fn spins_committed(
    before: StoreView,
    after: StoreView,
    v: Option<Json>,
    r: Result<(), IngestError>,
) -> bool {
    &&& r is Ok <==> (v matches Some(x) && well_formed_listing(x))
    &&& r is Err ==> r == Err::<(), IngestError>(IngestError::MalformedPayload) && after == before
    &&& r is Ok ==> holds_listing(after, before, listing_items(v->Some_0)->Some_0, spin_prefix())
}

/// The outcome of a fetch, checked before anything is parsed: a failed
/// fetch or an empty body fails the ingestion.
pub open spec fn fetch_error(fetched: Option<Seq<char>>) -> Option<IngestError> {
    match fetched {
        None => Some(IngestError::UpstreamUnavailable),
        Some(b) => if b.len() == 0 {
            Some(IngestError::EmptyResponse)
        } else {
            None
        },
    }
}

/// The text of a fetched body, where there is one.
pub open spec fn body_of(fetched: Option<String>) -> Option<Seq<char>> {
    match fetched {
        Some(b) => Some(b@),
        None => None,
    }
}

fn check_fetch(fetched: &Option<String>) -> (r: Option<IngestError>)
    ensures
        r == fetch_error(body_of(*fetched)),
{
    match fetched {
        None => Some(IngestError::UpstreamUnavailable),
        Some(b) => if b.as_str().is_empty() {
            Some(IngestError::EmptyResponse)
        } else {
            None
        },
    }
}

/// Commits the spins listing `v`, parsed from an upstream body.
pub fn commit_spins(db: &mut Store, v: Option<Json>) -> (r: Result<(), IngestError>)
    requires
        old(db)@.version < u64::MAX,
    ensures
        spins_committed(old(db)@, final(db)@, v, r),
{
    match v {
        None => Err(IngestError::MalformedPayload),
        Some(x) => match remove_links_spins(x) {
            None => Err(IngestError::MalformedPayload),
            Some(out) => {
                db.commit(out);
                Ok(())
            },
        },
    }
}

/// Ingests spins from what the upstream fetch returned: nothing where the
/// fetch failed, else the body.
pub fn update_spins_no_reply(db: &mut Store, fetched: Option<String>) -> (r: Result<
    (),
    IngestError,
>)
    requires
        old(db)@.version < u64::MAX,
    ensures
        fetch_error(body_of(fetched)) matches Some(e) ==> r == Err::<(), IngestError>(e)
            && final(db)@ == old(db)@,
        fetch_error(body_of(fetched)) is None ==> spins_committed(
            old(db)@,
            final(db)@,
            parsed(fetched->Some_0@),
            r,
        ),
{
    match check_fetch(&fetched) {
        Some(e) => Err(e),
        None => {
            let body = fetched.unwrap();
            commit_spins(db, parse_json(body.as_str()))
        },
    }
}

/// A shows listing whose records link to the personas that the snapshot
/// needs, with the two links to fetch.
pub struct ShowsPlan {
    pub listing: Json,
    pub first_persona: String,
    pub second_persona: String,
}

/// What planning from the parsed shows listing `v` gives: a plan exactly
/// where the first two records each link to a persona, holding the listing
/// and those two links.
pub open spec fn planned(v: Option<Json>, r: Result<ShowsPlan, IngestError>) -> bool {
    &&& r is Ok <==> (v matches Some(x) && persona_link(x, 0) is Some && persona_link(x, 1) is Some)
    &&& r matches Err(e) ==> e == IngestError::MalformedPayload
    &&& r matches Ok(p) ==> {
        &&& v == Some(p.listing)
        &&& persona_link(p.listing, 0) == Some(p.first_persona@)
        &&& persona_link(p.listing, 1) == Some(p.second_persona@)
    }
}

/// The plan for the parsed shows listing `v`.
pub fn plan_from(v: Option<Json>) -> (r: Result<ShowsPlan, IngestError>)
    ensures
        planned(v, r),
{
    match v {
        None => Err(IngestError::MalformedPayload),
        Some(x) => {
            let first = persona_href(&x, 0);
            let second = persona_href(&x, 1);
            match (first, second) {
                (Some(a), Some(b)) => Ok(ShowsPlan { listing: x, first_persona: a, second_persona: b }),
                _ => Err(IngestError::MalformedPayload),
            }
        },
    }
}

/// The plan for the shows listing fetched from upstream: nothing where the
/// fetch failed, else the body.
pub fn plan_shows(fetched: Option<String>) -> (r: Result<ShowsPlan, IngestError>)
    ensures
        fetch_error(body_of(fetched)) matches Some(e) ==> r matches Err(x) && x == e,
        fetch_error(body_of(fetched)) is None ==> planned(parsed(fetched->Some_0@), r),
{
    match check_fetch(&fetched) {
        Some(e) => Err(e),
        None => {
            let body = fetched.unwrap();
            plan_from(parse_json(body.as_str()))
        },
    }
}

pub open spec fn first_dj_key() -> Seq<char> {
    seq!['d', 'j', '-', '0']
}

pub open spec fn second_dj_key() -> Seq<char> {
    seq!['d', 'j', '-', '1']
}

/// The parts a shows snapshot is made of are all there: a well-formed
/// listing and two persona records.
pub open spec fn shows_complete(listing: Json, first: Option<Json>, second: Option<Json>) -> bool {
    &&& well_formed_listing(listing)
    &&& first matches Some(a) && is_object(a)
    &&& second matches Some(b) && is_object(b)
}

/// `out` holds the records of `listing` keyed `show-0`, `show-1`, ..., then
/// the two persona records under `dj-0` and `dj-1`, all stripped of their
/// metadata.
pub open spec fn is_shows_snapshot(out: Json, listing: Json, first: Json, second: Json) -> bool {
    let items = crate::normalize::listing_items(listing)->Some_0;
    let n = items.len() as int;
    match out {
        Json::Object(o) => {
            &&& o@.len() == n + 2
            &&& relabeled_members(o@.subrange(0, n), items, show_prefix())
            &&& o@[n].0@ == first_dj_key() && is_stripped(o@[n].1, first)
            &&& o@[n + 1].0@ == second_dj_key() && is_stripped(o@[n + 1].1, second)
        },
        _ => false,
    }
}

/// What committing a shows snapshot from its parts does: it succeeds
/// exactly when all parts are there, and otherwise leaves the store as it
/// was.
pub open spec fn shows_committed(
    before: StoreView,
    after: StoreView,
    listing: Json,
    first: Option<Json>,
    second: Option<Json>,
    r: Result<(), IngestError>,
) -> bool {
    &&& r is Ok <==> shows_complete(listing, first, second)
    &&& r is Err ==> r == Err::<(), IngestError>(IngestError::MalformedPayload) && after == before
    &&& r is Ok ==> {
        &&& after.version == before.version + 1
        &&& after.snapshot matches Some(out) && is_shows_snapshot(
            out,
            listing,
            first->Some_0,
            second->Some_0,
        )
    }
}

/// Commits the shows snapshot made of the parsed listing and the two parsed
/// persona records.
pub fn commit_shows(db: &mut Store, listing: Json, first: Option<Json>, second: Option<Json>) -> (r:
    Result<(), IngestError>)
    requires
        old(db)@.version < u64::MAX,
    ensures
        shows_committed(old(db)@, final(db)@, listing, first, second, r),
{
    let ghost items = listing_items(listing)->Some_0;
    let first_dj = match first {
        Some(a) => match remove_links(a) {
            Some(x) => x,
            None => return Err(IngestError::MalformedPayload),
        },
        None => return Err(IngestError::MalformedPayload),
    };
    let second_dj = match second {
        Some(b) => match remove_links(b) {
            Some(x) => x,
            None => return Err(IngestError::MalformedPayload),
        },
        None => return Err(IngestError::MalformedPayload),
    };
    let mut members = match remove_links_shows(listing) {
        Some(Json::Object(o)) => o,
        _ => return Err(IngestError::MalformedPayload),
    };
    let ghost shows = members@;
    proof {
        reveal_strlit("dj-0");
        reveal_strlit("dj-1");
        assert("dj-0"@ =~= first_dj_key());
        assert("dj-1"@ =~= second_dj_key());
    }
    members.push((String::from_str("dj-0"), first_dj));
    members.push((String::from_str("dj-1"), second_dj));
    proof {
        assert(members@.subrange(0, items.len() as int) =~= shows);
    }
    db.commit(Json::Object(members));
    Ok(())
}

/// Ingests shows from the planning step's outcome and what the two persona
/// fetches returned: nothing where a fetch failed, else the body. Where
/// planning failed, its error is the outcome and the store is left as it
/// was; the persona fetches are then not looked at.
pub fn update_shows(
    db: &mut Store,
    planned: Result<ShowsPlan, IngestError>,
    first: Option<String>,
    second: Option<String>,
) -> (r: Result<(), IngestError>)
    requires
        old(db)@.version < u64::MAX,
    ensures
        planned matches Err(e) ==> r == Err::<(), IngestError>(e) && final(db)@ == old(db)@,
        planned is Ok && (first is None || second is None) ==> r == Err::<(), IngestError>(
            IngestError::DependentFetchFailed,
        ) && final(db)@ == old(db)@,
        (planned is Ok && first is Some && second is Some) ==> shows_committed(
            old(db)@,
            final(db)@,
            planned->Ok_0.listing,
            parsed(first->Some_0@),
            parsed(second->Some_0@),
            r,
        ),
{
    let plan = match planned {
        Ok(p) => p,
        Err(e) => return Err(e),
    };
    match (first, second) {
        (Some(a), Some(b)) => {
            let first_dj = parse_json(a.as_str());
            let second_dj = parse_json(b.as_str());
            commit_shows(db, plan.listing, first_dj, second_dj)
        },
        _ => Err(IngestError::DependentFetchFailed),
    }
}

/// A shows ingestion whose primary body is empty, is not JSON, or lacks a
/// persona link in its first two records fails with the planning error,
/// names no linked resource to fetch, and leaves the store as it was.
pub proof fn lemma_shows_fail_before_links(
    fetched: Option<String>,
    plan: Result<ShowsPlan, IngestError>,
    before: StoreView,
    after: StoreView,
    r: Result<(), IngestError>,
)
    requires
        fetched is Some,
        fetch_error(body_of(fetched)) is None ==> planned(parsed(fetched->Some_0@), plan),
        fetch_error(body_of(fetched)) matches Some(e) ==> plan matches Err(x) && x == e,
        plan matches Err(e) ==> r == Err::<(), IngestError>(e) && after == before,
    ensures
        fetched->Some_0@.len() == 0 ==> r == Err::<(), IngestError>(IngestError::EmptyResponse)
            && after == before && plan is Err,
        (fetched->Some_0@.len() > 0 && (parsed(fetched->Some_0@) matches Some(v) && (persona_link(
            v,
            0,
        ) is None || persona_link(v, 1) is None))) ==> r == Err::<(), IngestError>(
            IngestError::MalformedPayload,
        ) && after == before && plan is Err,
{
}

} // verus!
