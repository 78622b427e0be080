//! The snapshot store: one slot holding the latest committed value, or
//! nothing before the first commit, and a count of commits.

use vstd::prelude::*;
use crate::json::Json;

verus! {

/// What a store holds: the current snapshot and how many commits made it.
pub struct StoreView {
    pub snapshot: Option<Json>,
    pub version: nat,
}

/// The state after committing `value` to a store in state `s`.
pub open spec fn committed(s: StoreView, value: Json) -> StoreView {
    StoreView { snapshot: Some(value), version: s.version + 1 }
}

/// The state after committing each of `values` in turn.
pub open spec fn replay(s: StoreView, values: Seq<Json>) -> StoreView
    decreases values.len(),
{
    if values.len() == 0 {
        s
    } else {
        committed(replay(s, values.drop_last()), values.last())
    }
}

/// Holds the latest snapshot. Writers replace it whole; readers borrow it.
pub struct Store {
    snapshot: Option<Json>,
    version: u64,
}

impl View for Store {
    type V = StoreView;

    closed spec fn view(&self) -> StoreView {
        StoreView { snapshot: self.snapshot, version: self.version as nat }
    }
}

/// A store that holds no snapshot yet.
pub fn blank_db() -> (r: Store)
    ensures
        r@.snapshot is None,
        r@.version == 0,
{
    Store { snapshot: None, version: 0 }
}

impl Store {
    /// Replaces the snapshot by `value`.
    pub fn commit(&mut self, value: Json)
        requires
            old(self)@.version < u64::MAX,
        ensures
            final(self)@ == committed(old(self)@, value),
    {
        self.snapshot = Some(value);
        self.version = self.version + 1;
    }

    /// The current snapshot, or nothing before the first commit.
    pub fn read(&self) -> (r: &Option<Json>)
        ensures
            *r == self@.snapshot,
    {
        &self.snapshot
    }

    /// How many commits this store has taken.
    pub fn version(&self) -> (r: u64)
        ensures
            r == self@.version,
    {
        self.version
    }
}

/// After one or more commits, `read` gives the last value committed, and
/// the version has grown by one for each commit.
pub proof fn lemma_last_commit_wins(s: StoreView, values: Seq<Json>)
    ensures
        replay(s, values).version == s.version + values.len(),
        values.len() > 0 ==> replay(s, values).snapshot == Some(values.last()),
    decreases values.len(),
{
    if values.len() > 0 {
        lemma_last_commit_wins(s, values.drop_last());
    }
}

pub open spec fn error_key() -> Seq<char> {
    seq!['e', 'r', 'r', 'o', 'r']
}

pub open spec fn no_data_code() -> Seq<char> {
    seq!['5', '0', '0']
}

/// The body that says there is no data: `{"error": "500"}`.
pub fn no_data_body() -> (r: Json)
    ensures
        r matches Json::Object(m) && m@.len() == 1 && m@[0].0@ == error_key() && (
        m@[0].1 matches Json::Str(c) && c@ == no_data_code()),
{
    proof {
        reveal_strlit("error");
        reveal_strlit("500");
        assert("error"@ =~= error_key());
        assert("500"@ =~= no_data_code());
    }
    let mut m: Vec<(String, Json)> = Vec::new();
    m.push((String::from_str("error"), Json::Str(String::from_str("500"))));
    Json::Object(m)
}

/// The answer to a read: status 200 with the snapshot, or status 500 and no
/// snapshot before the first commit.
pub fn get(db: &Store) -> (r: (u16, Option<&Json>))
    ensures
        db@.snapshot is None ==> r.0 == 500 && r.1 is None,
        db@.snapshot matches Some(v) ==> r.0 == 200 && (r.1 matches Some(x) && *x == v),
{
    match db.read() {
        Some(v) => (200, Some(v)),
        None => (500, None),
    }
}

} // verus!
