//! The subscriber registry: live notification channels keyed by an
//! identifier that is never reused, with a record of what each was sent.

use vstd::prelude::*;
use tokio::sync::mpsc::{UnboundedReceiver, UnboundedSender};
use crate::ingest::IngestError;

verus! {

#[verifier::external_type_specification]
#[verifier::external_body]
#[verifier::reject_recursive_types(T)]
pub struct ExUnboundedSender<T>(UnboundedSender<T>);

#[verifier::external_type_specification]
#[verifier::external_body]
#[verifier::reject_recursive_types(T)]
pub struct ExUnboundedReceiver<T>(UnboundedReceiver<T>);

/// A notification on a subscriber's channel.
#[derive(Debug)]
pub enum Message {
    /// The channel is ready; sent once, before anything else.
    UserId(usize),
    /// The snapshot changed.
    Reply(String),
}

/// A notification as the contracts speak of it.
pub enum MessageView {
    UserId(nat),
    Reply(Seq<char>),
}

impl View for Message {
    type V = MessageView;

    open spec fn view(&self) -> MessageView {
        match self {
            Message::UserId(id) => MessageView::UserId(*id as nat),
            Message::Reply(s) => MessageView::Reply(s@),
        }
    }
}

/// Relies on tokio's mpsc::unbounded_channel: a new channel, both ends open.
#[verifier::external_body]
fn open_channel() -> (UnboundedSender<Message>, UnboundedReceiver<Message>) {
    tokio::sync::mpsc::unbounded_channel()
}

/// Relies on tokio's UnboundedSender::send: queues the message and reports
/// whether the receiving end was still open.
#[verifier::external_body]
fn deliver(tx: &UnboundedSender<Message>, m: Message) -> bool {
    tx.send(m).is_ok()
}

struct Subscriber {
    id: usize,
    tx: UnboundedSender<Message>,
    sent: Ghost<Seq<MessageView>>,
}

/// One subscriber as the contracts see it: its identifier and the
/// notifications delivered to it, oldest first.
pub type Entry = (usize, Seq<MessageView>);

/// What a registry holds: the next identifier to assign and its
/// subscribers in order of registration.
pub struct RegistryView {
    pub next_id: nat,
    pub entries: Seq<Entry>,
}

/// The registry's invariant: identifiers are unique and below the next one,
/// and each subscriber's first notification is the ready event that bears
/// its identifier.
pub open spec fn wf(v: RegistryView) -> bool {
    &&& v.next_id >= 1
    &&& forall|i: int| 0 <= i < v.entries.len() ==> (#[trigger] v.entries[i]).0 < v.next_id
    &&& unique_ids(v.entries)
    &&& forall|i: int| 0 <= i < v.entries.len() ==> connected_first(#[trigger] v.entries[i])
}

/// No two subscribers share an identifier.
pub open spec fn unique_ids(s: Seq<Entry>) -> bool {
    forall|i: int, j: int| 0 <= i < j < s.len() ==> (#[trigger] s[i]).0 != (#[trigger] s[j]).0
}

/// The first notification of `e` is the ready event with its identifier.
pub open spec fn connected_first(e: Entry) -> bool {
    e.1.len() >= 1 && e.1[0] == MessageView::UserId(e.0 as nat)
}

/// The subscribers of `entries` whose delivery succeeded by `ok`, each with
/// `m` added to what it was sent.
pub open spec fn delivered(entries: Seq<Entry>, ok: Seq<bool>, m: MessageView) -> Seq<Entry>
    decreases entries.len(),
{
    if entries.len() == 0 || ok.len() == 0 {
        Seq::empty()
    } else {
        let rest = delivered(entries.drop_last(), ok.drop_last(), m);
        if ok.last() {
            rest.push((entries.last().0, entries.last().1.push(m)))
        } else {
            rest
        }
    }
}

/// `entries` without the subscriber `id`.
pub open spec fn without(entries: Seq<Entry>, id: usize) -> Seq<Entry>
    decreases entries.len(),
{
    if entries.len() == 0 {
        Seq::empty()
    } else if entries.last().0 == id {
        without(entries.drop_last(), id)
    } else {
        without(entries.drop_last(), id).push(entries.last())
    }
}

/// How many of `ok` are true.
pub open spec fn count_true(ok: Seq<bool>) -> nat
    decreases ok.len(),
{
    if ok.len() == 0 {
        0
    } else {
        count_true(ok.drop_last()) + if ok.last() { 1nat } else { 0nat }
    }
}

spec fn entries_of(s: Seq<Subscriber>) -> Seq<Entry> {
    s.map_values(|x: Subscriber| (x.id, x.sent@))
}

/// The live subscribers, each with the channel that notifies it.
pub struct Registry {
    next_id: usize,
    subscribers: Vec<Subscriber>,
}

impl View for Registry {
    type V = RegistryView;

    closed spec fn view(&self) -> RegistryView {
        RegistryView { next_id: self.next_id as nat, entries: entries_of(self.subscribers@) }
    }
}

impl Registry {
    /// A registry with no subscribers.
    pub fn new() -> (r: Registry)
        ensures
            r@.next_id == 1,
            r@.entries.len() == 0,
            wf(r@),
    {
        let r = Registry { next_id: 1, subscribers: Vec::new() };
        assert(r@.entries =~= Seq::<Entry>::empty());
        r
    }

    /// The identifiers of the subscribers, in order of registration.
    pub fn ids(&self) -> (r: Vec<usize>)
        ensures
            r@.len() == self@.entries.len(),
            forall|i: int| 0 <= i < r@.len() ==> r@[i] == (#[trigger] self@.entries[i]).0,
    {
        let mut r: Vec<usize> = Vec::new();
        let mut i: usize = 0;
        while i < self.subscribers.len()
            invariant
                i <= self.subscribers.len(),
                r@.len() == i,
                forall|j: int| 0 <= j < i ==> r@[j] == self.subscribers@[j].id,
            decreases self.subscribers.len() - i,
        {
            r.push(self.subscribers[i].id);
            i = i + 1;
        }
        r
    }

    /// The identifier that the next subscriber will get.
    pub fn next_id(&self) -> (r: usize)
        ensures
            r == self@.next_id,
    {
        self.next_id
    }

    /// The number of subscribers.
    pub fn len(&self) -> (r: usize)
        ensures
            r == self@.entries.len(),
    {
        self.subscribers.len()
    }

    /// Opens a channel for a new subscriber under a fresh identifier,
    /// queues the ready event on it, and keeps the subscriber. Returns the
    /// identifier and the receiving end. The ready event goes in before the
    /// subscriber can be reached by any broadcast. Its send cannot fail:
    /// tokio refuses a send only once the receiving end is closed, and that
    /// end is still held here.
    pub fn register(&mut self) -> (r: (usize, UnboundedReceiver<Message>))
        requires
            wf(old(self)@),
            old(self)@.next_id < usize::MAX,
        ensures
            wf(final(self)@),
            r.0 == old(self)@.next_id,
            final(self)@.next_id == old(self)@.next_id + 1,
            final(self)@.entries == old(self)@.entries.push(
                (r.0, seq![MessageView::UserId(r.0 as nat)]),
            ),
    {
        let (tx, rx) = open_channel();
        let id = self.next_id;
        self.next_id = id + 1;
        let ready = Message::UserId(id);
        let ghost first = seq![ready@];
        let _ = deliver(&tx, ready);
        let sub = Subscriber { id, tx, sent: Ghost(first) };
        self.subscribers.push(sub);
        assert(self@.entries =~= old(self)@.entries.push(
            (id, seq![MessageView::UserId(id as nat)]),
        ));
        (id, rx)
    }
}

/// Each subscriber left after removing `id` was there before and is not
/// `id`; none but `id` is lost.
proof fn lemma_without_members(s: Seq<Entry>, id: usize)
    ensures
        forall|k: int|
            0 <= k < without(s, id).len() ==> (#[trigger] without(s, id)[k]).0 != id && s.contains(
                without(s, id)[k],
            ),
        forall|j: int|
            0 <= j < s.len() && (#[trigger] s[j]).0 != id ==> without(s, id).contains(s[j]),
    decreases s.len(),
{
    if s.len() > 0 {
        let p = s.drop_last();
        lemma_without_members(p, id);
        let w0 = without(p, id);
        let w = without(s, id);
        assert forall|k: int| 0 <= k < w.len() implies (#[trigger] w[k]).0 != id && s.contains(
            w[k],
        ) by {
            if k < w0.len() {
                assert(w[k] == w0[k]);
                assert(p.contains(w0[k]));
                let j = choose|j: int| 0 <= j < p.len() && p[j] == w0[k];
                assert(s[j] == w[k]);
            } else {
                assert(s[s.len() - 1] == w[k]);
            }
        }
        assert forall|j: int| 0 <= j < s.len() && (#[trigger] s[j]).0 != id implies w.contains(
            s[j],
        ) by {
            if j < p.len() {
                assert(p[j] == s[j]);
                assert(w0.contains(p[j]));
                let k = choose|k: int| 0 <= k < w0.len() && w0[k] == p[j];
                assert(w[k] == s[j]);
            } else {
                assert(w[w0.len() as int] == s[j]);
            }
        }
    }
}

/// Removing a subscriber keeps identifiers unique.
proof fn lemma_without_unique(s: Seq<Entry>, id: usize)
    requires
        unique_ids(s),
    ensures
        unique_ids(without(s, id)),
    decreases s.len(),
{
    if s.len() > 0 {
        let p = s.drop_last();
        assert(unique_ids(p)) by {
            assert forall|a: int, b: int| 0 <= a < b < p.len() implies (#[trigger] p[a]).0 != (
            #[trigger] p[b]).0 by {
                assert(p[a] == s[a] && p[b] == s[b]);
            }
        }
        lemma_without_unique(p, id);
        lemma_without_members(p, id);
        let w0 = without(p, id);
        let w = without(s, id);
        if s.last().0 != id {
            assert forall|a: int, b: int| 0 <= a < b < w.len() implies (#[trigger] w[a]).0 != (
            #[trigger] w[b]).0 by {
                if b < w0.len() {
                    assert(w[a] == w0[a] && w[b] == w0[b]);
                } else {
                    assert(w[a] == w0[a]);
                    assert(p.contains(w0[a]));
                    let j = choose|j: int| 0 <= j < p.len() && p[j] == w0[a];
                    assert(s[j] == w[a]);
                    assert(w[b] == s[s.len() - 1]);
                }
            }
        }
    }
}

/// The entry a subscriber becomes when `m` is delivered to it.
pub open spec fn after_delivery(e: Entry, m: MessageView) -> Entry {
    (e.0, e.1.push(m))
}

/// `e` is a subscriber of `s` whose delivery succeeded by `ok`, with `m`
/// added to what it was sent.
pub open spec fn comes_from(s: Seq<Entry>, ok: Seq<bool>, m: MessageView, e: Entry) -> bool {
    exists|j: int| 0 <= j < s.len() && ok[j] && e == after_delivery(s[j], m)
}

/// Each subscriber left after a broadcast is one whose delivery succeeded,
/// with the message added to what it was sent, and each such subscriber is
/// left.
proof fn lemma_delivered_members(s: Seq<Entry>, ok: Seq<bool>, m: MessageView)
    requires
        ok.len() == s.len(),
    ensures
        delivered(s, ok, m).len() == count_true(ok),
        count_true(ok) <= s.len(),
        forall|k: int|
            0 <= k < delivered(s, ok, m).len() ==> comes_from(
                s,
                ok,
                m,
                #[trigger] delivered(s, ok, m)[k],
            ),
        forall|j: int|
            0 <= j < s.len() && #[trigger] ok[j] ==> delivered(s, ok, m).contains(
                after_delivery(s[j], m),
            ),
    decreases s.len(),
{
    if s.len() > 0 {
        let p = s.drop_last();
        let q = ok.drop_last();
        lemma_delivered_members(p, q, m);
        let d0 = delivered(p, q, m);
        let d = delivered(s, ok, m);
        let last = s.len() - 1;
        assert forall|k: int| 0 <= k < d.len() implies comes_from(s, ok, m, #[trigger] d[k]) by {
            if k < d0.len() {
                assert(comes_from(p, q, m, d0[k]));
                let j = choose|j: int|
                    0 <= j < p.len() && q[j] && d0[k] == after_delivery(p[j], m);
                assert(s[j] == p[j] && ok[j] == q[j] && d[k] == d0[k]);
            } else {
                assert(ok[last] && d[k] == after_delivery(s[last], m));
            }
        }
        assert forall|j: int| 0 <= j < s.len() && #[trigger] ok[j] implies d.contains(
            after_delivery(s[j], m),
        ) by {
            if j < p.len() {
                assert(s[j] == p[j] && ok[j] == q[j]);
                assert(d0.contains(after_delivery(p[j], m)));
                let k = choose|k: int| 0 <= k < d0.len() && d0[k] == after_delivery(p[j], m);
                assert(d[k] == d0[k]);
            } else {
                assert(d[d0.len() as int] == after_delivery(s[j], m));
            }
        }
    }
}

/// A broadcast keeps identifiers unique.
proof fn lemma_delivered_unique(s: Seq<Entry>, ok: Seq<bool>, m: MessageView)
    requires
        ok.len() == s.len(),
        unique_ids(s),
    ensures
        unique_ids(delivered(s, ok, m)),
    decreases s.len(),
{
    if s.len() > 0 {
        let p = s.drop_last();
        let q = ok.drop_last();
        assert(unique_ids(p)) by {
            assert forall|a: int, b: int| 0 <= a < b < p.len() implies (#[trigger] p[a]).0 != (
            #[trigger] p[b]).0 by {
                assert(p[a] == s[a] && p[b] == s[b]);
            }
        }
        lemma_delivered_unique(p, q, m);
        lemma_delivered_members(p, q, m);
        let d0 = delivered(p, q, m);
        let d = delivered(s, ok, m);
        let last = s.len() - 1;
        if ok.last() {
            assert forall|a: int, b: int| 0 <= a < b < d.len() implies (#[trigger] d[a]).0 != (
            #[trigger] d[b]).0 by {
                if b < d0.len() {
                    assert(d[a] == d0[a] && d[b] == d0[b]);
                } else {
                    assert(d[a] == d0[a]);
                    assert(comes_from(p, q, m, d0[a]));
                    let j = choose|j: int|
                        0 <= j < p.len() && q[j] && d0[a] == after_delivery(p[j], m);
                    assert(s[j] == p[j]);
                    assert(d[b].0 == s[last].0);
                }
            }
        }
    }
}

/// Removing a subscriber that is not there changes nothing.
proof fn lemma_without_absent(s: Seq<Entry>, id: usize)
    requires
        forall|k: int| 0 <= k < s.len() ==> (#[trigger] s[k]).0 != id,
    ensures
        without(s, id) == s,
    decreases s.len(),
{
    if s.len() > 0 {
        lemma_without_absent(s.drop_last(), id);
        assert(s.drop_last().push(s.last()) =~= s);
    }
}

/// Unregistering twice is unregistering once, and it keeps every other
/// subscriber, with what it was sent, and adds none.
pub proof fn lemma_unregister_idempotent(s: Seq<Entry>, id: usize)
    ensures
        without(without(s, id), id) == without(s, id),
        forall|j: int|
            0 <= j < s.len() && (#[trigger] s[j]).0 != id ==> without(s, id).contains(s[j]),
        forall|k: int|
            0 <= k < without(s, id).len() ==> s.contains(#[trigger] without(s, id)[k]),
{
    lemma_without_members(s, id);
    lemma_without_absent(without(s, id), id);
}

/// Whatever the deliveries' outcomes, every subscriber left after a
/// broadcast still has its ready event first.
pub proof fn lemma_connected_before_changes(s: Seq<Entry>, ok: Seq<bool>, m: MessageView)
    requires
        ok.len() == s.len(),
        forall|j: int| 0 <= j < s.len() ==> connected_first(#[trigger] s[j]),
    ensures
        forall|k: int|
            0 <= k < delivered(s, ok, m).len() ==> connected_first(
                #[trigger] delivered(s, ok, m)[k],
            ),
{
    lemma_delivered_members(s, ok, m);
    let d = delivered(s, ok, m);
    assert forall|k: int| 0 <= k < d.len() implies connected_first(#[trigger] d[k]) by {
        assert(comes_from(s, ok, m, d[k]));
        let j = choose|j: int| 0 <= j < s.len() && ok[j] && d[k] == after_delivery(s[j], m);
        assert(connected_first(s[j]));
    }
}

/// A broadcast to `s` whose deliveries went as `ok` leaves exactly the
/// subscribers that took the message, each having been sent it once; every
/// subscriber whose delivery failed is gone.
pub proof fn lemma_broadcast_prunes(s: Seq<Entry>, ok: Seq<bool>, m: MessageView)
    requires
        ok.len() == s.len(),
        unique_ids(s),
    ensures
        delivered(s, ok, m).len() == count_true(ok),
        unique_ids(delivered(s, ok, m)),
        forall|j: int|
            0 <= j < s.len() && #[trigger] ok[j] ==> delivered(s, ok, m).contains(
                after_delivery(s[j], m),
            ),
        forall|j: int, k: int|
            0 <= j < s.len() && !ok[j] && 0 <= k < delivered(s, ok, m).len() ==> (#[trigger] delivered(
                s,
                ok,
                m,
            )[k]).0 != (#[trigger] s[j]).0,
{
    lemma_delivered_members(s, ok, m);
    lemma_delivered_unique(s, ok, m);
    let d = delivered(s, ok, m);
    assert forall|j: int, k: int| 0 <= j < s.len() && !ok[j] && 0 <= k < d.len() implies (
    #[trigger] d[k]).0 != (#[trigger] s[j]).0 by {
        assert(comes_from(s, ok, m, d[k]));
        let i = choose|i: int| 0 <= i < s.len() && ok[i] && d[k] == after_delivery(s[i], m);
        assert(i != j);
    }
}

impl Registry {
    /// Removes the subscriber `id`, where there is one; the others stay as
    /// they were.
    pub fn unregister(&mut self, id: usize)
        requires
            wf(old(self)@),
        ensures
            wf(final(self)@),
            final(self)@.next_id == old(self)@.next_id,
            final(self)@.entries == without(old(self)@.entries, id),
    {
        let mut subs: Vec<Subscriber> = Vec::new();
        std::mem::swap(&mut subs, &mut self.subscribers);
        let ghost all = subs@;
        let mut kept: Vec<Subscriber> = Vec::new();
        for sub in it: subs
            invariant
                it.seq() == all,
                it.index() <= all.len(),
                entries_of(kept@) == without(entries_of(all.subrange(0, it.index() as int)), id),
        {
            let ghost k = it.index() as int;
            assert(entries_of(all.subrange(0, k + 1)).drop_last() =~= entries_of(
                all.subrange(0, k),
            ));
            if sub.id != id {
                kept.push(sub);
                assert(entries_of(kept@) =~= without(entries_of(all.subrange(0, k)), id).push(
                    (all[k].id, all[k].sent@),
                ));
            }
        }
        assert(all.subrange(0, all.len() as int) =~= all);
        self.subscribers = kept;
        proof {
            let before = old(self)@.entries;
            let after = self@.entries;
            lemma_without_members(before, id);
            lemma_without_unique(before, id);
            assert forall|k: int| 0 <= k < after.len() implies (#[trigger] after[k]).0
                < self@.next_id && connected_first(after[k]) by {
                assert(before.contains(after[k]));
                let j = choose|j: int| 0 <= j < before.len() && before[j] == after[k];
                assert(connected_first(before[j]));
            }
        }
    }

    /// Sends `text` to every subscriber, and drops each whose channel has
    /// closed, in the same pass. Returns, in order of registration, whether
    /// each subscriber that was there took the message.
    pub fn broadcast(&mut self, text: &String) -> (ok: Vec<bool>)
        requires
            wf(old(self)@),
        ensures
            wf(final(self)@),
            ok@.len() == old(self)@.entries.len(),
            final(self)@.next_id == old(self)@.next_id,
            final(self)@.entries == delivered(
                old(self)@.entries,
                ok@,
                MessageView::Reply(text@),
            ),
    {
        let ghost m = MessageView::Reply(text@);
        let mut subs: Vec<Subscriber> = Vec::new();
        std::mem::swap(&mut subs, &mut self.subscribers);
        let ghost all = subs@;
        let mut kept: Vec<Subscriber> = Vec::new();
        let mut ok: Vec<bool> = Vec::new();
        for sub in it: subs
            invariant
                it.seq() == all,
                it.index() <= all.len(),
                ok@.len() == it.index(),
                m == MessageView::Reply(text@),
                entries_of(kept@) == delivered(
                    entries_of(all.subrange(0, it.index() as int)),
                    ok@,
                    m,
                ),
        {
            let ghost k = it.index() as int;
            let ghost prefix = entries_of(all.subrange(0, k + 1));
            assert(prefix.drop_last() =~= entries_of(all.subrange(0, k)));
            let copy = text.clone();
            assert(copy@ == text@);
            let msg = Message::Reply(copy);
            let ghost mv = msg@;
            assert(mv == m);
            let sent = deliver(&sub.tx, msg);
            let ghost before = ok@;
            ok.push(sent);
            assert(ok@.drop_last() =~= before);
            if sent {
                let ghost log = sub.sent@.push(mv);
                kept.push(Subscriber { id: sub.id, tx: sub.tx, sent: Ghost(log) });
                assert(entries_of(kept@) =~= delivered(entries_of(all.subrange(0, k)), before, m).push(
                    (all[k].id, all[k].sent@.push(m)),
                ));
            }
        }
        assert(all.subrange(0, all.len() as int) =~= all);
        self.subscribers = kept;
        proof {
            let before = old(self)@.entries;
            let after = self@.entries;
            lemma_delivered_members(before, ok@, m);
            lemma_delivered_unique(before, ok@, m);
            assert forall|k: int| 0 <= k < after.len() implies (#[trigger] after[k]).0
                < self@.next_id && connected_first(after[k]) by {
                assert(comes_from(before, ok@, m, after[k]));
                let j = choose|j: int|
                    0 <= j < before.len() && ok@[j] && after[k] == after_delivery(before[j], m);
                assert(connected_first(before[j]));
            }
        }
        ok
    }
}

pub const UPDATE_NOTICE: &'static str = "Spin outdated - Update needed.";

/// Tells every subscriber that the spins changed.
pub fn send_update(users: &mut Registry) -> (ok: Vec<bool>)
    requires
        wf(old(users)@),
    ensures
        wf(final(users)@),
        ok@.len() == old(users)@.entries.len(),
        final(users)@.next_id == old(users)@.next_id,
        final(users)@.entries == delivered(
            old(users)@.entries,
            ok@,
            MessageView::Reply(UPDATE_NOTICE@),
        ),
{
    let text = String::from_str(UPDATE_NOTICE);
    users.broadcast(&text)
}

/// Tells the subscribers about an ingestion that committed; after one that
/// failed, sends nothing and leaves them as they are.
pub fn notify_on_success(users: &mut Registry, r: &Result<(), IngestError>) -> (sent: Option<
    Vec<bool>,
>)
    requires
        wf(old(users)@),
    ensures
        wf(final(users)@),
        r is Err ==> sent is None && final(users)@ == old(users)@,
        r is Ok ==> (sent matches Some(ok) && ok@.len() == old(users)@.entries.len()
            && final(users)@.next_id == old(users)@.next_id && final(users)@.entries == delivered(
            old(users)@.entries,
            ok@,
            MessageView::Reply(UPDATE_NOTICE@),
        )),
{
    match r {
        Ok(()) => Some(send_update(users)),
        Err(_) => None,
    }
}

} // verus!
