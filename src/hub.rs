//! The broadcast hub: three registries of subscribers and the decisions that
//! fan a message out to them.
//!
//! The hub owns no transport. Each subscriber is known by its identity and by
//! a key that the hub hands out at registration; the caller keeps the delivery
//! handle under that key, performs the deliveries that `publish` and
//! `probe_targets` name, and reports the failed ones back through `prune` (or
//! `remove`, one key at a time).

use vstd::prelude::*;
use crate::text::lemma_filter_take_step;
use crate::message::heartbeat_sender_id;

verus! {

/// The three delivery transports.
#[derive(Clone, Copy, Debug, PartialEq, Eq, Structural)]
pub enum Transport {
    /// A persistent, bidirectional connection.
    Push,
    /// A one-way event stream.
    Stream,
    /// A request held open until a message arrives or it times out.
    Poll,
}

/// One registered subscriber: who it is, and the key of its delivery handle.
#[derive(Debug)]
pub struct Subscriber {
    pub identity: String,
    pub key: u64,
}

/// What a subscriber is, for the contracts.
pub struct Entry {
    pub identity: Seq<char>,
    pub key: u64,
}

impl View for Subscriber {
    type V = Entry;

    open spec fn view(&self) -> Entry {
        Entry { identity: self.identity@, key: self.key }
    }
}

/// The entries of a registry held as a vector.
pub open spec fn entries(v: Seq<Subscriber>) -> Seq<Entry> {
    v.map_values(|s: Subscriber| s@)
}

/// The entries whose identity differs from `id`, in order.
pub open spec fn others(reg: Seq<Entry>, id: Seq<char>) -> Seq<Entry> {
    reg.filter(|e: Entry| e.identity != id)
}

/// The entries whose identity is `id`, in order.
pub open spec fn own(reg: Seq<Entry>, id: Seq<char>) -> Seq<Entry> {
    reg.filter(|e: Entry| e.identity == id)
}

/// The entries whose key differs from `key`, in order.
pub open spec fn without_key(reg: Seq<Entry>, key: u64) -> Seq<Entry> {
    reg.filter(|e: Entry| e.key != key)
}

/// The entries whose key is not among `keys`, in order.
pub open spec fn without_keys(reg: Seq<Entry>, keys: Seq<u64>) -> Seq<Entry> {
    reg.filter(|e: Entry| !keys.contains(e.key))
}

/// Some entry of the registry carries `id`.
pub open spec fn has_identity(reg: Seq<Entry>, id: Seq<char>) -> bool {
    exists|i: int| 0 <= i < reg.len() && reg[i].identity == id
}

/// Some entry of the registry carries `key`.
pub open spec fn has_key(reg: Seq<Entry>, key: u64) -> bool {
    exists|i: int| 0 <= i < reg.len() && reg[i].key == key
}

/// A registry holds each key at most once, only keys below `next_key`, and
/// no entry under the heartbeat's reserved identity.
pub open spec fn keys_wf(reg: Seq<Entry>, next_key: u64) -> bool {
    &&& forall|i: int, j: int| 0 <= i < j < reg.len() ==> #[trigger] reg[i].key != #[trigger] reg[j].key
    &&& forall|i: int| 0 <= i < reg.len() ==> #[trigger] reg[i].key < next_key
    &&& forall|i: int| 0 <= i < reg.len() ==> #[trigger] reg[i].identity != heartbeat_sender_id()
}

/// A registry holds each identity at most once.
pub open spec fn ids_distinct(reg: Seq<Entry>) -> bool {
    forall|i: int, j: int|
        0 <= i < j < reg.len() ==> #[trigger] reg[i].identity != #[trigger] reg[j].identity
}

/// A registry whose keys are well formed and which holds each identity at
/// most once: the shape of the push and stream registries.
pub open spec fn registry_wf(reg: Seq<Entry>, next_key: u64) -> bool {
    keys_wf(reg, next_key) && ids_distinct(reg)
}

/// The abstract state of a hub.
pub struct HubView {
    pub push: Seq<Entry>,
    pub stream: Seq<Entry>,
    pub poll: Seq<Entry>,
    pub next_key: u64,
}

impl HubView {
    /// The registry of one transport.
    pub open spec fn registry(self, t: Transport) -> Seq<Entry> {
        match t {
            Transport::Push => self.push,
            Transport::Stream => self.stream,
            Transport::Poll => self.poll,
        }
    }

    /// The state after a registration of `id` on `t`: the new entry comes
    /// last and holds the next key. On push and stream it takes the place of
    /// the entry that had `id`; poll waiters of `id` stay beside it.
    pub open spec fn after_register(self, t: Transport, id: Seq<char>) -> HubView {
        let kept = if t == Transport::Poll {
            self.registry(t)
        } else {
            others(self.registry(t), id)
        };
        let reg = kept.push(Entry { identity: id, key: self.next_key });
        HubView { next_key: (self.next_key + 1) as u64, ..self.with_registry(t, reg) }
    }

    /// The same state with the registry of `t` replaced.
    pub open spec fn with_registry(self, t: Transport, reg: Seq<Entry>) -> HubView {
        match t {
            Transport::Push => HubView { push: reg, ..self },
            Transport::Stream => HubView { stream: reg, ..self },
            Transport::Poll => HubView { poll: reg, ..self },
        }
    }
}

/// The hub: one registry per transport, owned by a single actor.
pub struct Hub {
    push: Vec<Subscriber>,
    stream: Vec<Subscriber>,
    poll: Vec<Subscriber>,
    next_key: u64,
}

impl View for Hub {
    type V = HubView;

    closed spec fn view(&self) -> HubView {
        HubView {
            push: entries(self.push@),
            stream: entries(self.stream@),
            poll: entries(self.poll@),
            next_key: self.next_key,
        }
    }
}

/// Registry sizes, for diagnostics.
#[derive(Clone, Copy, Debug, PartialEq, Eq, Structural)]
pub struct Counts {
    pub push: usize,
    pub stream: usize,
    pub poll: usize,
}

/// The subscribers that one pass of the hub asks the caller to deliver to,
/// per transport, in registry order.
#[derive(Debug)]
pub struct Dispatch {
    pub push: Vec<Subscriber>,
    pub stream: Vec<Subscriber>,
    pub poll: Vec<Subscriber>,
}

/// What a registration did: the key of the new entry, and the key of the
/// push or stream entry with the same identity that it replaced, if there
/// was one (a poll registration replaces nothing).
#[derive(Clone, Copy, Debug, PartialEq, Eq, Structural)]
pub struct Registration {
    pub key: u64,
    pub replaced: Option<u64>,
}

/// The key that a push or stream registration under `id` replaces in `reg`,
/// if any.
pub open spec fn replaced_key(reg: Seq<Entry>, id: Seq<char>) -> Option<u64> {
    let o = own(reg, id);
    if o.len() == 0 {
        None
    } else {
        Some(o[0].key)
    }
}

/// Filtering keeps the keys of a registry well formed, and its identities
/// distinct when they were.
pub(crate) proof fn lemma_filter_wf(reg: Seq<Entry>, p: spec_fn(Entry) -> bool, next_key: u64)
    requires
        keys_wf(reg, next_key),
    ensures
        keys_wf(reg.filter(p), next_key),
        ids_distinct(reg) ==> ids_distinct(reg.filter(p)),
    decreases reg.len(),
{
    reveal(Seq::filter);
    if reg.len() > 0 {
        let rest = reg.drop_last();
        let last = reg.last();
        lemma_filter_wf(rest, p, next_key);
        let f = rest.filter(p);
        if p(last) {
            assert forall|k: int| 0 <= k < f.len() implies f[k].key != last.key && (ids_distinct(
                reg,
            ) ==> f[k].identity != last.identity) by {
                assert(f.contains(f[k]));
                rest.lemma_filter_contains_rev(p, f[k]);
                let j = choose|j: int| 0 <= j < rest.len() && rest[j] == f[k];
                assert(reg[j] == f[k]);
            }
            assert(reg.filter(p) == f.push(last));
        }
    }
}

/// Adding an entry under the next key, with an identity other than the
/// heartbeat's, keeps the keys of a registry well formed under the key
/// after it.
proof fn lemma_push_wf(reg: Seq<Entry>, e: Entry, next_key: u64)
    requires
        keys_wf(reg, next_key),
        e.key == next_key,
        e.identity != heartbeat_sender_id(),
        next_key < u64::MAX,
    ensures
        keys_wf(reg.push(e), (next_key + 1) as u64),
        ids_distinct(reg) && !has_identity(reg, e.identity) ==> ids_distinct(reg.push(e)),
{
    assert forall|i: int| 0 <= i < reg.len() && !has_identity(reg, e.identity) implies reg[i].identity
        != e.identity by {}
}

/// Filtering by a predicate that every entry meets changes nothing.
pub(crate) proof fn lemma_filter_all(reg: Seq<Entry>, p: spec_fn(Entry) -> bool)
    requires
        forall|i: int| 0 <= i < reg.len() ==> #[trigger] p(reg[i]),
    ensures
        reg.filter(p) == reg,
    decreases reg.len(),
{
    reveal(Seq::filter);
    if reg.len() > 0 {
        lemma_filter_all(reg.drop_last(), p);
        assert(reg.drop_last().push(reg.last()) =~= reg);
    }
}

/// Dropping the one entry that holds `key` shortens a registry by one.
pub(crate) proof fn lemma_without_key_len(reg: Seq<Entry>, next_key: u64, key: u64)
    requires
        keys_wf(reg, next_key),
        has_key(reg, key),
    ensures
        without_key(reg, key).len() == reg.len() - 1,
    decreases reg.len(),
{
    reveal(Seq::filter);
    let rest = reg.drop_last();
    let last = reg.last();
    if last.key == key {
        let p = |e: Entry| e.key != key;
        assert forall|i: int| 0 <= i < rest.len() implies #[trigger] p(rest[i]) by {
            assert(reg[i].key != reg[reg.len() - 1].key);
        }
        lemma_filter_all(rest, p);
    } else {
        let j = choose|j: int| 0 <= j < reg.len() && reg[j].key == key;
        assert(rest[j].key == key);
        lemma_without_key_len(rest, next_key, key);
    }
}

/// Filtering twice is filtering once by both predicates.
proof fn lemma_filter_filter(reg: Seq<Entry>, p: spec_fn(Entry) -> bool, q: spec_fn(Entry) -> bool)
    ensures
        reg.filter(p).filter(q) == reg.filter(|e: Entry| p(e) && q(e)),
    decreases reg.len(),
{
    reveal(Seq::filter);
    if reg.len() > 0 {
        lemma_filter_filter(reg.drop_last(), p, q);
        if p(reg.last()) {
            assert(reg.filter(p).drop_last() =~= reg.drop_last().filter(p));
        }
    }
}

/// Dropping one more key.
pub(crate) proof fn lemma_without_keys_push(reg: Seq<Entry>, keys: Seq<u64>, key: u64)
    ensures
        without_key(without_keys(reg, keys), key) == without_keys(reg, keys.push(key)),
{
    let p = |e: Entry| !keys.contains(e.key);
    let q = |e: Entry| e.key != key;
    lemma_filter_filter(reg, p, q);
    let both = |e: Entry| p(e) && q(e);
    let all = |e: Entry| !keys.push(key).contains(e.key);
    assert forall|e: Entry| #[trigger] both(e) == all(e) by {
        if keys.push(key).contains(e.key) {
            let j = choose|j: int| 0 <= j < keys.push(key).len() && keys.push(key)[j] == e.key;
            if j < keys.len() {
                assert(keys[j] == e.key);
            }
        }
        if keys.contains(e.key) {
            let j = choose|j: int| 0 <= j < keys.len() && keys[j] == e.key;
            assert(keys.push(key)[j] == e.key);
        }
        if e.key == key {
            assert(keys.push(key)[keys.len() as int] == key);
        }
    }
    assert(both =~= all);
}

/// A copy of a subscriber.
fn copy_of(s: &Subscriber) -> (r: Subscriber)
    ensures
        r@ == s@,
{
    Subscriber { identity: s.identity.clone(), key: s.key }
}

/// A copy of a whole registry.
fn copy_all(reg: &Vec<Subscriber>) -> (r: Vec<Subscriber>)
    ensures
        entries(r@) == entries(reg@),
{
    let ghost model = entries(reg@);
    let mut out: Vec<Subscriber> = Vec::new();
    let mut i: usize = 0;
    while i < reg.len()
        invariant
            i <= reg.len(),
            model == entries(reg@),
            entries(out@) == model.take(i as int),
        decreases reg.len() - i,
    {
        let ghost before = out@;
        let c = copy_of(&reg[i]);
        out.push(c);
        proof {
            assert(entries(before).len() == i);
            assert(entries(out@) =~= model.take(i + 1));
        }
        i = i + 1;
    }
    proof {
        assert(model.take(i as int) =~= model);
    }
    out
}

/// Splits a registry into the entries whose identity differs from `id` and
/// those whose identity is `id`, each in order.
fn split_by_identity(reg: &Vec<Subscriber>, id: &String) -> (r: (Vec<Subscriber>, Vec<Subscriber>))
    ensures
        entries(r.0@) == others(entries(reg@), id@),
        entries(r.1@) == own(entries(reg@), id@),
{
    let ghost model = entries(reg@);
    let mut kept: Vec<Subscriber> = Vec::new();
    let mut same: Vec<Subscriber> = Vec::new();
    let mut i: usize = 0;
    while i < reg.len()
        invariant
            i <= reg.len(),
            model == entries(reg@),
            entries(kept@) == others(model.take(i as int), id@),
            entries(same@) == own(model.take(i as int), id@),
        decreases reg.len() - i,
    {
        proof {
            lemma_filter_take_step(model, |e: Entry| e.identity != id@, i as int);
            lemma_filter_take_step(model, |e: Entry| e.identity == id@, i as int);
        }
        let s = copy_of(&reg[i]);
        if reg[i].identity == *id {
            same.push(s);
        } else {
            kept.push(s);
        }
        proof {
            assert(entries(kept@) =~= others(model.take(i + 1), id@));
            assert(entries(same@) =~= own(model.take(i + 1), id@));
        }
        i = i + 1;
    }
    proof {
        assert(model.take(i as int) =~= model);
    }
    (kept, same)
}

/// The entries of a registry whose key differs from `key`, and whether one
/// had that key.
fn drop_key(reg: &Vec<Subscriber>, key: u64) -> (r: (Vec<Subscriber>, bool))
    ensures
        entries(r.0@) == without_key(entries(reg@), key),
        r.1 == has_key(entries(reg@), key),
{
    let ghost model = entries(reg@);
    let mut kept: Vec<Subscriber> = Vec::new();
    let mut found = false;
    let mut i: usize = 0;
    while i < reg.len()
        invariant
            i <= reg.len(),
            model == entries(reg@),
            entries(kept@) == without_key(model.take(i as int), key),
            found == (exists|j: int| 0 <= j < i && #[trigger] model[j].key == key),
        decreases reg.len() - i,
    {
        proof {
            lemma_filter_take_step(model, |e: Entry| e.key != key, i as int);
        }
        if reg[i].key == key {
            found = true;
        } else {
            kept.push(copy_of(&reg[i]));
        }
        proof {
            assert(entries(kept@) =~= without_key(model.take(i + 1), key));
        }
        i = i + 1;
    }
    proof {
        assert(model.take(i as int) =~= model);
    }
    (kept, found)
}

impl Hub {
    /// The hub's invariant: push and stream hold each identity once; every
    /// registry holds each key once and nothing under the heartbeat's identity.
    pub open spec fn wf(&self) -> bool {
        &&& registry_wf(self@.push, self@.next_key)
        &&& registry_wf(self@.stream, self@.next_key)
        &&& keys_wf(self@.poll, self@.next_key)
    }

    /// An empty hub.
    pub fn new() -> (h: Hub)
        ensures
            h.wf(),
            h@.push.len() == 0,
            h@.stream.len() == 0,
            h@.poll.len() == 0,
            h@.next_key == 0,
    {
        Hub { push: Vec::new(), stream: Vec::new(), poll: Vec::new(), next_key: 0 }
    }

    /// The vector that holds the registry of `t`.
    fn registry_vec(&self, t: Transport) -> (r: &Vec<Subscriber>)
        ensures
            entries(r@) == self@.registry(t),
    {
        match t {
            Transport::Push => &self.push,
            Transport::Stream => &self.stream,
            Transport::Poll => &self.poll,
        }
    }

    /// Puts `reg` in place of the registry of `t`.
    fn set_registry(&mut self, t: Transport, reg: Vec<Subscriber>)
        ensures
            final(self)@ == old(self)@.with_registry(t, entries(reg@)),
    {
        match t {
            Transport::Push => self.push = reg,
            Transport::Stream => self.stream = reg,
            Transport::Poll => self.poll = reg,
        }
    }

    /// Registers `identity` on `transport`. On push and stream an entry with
    /// the same identity is replaced, never duplicated, and its key returned
    /// so that its handle can be released; a poll waiter is added beside the
    /// waiters already there. Gives `None`, and leaves the hub as it was,
    /// exactly when `identity` is the heartbeat's reserved one or every key
    /// has been handed out.
    pub fn register(&mut self, transport: Transport, identity: String) -> (r: Option<Registration>)
        requires
            old(self).wf(),
        ensures
            final(self).wf(),
            (old(self)@.next_key == u64::MAX || identity@ == heartbeat_sender_id()) ==> r is None
                && final(self)@ == old(self)@,
            (old(self)@.next_key < u64::MAX && identity@ != heartbeat_sender_id()) ==> {
                &&& r == Some(
                    Registration {
                        key: old(self)@.next_key,
                        replaced: if transport == Transport::Poll {
                            None
                        } else {
                            replaced_key(old(self)@.registry(transport), identity@)
                        },
                    },
                )
                &&& final(self)@ == old(self)@.after_register(transport, identity@)
            },
    {
        if self.next_key == u64::MAX || identity == String::from_str("system/heartbeat") {
            return None;
        }
        let key = self.next_key;
        let ghost id = identity@;
        let ghost reg = self@.registry(transport);
        let (mut kept, replaced) = if transport == Transport::Poll {
            (copy_all(&self.poll), None)
        } else {
            let (kept, same) = split_by_identity(self.registry_vec(transport), &identity);
            let replaced = if same.len() > 0 {
                Some(same[0].key)
            } else {
                None
            };
            proof {
                broadcast use vstd::seq_lib::group_filter_ensures;

                lemma_filter_wf(reg, |e: Entry| e.identity != id, key);
            }
            (kept, replaced)
        };
        let ghost before = entries(kept@);
        proof {
            broadcast use vstd::seq_lib::group_filter_ensures;

            lemma_push_wf(before, Entry { identity: id, key }, key);
        }
        kept.push(Subscriber { identity, key });
        proof {
            assert(entries(kept@) =~= before.push(Entry { identity: id, key }));
        }
        self.set_registry(transport, kept);
        self.next_key = key + 1;
        proof {
            assert(self@ =~= old(self)@.after_register(transport, id));
        }
        Some(Registration { key, replaced })
    }

    /// The decisions for one message sent by `origin`: every push and stream
    /// subscriber of another identity gets one delivery attempt and stays
    /// registered; every poll waiter of another identity is taken out of the
    /// registry and handed over for its single delivery; the poll waiters of
    /// `origin` stay, unchanged, waiting for a message of someone else.
    pub fn publish(&mut self, origin: &String) -> (d: Dispatch)
        requires
            old(self).wf(),
        ensures
            final(self).wf(),
            final(self)@ == (HubView { poll: own(old(self)@.poll, origin@), ..old(self)@ }),
            entries(d.push@) == others(old(self)@.push, origin@),
            entries(d.stream@) == others(old(self)@.stream, origin@),
            entries(d.poll@) == others(old(self)@.poll, origin@),
    {
        let (push, _) = split_by_identity(&self.push, origin);
        let (stream, _) = split_by_identity(&self.stream, origin);
        let (poll, waiting) = split_by_identity(&self.poll, origin);
        proof {
            lemma_filter_wf(self@.poll, |e: Entry| e.identity == origin@, self@.next_key);
        }
        self.poll = waiting;
        proof {
            assert(self@ =~= (HubView { poll: own(old(self)@.poll, origin@), ..old(self)@ }));
        }
        Dispatch { push, stream, poll }
    }

    /// The liveness probe: every push and stream subscriber, whatever its
    /// identity, gets one probe. Poll waiters get none.
    pub fn probe_targets(&self) -> (d: Dispatch)
        ensures
            entries(d.push@) == self@.push,
            entries(d.stream@) == self@.stream,
            d.poll@.len() == 0,
    {
        let push = copy_all(&self.push);
        let stream = copy_all(&self.stream);
        Dispatch { push, stream, poll: Vec::new() }
    }

    /// Removes the entry with `key` from the registry of `transport`: a
    /// subscriber whose delivery failed, or a poll waiter whose time ran out.
    /// Returns whether it was still there.
    pub fn remove(&mut self, transport: Transport, key: u64) -> (found: bool)
        requires
            old(self).wf(),
        ensures
            final(self).wf(),
            found == has_key(old(self)@.registry(transport), key),
            final(self)@ == old(self)@.with_registry(
                transport,
                without_key(old(self)@.registry(transport), key),
            ),
    {
        let (kept, found) = drop_key(self.registry_vec(transport), key);
        proof {
            lemma_filter_wf(self@.registry(transport), |e: Entry| e.key != key, self@.next_key);
        }
        self.set_registry(transport, kept);
        found
    }

    /// Removes from the registry of `transport` every entry whose key is
    /// among `failed`: the subscribers whose deliveries failed in one pass.
    /// Returns how many entries went.
    pub fn prune(&mut self, transport: Transport, failed: &Vec<u64>) -> (n: usize)
        requires
            old(self).wf(),
        ensures
            final(self).wf(),
            final(self)@ == old(self)@.with_registry(
                transport,
                without_keys(old(self)@.registry(transport), failed@),
            ),
            n == old(self)@.registry(transport).len() - final(self)@.registry(transport).len(),
    {
        let ghost start = self@;
        let ghost reg = start.registry(transport);
        let total = self.registry_vec(transport).len();
        let mut n: usize = 0;
        let mut i: usize = 0;
        proof {
            lemma_filter_all(reg, |e: Entry| !failed@.take(0).contains(e.key));
            assert(self@ =~= start.with_registry(transport, reg));
        }
        while i < failed.len()
            invariant
                i <= failed@.len(),
                self.wf(),
                self@ == start.with_registry(transport, without_keys(reg, failed@.take(i as int))),
                reg == start.registry(transport),
                reg.len() == total,
                n == reg.len() - self@.registry(transport).len(),
                self@.registry(transport).len() <= reg.len(),
            decreases failed.len() - i,
        {
            let ghost cur = self@.registry(transport);
            let k = failed[i];
            if self.remove(transport, k) {
                proof {
                    assert(keys_wf(cur, start.next_key));
                    lemma_without_key_len(cur, start.next_key, k);
                }
                n = n + 1;
            } else {
                proof {
                    lemma_filter_all(cur, |e: Entry| e.key != k);
                }
            }
            proof {
                broadcast use vstd::seq_lib::group_filter_ensures;
                lemma_without_keys_push(reg, failed@.take(i as int), failed@[i as int]);
                assert(failed@.take(i + 1) =~= failed@.take(i as int).push(failed@[i as int]));
                assert(self@ =~= start.with_registry(transport, without_keys(reg, failed@.take(i + 1))));
            }
            i = i + 1;
        }
        proof {
            assert(failed@.take(i as int) =~= failed@);
        }
        n
    }

    /// The size of each registry.
    pub fn counts(&self) -> (c: Counts)
        ensures
            c.push == self@.push.len(),
            c.stream == self@.stream.len(),
            c.poll == self@.poll.len(),
    {
        Counts { push: self.push.len(), stream: self.stream.len(), poll: self.poll.len() }
    }
}

} // verus!
