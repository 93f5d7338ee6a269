//! Properties of the hub that hold across calls, stated over the models that
//! the hub's own contracts use.

use vstd::prelude::*;
use crate::hub::{
    Entry, Hub, HubView, Transport, has_identity, has_key, ids_distinct, keys_wf, others, own,
    without_key, without_keys,
};
use crate::message::heartbeat_sender_id;

verus! {

broadcast use vstd::seq_lib::group_filter_ensures;

/// Entries of a filtered registry come from the registry.
proof fn lemma_filtered_from(reg: Seq<Entry>, p: spec_fn(Entry) -> bool, k: int)
    requires
        0 <= k < reg.filter(p).len(),
    ensures
        exists|j: int| 0 <= j < reg.len() && reg[j] == reg.filter(p)[k],
{
    let f = reg.filter(p);
    assert(f.contains(f[k]));
    reg.lemma_filter_contains_rev(p, f[k]);
}

/// Two positions of a well-formed registry that hold the same entry are
/// the same position.
proof fn lemma_entry_position_unique(reg: Seq<Entry>, next_key: u64, i: int, j: int)
    requires
        keys_wf(reg, next_key),
        0 <= i < reg.len(),
        0 <= j < reg.len(),
        reg[i] == reg[j],
    ensures
        i == j,
{
    let (ki, kj) = (reg[i].key, reg[j].key);
    assert(ki == kj);
    if i < j {
        assert(reg[i].key != reg[j].key);
    } else if j < i {
        assert(reg[j].key != reg[i].key);
    }
}

/// Whatever the origin of a message, none of the subscribers that a publish
/// names for delivery, on any transport, has the origin's identity.
pub proof fn self_exclusion(h: HubView, origin: Seq<char>, t: Transport)
    ensures
        forall|i: int|
            0 <= i < others(h.registry(t), origin).len()
                ==> #[trigger] others(h.registry(t), origin)[i].identity != origin,
{
}

/// A subscriber registered under another identity than the origin's, when a
/// publish begins, is named for delivery exactly once by it.
pub proof fn one_attempt_per_live_subscriber(
    h: HubView,
    origin: Seq<char>,
    t: Transport,
    i: int,
)
    requires
        keys_wf(h.registry(t), h.next_key),
        0 <= i < h.registry(t).len(),
        h.registry(t)[i].identity != origin,
    ensures
        exists|j: int|
            0 <= j < others(h.registry(t), origin).len() && others(h.registry(t), origin)[j]
                == h.registry(t)[i],
        forall|j1: int, j2: int|
            0 <= j1 < others(h.registry(t), origin).len() && 0 <= j2 < others(
                h.registry(t),
                origin,
            ).len() && #[trigger] others(h.registry(t), origin)[j1] == h.registry(t)[i]
                && #[trigger] others(h.registry(t), origin)[j2] == h.registry(t)[i] ==> j1 == j2,
{
    let reg = h.registry(t);
    let o = others(reg, origin);
    assert(o.contains(reg[i]));
    let w = choose|j: int| 0 <= j < o.len() && o[j] == reg[i];
    assert(0 <= w < o.len() && o[w] == reg[i]);
    crate::hub::lemma_filter_wf(reg, |e: Entry| e.identity != origin, h.next_key);
    assert forall|j1: int, j2: int|
        0 <= j1 < others(reg, origin).len() && 0 <= j2 < others(reg, origin).len()
            && #[trigger] others(reg, origin)[j1] == reg[i] && #[trigger] others(reg, origin)[j2]
            == reg[i] implies j1 == j2 by {
        lemma_entry_position_unique(others(reg, origin), h.next_key, j1, j2);
    }
}

/// A poll waiter ends in one state only. If a publish delivers it, it is no
/// longer waiting: its timeout then finds nothing to remove, and no later
/// publish names it again. If its timeout removes it first, no later publish
/// names it. The end of one waiter leaves every other waiter, of the same
/// identity or another, in place.
pub proof fn poll_one_shot(
    poll: Seq<Entry>,
    next_key: u64,
    origin: Seq<char>,
    key: u64,
    later: Seq<char>,
)
    requires
        keys_wf(poll, next_key),
    ensures
        has_key(others(poll, origin), key) ==> !has_key(own(poll, origin), key),
        has_key(others(poll, origin), key) ==> !has_key(others(own(poll, origin), later), key),
        !has_key(without_key(poll, key), key),
        !has_key(others(without_key(poll, key), later), key),
        forall|i: int|
            0 <= i < poll.len() && #[trigger] poll[i].key != key ==> without_key(poll, key).contains(
                poll[i],
            ),
{
    let delivered = others(poll, origin);
    let waiting = own(poll, origin);
    if has_key(delivered, key) && has_key(waiting, key) {
        let a = choose|a: int| 0 <= a < delivered.len() && delivered[a].key == key;
        let b = choose|b: int| 0 <= b < waiting.len() && waiting[b].key == key;
        lemma_filtered_from(poll, |e: Entry| e.identity != origin, a);
        lemma_filtered_from(poll, |e: Entry| e.identity == origin, b);
        let ia = choose|j: int| 0 <= j < poll.len() && poll[j] == delivered[a];
        let ib = choose|j: int| 0 <= j < poll.len() && poll[j] == waiting[b];
        if ia != ib {
            if ia < ib {
                assert(poll[ia].key != poll[ib].key);
            } else {
                assert(poll[ib].key != poll[ia].key);
            }
        }
    }
    let still = others(waiting, later);
    if has_key(still, key) {
        let a = choose|a: int| 0 <= a < still.len() && still[a].key == key;
        lemma_filtered_from(waiting, |e: Entry| e.identity != later, a);
    }
    let pruned = without_key(poll, key);
    let after = others(pruned, later);
    if has_key(after, key) {
        let a = choose|a: int| 0 <= a < after.len() && after[a].key == key;
        lemma_filtered_from(pruned, |e: Entry| e.identity != later, a);
    }
}

/// Once a failed delivery is reported, the registry holds exactly one entry
/// fewer, and no later publish names that subscriber by its key; nor by its
/// identity, in a registry that holds each identity once (push and stream).
pub proof fn pruning(reg: Seq<Entry>, next_key: u64, key: u64, later: Seq<char>)
    requires
        keys_wf(reg, next_key),
        has_key(reg, key),
    ensures
        without_key(reg, key).len() == reg.len() - 1,
        !has_key(others(without_key(reg, key), later), key),
        ids_distinct(reg) ==> forall|i: int|
            0 <= i < reg.len() && #[trigger] reg[i].key == key ==> !has_identity(
                others(without_key(reg, key), later),
                reg[i].identity,
            ),
{
    crate::hub::lemma_without_key_len(reg, next_key, key);
    let pruned = without_key(reg, key);
    let rest = others(pruned, later);
    if has_key(rest, key) {
        let a = choose|a: int| 0 <= a < rest.len() && rest[a].key == key;
        lemma_filtered_from(pruned, |e: Entry| e.identity != later, a);
    }
    assert forall|i: int|
        ids_distinct(reg) && 0 <= i < reg.len() && #[trigger] reg[i].key == key implies !has_identity(
            rest,
            reg[i].identity,
        ) by {
        if has_identity(rest, reg[i].identity) {
            let a = choose|a: int| 0 <= a < rest.len() && rest[a].identity == reg[i].identity;
            lemma_filtered_from(pruned, |e: Entry| e.identity != later, a);
            let b = choose|b: int| 0 <= b < pruned.len() && pruned[b] == rest[a];
            lemma_filtered_from(reg, |e: Entry| e.key != key, b);
            let c = choose|c: int| 0 <= c < reg.len() && reg[c] == pruned[b];
            if c < i {
                assert(reg[c].identity != reg[i].identity);
            } else if i < c {
                assert(reg[i].identity != reg[c].identity);
            }
        }
    }
}

/// The heartbeat takes the place of no participant: no subscriber of any
/// transport is registered under its reserved sender identity, so, were it
/// dispatched like any message from that identity, it would still name every
/// subscriber; and the liveness probe that carries it applies no exclusion.
pub proof fn heartbeat_excludes_no_participant(h: Hub, t: Transport, i: int)
    requires
        h.wf(),
        0 <= i < h@.registry(t).len(),
    ensures
        h@.registry(t)[i].identity != heartbeat_sender_id(),
        others(h@.registry(t), heartbeat_sender_id()).contains(h@.registry(t)[i]),
{
    assert(keys_wf(h@.registry(t), h@.next_key));
}

/// Reporting the failed deliveries of one pass, all to distinct subscribers
/// of the registry, shrinks it by exactly their number, keeps every other
/// entry, and no later publish names any of them.
pub proof fn pruning_many(reg: Seq<Entry>, next_key: u64, failed: Seq<u64>, later: Seq<char>)
    requires
        keys_wf(reg, next_key),
        failed.no_duplicates(),
        forall|j: int| 0 <= j < failed.len() ==> has_key(reg, #[trigger] failed[j]),
    ensures
        without_keys(reg, failed).len() == reg.len() - failed.len(),
        forall|i: int|
            0 <= i < reg.len() && !failed.contains(#[trigger] reg[i].key) ==> without_keys(
                reg,
                failed,
            ).contains(reg[i]),
        forall|j: int|
            0 <= j < failed.len() ==> !has_key(
                others(without_keys(reg, failed), later),
                #[trigger] failed[j],
            ),
    decreases failed.len(),
{
    let rest = without_keys(reg, failed);
    assert forall|i: int|
        0 <= i < reg.len() && !failed.contains(#[trigger] reg[i].key) implies rest.contains(
            reg[i],
        ) by {}
    assert forall|j: int| 0 <= j < failed.len() implies !has_key(
        others(rest, later),
        #[trigger] failed[j],
    ) by {
        let o = others(rest, later);
        if has_key(o, failed[j]) {
            let a = choose|a: int| 0 <= a < o.len() && o[a].key == failed[j];
            lemma_filtered_from(rest, |e: Entry| e.identity != later, a);
            let b = choose|b: int| 0 <= b < rest.len() && rest[b] == o[a];
            assert(failed.contains(failed[j]));
        }
    }
    if failed.len() > 0 {
        let front = failed.drop_last();
        let k = failed.last();
        assert forall|j: int| 0 <= j < front.len() implies has_key(reg, #[trigger] front[j]) by {
            assert(front[j] == failed[j]);
        }
        assert(front.no_duplicates());
        pruning_many(reg, next_key, front, later);
        crate::hub::lemma_without_keys_push(reg, front, k);
        assert(front.push(k) =~= failed);
        let part = without_keys(reg, front);
        crate::hub::lemma_filter_wf(reg, |e: Entry| !front.contains(e.key), next_key);
        assert(has_key(reg, failed[failed.len() - 1]));
        let i = choose|i: int| 0 <= i < reg.len() && reg[i].key == k;
        assert(!front.contains(k));
        assert(part.contains(reg[i]));
        let w = choose|w: int| 0 <= w < part.len() && part[w] == reg[i];
        assert(part[w].key == k);
        assert(keys_wf(part, next_key));
        crate::hub::lemma_without_key_len(part, next_key, k);
        assert(without_key(part, k) == without_keys(reg, failed));
    } else {
        crate::hub::lemma_filter_all(reg, |e: Entry| !failed.contains(e.key));
    }
}

} // verus!
