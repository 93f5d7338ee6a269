use room_hub::hub::{Counts, Hub, Subscriber, Transport};
use room_hub::session::POLL_TIMEOUT_SECS;

fn ids(subs: &[Subscriber]) -> Vec<String> {
    subs.iter().map(|s| s.identity.clone()).collect()
}

fn register(hub: &mut Hub, t: Transport, id: &str) -> u64 {
    hub.register(t, id.to_string()).expect("keys left").key
}

#[test]
fn new_hub_is_empty() {
    let hub = Hub::new();
    assert_eq!(hub.counts(), Counts { push: 0, stream: 0, poll: 0 });
}

#[test]
fn push_sender_does_not_receive_its_own_message() {
    let mut hub = Hub::new();
    register(&mut hub, Transport::Push, "A");
    register(&mut hub, Transport::Push, "B");
    let d = hub.publish(&"A".to_string());
    assert_eq!(ids(&d.push), vec!["B".to_string()]);
    assert!(d.stream.is_empty());
    assert!(d.poll.is_empty());
    // both stay registered
    assert_eq!(hub.counts().push, 2);
}

#[test]
fn stream_subscribers_of_others_receive_and_stay() {
    let mut hub = Hub::new();
    register(&mut hub, Transport::Stream, "A");
    register(&mut hub, Transport::Stream, "B");
    register(&mut hub, Transport::Stream, "C");
    let d = hub.publish(&"B".to_string());
    assert_eq!(ids(&d.stream), vec!["A".to_string(), "C".to_string()]);
    assert_eq!(hub.counts().stream, 3);
}

#[test]
fn poll_waiter_times_out_when_nothing_is_published() {
    assert_eq!(POLL_TIMEOUT_SECS, 30);
    let mut hub = Hub::new();
    let key = register(&mut hub, Transport::Poll, "C");
    assert_eq!(hub.counts().poll, 1);
    // the timer fires: the waiter is still there, so it times out
    assert!(hub.remove(Transport::Poll, key));
    assert_eq!(hub.counts().poll, 0);
    // a later publish finds no waiter
    let d = hub.publish(&"D".to_string());
    assert!(d.poll.is_empty());
}

#[test]
fn own_message_requeues_poll_waiter_until_another_arrives() {
    let mut hub = Hub::new();
    let key = register(&mut hub, Transport::Poll, "C");
    let d = hub.publish(&"C".to_string());
    assert!(d.poll.is_empty());
    assert_eq!(hub.counts().poll, 1);
    let d = hub.publish(&"D".to_string());
    assert_eq!(d.poll.len(), 1);
    assert_eq!(d.poll[0].identity, "C");
    assert_eq!(d.poll[0].key, key);
    assert_eq!(hub.counts().poll, 0);
    // the delivered waiter cannot time out any more
    assert!(!hub.remove(Transport::Poll, key));
}

#[test]
fn delivered_waiter_is_not_delivered_twice() {
    let mut hub = Hub::new();
    register(&mut hub, Transport::Poll, "C");
    let first = hub.publish(&"D".to_string());
    assert_eq!(first.poll.len(), 1);
    let second = hub.publish(&"E".to_string());
    assert!(second.poll.is_empty());
}

#[test]
fn failed_delivery_prunes_exactly_one() {
    let mut hub = Hub::new();
    register(&mut hub, Transport::Push, "A");
    let b = register(&mut hub, Transport::Push, "B");
    register(&mut hub, Transport::Push, "C");
    assert!(hub.remove(Transport::Push, b));
    assert_eq!(hub.counts().push, 2);
    let d = hub.publish(&"A".to_string());
    assert_eq!(ids(&d.push), vec!["C".to_string()]);
    // a second report for the same key changes nothing
    assert!(!hub.remove(Transport::Push, b));
    assert_eq!(hub.counts().push, 2);
}

#[test]
fn remove_touches_only_its_transport() {
    let mut hub = Hub::new();
    let k = register(&mut hub, Transport::Stream, "A");
    register(&mut hub, Transport::Push, "A");
    assert!(!hub.remove(Transport::Push, k + 100));
    assert!(hub.remove(Transport::Stream, k));
    assert_eq!(hub.counts(), Counts { push: 1, stream: 0, poll: 0 });
}

#[test]
fn reregistration_replaces_the_entry() {
    let mut hub = Hub::new();
    let first = hub.register(Transport::Push, "A".to_string()).unwrap();
    assert_eq!(first.replaced, None);
    let second = hub.register(Transport::Push, "A".to_string()).unwrap();
    assert_eq!(second.replaced, Some(first.key));
    assert_ne!(second.key, first.key);
    assert_eq!(hub.counts().push, 1);
    let d = hub.publish(&"B".to_string());
    assert_eq!(d.push.len(), 1);
    assert_eq!(d.push[0].key, second.key);
}

#[test]
fn stale_failure_report_keeps_new_registration() {
    let mut hub = Hub::new();
    let old = register(&mut hub, Transport::Stream, "A");
    let new = register(&mut hub, Transport::Stream, "A");
    assert!(!hub.remove(Transport::Stream, old));
    assert!(hub.remove(Transport::Stream, new));
}

#[test]
fn probe_reaches_every_push_and_stream_subscriber() {
    let mut hub = Hub::new();
    register(&mut hub, Transport::Push, "");
    register(&mut hub, Transport::Push, "A");
    register(&mut hub, Transport::Stream, "B");
    register(&mut hub, Transport::Poll, "C");
    let d = hub.probe_targets();
    assert_eq!(ids(&d.push), vec!["".to_string(), "A".to_string()]);
    assert_eq!(ids(&d.stream), vec!["B".to_string()]);
    assert!(d.poll.is_empty());
}

#[test]
fn heartbeat_origin_excludes_no_participant() {
    let mut hub = Hub::new();
    register(&mut hub, Transport::Push, "A");
    register(&mut hub, Transport::Stream, "B");
    register(&mut hub, Transport::Poll, "C");
    register(&mut hub, Transport::Push, "");
    let d = hub.publish(&"system/heartbeat".to_string());
    assert_eq!(ids(&d.push), vec!["A".to_string(), "".to_string()]);
    assert_eq!(ids(&d.stream), vec!["B".to_string()]);
    assert_eq!(ids(&d.poll), vec!["C".to_string()]);
}

#[test]
fn publish_on_empty_hub_names_nobody() {
    let mut hub = Hub::new();
    let d = hub.publish(&"A".to_string());
    assert!(d.push.is_empty() && d.stream.is_empty() && d.poll.is_empty());
}

#[test]
fn every_transport_counts_separately() {
    let mut hub = Hub::new();
    register(&mut hub, Transport::Push, "A");
    register(&mut hub, Transport::Stream, "A");
    register(&mut hub, Transport::Stream, "B");
    register(&mut hub, Transport::Poll, "A");
    assert_eq!(hub.counts(), Counts { push: 1, stream: 2, poll: 1 });
}

#[test]
fn reserved_heartbeat_identity_is_refused() {
    let mut hub = Hub::new();
    for t in [Transport::Push, Transport::Stream, Transport::Poll] {
        assert_eq!(hub.register(t, "system/heartbeat".to_string()), None);
    }
    assert_eq!(hub.counts(), Counts { push: 0, stream: 0, poll: 0 });
    // the refusal uses no key
    assert_eq!(register(&mut hub, Transport::Push, "A"), 0);
}

#[test]
fn poll_waiters_of_one_identity_wait_side_by_side() {
    let mut hub = Hub::new();
    let first = hub.register(Transport::Poll, "C".to_string()).unwrap();
    let second = hub.register(Transport::Poll, "C".to_string()).unwrap();
    assert_eq!(first.replaced, None);
    assert_eq!(second.replaced, None);
    assert_eq!(hub.counts().poll, 2);
    // one times out; the other keeps waiting
    assert!(hub.remove(Transport::Poll, first.key));
    assert_eq!(hub.counts().poll, 1);
    let third = register(&mut hub, Transport::Poll, "C");
    // one publish fills every waiter of the identity
    let d = hub.publish(&"D".to_string());
    let keys: Vec<u64> = d.poll.iter().map(|s| s.key).collect();
    assert_eq!(keys, vec![second.key, third]);
    assert_eq!(hub.counts().poll, 0);
}

#[test]
fn prune_drops_every_failed_subscriber_of_a_pass() {
    let mut hub = Hub::new();
    let a = register(&mut hub, Transport::Stream, "A");
    register(&mut hub, Transport::Stream, "B");
    let c = register(&mut hub, Transport::Stream, "C");
    register(&mut hub, Transport::Push, "A");
    assert_eq!(hub.prune(Transport::Stream, &vec![a, c, 999]), 2);
    assert_eq!(hub.counts(), Counts { push: 1, stream: 1, poll: 0 });
    let d = hub.publish(&"X".to_string());
    assert_eq!(ids(&d.stream), vec!["B".to_string()]);
    assert_eq!(hub.prune(Transport::Stream, &vec![]), 0);
}
