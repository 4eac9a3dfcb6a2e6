use message_queue::constants::NO_TOPIC;
use message_queue::js_utils::Envelope;
use message_queue::queue::{
    broadcast_outcome, BatchOutcome, ChannelOutcome, Draft, Publication, QueueError,
};
use message_queue::utils::{generate_uuid, IdSource};
use message_queue::MessageQueue;
use std::rc::Rc;

type Bus = MessageQueue<String, &'static str>;

fn local(client_id: &str) -> Bus {
    let (bus, announce) = Bus::new(client_id.to_string(), ChannelOutcome::NotRequested)
        .ok()
        .unwrap();
    assert!(announce.is_none());
    bus
}

fn attached(client_id: &str, channel: &str) -> Bus {
    Bus::new(client_id.to_string(), ChannelOutcome::Opened(channel.to_string()))
        .ok()
        .unwrap()
        .0
}

fn sorted(mut ids: Vec<u32>) -> Vec<u32> {
    ids.sort();
    ids
}

fn published(out: Result<Publication<String>, QueueError>) -> Publication<String> {
    match out {
        Ok(p) => p,
        Err(e) => panic!("publish failed: {}", e.message()),
    }
}

fn refused<T>(out: Result<T, QueueError>) -> QueueError {
    match out {
        Ok(_) => panic!("expected an error"),
        Err(e) => e,
    }
}

fn draft(payload: &str, id: u64, timestamp: u64) -> Draft<String> {
    Draft { payload: payload.to_string(), id, timestamp }
}

fn buffered_ids(bus: &Bus, handle: u32) -> Vec<u64> {
    bus.get_buffered_messages(handle).iter().map(|w| w.message.id).collect()
}

#[test]
fn new_without_channel_announces_nothing() {
    let out = Bus::new("solo".to_string(), ChannelOutcome::NotRequested);
    let (bus, announce) = out.ok().unwrap();
    assert!(announce.is_none());
    assert_eq!(bus.get_client_id(), "solo");
    assert_eq!(bus.topic_count(), 0);
}

#[test]
fn new_with_channel_announces_itself_once() {
    let out = Bus::new("tab-1".to_string(), ChannelOutcome::Opened("app".to_string()));
    let (bus, announce) = out.ok().unwrap();
    match announce {
        Some(Envelope::SyncRequest(origin)) => assert_eq!(origin, "tab-1"),
        _ => panic!("expected a request for the backlog"),
    }
    assert_eq!(bus.get_client_id(), "tab-1");
    assert_eq!(bus.topic_count(), 0);
}

#[test]
fn new_with_refused_channel_fails() {
    let out = Bus::new("tab-1".to_string(), ChannelOutcome::Refused);
    let e = refused(out);
    assert_eq!(e, QueueError::ChannelUnavailable);
    assert!(e.is_construction_failure());
    assert_eq!(e.message(), "Failed to create BroadcastChannel");
}

#[test]
fn generate_uuid_passes_the_identifier_on() {
    let out = generate_uuid(IdSource::Uuid("6f1c7a9e-1111-4222-8333-444455556666".to_string()));
    assert_eq!(out, Ok("6f1c7a9e-1111-4222-8333-444455556666".to_string()));
}

#[test]
fn generate_uuid_without_window_fails() {
    let e = refused(generate_uuid(IdSource::NoWindow));
    assert_eq!(e, QueueError::WindowUnavailable);
    assert!(e.is_construction_failure());
    assert_eq!(e.message(), "Window not available");
}

#[test]
fn generate_uuid_without_crypto_fails() {
    let e = refused(generate_uuid(IdSource::NoCrypto));
    assert_eq!(e, QueueError::CryptoUnavailable);
    assert!(e.is_construction_failure());
    assert_eq!(e.message(), "Crypto not available");
}

#[test]
fn error_messages_are_fixed() {
    assert_eq!(QueueError::InvalidTopic.message(), "Invalid topic ID");
    assert_eq!(QueueError::InvalidCapacity.message(), "Buffer capacity must be greater than 0");
    assert_eq!(QueueError::BroadcastFailure.message(), "Failed to broadcast message");
    assert_eq!(QueueError::RecursiveAccess.message(), "Failed to borrow queue");
    assert!(!QueueError::InvalidTopic.is_construction_failure());
    assert!(!QueueError::InvalidCapacity.is_construction_failure());
    assert!(!QueueError::BroadcastFailure.is_construction_failure());
    assert!(!QueueError::RecursiveAccess.is_construction_failure());
}

#[test]
fn register_twice_returns_the_same_handle() {
    let mut bus = local("x");
    let first = bus.register_topic("alerts");
    let other = bus.register_topic("news");
    let second = bus.register_topic("alerts");
    assert_eq!(first, 0);
    assert_eq!(other, 1);
    assert_eq!(second, first);
    assert_eq!(bus.topic_count(), 2);
}

#[test]
fn create_topic_is_true_once_then_false() {
    let mut bus = local("x");
    assert!(bus.create_topic("alerts"));
    assert!(!bus.create_topic("alerts"));
    assert!(bus.create_topic("news"));
    assert!(!bus.create_topic("alerts"));
    assert!(!bus.create_topic("news"));
    assert_eq!(bus.topic_count(), 2);
    assert_eq!(bus.register_topic("alerts"), 0);
    assert_eq!(bus.register_topic("news"), 1);
}

#[test]
fn create_topic_after_register_is_false() {
    let mut bus = local("x");
    assert_eq!(bus.register_topic("alerts"), 0);
    assert!(!bus.create_topic("alerts"));
}

#[test]
fn has_topic_tells_registered_handles() {
    let mut bus = local("x");
    assert!(!bus.has_topic(0));
    let h = bus.register_topic("a");
    assert!(bus.has_topic(h));
    assert!(!bus.has_topic(h + 1));
    assert!(!bus.has_topic(NO_TOPIC));
}

#[test]
fn subscribe_gives_ids_from_zero() {
    let mut bus = local("x");
    let h = bus.register_topic("a");
    assert_eq!(bus.subscribe(h, "s1"), Ok(0));
    assert_eq!(bus.subscribe(h, "s2"), Ok(1));
    assert_eq!(bus.subscribe(h, "s3"), Ok(2));
    assert_eq!(bus.subscriber_count(h), 3);
    assert_eq!(bus.subscriber(h, 1), Some(&"s2"));
    assert_eq!(bus.subscriber(h, 3), None);
    assert_eq!(bus.subscriber(h + 1, 0), None);
}

#[test]
fn subscription_ids_are_per_topic_and_not_reused() {
    let mut bus = local("x");
    let a = bus.register_topic("a");
    let b = bus.register_topic("b");
    assert_eq!(bus.subscribe(a, "a0"), Ok(0));
    assert_eq!(bus.subscribe(b, "b0"), Ok(0));
    assert!(bus.unsubscribe(a, 0));
    assert_eq!(bus.subscribe(a, "a1"), Ok(1));
    assert_eq!(bus.subscriber_count(a), 1);
    assert_eq!(bus.subscriber_count(b), 1);
}

#[test]
fn subscribe_to_unknown_topic_is_invalid_topic() {
    let mut bus = local("x");
    assert_eq!(bus.subscribe(0, "s"), Err(QueueError::InvalidTopic));
    bus.register_topic("a");
    assert_eq!(bus.subscribe(1, "s"), Err(QueueError::InvalidTopic));
    assert_eq!(bus.subscriber_count(0), 0);
}

#[test]
fn unsubscribe_is_false_for_unknown_handle_or_id() {
    let mut bus = local("x");
    let h = bus.register_topic("a");
    assert_eq!(bus.subscribe(h, "s"), Ok(0));
    assert!(!bus.unsubscribe(h + 1, 0));
    assert!(!bus.unsubscribe(h, 1));
    assert!(bus.unsubscribe(h, 0));
    assert!(!bus.unsubscribe(h, 0));
    assert_eq!(bus.subscriber_count(h), 0);
}

#[test]
fn publish_reaches_the_remaining_subscribers_once_each() {
    let mut bus = local("x");
    let h = bus.register_topic("a");
    let s1 = bus.subscribe(h, "s1").ok().unwrap();
    let s2 = bus.subscribe(h, "s2").ok().unwrap();
    let s3 = bus.subscribe(h, "s3").ok().unwrap();
    assert!(bus.unsubscribe(h, s2));

    let p = published(bus.publish(h, "hello".to_string(), 77, 1_700_000_000_000));
    assert_eq!(sorted(p.delivery.subscribers.clone()), vec![s1, s3]);
    assert_eq!(p.delivery.message.payload, "hello");
    assert_eq!(p.delivery.message.topic_id, h);
    assert_eq!(p.delivery.message.timestamp, 1_700_000_000_000);
    assert_eq!(p.delivery.message.id, 77);
    assert_eq!(*p.delivery.message.origin_id, "x");
    assert!(p.broadcast.is_none());

    let names: Vec<&str> = sorted(p.delivery.subscribers)
        .iter()
        .map(|id| *bus.subscriber(h, *id).unwrap())
        .collect();
    assert_eq!(names, vec!["s1", "s3"]);
}

#[test]
fn publish_to_empty_topic_reaches_no_one() {
    let mut bus = local("x");
    let h = bus.register_topic("a");
    let p = published(bus.publish(h, "p".to_string(), 1, 2));
    assert!(p.delivery.subscribers.is_empty());
    assert!(p.broadcast.is_none());
}

#[test]
fn publish_reaches_only_its_topic() {
    let mut bus = local("x");
    let a = bus.register_topic("a");
    let b = bus.register_topic("b");
    bus.subscribe(a, "on-a").ok().unwrap();
    bus.subscribe(b, "on-b-0").ok().unwrap();
    bus.subscribe(b, "on-b-1").ok().unwrap();
    let p = published(bus.publish(b, "p".to_string(), 1, 2));
    assert_eq!(sorted(p.delivery.subscribers), vec![0, 1]);
    assert_eq!(p.delivery.message.topic_id, b);
    let p = published(bus.publish(a, "p".to_string(), 2, 3));
    assert_eq!(p.delivery.subscribers, vec![0]);
}

#[test]
fn publish_to_unknown_topic_is_invalid_topic() {
    let mut bus = local("x");
    assert_eq!(refused(bus.publish(0, "p".to_string(), 1, 2)), QueueError::InvalidTopic);
    bus.register_topic("a");
    assert_eq!(refused(bus.publish(1, "p".to_string(), 1, 2)), QueueError::InvalidTopic);
    assert_eq!(refused(bus.publish(NO_TOPIC, "p".to_string(), 1, 2)), QueueError::InvalidTopic);
}

#[test]
fn publish_with_channel_hands_over_the_envelope() {
    let mut bus = attached("x", "app");
    let h = bus.register_topic("alerts");
    bus.subscribe(h, "s").ok().unwrap();
    let p = published(bus.publish(h, "fire".to_string(), 5, 6));
    assert_eq!(p.delivery.subscribers, vec![0]);
    match p.broadcast {
        Some(Envelope::Publish(wire)) => {
            assert_eq!(wire.topic, "alerts");
            assert!(Rc::ptr_eq(&wire.message, &p.delivery.message));
            assert_eq!(wire.message.id, 5);
            assert_eq!(wire.message.timestamp, 6);
            assert_eq!(wire.message.payload, "fire");
            assert_eq!(*wire.message.origin_id, "x");
        },
        _ => panic!("expected a publish envelope"),
    }
}

#[test]
fn broadcast_outcome_reports_a_refused_message() {
    assert_eq!(broadcast_outcome(true), Ok(()));
    assert_eq!(broadcast_outcome(false), Err(QueueError::BroadcastFailure));
}

#[test]
fn refused_broadcast_leaves_the_local_delivery_standing() {
    let mut bus = attached("x", "app");
    let h = bus.register_topic("alerts");
    bus.enable_topic_buffer(h, Some(4)).ok().unwrap();
    let p = published(bus.publish(h, "fire".to_string(), 5, 6));
    assert!(p.broadcast.is_some());
    assert_eq!(broadcast_outcome(false), Err(QueueError::BroadcastFailure));
    assert_eq!(bus.get_buffer_size(h), 1);
    assert_eq!(buffered_ids(&bus, h), vec![5]);
}

#[test]
fn publish_async_has_the_effect_of_publish() {
    let mut bus = attached("x", "app");
    let h = bus.register_topic("alerts");
    bus.subscribe(h, "s").ok().unwrap();
    bus.enable_topic_buffer(h, Some(2)).ok().unwrap();
    let p = published(Bus::publish_async(Some(&mut bus), h, "later".to_string(), 9, 10));
    assert_eq!(p.delivery.subscribers, vec![0]);
    assert_eq!(p.delivery.message.payload, "later");
    assert_eq!(p.delivery.message.id, 9);
    assert_eq!(p.delivery.message.timestamp, 10);
    assert!(matches!(p.broadcast, Some(Envelope::Publish(_))));
    assert_eq!(buffered_ids(&bus, h), vec![9]);
}

#[test]
fn publish_async_sees_the_queue_as_it_is_when_it_runs() {
    let mut bus = local("x");
    let h = bus.register_topic("alerts");
    bus.subscribe(h, "early").ok().unwrap();
    // The publish is issued here; before it runs, the subscriptions change.
    assert!(bus.unsubscribe(h, 0));
    bus.subscribe(h, "late").ok().unwrap();
    let p = published(Bus::publish_async(Some(&mut bus), h, "p".to_string(), 1, 2));
    assert_eq!(p.delivery.subscribers, vec![1]);
}

#[test]
fn publish_async_on_busy_queue_is_recursive_access() {
    let out = Bus::publish_async(None, 0, "p".to_string(), 1, 2);
    assert_eq!(refused(out), QueueError::RecursiveAccess);
}

#[test]
fn publish_async_to_unknown_topic_is_invalid_topic() {
    let mut bus = local("x");
    let out = Bus::publish_async(Some(&mut bus), 3, "p".to_string(), 1, 2);
    assert_eq!(refused(out), QueueError::InvalidTopic);
}

#[test]
fn buffer_of_two_keeps_the_last_two_of_three() {
    let mut bus = local("x");
    let h = bus.register_topic("a");
    assert_eq!(bus.enable_topic_buffer(h, Some(2)), Ok(()));
    assert!(bus.has_buffer(h));
    assert_eq!(bus.get_buffer_capacity(h), 2);
    assert_eq!(bus.get_buffer_size(h), 0);

    published(bus.publish(h, "one".to_string(), 1, 10));
    published(bus.publish(h, "two".to_string(), 2, 20));
    published(bus.publish(h, "three".to_string(), 3, 30));
    assert_eq!(bus.get_buffer_size(h), 2);
    assert_eq!(buffered_ids(&bus, h), vec![2, 3]);

    assert_eq!(bus.clear_buffer(h), 2);
    assert_eq!(bus.get_buffer_size(h), 0);
    assert!(bus.has_buffer(h));
    assert_eq!(bus.get_buffer_capacity(h), 2);

    assert_eq!(bus.disable_topic_buffer(h), Ok(()));
    assert!(!bus.has_buffer(h));
    assert_eq!(bus.get_buffer_size(h), -1);
    assert_eq!(bus.get_buffer_capacity(h), 0);
    assert_eq!(bus.clear_buffer(h), 0);
}

#[test]
fn enable_buffer_without_capacity_has_room_for_a_hundred() {
    let mut bus = local("x");
    let h = bus.register_topic("a");
    assert_eq!(bus.enable_topic_buffer(h, None), Ok(()));
    assert_eq!(bus.get_buffer_capacity(h), 100);
}

#[test]
fn enable_buffer_with_capacity_zero_is_invalid_capacity() {
    let mut bus = local("x");
    let h = bus.register_topic("a");
    assert_eq!(bus.enable_topic_buffer(h, Some(0)), Err(QueueError::InvalidCapacity));
    assert!(!bus.has_buffer(h));
    // The capacity is looked at before the handle.
    assert_eq!(bus.enable_topic_buffer(h + 1, Some(0)), Err(QueueError::InvalidCapacity));
}

#[test]
fn buffer_administration_on_unknown_topic() {
    let mut bus = local("x");
    assert_eq!(bus.enable_topic_buffer(0, Some(3)), Err(QueueError::InvalidTopic));
    assert_eq!(bus.enable_topic_buffer(0, None), Err(QueueError::InvalidTopic));
    assert_eq!(bus.disable_topic_buffer(0), Err(QueueError::InvalidTopic));
    assert_eq!(bus.get_buffer_size(0), -1);
    assert_eq!(bus.get_buffer_capacity(0), 0);
    assert_eq!(bus.clear_buffer(0), 0);
    assert!(!bus.has_buffer(0));
    assert!(bus.get_buffered_messages(0).is_empty());
}

#[test]
fn enabling_again_replaces_the_buffer_and_loses_its_contents() {
    let mut bus = local("x");
    let h = bus.register_topic("a");
    bus.enable_topic_buffer(h, Some(3)).ok().unwrap();
    published(bus.publish(h, "one".to_string(), 1, 10));
    assert_eq!(bus.get_buffer_size(h), 1);
    bus.enable_topic_buffer(h, Some(5)).ok().unwrap();
    assert_eq!(bus.get_buffer_size(h), 0);
    assert_eq!(bus.get_buffer_capacity(h), 5);
}

#[test]
fn disabling_a_buffer_that_is_not_there_is_fine() {
    let mut bus = local("x");
    let h = bus.register_topic("a");
    assert_eq!(bus.disable_topic_buffer(h), Ok(()));
    assert!(!bus.has_buffer(h));
}

#[test]
fn buffered_messages_come_oldest_first_under_the_topic_name() {
    let mut bus = local("x");
    let h = bus.register_topic("alerts");
    bus.enable_topic_buffer(h, Some(3)).ok().unwrap();
    let first = published(bus.publish(h, "one".to_string(), 1, 10));
    published(bus.publish(h, "two".to_string(), 2, 20));

    let snapshot = bus.get_buffered_messages(h);
    assert_eq!(snapshot.len(), 2);
    assert_eq!(snapshot[0].topic, "alerts");
    assert_eq!(snapshot[1].topic, "alerts");
    assert!(Rc::ptr_eq(&snapshot[0].message, &first.delivery.message));
    assert_eq!(snapshot[0].message.payload, "one");
    assert_eq!(snapshot[1].message.payload, "two");
    assert_eq!(snapshot[1].message.timestamp, 20);
    // Taking a snapshot leaves the buffer as it is.
    assert_eq!(bus.get_buffer_size(h), 2);
}

#[test]
fn topic_without_buffer_retains_nothing() {
    let mut bus = local("x");
    let h = bus.register_topic("a");
    published(bus.publish(h, "one".to_string(), 1, 10));
    assert_eq!(bus.get_buffer_size(h), -1);
    assert!(bus.get_buffered_messages(h).is_empty());
}

#[test]
fn unsubscribe_all_counts_and_clears() {
    let mut bus = local("x");
    let h = bus.register_topic("a");
    bus.subscribe(h, "s1").ok().unwrap();
    bus.subscribe(h, "s2").ok().unwrap();
    assert_eq!(bus.unsubscribe_all(h), 2);
    assert_eq!(bus.subscriber_count(h), 0);
    assert_eq!(bus.unsubscribe_all(h), 0);
    assert_eq!(bus.unsubscribe_all(h + 1), 0);
    // The counter moves on.
    assert_eq!(bus.subscribe(h, "s3"), Ok(2));
    let p = published(bus.publish(h, "p".to_string(), 1, 2));
    assert_eq!(p.delivery.subscribers, vec![2]);
}

#[test]
fn destroy_topic_quiesces_and_keeps_the_handle() {
    let mut bus = local("x");
    let a = bus.register_topic("a");
    let b = bus.register_topic("b");
    bus.subscribe(a, "s1").ok().unwrap();
    bus.enable_topic_buffer(a, Some(2)).ok().unwrap();
    published(bus.publish(a, "one".to_string(), 1, 10));

    assert!(bus.destroy_topic(a));
    assert!(bus.has_topic(a));
    assert_eq!(bus.topic_count(), 2);
    assert_eq!(bus.subscriber_count(a), 0);
    assert!(!bus.has_buffer(a));
    // The name still belongs to the old handle, and no new topic aliases it.
    assert!(!bus.create_topic("a"));
    assert_eq!(bus.register_topic("a"), a);
    assert_eq!(bus.register_topic("c"), 2);
    assert_eq!(bus.register_topic("b"), b);
    // A quiesced topic can be published to; no one is reached.
    let p = published(bus.publish(a, "late".to_string(), 2, 20));
    assert!(p.delivery.subscribers.is_empty());
    // The counter was not reset.
    assert_eq!(bus.subscribe(a, "s2"), Ok(1));
}

#[test]
fn destroy_unknown_topic_is_false() {
    let mut bus = local("x");
    assert!(!bus.destroy_topic(0));
    bus.register_topic("a");
    assert!(!bus.destroy_topic(1));
    assert!(bus.destroy_topic(0));
    assert!(bus.destroy_topic(0));
}

#[test]
fn close_clears_everything_and_is_idempotent() {
    let mut bus = attached("x", "app");
    let h = bus.register_topic("a");
    bus.subscribe(h, "s").ok().unwrap();
    bus.enable_topic_buffer(h, Some(2)).ok().unwrap();
    published(bus.publish(h, "one".to_string(), 1, 10));

    assert_eq!(bus.close(), Ok(()));
    assert_eq!(bus.topic_count(), 0);
    assert!(!bus.has_topic(h));
    assert_eq!(bus.get_client_id(), "x");
    assert_eq!(bus.close(), Ok(()));
    assert_eq!(bus.topic_count(), 0);
}

#[test]
fn closed_queue_answers_with_empty_results() {
    let mut bus = attached("x", "app");
    let h = bus.register_topic("a");
    bus.subscribe(h, "s").ok().unwrap();
    bus.close().ok().unwrap();

    assert!(!bus.create_topic("a"));
    assert!(!bus.create_topic("b"));
    assert_eq!(bus.register_topic("a"), NO_TOPIC);
    assert_eq!(bus.topic_count(), 0);
    assert!(!bus.has_topic(NO_TOPIC));
    assert!(!bus.destroy_topic(h));
    assert_eq!(bus.subscribe(h, "s"), Err(QueueError::InvalidTopic));
    assert_eq!(bus.subscribe(NO_TOPIC, "s"), Err(QueueError::InvalidTopic));
    assert!(!bus.unsubscribe(h, 0));
    assert_eq!(bus.unsubscribe_all(h), 0);
    assert_eq!(bus.subscriber_count(h), 0);
    assert_eq!(refused(bus.publish(h, "p".to_string(), 1, 2)), QueueError::InvalidTopic);
    assert_eq!(bus.enable_topic_buffer(h, Some(2)), Err(QueueError::InvalidTopic));
    assert_eq!(bus.disable_topic_buffer(h), Err(QueueError::InvalidTopic));
    assert_eq!(bus.get_buffer_size(h), -1);
    assert_eq!(bus.get_buffer_capacity(h), 0);
    assert_eq!(bus.clear_buffer(h), 0);
    assert!(!bus.has_buffer(h));
    assert!(bus.get_buffered_messages(h).is_empty());
}

#[test]
fn publish_batch_by_id_publishes_in_order() {
    let mut bus = local("x");
    let h = bus.register_topic("a");
    bus.subscribe(h, "s").ok().unwrap();
    bus.enable_topic_buffer(h, Some(2)).ok().unwrap();

    let out = bus.publish_batch_by_id(h, vec![draft("one", 1, 10), draft("two", 2, 20), draft("three", 3, 30)]);
    let list = out.ok().unwrap();
    assert_eq!(list.len(), 3);
    let payloads: Vec<&str> = list.iter().map(|p| p.delivery.message.payload.as_str()).collect();
    assert_eq!(payloads, vec!["one", "two", "three"]);
    for p in &list {
        assert_eq!(p.delivery.subscribers, vec![0]);
        assert_eq!(p.delivery.message.topic_id, h);
        assert!(p.broadcast.is_none());
    }
    assert_eq!(list[2].delivery.message.timestamp, 30);
    assert_eq!(buffered_ids(&bus, h), vec![2, 3]);
}

#[test]
fn publish_batch_by_id_of_nothing_publishes_nothing() {
    let mut bus = local("x");
    let h = bus.register_topic("a");
    bus.enable_topic_buffer(h, Some(2)).ok().unwrap();
    let list = bus.publish_batch_by_id(h, Vec::new()).ok().unwrap();
    assert!(list.is_empty());
    assert_eq!(bus.get_buffer_size(h), 0);
}

#[test]
fn publish_batch_by_id_to_unknown_topic_publishes_nothing() {
    let mut bus = local("x");
    let h = bus.register_topic("a");
    bus.enable_topic_buffer(h, Some(2)).ok().unwrap();
    let out = bus.publish_batch_by_id(h + 1, vec![draft("one", 1, 10)]);
    assert_eq!(refused(out), QueueError::InvalidTopic);
    let out = bus.publish_batch_by_id(h + 1, Vec::new());
    assert_eq!(refused(out), QueueError::InvalidTopic);
    assert_eq!(bus.get_buffer_size(h), 0);
}

#[test]
fn publish_batch_publishes_each_to_its_topic() {
    let mut bus = attached("x", "app");
    let a = bus.register_topic("a");
    let b = bus.register_topic("b");
    bus.subscribe(b, "on-b").ok().unwrap();
    bus.enable_topic_buffer(a, Some(4)).ok().unwrap();

    let BatchOutcome { published, error } =
        bus.publish_batch(vec![(a, draft("one", 1, 10)), (b, draft("two", 2, 20)), (a, draft("three", 3, 30))]);
    assert_eq!(error, None);
    assert_eq!(published.len(), 3);
    assert!(published[0].delivery.subscribers.is_empty());
    assert_eq!(published[1].delivery.subscribers, vec![0]);
    assert_eq!(published[1].delivery.message.topic_id, b);
    match &published[1].broadcast {
        Some(Envelope::Publish(wire)) => assert_eq!(wire.topic, "b"),
        _ => panic!("expected a publish envelope"),
    }
    assert_eq!(buffered_ids(&bus, a), vec![1, 3]);
}

#[test]
fn publish_batch_stops_at_the_first_unknown_topic() {
    let mut bus = local("x");
    let a = bus.register_topic("a");
    bus.enable_topic_buffer(a, Some(4)).ok().unwrap();

    let out = bus.publish_batch(vec![
        (a, draft("one", 1, 10)),
        (a + 5, draft("lost", 2, 20)),
        (a, draft("never", 3, 30)),
    ]);
    assert_eq!(out.error, Some(QueueError::InvalidTopic));
    assert_eq!(out.published.len(), 1);
    assert_eq!(out.published[0].delivery.message.id, 1);
    assert_eq!(buffered_ids(&bus, a), vec![1]);
}

#[test]
fn publish_batch_of_nothing_is_fine() {
    let mut bus = local("x");
    let out = bus.publish_batch(Vec::new());
    assert_eq!(out.error, None);
    assert!(out.published.is_empty());
}
