use message_queue::types::InnerQueue;
use message_queue::{Message, Topic};
use std::collections::HashSet;
use std::rc::Rc;

type Registry = InnerQueue<&'static str, &'static str>;

fn note(id: u64, topic_id: u32) -> Rc<Message<&'static str>> {
    Rc::new(Message {
        id,
        topic_id,
        payload: "note",
        timestamp: 1_000 + id,
        origin_id: Rc::new("origin".to_string()),
    })
}

#[test]
fn test_message_creation() {
    let msg = Message {
        id: 12345,
        topic_id: 1,
        payload: "test payload".to_string(),
        timestamp: 12345,
        origin_id: Rc::new("test-origin".to_string()),
    };

    assert_eq!(msg.id, 12345);
    assert_eq!(msg.topic_id, 1);
    assert_eq!(msg.timestamp, 12345);
    assert_eq!(*msg.origin_id, "test-origin");
    assert_eq!(msg.payload, "test payload");
}

#[test]
fn test_topic_new() {
    let topic: Topic<&'static str, &'static str> = Topic::new("test".to_string());
    assert_eq!(topic.next_id, 0);
    assert!(topic.subscribers.is_empty());
    assert_eq!(topic.name, "test");
}

#[test]
fn test_inner_queue_default() {
    let queue: Registry = InnerQueue {
        topics: Vec::new(),
        channel: None,
        client_id: Rc::new("test-client".to_string()),
        seen_ids: HashSet::new(),
        closed: false,
    };

    assert!(queue.topics.is_empty());
    assert!(queue.get_topic("test").is_none());
    assert!(queue.channel.is_none());
    assert_eq!(*queue.client_id, "test-client");
    assert!(queue.seen_ids.is_empty());
}

#[test]
fn inner_queue_new_is_empty_and_open() {
    let queue: Registry = InnerQueue::new("me".to_string(), Some("room".to_string()));
    assert!(queue.topics.is_empty());
    assert_eq!(queue.channel.as_deref(), Some("room"));
    assert_eq!(*queue.client_id, "me");
    assert!(queue.seen_ids.is_empty());
    assert!(!queue.closed);
}

#[test]
fn topic_new_has_no_buffer() {
    let topic: Topic<&'static str, &'static str> = Topic::new("plain".to_string());
    assert!(!topic.has_buffer());
    assert!(topic.get_buffer().is_none());
}

#[test]
fn topic_with_buffer_has_an_empty_buffer_of_that_capacity() {
    let mut topic: Topic<&'static str, &'static str> = Topic::with_buffer("kept".to_string(), 7);
    assert_eq!(topic.name, "kept");
    assert_eq!(topic.next_id, 0);
    assert!(topic.subscribers.is_empty());
    assert!(topic.has_buffer());
    assert_eq!(topic.get_buffer().unwrap().capacity(), 7);
    assert_eq!(topic.get_buffer().unwrap().len(), 0);
    assert_eq!(topic.get_buffer_mut().unwrap().capacity(), 7);
}

#[test]
fn topic_enable_buffer_replaces_the_buffer_and_hands_back_the_old_one() {
    let mut topic: Topic<&'static str, &'static str> = Topic::new("t".to_string());
    assert!(topic.enable_buffer(2).is_none());
    topic.get_buffer_mut().unwrap().push(note(1, 0));
    topic.get_buffer_mut().unwrap().push(note(2, 0));
    assert_eq!(topic.get_buffer().unwrap().len(), 2);

    let previous = topic.enable_buffer(5).unwrap();
    assert_eq!(previous.capacity(), 2);
    assert_eq!(previous.len(), 2);
    assert_eq!(previous.peek().unwrap().id, 1);
    assert_eq!(topic.get_buffer().unwrap().capacity(), 5);
    assert_eq!(topic.get_buffer().unwrap().len(), 0);
}

#[test]
fn topic_disable_buffer_hands_back_the_buffer() {
    let mut topic: Topic<&'static str, &'static str> = Topic::with_buffer("t".to_string(), 3);
    topic.get_buffer_mut().unwrap().push(note(9, 0));
    let previous = topic.disable_buffer().unwrap();
    assert_eq!(previous.len(), 1);
    assert_eq!(previous.peek().unwrap().id, 9);
    assert!(!topic.has_buffer());
    assert!(topic.get_buffer_mut().is_none());
    assert!(topic.disable_buffer().is_none());
}

#[test]
fn get_or_create_topic_id_gives_dense_handles_from_zero() {
    let mut queue: Registry = InnerQueue::new("me".to_string(), None);
    assert_eq!(queue.get_or_create_topic_id("a"), 0);
    assert_eq!(queue.get_or_create_topic_id("b"), 1);
    assert_eq!(queue.get_or_create_topic_id("c"), 2);
    assert_eq!(queue.topics.len(), 3);
    assert_eq!(queue.topics[1].name, "b");
}

#[test]
fn get_or_create_topic_id_is_idempotent() {
    let mut queue: Registry = InnerQueue::new("me".to_string(), None);
    let first = queue.get_or_create_topic_id("alerts");
    queue.get_or_create_topic_id("other");
    let second = queue.get_or_create_topic_id("alerts");
    assert_eq!(first, 0);
    assert_eq!(second, first);
    assert_eq!(queue.topics.len(), 2);
}

#[test]
fn topic_names_are_told_apart_exactly() {
    let mut queue: Registry = InnerQueue::new("me".to_string(), None);
    assert_eq!(queue.get_or_create_topic_id("alerts"), 0);
    assert_eq!(queue.get_or_create_topic_id("Alerts"), 1);
    assert_eq!(queue.get_or_create_topic_id("alerts "), 2);
    assert_eq!(queue.get_or_create_topic_id(""), 3);
    assert_eq!(queue.get_or_create_topic_id(""), 3);
}

#[test]
fn get_topic_finds_by_name() {
    let mut queue: Registry = InnerQueue::new("me".to_string(), None);
    queue.get_or_create_topic_id("a");
    queue.get_or_create_topic_id("b");
    assert_eq!(queue.get_topic("b").unwrap().name, "b");
    assert!(queue.get_topic("c").is_none());
    queue.get_topic_mut("a").unwrap().next_id = 41;
    assert_eq!(queue.topics[0].next_id, 41);
    assert_eq!(queue.topics[1].next_id, 0);
    assert!(queue.get_topic_mut("zzz").is_none());
}

#[test]
fn get_topic_by_id_finds_by_handle() {
    let mut queue: Registry = InnerQueue::new("me".to_string(), None);
    queue.get_or_create_topic_id("a");
    queue.get_or_create_topic_id("b");
    assert_eq!(queue.get_topic_by_id(0).unwrap().name, "a");
    assert_eq!(queue.get_topic_by_id(1).unwrap().name, "b");
    assert!(queue.get_topic_by_id(2).is_none());
    queue.get_topic_by_id_mut(1).unwrap().enable_buffer(4);
    assert!(queue.topics[1].has_buffer());
    assert!(!queue.topics[0].has_buffer());
    assert!(queue.get_topic_by_id_mut(2).is_none());
}

#[test]
fn dispatch_local_names_each_subscriber_once() {
    let mut queue: Registry = InnerQueue::new("me".to_string(), None);
    let h = queue.get_or_create_topic_id("t");
    queue.topics[h].subscribers.insert(3, "three");
    queue.topics[h].subscribers.insert(8, "eight");
    queue.topics[h].subscribers.insert(5, "five");

    let mut subscribers = queue.dispatch_local(&note(1, h as u32));
    subscribers.sort();
    assert_eq!(subscribers, vec![3, 5, 8]);
}

#[test]
fn dispatch_local_fills_the_buffer_of_its_topic_only() {
    let mut queue: Registry = InnerQueue::new("me".to_string(), None);
    queue.get_or_create_topic_id("a");
    queue.get_or_create_topic_id("b");
    queue.topics[0].enable_buffer(2);
    queue.topics[1].enable_buffer(2);

    let m = note(1, 1);
    assert!(queue.dispatch_local(&m).is_empty());
    assert_eq!(queue.topics[0].get_buffer().unwrap().len(), 0);
    assert_eq!(queue.topics[1].get_buffer().unwrap().len(), 1);
    assert!(Rc::ptr_eq(queue.topics[1].get_buffer().unwrap().peek().unwrap(), &m));
}

#[test]
fn dispatch_local_drops_a_message_for_an_unknown_handle() {
    let mut queue: Registry = InnerQueue::new("me".to_string(), None);
    queue.get_or_create_topic_id("a");
    queue.topics[0].enable_buffer(2);
    queue.topics[0].subscribers.insert(0, "cb");

    assert!(queue.dispatch_local(&note(1, 1)).is_empty());
    assert!(queue.dispatch_local(&note(2, u32::MAX)).is_empty());
    assert_eq!(queue.topics[0].get_buffer().unwrap().len(), 0);
    assert_eq!(queue.topics.len(), 1);
}

#[test]
fn dispatch_local_without_subscribers_still_buffers() {
    let mut queue: Registry = InnerQueue::new("me".to_string(), None);
    queue.get_or_create_topic_id("a");
    queue.topics[0].enable_buffer(1);
    assert!(queue.dispatch_local(&note(1, 0)).is_empty());
    assert!(queue.dispatch_local(&note(2, 0)).is_empty());
    assert_eq!(queue.topics[0].get_buffer().unwrap().peek().unwrap().id, 2);
}
