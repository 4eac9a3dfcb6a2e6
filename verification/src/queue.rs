//! The queue's surface: registration, subscription, publishing, replay
//! buffers, and the exchange with the peers on the channel.

use crate::constants::{
    DEFAULT_BUFFER_CAPACITY, ERR_BORROW_FAILED, ERR_BROADCAST_FAILED, ERR_CHANNEL_NOT_AVAILABLE,
    ERR_CRYPTO_NOT_AVAILABLE, ERR_INVALID_CAPACITY, ERR_INVALID_TOPIC, ERR_WINDOW_NOT_AVAILABLE,
    NO_TOPIC,
};
use crate::js_utils::{message_to_js, parse_js_message, parsed, Envelope, RawMessage, WireMessage};
use crate::model::{named, records, requested, wire_views};
use crate::ring_buffer::messages;
use crate::types::{share, InnerQueue, Message, MessageView, QueueView};
use std::rc::Rc;
use vstd::prelude::*;

verus! {

/// What can go wrong at the queue's surface.
#[derive(Clone, Copy, Debug, PartialEq, Eq, Structural)]
pub enum QueueError {
    /// The handle names no registered topic.
    InvalidTopic,
    /// A replay buffer was asked for with no room at all.
    InvalidCapacity,
    /// Construction failed: the host has no window.
    WindowUnavailable,
    /// Construction failed: the host has no source of identifiers.
    CryptoUnavailable,
    /// Construction failed: the broadcast channel could not be opened.
    ChannelUnavailable,
    /// The message was delivered locally, but the channel refused it.
    BroadcastFailure,
    /// The queue was entered again while an operation on it was under way.
    RecursiveAccess,
}

impl QueueError {
    /// The error in words.
    pub open spec fn spec_message(self) -> Seq<char> {
        match self {
            QueueError::InvalidTopic => ERR_INVALID_TOPIC@,
            QueueError::InvalidCapacity => ERR_INVALID_CAPACITY@,
            QueueError::WindowUnavailable => ERR_WINDOW_NOT_AVAILABLE@,
            QueueError::CryptoUnavailable => ERR_CRYPTO_NOT_AVAILABLE@,
            QueueError::ChannelUnavailable => ERR_CHANNEL_NOT_AVAILABLE@,
            QueueError::BroadcastFailure => ERR_BROADCAST_FAILED@,
            QueueError::RecursiveAccess => ERR_BORROW_FAILED@,
        }
    }

    /// The error in words.
    pub fn message(&self) -> (out: &'static str)
        ensures
            out@ == self.spec_message(),
    {
        match self {
            QueueError::InvalidTopic => ERR_INVALID_TOPIC,
            QueueError::InvalidCapacity => ERR_INVALID_CAPACITY,
            QueueError::WindowUnavailable => ERR_WINDOW_NOT_AVAILABLE,
            QueueError::CryptoUnavailable => ERR_CRYPTO_NOT_AVAILABLE,
            QueueError::ChannelUnavailable => ERR_CHANNEL_NOT_AVAILABLE,
            QueueError::BroadcastFailure => ERR_BROADCAST_FAILED,
            QueueError::RecursiveAccess => ERR_BORROW_FAILED,
        }
    }

    /// Whether the error says that no queue could be made.
    pub fn is_construction_failure(&self) -> (out: bool)
        ensures
            out == (*self == QueueError::WindowUnavailable || *self
                == QueueError::CryptoUnavailable || *self == QueueError::ChannelUnavailable),
    {
        match self {
            QueueError::WindowUnavailable => true,
            QueueError::CryptoUnavailable => true,
            QueueError::ChannelUnavailable => true,
            _ => false,
        }
    }
}

/// One message and the subscriptions whose callbacks are to be invoked
/// with it, each once.
pub struct Delivery<P> {
    pub message: Rc<Message<P>>,
    pub subscribers: Vec<u32>,
}

impl<P> Delivery<P> {
    /// The delivery is of `message`, to each of `receivers` exactly once.
    pub open spec fn is_for(self, message: MessageView<P>, receivers: Set<u32>) -> bool {
        &&& self.message@ == message
        &&& self.subscribers@.no_duplicates()
        &&& self.subscribers@.to_set() == receivers
    }
}

/// What a successful publish leaves to do: the local delivery, and the
/// envelope to broadcast where a channel is attached.
pub struct Publication<P> {
    pub delivery: Delivery<P>,
    pub broadcast: Option<Envelope<WireMessage<P>>>,
}

impl<P> Publication<P> {
    /// The publication is that of `message` on a queue in the state `q`:
    /// it goes to each subscriber of its topic once and, where a channel
    /// is attached, onto the channel under the topic's name.
    pub open spec fn announces<C>(self, q: QueueView<P, C>, message: MessageView<P>) -> bool {
        &&& self.delivery.is_for(message, q.receivers(message.topic_id as int))
        &&& match q.channel {
            Some(_) => self.broadcast matches Some(Envelope::Publish(w)) && w@ == (
                q.topics[message.topic_id as int].name,
                message,
            ),
            None => self.broadcast is None,
        }
    }
}

/// A message to publish, as the host hands it over: the payload, a
/// practically unique id and the time in milliseconds.
pub struct Draft<P> {
    pub payload: P,
    pub id: u64,
    pub timestamp: u64,
}

/// What became of a batch: the publications made, in order, and the error
/// that stopped the batch, if one did.
pub struct BatchOutcome<P> {
    pub published: Vec<Publication<P>>,
    pub error: Option<QueueError>,
}

/// What an envelope from the channel leaves to do: the local deliveries,
/// in order, and the envelope to send in answer, if any.
pub struct Reaction<P> {
    pub deliveries: Vec<Delivery<P>>,
    pub reply: Option<Envelope<WireMessage<P>>>,
}

impl<P> Reaction<P> {
    /// The deliveries are of `messages`, in order, each to the subscribers
    /// that `receivers` gives for its topic, each of them once.
    pub open spec fn delivers(
        self,
        messages: Seq<MessageView<P>>,
        receivers: spec_fn(int) -> Set<u32>,
    ) -> bool {
        &&& self.deliveries@.len() == messages.len()
        &&& forall|k: int|
            0 <= k < messages.len() ==> (#[trigger] self.deliveries@[k]).is_for(
                messages[k],
                receivers(messages[k].topic_id as int),
            )
    }
}

/// What a publish reports once the channel has answered: a message that
/// the channel refused is reported as such. The local delivery has
/// happened by then and stands.
pub fn broadcast_outcome(sent: bool) -> (out: Result<(), QueueError>)
    ensures
        sent ==> out is Ok,
        !sent ==> out == Err::<(), QueueError>(QueueError::BroadcastFailure),
{
    if sent {
        Ok(())
    } else {
        Err(QueueError::BroadcastFailure)
    }
}

/// How the host answered the request to open the broadcast channel.
pub enum ChannelOutcome {
    /// No channel was asked for.
    NotRequested,
    /// The channel of this name is open.
    Opened(String),
    /// The host could not open the channel.
    Refused,
}

/// The publish/subscribe bus: a registry of topics with stable handles,
/// subscriptions, bounded replay buffers and the state needed to keep
/// several instances on one channel in step.
pub struct MessageQueue<P, C> {
    inner: InnerQueue<P, C>,
}

impl<P, C> View for MessageQueue<P, C> {
    type V = QueueView<P, C>;

    /// The state of the queue.
    closed spec fn view(&self) -> QueueView<P, C> {
        self.inner@
    }
}

impl<P, C> MessageQueue<P, C> {
    /// The registry is well formed, and a closed queue has neither topics
    /// nor a channel.
    pub closed spec fn wf(&self) -> bool {
        self.inner.wf() && self.inner@.settled()
    }

    /// A well-formed queue has a well-formed view.
    pub proof fn lemma_view_wf(&self)
        requires
            self.wf(),
        ensures
            self@.wf(),
            self@.settled(),
    {
        self.inner.lemma_view_wf();
    }

    /// A queue for the instance `client_id`, attached to the channel that
    /// the host opened, if one was asked for. A channel that could not be
    /// opened fails the construction. An attached queue announces itself:
    /// the second result is the request for the peers' backlog, to be sent
    /// once, at once.
    pub fn new(client_id: String, channel: ChannelOutcome) -> (out: Result<
        (Self, Option<Envelope<WireMessage<P>>>),
        QueueError,
    >)
        ensures
            match channel {
                ChannelOutcome::NotRequested => out matches Ok((queue, announce)) && queue.wf()
                    && queue@ == QueueView::<P, C>::fresh(client_id@, None) && announce is None,
                ChannelOutcome::Opened(name) => out matches Ok((queue, announce)) && queue.wf()
                    && queue@ == QueueView::<P, C>::fresh(client_id@, Some(name@)) && (
                announce matches Some(Envelope::SyncRequest(origin)) && origin@ == client_id@),
                ChannelOutcome::Refused => out matches Err(e) && e == QueueError::ChannelUnavailable,
            },
    {
        match channel {
            ChannelOutcome::NotRequested => Ok(
                (MessageQueue { inner: InnerQueue::new(client_id, None) }, None),
            ),
            ChannelOutcome::Opened(name) => {
                let announce = Envelope::SyncRequest(client_id.clone());
                Ok((MessageQueue { inner: InnerQueue::new(client_id, Some(name)) }, Some(announce)))
            },
            ChannelOutcome::Refused => Err(QueueError::ChannelUnavailable),
        }
    }

    /// Create the topic `topic_name` unless it exists. Says whether it was
    /// created. On a closed queue nothing is created.
    pub fn create_topic(&mut self, topic_name: &str) -> (created: bool)
        requires
            old(self).wf(),
        ensures
            final(self).wf(),
            created == (!old(self)@.closed && !old(self)@.knows(topic_name@)
                && old(self)@.has_room()),
            final(self)@ == old(self)@.opened(topic_name@),
    {
        if self.inner.closed {
            return false;
        }
        let before = self.inner.topics.len();
        let id = self.inner.get_or_create_topic_id(topic_name);
        proof {
            if old(self)@.knows(topic_name@) {
                let i = old(self)@.handle_of(topic_name@);
                assert(old(self)@.names(i, topic_name@));
            }
        }
        self.inner.topics.len() > before
    }

    /// Register a topic and get its handle, which is the one it got when it
    /// was first registered. On a closed queue nothing is registered, and
    /// the result is the handle that names no topic.
    pub fn register_topic(&mut self, topic_name: &str) -> (handle: u32)
        requires
            old(self).wf(),
        ensures
            final(self).wf(),
            handle == old(self)@.handle_at(topic_name@),
            final(self)@ == old(self)@.opened(topic_name@),
            final(self)@.has(handle as int) ==> final(self)@.names(handle as int, topic_name@),
            final(self)@.has(handle as int) == (!old(self)@.closed && (old(self)@.knows(
                topic_name@,
            ) || old(self)@.has_room())),
    {
        if self.inner.closed {
            return NO_TOPIC;
        }
        self.inner.get_or_create_topic_id(topic_name) as u32
    }

    /// Quiesce the topic: its subscribers and its buffer go, its handle
    /// stays registered. Says whether the handle was known.
    pub fn destroy_topic(&mut self, topic_id: u32) -> (known: bool)
        requires
            old(self).wf(),
        ensures
            final(self).wf(),
            known == old(self)@.has(topic_id as int),
            final(self)@ == old(self)@.destroyed(topic_id as int),
    {
        let idx = topic_id as usize;
        if idx < self.inner.topics.len() {
            let topic = &mut self.inner.topics[idx];
            topic.subscribers.clear();
            topic.disable_buffer();
            proof {
                assert(self@.topics =~= old(self)@.destroyed(topic_id as int).topics);
            }
            true
        } else {
            false
        }
    }

    /// Subscribe `callback` to a topic. The result is the subscription's
    /// id, which is the topic's counter at that time.
    pub fn subscribe(&mut self, topic_id: u32, callback: C) -> (out: Result<u32, QueueError>)
        requires
            old(self).wf(),
        ensures
            final(self).wf(),
            final(self)@ == old(self)@.subscribed(topic_id as int, callback),
            match out {
                Ok(id) => old(self)@.has(topic_id as int) && id == old(self)@.next_id_of(
                    topic_id as int,
                ),
                Err(e) => !old(self)@.has(topic_id as int) && e == QueueError::InvalidTopic,
            },
    {
        let idx = topic_id as usize;
        if idx < self.inner.topics.len() {
            let topic = &mut self.inner.topics[idx];
            let sub_id = topic.next_id;
            topic.subscribers.insert(sub_id, callback);
            topic.next_id = topic.next_id.wrapping_add(1);
            proof {
                assert(self@.topics =~= old(self)@.subscribed(topic_id as int, callback).topics);
            }
            Ok(sub_id)
        } else {
            Err(QueueError::InvalidTopic)
        }
    }

    /// End a subscription. Says whether there was one: false where the
    /// handle or the subscription id is unknown.
    pub fn unsubscribe(&mut self, topic_id: u32, sub_id: u32) -> (removed: bool)
        requires
            old(self).wf(),
        ensures
            final(self).wf(),
            removed == old(self)@.receivers(topic_id as int).contains(sub_id),
            final(self)@ == old(self)@.unsubscribed(topic_id as int, sub_id),
    {
        let idx = topic_id as usize;
        if idx < self.inner.topics.len() {
            let topic = &mut self.inner.topics[idx];
            let removed = topic.subscribers.remove(&sub_id).is_some();
            proof {
                let h = topic_id as int;
                assert(self@.topics[h].subscribers =~= old(self)@.topics[h].subscribers.remove(
                    sub_id,
                ));
                assert(self@.topics =~= old(self)@.unsubscribed(topic_id as int, sub_id).topics);
            }
            removed
        } else {
            false
        }
    }

    /// The callback filed under the subscription `sub_id` of a topic.
    pub fn subscriber(&self, topic_id: u32, sub_id: u32) -> (out: Option<&C>)
        requires
            self.wf(),
        ensures
            match out {
                Some(callback) => self@.receivers(topic_id as int).contains(sub_id) && *callback
                    == self@.topics[topic_id as int].subscribers[sub_id],
                None => !self@.receivers(topic_id as int).contains(sub_id),
            },
    {
        let idx = topic_id as usize;
        if idx < self.inner.topics.len() {
            self.inner.topics[idx].subscribers.get(&sub_id)
        } else {
            None
        }
    }

    /// The identifier of this instance.
    pub fn get_client_id(&self) -> (out: String)
        ensures
            out@ == self@.client_id,
    {
        (*self.inner.client_id).clone()
    }

    /// Get the number of topics.
    pub fn topic_count(&self) -> (n: usize)
        ensures
            n == self@.topics.len(),
    {
        self.inner.topics.len()
    }

    /// Get the number of subscribers of a topic; 0 for an unknown handle.
    pub fn subscriber_count(&self, topic_id: u32) -> (n: usize)
        requires
            self.wf(),
        ensures
            n == self@.receivers(topic_id as int).len(),
    {
        match self.inner.get_topic_by_id(topic_id as usize) {
            Some(topic) => topic.subscribers.len(),
            None => 0,
        }
    }

    /// Check if a topic exists.
    pub fn has_topic(&self, topic_id: u32) -> (known: bool)
        ensures
            known == self@.has(topic_id as int),
    {
        self.has_topic_id(topic_id)
    }

    /// Whether the handle names a registered topic.
    fn has_topic_id(&self, topic_id: u32) -> (known: bool)
        ensures
            known == self@.has(topic_id as int),
    {
        (topic_id as usize) < self.inner.topics.len()
    }

    /// Unsubscribe all subscribers from a topic. Says how many there were.
    pub fn unsubscribe_all(&mut self, topic_id: u32) -> (count: usize)
        requires
            old(self).wf(),
        ensures
            final(self).wf(),
            count == old(self)@.receivers(topic_id as int).len(),
            final(self)@ == old(self)@.silenced(topic_id as int),
    {
        let idx = topic_id as usize;
        if idx < self.inner.topics.len() {
            let topic = &mut self.inner.topics[idx];
            let count = topic.subscribers.len();
            topic.subscribers.clear();
            proof {
                assert(self@.topics =~= old(self)@.silenced(topic_id as int).topics);
            }
            count
        } else {
            0
        }
    }

    /// Enable message buffering for a topic; without a capacity, there is
    /// room for 100 messages. Messages are retained in a ring buffer for
    /// later replay. A buffer that the topic already has is replaced, its
    /// contents lost. A capacity of 0 is refused before the handle is
    /// looked at.
    pub fn enable_topic_buffer(&mut self, topic_id: u32, capacity: Option<usize>) -> (out: Result<
        (),
        QueueError,
    >)
        requires
            old(self).wf(),
        ensures
            final(self).wf(),
            match out {
                Ok(_) => requested(capacity) > 0 && old(self)@.has(topic_id as int) && final(self)@
                    == old(self)@.buffered(topic_id as int, requested(capacity)),
                Err(e) => final(self)@ == old(self)@ && (if requested(capacity) == 0 {
                    e == QueueError::InvalidCapacity
                } else {
                    !old(self)@.has(topic_id as int) && e == QueueError::InvalidTopic
                }),
            },
    {
        let cap = match capacity {
            Some(c) => c,
            None => DEFAULT_BUFFER_CAPACITY,
        };
        if cap == 0 {
            return Err(QueueError::InvalidCapacity);
        }
        let idx = topic_id as usize;
        if idx < self.inner.topics.len() {
            let topic = &mut self.inner.topics[idx];
            topic.enable_buffer(cap);
            proof {
                assert(self@.topics =~= old(self)@.buffered(
                    topic_id as int,
                    requested(capacity),
                ).topics);
            }
            Ok(())
        } else {
            Err(QueueError::InvalidTopic)
        }
    }

    /// Disable message buffering for a topic. Its buffered messages go.
    pub fn disable_topic_buffer(&mut self, topic_id: u32) -> (out: Result<(), QueueError>)
        requires
            old(self).wf(),
        ensures
            final(self).wf(),
            final(self)@ == old(self)@.unbuffered(topic_id as int),
            match out {
                Ok(_) => old(self)@.has(topic_id as int),
                Err(e) => !old(self)@.has(topic_id as int) && e == QueueError::InvalidTopic,
            },
    {
        let idx = topic_id as usize;
        if idx < self.inner.topics.len() {
            let topic = &mut self.inner.topics[idx];
            topic.disable_buffer();
            proof {
                assert(self@.topics =~= old(self)@.unbuffered(topic_id as int).topics);
            }
            Ok(())
        } else {
            Err(QueueError::InvalidTopic)
        }
    }

    /// Get the number of messages that a topic's buffer retains, or -1 if
    /// the handle is unknown or the topic has no buffer. A number beyond
    /// the range of the result is cut to its low 32 bits.
    pub fn get_buffer_size(&self, topic_id: u32) -> (size: i32)
        requires
            self.wf(),
        ensures
            match self@.buffer_of(topic_id as int) {
                Some(b) => size == b.items.len() as i32 && (b.items.len() <= i32::MAX ==> size
                    == b.items.len()),
                None => size == -1,
            },
    {
        match self.inner.get_topic_by_id(topic_id as usize) {
            Some(topic) => match topic.get_buffer() {
                Some(b) => {
                    let n = b.len();
                    #[verifier::truncate]
                    (n as i32)
                },
                None => -1,
            },
            None => -1,
        }
    }

    /// Get the capacity of a topic's buffer, or 0 if the handle is unknown
    /// or the topic has no buffer.
    pub fn get_buffer_capacity(&self, topic_id: u32) -> (capacity: usize)
        requires
            self.wf(),
        ensures
            match self@.buffer_of(topic_id as int) {
                Some(b) => capacity == b.capacity,
                None => capacity == 0,
            },
    {
        match self.inner.get_topic_by_id(topic_id as usize) {
            Some(topic) => match topic.get_buffer() {
                Some(b) => b.capacity(),
                None => 0,
            },
            None => 0,
        }
    }

    /// Clear all buffered messages of a topic. Says how many there were.
    pub fn clear_buffer(&mut self, topic_id: u32) -> (count: usize)
        requires
            old(self).wf(),
        ensures
            final(self).wf(),
            count == old(self)@.retained(topic_id as int).len(),
            final(self)@ == old(self)@.cleared(topic_id as int),
    {
        let idx = topic_id as usize;
        if idx < self.inner.topics.len() {
            let topic = &mut self.inner.topics[idx];
            let count = match topic.get_buffer_mut() {
                Some(buffer) => {
                    let count = buffer.len();
                    buffer.clear();
                    count
                },
                None => 0,
            };
            proof {
                assert(self@.topics =~= old(self)@.cleared(topic_id as int).topics);
            }
            count
        } else {
            0
        }
    }

    /// Check if a topic has buffering enabled.
    pub fn has_buffer(&self, topic_id: u32) -> (b: bool)
        ensures
            b == self@.buffer_of(topic_id as int) is Some,
    {
        match self.inner.get_topic_by_id(topic_id as usize) {
            Some(topic) => topic.has_buffer(),
            None => false,
        }
    }

    /// Get the buffered messages of a topic as they would go onto the
    /// channel, oldest first; none if the handle is unknown or the topic
    /// has no buffer.
    pub fn get_buffered_messages(&self, topic_id: u32) -> (out: Vec<WireMessage<P>>)
        requires
            self.wf(),
        ensures
            wire_views(out@) == self@.snapshot(topic_id as int),
    {
        let mut out: Vec<WireMessage<P>> = Vec::new();
        match self.inner.get_topic_by_id(topic_id as usize) {
            Some(topic) => match topic.get_buffer() {
                Some(buffer) => {
                    let retained = buffer.to_vec();
                    let mut i: usize = 0;
                    while i < retained.len()
                        invariant
                            i <= retained@.len(),
                            messages(retained@) == buffer@,
                            out@.len() == i,
                            wire_views(out@) == named(topic.name@, buffer@.take(i as int)),
                        decreases retained@.len() - i,
                    {
                        let ghost before = out@;
                        out.push(message_to_js(&retained[i], topic.name.as_str()));
                        i = i + 1;
                        proof {
                            assert(messages(retained@)[i - 1] == retained@[i - 1]@);
                            assert forall|k: int| 0 <= k < i implies wire_views(out@)[k] == named(
                                topic.name@,
                                buffer@.take(i as int),
                            )[k] by {
                                if k < i - 1 {
                                    assert(wire_views(before)[k] == named(
                                        topic.name@,
                                        buffer@.take(i - 1),
                                    )[k]);
                                }
                            }
                            assert(wire_views(out@) =~= named(topic.name@, buffer@.take(i as int)));
                        }
                    }
                    proof {
                        assert(buffer@.take(i as int) =~= buffer@);
                    }
                },
                None => {
                    assert(wire_views(out@) =~= self@.snapshot(topic_id as int));
                },
            },
            None => {
                assert(wire_views(out@) =~= self@.snapshot(topic_id as int));
            },
        }
        out
    }

    /// Publish a message to a topic. `id` and `timestamp` come from the
    /// host: a practically unique number and the time in milliseconds.
    ///
    /// The topic's replay buffer takes the message, and the result names
    /// the subscriptions to invoke. Where a channel is attached, the
    /// result also holds the envelope to broadcast once the callbacks
    /// have run.
    pub fn publish(&mut self, topic_id: u32, payload: P, id: u64, timestamp: u64) -> (out: Result<
        Publication<P>,
        QueueError,
    >)
        requires
            old(self).wf(),
        ensures
            final(self).wf(),
            match out {
                Ok(p) => {
                    let message = old(self)@.stamped(topic_id, payload, id, timestamp);
                    &&& old(self)@.has(topic_id as int)
                    &&& final(self)@ == old(self)@.dispatched(message)
                    &&& p.announces(old(self)@, message)
                },
                Err(e) => !old(self)@.has(topic_id as int) && e == QueueError::InvalidTopic
                    && final(self)@ == old(self)@,
            },
    {
        if !self.has_topic_id(topic_id) {
            return Err(QueueError::InvalidTopic);
        }
        let message = Rc::new(
            Message { id, topic_id, payload, timestamp, origin_id: share(&self.inner.client_id) },
        );
        let subscribers = self.inner.dispatch_local(&message);
        proof {
            let h = topic_id as int;
            assert(self.inner@.topics.len() == old(self).inner@.topics.len());
            assert(self.inner@.topics[h].name == old(self).inner@.topics[h].name);
        }
        let broadcast = if self.inner.channel.is_some() {
            let topic_name = self.inner.topics[topic_id as usize].name.as_str();
            Some(Envelope::Publish(message_to_js(&message, topic_name)))
        } else {
            None
        };
        Ok(Publication { delivery: Delivery { message, subscribers }, broadcast })
    }

    /// The deferred step of an asynchronous publish. It runs when the host
    /// gets to it, and sees the queue as it is then. `queue` is the queue
    /// if the deferred step could get hold of it, and `None` if it is in
    /// the middle of another operation: then nothing is published. The
    /// effect of a step that gets hold of the queue is that of `publish`.
    pub fn publish_async(
        queue: Option<&mut Self>,
        topic_id: u32,
        payload: P,
        id: u64,
        timestamp: u64,
    ) -> (out: Result<Publication<P>, QueueError>)
        requires
            queue matches Some(q) ==> q.wf(),
        ensures
            match queue {
                Some(q) => {
                    &&& final(q).wf()
                    &&& match out {
                        Ok(p) => {
                            let message = q@.stamped(topic_id, payload, id, timestamp);
                            &&& q@.has(topic_id as int)
                            &&& final(q)@ == q@.dispatched(message)
                            &&& p.announces(q@, message)
                        },
                        Err(e) => !q@.has(topic_id as int) && e == QueueError::InvalidTopic
                            && final(q)@ == q@,
                    }
                },
                None => out matches Err(e) && e == QueueError::RecursiveAccess,
            },
    {
        match queue {
            Some(q) => q.publish(topic_id, payload, id, timestamp),
            None => Err(QueueError::RecursiveAccess),
        }
    }

    /// Take one record from the channel of an attached queue.
    fn process_message(&mut self, raw: RawMessage<P>) -> (out: Option<Delivery<P>>)
        requires
            old(self).wf(),
            old(self)@.channel is Some,
        ensures
            final(self).wf(),
            final(self)@ == old(self)@.taken(raw),
            match old(self)@.taken_delivery(raw) {
                Some(m) => out matches Some(d) && d.is_for(
                    m,
                    old(self)@.receivers(m.topic_id as int),
                ),
                None => out is None,
            },
    {
        match parse_js_message(raw) {
            Err(_) => None,
            Ok((m, topic_name)) => {
                let ghost p = parsed(raw)->Ok_0;
                if self.inner.seen_ids.contains(&m.id) {
                    return None;
                }
                self.inner.seen_ids.insert(m.id);
                let ghost noted = self.inner@;
                proof {
                    assert(noted =~= QueueView {
                        seen_ids: old(self)@.seen_ids.insert(p.id),
                        ..old(self)@
                    });
                    old(self).lemma_view_wf();
                    old(self)@.lemma_handle_framed(noted, p.topic);
                }
                let handle = self.inner.get_or_create_topic_id(topic_name.as_str()) as u32;
                let mut m = m;
                m.topic_id = handle;
                if !(*m.origin_id == *self.inner.client_id) {
                    let message = Rc::new(m);
                    let ghost before = self.inner@;
                    let subscribers = self.inner.dispatch_local(&message);
                    proof {
                        let h = message.topic_id as int;
                        assert(before.receivers(h) =~= old(self)@.receivers(h));
                    }
                    Some(Delivery { message, subscribers })
                } else {
                    None
                }
            },
        }
    }

    /// The whole replay backlog as it goes onto the channel: for each
    /// topic in the order of the handles, what it retains, oldest first.
    fn backlog(&self) -> (all: Vec<WireMessage<P>>)
        requires
            self.wf(),
        ensures
            wire_views(all@) == self@.backlog(),
    {
        let mut all: Vec<WireMessage<P>> = Vec::new();
        let mut t: usize = 0;
        assert(wire_views(all@) =~= self@.backlog_upto(0));
        while t < self.inner.topics.len()
            invariant
                self.wf(),
                t <= self.inner.topics@.len(),
                wire_views(all@) == self@.backlog_upto(t as int),
            decreases self.inner.topics@.len() - t,
        {
            let topic = &self.inner.topics[t];
            let ghost prefix = wire_views(all@);
            match topic.get_buffer() {
                Some(buffer) => {
                    let mut it = buffer.iter();
                    let mut next = it.next();
                    let ghost mut k: int = 0;
                    assert(wire_views(all@) =~= prefix + named(topic.name@, buffer@.take(0)));
                    while next.is_some()
                        invariant
                            it.wf(),
                            0 <= k <= buffer@.len(),
                            next matches Some(m) ==> k < buffer@.len() && m@ == buffer@[k]
                                && it.remaining() == buffer@.skip(k + 1),
                            next is None ==> k == buffer@.len(),
                            wire_views(all@) == prefix + named(topic.name@, buffer@.take(k)),
                        decreases buffer@.len() - k,
                    {
                        let ghost before = all@;
                        let msg = next.unwrap();
                        all.push(message_to_js(msg, topic.name.as_str()));
                        next = it.next();
                        proof {
                            if k + 1 < buffer@.len() {
                                assert(buffer@.skip(k + 1).skip(1) =~= buffer@.skip(k + 2));
                                assert(buffer@.skip(k + 1)[0] == buffer@[k + 1]);
                            }
                            assert(wire_views(all@) =~= wire_views(before).push(
                                (topic.name@, buffer@[k]),
                            ));
                            assert(named(topic.name@, buffer@.take(k + 1)) =~= named(
                                topic.name@,
                                buffer@.take(k),
                            ).push((topic.name@, buffer@[k])));
                            assert(wire_views(all@) =~= prefix + named(
                                topic.name@,
                                buffer@.take(k + 1),
                            ));
                            k = k + 1;
                        }
                    }
                    proof {
                        assert(buffer@.take(k) =~= buffer@);
                    }
                },
                None => {
                    assert(wire_views(all@) =~= prefix + named(
                        topic.name@,
                        Seq::<MessageView<P>>::empty(),
                    ));
                },
            }
            t = t + 1;
        }
        all
    }

    /// Take one envelope from the channel.
    ///
    /// A queue without a channel takes nothing. Of a published message, and
    /// of each message of a backlog in order: a record that is no message
    /// is dropped, and so is one whose id was seen before. Otherwise the
    /// id is noted and the topic's name resolved to a handle, the topic
    /// being created if the name is new, and the message is dispatched
    /// locally unless its origin is this instance. A request for the backlog is
    /// answered with everything that the topics retain, unless the request
    /// is this instance's own or nothing is retained.
    pub fn receive(&mut self, envelope: Envelope<RawMessage<P>>) -> (out: Reaction<P>)
        requires
            old(self).wf(),
        ensures
            final(self).wf(),
            old(self)@.channel is None ==> final(self)@ == old(self)@ && out.deliveries@.len() == 0
                && out.reply is None,
            old(self)@.channel is Some ==> {
                &&& final(self)@ == old(self)@.taken_all(records(envelope))
                &&& out.delivers(
                    old(self)@.delivered_all(records(envelope)),
                    |h: int| old(self)@.receivers(h),
                )
                &&& match old(self)@.reply_to(envelope) {
                    Some(backlog) => out.reply matches Some(Envelope::SyncResponse(list))
                        && wire_views(list@) == backlog,
                    None => out.reply is None,
                }
            },
    {
        let mut deliveries: Vec<Delivery<P>> = Vec::new();
        if self.inner.channel.is_none() {
            return Reaction { deliveries, reply: None };
        }
        let ghost start = self@;
        let ghost carried = records(envelope);
        proof {
            self.lemma_view_wf();
            reveal_with_fuel(QueueView::taken_all, 2);
            reveal_with_fuel(QueueView::delivered_all, 2);
        }
        match envelope {
            Envelope::Publish(raw) => {
                proof {
                    assert(carried.drop_last() =~= Seq::<RawMessage<P>>::empty());
                    assert(carried.last() == raw);
                }
                match self.process_message(raw) {
                    Some(d) => {
                        deliveries.push(d);
                    },
                    None => {},
                }
                Reaction { deliveries, reply: None }
            },
            Envelope::SyncRequest(origin) => {
                let mut reply: Option<Envelope<WireMessage<P>>> = None;
                if !(origin == *self.inner.client_id) {
                    let all = self.backlog();
                    if all.len() > 0 {
                        reply = Some(Envelope::SyncResponse(all));
                    }
                }
                Reaction { deliveries, reply }
            },
            Envelope::SyncResponse(list) => {
                for raw in it: list
                    invariant
                        it.seq() == carried,
                        start.wf(),
                        self.wf(),
                        self@.channel is Some,
                        self@ == start.taken_all(carried.take(it.index())),
                        forall|h: int| #[trigger] self@.receivers(h) == start.receivers(h),
                        (Reaction { deliveries, reply: None }).delivers(
                            start.delivered_all(carried.take(it.index())),
                            |h: int| start.receivers(h),
                        ),
                {
                    let ghost i = it.index();
                    let ghost before = self@;
                    proof {
                        self.lemma_view_wf();
                        before.lemma_taken_keeps_receivers(raw);
                        assert(carried.take(i + 1).drop_last() =~= carried.take(i));
                        assert(carried.take(i + 1).last() == raw);
                    }
                    match self.process_message(raw) {
                        Some(d) => {
                            deliveries.push(d);
                        },
                        None => {},
                    }
                }
                proof {
                    assert(carried.take(carried.len() as int) =~= carried);
                }
                Reaction { deliveries, reply: None }
            },
        }
    }

    /// Publish several messages to one topic, in order. An unknown handle
    /// is refused before anything is published.
    pub fn publish_batch_by_id(&mut self, topic_id: u32, drafts: Vec<Draft<P>>) -> (out: Result<
        Vec<Publication<P>>,
        QueueError,
    >)
        requires
            old(self).wf(),
        ensures
            final(self).wf(),
            match out {
                Ok(published) => {
                    let messages = old(self)@.stamped_each(topic_id, drafts@);
                    &&& old(self)@.has(topic_id as int)
                    &&& final(self)@ == old(self)@.dispatched_all(messages)
                    &&& published@.len() == drafts@.len()
                    &&& forall|k: int|
                        0 <= k < drafts@.len() ==> (#[trigger] published@[k]).announces(
                            old(self)@,
                            messages[k],
                        )
                },
                Err(e) => !old(self)@.has(topic_id as int) && e == QueueError::InvalidTopic
                    && final(self)@ == old(self)@,
            },
    {
        if !self.has_topic_id(topic_id) {
            return Err(QueueError::InvalidTopic);
        }
        let ghost start = self@;
        let ghost given = drafts@;
        let ghost messages = start.stamped_each(topic_id, given);
        let mut published: Vec<Publication<P>> = Vec::new();
        for draft in it: drafts
            invariant
                it.seq() == given,
                messages == start.stamped_each(topic_id, given),
                start.has(topic_id as int),
                self.wf(),
                start.alike(self@),
                self@ == start.dispatched_all(messages.take(it.index())),
                published@.len() == it.index(),
                forall|k: int|
                    0 <= k < it.index() ==> (#[trigger] published@[k]).announces(start, messages[k]),
        {
            let ghost i = it.index();
            let ghost before = self@;
            proof {
                before.lemma_dispatched_alike(messages[i]);
                assert(messages.take(i + 1).drop_last() =~= messages.take(i));
                assert(messages.take(i + 1).last() == messages[i]);
            }
            match self.publish(topic_id, draft.payload, draft.id, draft.timestamp) {
                Ok(p) => {
                    published.push(p);
                },
                Err(_) => {},
            }
        }
        proof {
            assert(messages.take(given.len() as int) =~= messages);
        }
        Ok(published)
    }

    /// Publish several messages, each to its own topic, in order. The
    /// first message for an unknown handle stops the batch: the messages
    /// before it are published, it and the ones after it are not.
    pub fn publish_batch(&mut self, messages: Vec<(u32, Draft<P>)>) -> (out: BatchOutcome<P>)
        requires
            old(self).wf(),
        ensures
            final(self).wf(),
            ({
                let made = old(self)@.stamped_all(messages@);
                let n = out.published@.len() as int;
                &&& n <= messages@.len()
                &&& forall|k: int| 0 <= k < n ==> old(self)@.has((#[trigger] messages@[k]).0 as int)
                &&& n < messages@.len() ==> !old(self)@.has(messages@[n].0 as int) && out.error
                    == Some(QueueError::InvalidTopic)
                &&& n == messages@.len() ==> out.error is None
                &&& final(self)@ == old(self)@.dispatched_all(made.take(n))
                &&& forall|k: int|
                    0 <= k < n ==> (#[trigger] out.published@[k]).announces(old(self)@, made[k])
            }),
    {
        let ghost start = self@;
        let ghost given = messages@;
        let ghost made = start.stamped_all(given);
        let mut published: Vec<Publication<P>> = Vec::new();
        let mut error: Option<QueueError> = None;
        proof {
            assert(made.take(0) =~= Seq::<MessageView<P>>::empty());
        }
        for item in it: messages
            invariant
                it.seq() == given,
                made == start.stamped_all(given),
                self.wf(),
                start.alike(self@),
                self@ == start.dispatched_all(made.take(published@.len() as int)),
                published@.len() <= it.index(),
                error is None ==> published@.len() == it.index(),
                error is Some ==> published@.len() < it.index() && !start.has(
                    given[published@.len() as int].0 as int,
                ) && error == Some(QueueError::InvalidTopic),
                forall|k: int| 0 <= k < published@.len() ==> start.has((#[trigger] given[k]).0 as int),
                forall|k: int|
                    0 <= k < published@.len() ==> (#[trigger] published@[k]).announces(start, made[k]),
        {
            let ghost i = it.index();
            let ghost before = self@;
            if error.is_none() {
                proof {
                    before.lemma_dispatched_alike(made[i]);
                    assert(made.take(i + 1).drop_last() =~= made.take(i));
                    assert(made.take(i + 1).last() == made[i]);
                }
                let (topic_id, draft) = item;
                match self.publish(topic_id, draft.payload, draft.id, draft.timestamp) {
                    Ok(p) => {
                        published.push(p);
                    },
                    Err(e) => {
                        error = Some(e);
                    },
                }
            }
        }
        BatchOutcome { published, error }
    }

    /// Detach from the channel and drop all topics, with their subscribers
    /// and buffers. Closing a closed queue changes nothing.
    pub fn close(&mut self) -> (out: Result<(), QueueError>)
        requires
            old(self).wf(),
        ensures
            final(self).wf(),
            out is Ok,
            final(self)@ == old(self)@.shut(),
    {
        self.inner.channel = None;
        self.inner.topics.clear();
        self.inner.closed = true;
        proof {
            assert(self@.topics =~= Seq::empty());
        }
        Ok(())
    }
}

} // verus!
