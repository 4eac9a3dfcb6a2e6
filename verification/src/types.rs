//! Messages, topics and the registry, with the views that the contracts
//! speak of.

use crate::constants::NO_TOPIC;
use crate::ring_buffer::{pushed, RingBuffer};
use std::collections::{HashMap, HashSet};
use std::rc::Rc;
use vstd::prelude::*;

verus! {

/// One published message. The payload is carried, never looked into.
#[derive(Clone)]
pub struct Message<P> {
    /// Identifier chosen by the publisher; practically unique.
    pub id: u64,
    /// Handle of the topic the message belongs to.
    pub topic_id: u32,
    /// What the publisher handed over.
    pub payload: P,
    /// Milliseconds since the epoch at which the message was created.
    pub timestamp: u64,
    /// Identifier of the instance that published the message.
    pub origin_id: Rc<String>,
}

/// What a message says: its fields, the origin as plain text.
pub struct MessageView<P> {
    pub id: u64,
    pub topic_id: u32,
    pub payload: P,
    pub timestamp: u64,
    pub origin_id: Seq<char>,
}

impl<P> View for Message<P> {
    type V = MessageView<P>;

    /// What the message says.
    open spec fn view(&self) -> MessageView<P> {
        MessageView {
            id: self.id,
            topic_id: self.topic_id,
            payload: self.payload,
            timestamp: self.timestamp,
            origin_id: self.origin_id@,
        }
    }
}

/// `std::rc::Rc::clone`: a second pointer to the same allocation, so the
/// value behind the result is the value behind the argument.
#[verifier::external_body]
pub(crate) fn share<T>(rc: &Rc<T>) -> (res: Rc<T>)
    ensures
        res == *rc,
{
    Rc::clone(rc)
}

/// What a replay buffer is, to the outside: its capacity and the messages
/// it retains, oldest first.
#[verifier::ext_equal]
pub struct BufferView<P> {
    pub capacity: nat,
    pub items: Seq<MessageView<P>>,
}

impl<P> BufferView<P> {
    /// The buffer after `msg` arrived.
    pub open spec fn stored(self, msg: MessageView<P>) -> Self {
        BufferView { capacity: self.capacity, items: pushed(self.items, self.capacity, msg) }
    }

    /// The buffer with nothing retained.
    pub open spec fn cleared(self) -> Self {
        BufferView { capacity: self.capacity, items: Seq::empty() }
    }
}

/// What a topic is, to the outside.
#[verifier::ext_equal]
pub struct TopicView<P, C> {
    pub name: Seq<char>,
    pub subscribers: Map<u32, C>,
    pub next_id: u32,
    pub buffer: Option<BufferView<P>>,
}

impl<P, C> TopicView<P, C> {
    /// A topic as it is right after its creation.
    pub open spec fn fresh(name: Seq<char>) -> Self {
        TopicView { name, subscribers: Map::empty(), next_id: 0, buffer: None }
    }

    /// The topic after `callback` subscribed: it is filed under the next
    /// subscription id, and the counter moves on, wrapping at its end.
    pub open spec fn subscribed(self, callback: C) -> Self {
        TopicView {
            subscribers: self.subscribers.insert(self.next_id, callback),
            next_id: self.next_id.wrapping_add(1),
            ..self
        }
    }

    /// The topic without the subscription `id`.
    pub open spec fn unsubscribed(self, id: u32) -> Self {
        TopicView { subscribers: self.subscribers.remove(id), ..self }
    }

    /// The topic without any subscriber.
    pub open spec fn silenced(self) -> Self {
        TopicView { subscribers: Map::empty(), ..self }
    }

    /// The topic with a new, empty replay buffer of the given capacity.
    pub open spec fn buffered(self, capacity: nat) -> Self {
        TopicView { buffer: Some(BufferView { capacity, items: Seq::empty() }), ..self }
    }

    /// The topic without a replay buffer.
    pub open spec fn unbuffered(self) -> Self {
        TopicView { buffer: None, ..self }
    }

    /// The topic with subscribers and buffer gone; name and counter stay.
    pub open spec fn quiesced(self) -> Self {
        self.silenced().unbuffered()
    }

    /// The topic after `msg` was offered to its replay buffer, if it has one.
    pub open spec fn stored(self, msg: MessageView<P>) -> Self {
        match self.buffer {
            Some(b) => TopicView { buffer: Some(b.stored(msg)), ..self },
            None => self,
        }
    }

    /// The topic with its replay buffer emptied, if it has one.
    pub open spec fn cleared(self) -> Self {
        match self.buffer {
            Some(b) => TopicView { buffer: Some(b.cleared()), ..self },
            None => self,
        }
    }

    /// The messages that the topic retains, oldest first.
    pub open spec fn retained(self) -> Seq<MessageView<P>> {
        match self.buffer {
            Some(b) => b.items,
            None => Seq::empty(),
        }
    }
}

/// Represents a topic with its subscribers.
pub struct Topic<P, C> {
    /// The name of the topic.
    pub name: String,
    /// Map of subscription id to callback.
    pub subscribers: HashMap<u32, C>,
    /// Next subscription id to assign.
    pub next_id: u32,
    /// Replay buffer; `None` while messages are not retained.
    pub buffer: Option<RingBuffer<P>>,
}

impl<P, C> View for Topic<P, C> {
    type V = TopicView<P, C>;

    /// The topic, with its table and its buffer as what they hold.
    open spec fn view(&self) -> TopicView<P, C> {
        TopicView {
            name: self.name@,
            subscribers: self.subscribers@,
            next_id: self.next_id,
            buffer: self.buffer_view(),
        }
    }
}

impl<P, C> Topic<P, C> {
    /// The replay buffer as the outside sees it.
    pub open spec fn buffer_view(&self) -> Option<BufferView<P>> {
        match self.buffer {
            Some(b) => Some(BufferView { capacity: b.spec_capacity(), items: b@ }),
            None => None,
        }
    }

    /// The replay buffer, where there is one, is well formed.
    pub open spec fn wf(&self) -> bool {
        match self.buffer {
            Some(b) => b.wf(),
            None => true,
        }
    }

    /// A replay buffer never retains more than its capacity, which fits a
    /// machine word.
    pub proof fn lemma_buffer_bounded(&self)
        requires
            self.wf(),
        ensures
            self@.buffer matches Some(b) ==> b.items.len() <= b.capacity <= usize::MAX,
    {
        match self.buffer {
            Some(b) => {
                b.lemma_len_bounded();
            },
            None => {},
        }
    }

    /// A topic without subscribers and without a buffer.
    pub fn new(name: String) -> (topic: Self)
        ensures
            topic.wf(),
            topic@ == TopicView::<P, C>::fresh(name@),
    {
        Topic { name, subscribers: HashMap::new(), next_id: 0, buffer: None }
    }

    /// Create a topic with a message buffer.
    pub fn with_buffer(name: String, capacity: usize) -> (topic: Self)
        ensures
            topic.wf(),
            topic@ == TopicView::<P, C>::fresh(name@).buffered(capacity as nat),
    {
        Topic {
            name,
            subscribers: HashMap::new(),
            next_id: 0,
            buffer: Some(RingBuffer::new(capacity)),
        }
    }

    /// Enable message buffering with the given capacity. A buffer that was
    /// there before is replaced, its contents lost, and handed back.
    pub fn enable_buffer(&mut self, capacity: usize) -> (previous: Option<RingBuffer<P>>)
        requires
            old(self).wf(),
        ensures
            final(self).wf(),
            final(self)@ == old(self)@.buffered(capacity as nat),
            previous == old(self).buffer,
    {
        let previous = self.buffer.take();
        self.buffer = Some(RingBuffer::new(capacity));
        previous
    }

    /// Disable message buffering and hand back the buffer that was there.
    pub fn disable_buffer(&mut self) -> (previous: Option<RingBuffer<P>>)
        requires
            old(self).wf(),
        ensures
            final(self).wf(),
            final(self)@ == old(self)@.unbuffered(),
            previous == old(self).buffer,
    {
        self.buffer.take()
    }

    /// Check if this topic has buffering enabled.
    pub fn has_buffer(&self) -> (b: bool)
        ensures
            b == self@.buffer is Some,
    {
        self.buffer.is_some()
    }

    /// Get the buffer if it exists.
    pub fn get_buffer(&self) -> (out: Option<&RingBuffer<P>>)
        ensures
            match self.buffer {
                Some(b) => out == Some(&b),
                None => out is None,
            },
    {
        self.buffer.as_ref()
    }

    /// Get mutable access to the buffer if it exists. What the caller
    /// leaves behind the reference is the topic's buffer afterwards.
    pub fn get_buffer_mut(&mut self) -> (out: Option<&mut RingBuffer<P>>)
        ensures
            match old(self).buffer {
                Some(b) => out is Some && *out.unwrap() == b && final(self).buffer == Some(
                    *final(out.unwrap()),
                ),
                None => out is None && final(self).buffer is None,
            },
            final(self).name == old(self).name,
            final(self).subscribers == old(self).subscribers,
            final(self).next_id == old(self).next_id,
    {
        self.buffer.as_mut()
    }
}

/// What the queue's state is, to the outside: the registered topics in the
/// order of their handles, the attached channel, this instance's identifier
/// and the identifiers of the messages already taken from the transport.
#[verifier::ext_equal]
pub struct QueueView<P, C> {
    pub topics: Seq<TopicView<P, C>>,
    pub channel: Option<Seq<char>>,
    pub client_id: Seq<char>,
    pub seen_ids: Set<u64>,
    pub closed: bool,
}

impl<P, C> QueueView<P, C> {
    /// A queue right after its construction.
    pub open spec fn fresh(client_id: Seq<char>, channel: Option<Seq<char>>) -> Self {
        QueueView {
            topics: Seq::empty(),
            channel,
            client_id,
            seen_ids: Set::empty(),
            closed: false,
        }
    }

    /// No two topics share a name, every handle fits 32 bits, and no
    /// buffer retains more than its capacity.
    pub open spec fn wf(self) -> bool {
        &&& self.topics.len() <= NO_TOPIC
        &&& forall|i: int, j: int|
            0 <= i < j < self.topics.len() ==> (#[trigger] self.topics[i]).name
                != (#[trigger] self.topics[j]).name
        &&& forall|i: int|
            0 <= i < self.topics.len() ==> ((#[trigger] self.topics[i]).buffer matches Some(b)
                ==> b.items.len() <= b.capacity)
    }

    /// `handle` names a registered topic.
    pub open spec fn has(self, handle: int) -> bool {
        0 <= handle < self.topics.len()
    }

    /// `i` is the handle of the topic called `name`.
    pub open spec fn names(self, i: int, name: Seq<char>) -> bool {
        0 <= i < self.topics.len() && self.topics[i].name == name
    }

    /// A topic called `name` is registered.
    pub open spec fn knows(self, name: Seq<char>) -> bool {
        exists|i: int| self.names(i, name)
    }

    /// The handle of the topic called `name`, where one is registered.
    pub open spec fn handle_of(self, name: Seq<char>) -> int {
        choose|i: int| self.names(i, name)
    }

    /// There is room for another topic: handles are 32 bits wide, and the
    /// last of them names no topic.
    pub open spec fn has_room(self) -> bool {
        self.topics.len() < NO_TOPIC
    }

    /// The state after `name` was registered: unchanged where the name is
    /// known, or where it is not and there is no room for it, else with a
    /// fresh topic at the next handle.
    pub open spec fn registered(self, name: Seq<char>) -> Self {
        if self.knows(name) || !self.has_room() {
            self
        } else {
            QueueView { topics: self.topics.push(TopicView::fresh(name)), ..self }
        }
    }

    /// The handle that registering `name` yields: the one it has, or the
    /// next free one, or the handle that names no topic where there is no
    /// room for another.
    pub open spec fn handle_for(self, name: Seq<char>) -> int {
        if self.knows(name) {
            self.handle_of(name)
        } else if self.has_room() {
            self.topics.len() as int
        } else {
            NO_TOPIC as int
        }
    }

    /// The state with the topic `handle` replaced by `topic`.
    pub open spec fn with_topic(self, handle: int, topic: TopicView<P, C>) -> Self {
        QueueView { topics: self.topics.update(handle, topic), ..self }
    }

    /// The state after `msg` was dispatched locally: its topic's replay
    /// buffer, if there is one, has taken it. A message for a handle that
    /// is not registered changes nothing.
    pub open spec fn dispatched(self, msg: MessageView<P>) -> Self {
        if self.has(msg.topic_id as int) {
            self.with_topic(msg.topic_id as int, self.topics[msg.topic_id as int].stored(msg))
        } else {
            self
        }
    }

    /// The subscriptions that a message for `handle` is delivered to.
    pub open spec fn receivers(self, handle: int) -> Set<u32> {
        if self.has(handle) {
            self.topics[handle].subscribers.dom()
        } else {
            Set::empty()
        }
    }
}

/// Internal queue state.
pub struct InnerQueue<P, C> {
    /// List of topics, accessible by index (the handle).
    pub topics: Vec<Topic<P, C>>,
    /// Name of the broadcast channel that the queue is attached to, if any.
    pub channel: Option<String>,
    /// Unique identifier of this instance.
    pub client_id: Rc<String>,
    /// Identifiers of the messages already taken from the transport.
    pub seen_ids: HashSet<u64>,
    /// Whether the queue was closed. A closed queue stays closed.
    pub closed: bool,
}

impl<P, C> View for InnerQueue<P, C> {
    type V = QueueView<P, C>;

    /// The state of the queue, each topic by its view.
    open spec fn view(&self) -> QueueView<P, C> {
        QueueView {
            topics: Seq::new(self.topics@.len(), |i: int| self.topics@[i]@),
            channel: match self.channel {
                Some(name) => Some(name@),
                None => None,
            },
            client_id: self.client_id@,
            seen_ids: self.seen_ids@,
            closed: self.closed,
        }
    }
}

impl<P, C> InnerQueue<P, C> {
    /// Every topic is well formed, and so is the registry as a whole.
    pub open spec fn wf(&self) -> bool {
        &&& self.topics@.len() <= NO_TOPIC
        &&& forall|i: int, j: int|
            0 <= i < j < self.topics@.len() ==> (#[trigger] self.topics@[i]).name@
                != (#[trigger] self.topics@[j]).name@
        &&& forall|i: int| 0 <= i < self.topics@.len() ==> (#[trigger] self.topics@[i]).wf()
    }

    /// A well-formed queue has a well-formed view.
    pub proof fn lemma_view_wf(&self)
        requires
            self.wf(),
        ensures
            self@.wf(),
    {
        assert forall|i: int| 0 <= i < self@.topics.len() implies ((#[trigger] self@.topics[i]).buffer
            matches Some(b) ==> b.items.len() <= b.capacity) by {
            self.topics@[i].lemma_buffer_bounded();
        }
    }

    /// A queue without topics, for the instance `client_id`.
    pub fn new(client_id: String, channel: Option<String>) -> (queue: Self)
        ensures
            queue.wf(),
            queue@ == QueueView::<P, C>::fresh(
                client_id@,
                match channel {
                    Some(name) => Some(name@),
                    None => None,
                },
            ),
    {
        InnerQueue {
            topics: Vec::new(),
            channel,
            client_id: Rc::new(client_id),
            seen_ids: HashSet::new(),
            closed: false,
        }
    }

    /// The handle of the topic called `name`, if one is registered.
    fn find(&self, name: &str) -> (out: Option<usize>)
        ensures
            match out {
                Some(i) => self@.names(i as int, name@),
                None => !self@.knows(name@),
            },
    {
        let key = name.to_owned();
        let mut i: usize = 0;
        while i < self.topics.len()
            invariant
                i <= self.topics@.len(),
                key@ == name@,
                forall|j: int| 0 <= j < i ==> !self@.names(j, name@),
            decreases self.topics@.len() - i,
        {
            if self.topics[i].name == key {
                return Some(i);
            }
            i = i + 1;
        }
        None
    }

    /// The topic called `name`, if one is registered.
    pub fn get_topic(&self, name: &str) -> (out: Option<&Topic<P, C>>)
        ensures
            match out {
                Some(t) => self@.knows(name@) && exists|i: int|
                    self@.names(i, name@) && *t == self.topics@[i],
                None => !self@.knows(name@),
            },
            self.wf() && self@.knows(name@) ==> out == Some(
                &self.topics@[self@.handle_of(name@)],
            ),
    {
        match self.find(name) {
            Some(i) => Some(&self.topics[i]),
            None => None,
        }
    }

    /// The topic with the handle `id`, if it is registered.
    pub fn get_topic_by_id(&self, id: usize) -> (out: Option<&Topic<P, C>>)
        ensures
            match out {
                Some(t) => self@.has(id as int) && *t == self.topics@[id as int],
                None => !self@.has(id as int),
            },
    {
        if id < self.topics.len() {
            Some(&self.topics[id])
        } else {
            None
        }
    }

    /// Mutable access to the topic called `name`, if one is registered.
    /// What the caller leaves behind the reference is that topic afterwards.
    pub fn get_topic_mut(&mut self, name: &str) -> (out: Option<&mut Topic<P, C>>)
        ensures
            match out {
                Some(t) => exists|i: int|
                    old(self)@.names(i, name@) && *t == old(self).topics@[i]
                        && final(self).topics@ == old(self).topics@.update(i, *final(t)),
                None => !old(self)@.knows(name@) && final(self).topics@ == old(self).topics@,
            },
            final(self).channel == old(self).channel,
            final(self).client_id == old(self).client_id,
            final(self).seen_ids == old(self).seen_ids,
            final(self).closed == old(self).closed,
    {
        match self.find(name) {
            Some(i) => Some(&mut self.topics[i]),
            None => None,
        }
    }

    /// Mutable access to the topic with the handle `id`, if it is registered.
    /// What the caller leaves behind the reference is that topic afterwards.
    pub fn get_topic_by_id_mut(&mut self, id: usize) -> (out: Option<&mut Topic<P, C>>)
        ensures
            match out {
                Some(t) => old(self)@.has(id as int) && *t == old(self).topics@[id as int]
                    && final(self).topics@ == old(self).topics@.update(id as int, *final(t)),
                None => !old(self)@.has(id as int) && final(self).topics@ == old(self).topics@,
            },
            final(self).channel == old(self).channel,
            final(self).client_id == old(self).client_id,
            final(self).seen_ids == old(self).seen_ids,
            final(self).closed == old(self).closed,
    {
        if id < self.topics.len() {
            Some(&mut self.topics[id])
        } else {
            None
        }
    }

    /// The handle of the topic called `name`, which is created, at the next
    /// free handle, where no topic of that name exists. Where the registry
    /// is full and the name is new, nothing is created, and the result is
    /// the handle that names no topic.
    pub fn get_or_create_topic_id(&mut self, name: &str) -> (id: usize)
        requires
            old(self).wf(),
        ensures
            final(self).wf(),
            final(self)@ == old(self)@.registered(name@),
            id == old(self)@.handle_for(name@),
            old(self)@.knows(name@) || old(self)@.has_room() ==> final(self)@.names(
                id as int,
                name@,
            ),
    {
        match self.find(name) {
            Some(id) => id,
            None => {
                let id = self.topics.len();
                if id >= NO_TOPIC as usize {
                    return NO_TOPIC as usize;
                }
                self.topics.push(Topic::new(name.to_owned()));
                proof {
                    assert forall|i: int, j: int| 0 <= i < j < self.topics@.len() implies (
                    #[trigger] self.topics@[i]).name@ != (#[trigger] self.topics@[j]).name@ by {
                        if j == id {
                            assert(!old(self)@.names(i, name@));
                        }
                    }
                    assert(self@.topics =~= old(self)@.topics.push(TopicView::fresh(name@)));
                }
                id
            },
        }
    }
}

} // verus!
