//! The bus as a mathematical state machine: what each operation at the
//! queue's surface, and each envelope from the channel, makes of a state.

use crate::constants::{DEFAULT_BUFFER_CAPACITY, NO_TOPIC};
use crate::js_utils::{parsed, Envelope, Parsed, RawMessage, WireMessage};
use crate::queue::Draft;
use crate::types::{BufferView, MessageView, QueueView, TopicView};
use vstd::prelude::*;

verus! {

/// What a list of messages for the channel says.
pub open spec fn wire_views<P>(list: Seq<WireMessage<P>>) -> Seq<(Seq<char>, MessageView<P>)> {
    Seq::new(list.len(), |i: int| list[i]@)
}

/// Each of `items`, paired with the topic name `name`.
pub open spec fn named<P>(name: Seq<char>, items: Seq<MessageView<P>>) -> Seq<
    (Seq<char>, MessageView<P>),
> {
    Seq::new(items.len(), |i: int| (name, items[i]))
}

impl<P, C> QueueView<P, C> {
    /// The state with the topic `handle` changed by `change`, where the
    /// handle is registered.
    pub open spec fn changed(self, handle: int, change: spec_fn(TopicView<P, C>) -> TopicView<P, C>)
        -> Self {
        if self.has(handle) {
            self.with_topic(handle, change(self.topics[handle]))
        } else {
            self
        }
    }

    /// The state after `messages` were dispatched locally, in order.
    pub open spec fn dispatched_all(self, messages: Seq<MessageView<P>>) -> Self
        decreases messages.len(),
    {
        if messages.len() == 0 {
            self
        } else {
            self.dispatched_all(messages.drop_last()).dispatched(messages.last())
        }
    }

    /// The messages that publishing `items` makes, in order.
    pub open spec fn stamped_all(self, items: Seq<(u32, Draft<P>)>) -> Seq<MessageView<P>> {
        Seq::new(
            items.len(),
            |i: int|
                self.stamped(items[i].0, items[i].1.payload, items[i].1.id, items[i].1.timestamp),
        )
    }

    /// The messages that publishing `drafts` to the topic `topic_id` makes.
    pub open spec fn stamped_each(self, topic_id: u32, drafts: Seq<Draft<P>>) -> Seq<
        MessageView<P>,
    > {
        Seq::new(
            drafts.len(),
            |i: int| self.stamped(topic_id, drafts[i].payload, drafts[i].id, drafts[i].timestamp),
        )
    }

    /// `other` has the topics, names, subscriptions, channel and identity
    ///  of this state; buffers may differ.
    pub open spec fn alike(self, other: Self) -> bool {
        &&& other.topics.len() == self.topics.len()
        &&& other.channel == self.channel
        &&& other.client_id == self.client_id
        &&& other.seen_ids == self.seen_ids
        &&& other.closed == self.closed
        &&& forall|h: int| #[trigger] other.receivers(h) == self.receivers(h)
        &&& forall|h: int| self.has(h) ==> (#[trigger] other.topics[h]).name == self.topics[h].name
    }

    /// Dispatching a message leaves the registry, the subscriptions and the
    /// channel as they are.
    pub proof fn lemma_dispatched_alike(self, message: MessageView<P>)
        ensures
            self.alike(self.dispatched(message)),
    {
    }

    /// The state after the topic `handle` was destroyed: it keeps its handle
    /// and name, and loses its subscribers and its buffer.
    pub open spec fn destroyed(self, handle: int) -> Self {
        self.changed(handle, |t: TopicView<P, C>| t.quiesced())
    }

    /// The state after `callback` subscribed to the topic `handle`.
    pub open spec fn subscribed(self, handle: int, callback: C) -> Self {
        self.changed(handle, |t: TopicView<P, C>| t.subscribed(callback))
    }

    /// The state after the subscription `id` of the topic `handle` ended.
    pub open spec fn unsubscribed(self, handle: int, id: u32) -> Self {
        self.changed(handle, |t: TopicView<P, C>| t.unsubscribed(id))
    }

    /// The state after every subscription of the topic `handle` ended.
    pub open spec fn silenced(self, handle: int) -> Self {
        self.changed(handle, |t: TopicView<P, C>| t.silenced())
    }

    /// The state after the topic `handle` got a new, empty replay buffer.
    pub open spec fn buffered(self, handle: int, capacity: nat) -> Self {
        self.changed(handle, |t: TopicView<P, C>| t.buffered(capacity))
    }

    /// The state after the topic `handle` lost its replay buffer.
    pub open spec fn unbuffered(self, handle: int) -> Self {
        self.changed(handle, |t: TopicView<P, C>| t.unbuffered())
    }

    /// The state after the replay buffer of the topic `handle` was emptied.
    pub open spec fn cleared(self, handle: int) -> Self {
        self.changed(handle, |t: TopicView<P, C>| t.cleared())
    }

    /// The state after the queue was closed: no channel, no topics, and
    /// closed for good. The identifiers taken from the transport stay.
    pub open spec fn shut(self) -> Self {
        QueueView { topics: Seq::empty(), channel: None, closed: true, ..self }
    }

    /// A closed queue has neither topics nor a channel.
    pub open spec fn settled(self) -> bool {
        self.closed ==> self.topics.len() == 0 && self.channel is None
    }

    /// The state after `name` was registered at the queue's surface: as
    /// `registered` says while the queue is open, unchanged once it is
    /// closed.
    pub open spec fn opened(self, name: Seq<char>) -> Self {
        if self.closed {
            self
        } else {
            self.registered(name)
        }
    }

    /// The handle that registering `name` at the queue's surface yields:
    /// the topic's handle while the queue is open, the handle that names
    /// no topic once it is closed.
    pub open spec fn handle_at(self, name: Seq<char>) -> int {
        if self.closed {
            NO_TOPIC as int
        } else {
            self.handle_for(name)
        }
    }

    /// The message that a local publish makes.
    pub open spec fn stamped(self, topic_id: u32, payload: P, id: u64, timestamp: u64)
        -> MessageView<P> {
        MessageView { id, topic_id, payload, timestamp, origin_id: self.client_id }
    }

    /// The id that the next subscription to the topic `handle` gets.
    pub open spec fn next_id_of(self, handle: int) -> u32 {
        self.topics[handle].next_id
    }

    /// The replay buffer of the topic `handle`, where the handle is
    /// registered and the topic has one.
    pub open spec fn buffer_of(self, handle: int) -> Option<BufferView<P>> {
        if self.has(handle) {
            self.topics[handle].buffer
        } else {
            None
        }
    }

    /// What the topic `handle` retains, oldest first; nothing where the
    /// handle is not registered or the topic has no buffer.
    pub open spec fn retained(self, handle: int) -> Seq<MessageView<P>> {
        if self.has(handle) {
            self.topics[handle].retained()
        } else {
            Seq::empty()
        }
    }

    /// What the topic `handle` retains, each message with the topic's name.
    pub open spec fn snapshot(self, handle: int) -> Seq<(Seq<char>, MessageView<P>)> {
        if self.has(handle) {
            named(self.topics[handle].name, self.topics[handle].retained())
        } else {
            Seq::empty()
        }
    }
}

impl<P, C> QueueView<P, C> {
    /// Which handle a name has depends on the topics alone.
    pub proof fn lemma_handle_framed(self, other: Self, name: Seq<char>)
        requires
            self.wf(),
            other.topics == self.topics,
        ensures
            other.wf(),
            other.knows(name) == self.knows(name),
            other.handle_for(name) == self.handle_for(name),
            other.registered(name).topics == self.registered(name).topics,
    {
        if self.knows(name) {
            let i = self.handle_of(name);
            assert(other.names(i, name));
            let j = other.handle_of(name);
            assert(self.names(j, name));
        }
        if other.knows(name) {
            let j = other.handle_of(name);
            assert(self.names(j, name));
        }
    }

    /// The state after a record that says `p` came from the channel. A
    /// record whose id was seen before changes nothing. Otherwise its id
    /// is noted and its topic's name registered, and, unless it is this
    /// instance's own message coming back, it is dispatched locally.
    pub open spec fn absorbed(self, p: Parsed<P>) -> Self {
        if self.seen_ids.contains(p.id) {
            self
        } else {
            let noted = QueueView { seen_ids: self.seen_ids.insert(p.id), ..self }.registered(
                p.topic,
            );
            if p.origin_id == self.client_id {
                noted
            } else {
                noted.dispatched(p.message(self.handle_for(p.topic) as u32))
            }
        }
    }

    /// The message that is dispatched locally when a record that says `p`
    /// comes from the channel: none where the id was seen before or the
    /// message is this instance's own.
    pub open spec fn delivered(self, p: Parsed<P>) -> Option<MessageView<P>> {
        if self.seen_ids.contains(p.id) || p.origin_id == self.client_id {
            None
        } else {
            Some(p.message(self.handle_for(p.topic) as u32))
        }
    }

    /// The state after the record `raw` came from the channel. A record
    /// that is no message is dropped.
    pub open spec fn taken(self, raw: RawMessage<P>) -> Self {
        match parsed(raw) {
            Ok(p) => self.absorbed(p),
            Err(_) => self,
        }
    }

    /// The message that is dispatched locally when `raw` comes from the
    /// channel.
    pub open spec fn taken_delivery(self, raw: RawMessage<P>) -> Option<MessageView<P>> {
        match parsed(raw) {
            Ok(p) => self.delivered(p),
            Err(_) => None,
        }
    }

    /// The state after the records `raws` came from the channel, in order.
    pub open spec fn taken_all(self, raws: Seq<RawMessage<P>>) -> Self
        decreases raws.len(),
    {
        if raws.len() == 0 {
            self
        } else {
            self.taken_all(raws.drop_last()).taken(raws.last())
        }
    }

    /// The messages that are dispatched locally when the records `raws`
    /// come from the channel, in order.
    pub open spec fn delivered_all(self, raws: Seq<RawMessage<P>>) -> Seq<MessageView<P>>
        decreases raws.len(),
    {
        if raws.len() == 0 {
            Seq::empty()
        } else {
            let before = self.delivered_all(raws.drop_last());
            match self.taken_all(raws.drop_last()).taken_delivery(raws.last()) {
                Some(m) => before.push(m),
                None => before,
            }
        }
    }

    /// Taking a record from the channel leaves every subscription as it
    /// is, and adds at most one topic.
    pub proof fn lemma_taken_keeps_receivers(self, raw: RawMessage<P>)
        requires
            self.wf(),
        ensures
            forall|h: int| #[trigger] self.taken(raw).receivers(h) == self.receivers(h),
            self.topics.len() <= self.taken(raw).topics.len() <= self.topics.len() + 1,
    {
        assert forall|h: int| #[trigger] self.taken(raw).receivers(h) == self.receivers(h) by {
            assert(self.taken(raw).receivers(h) =~= self.receivers(h));
        }
    }

    /// The envelope's answer: the backlog, where the envelope asks for it
    /// and this instance answers.
    pub open spec fn reply_to(self, envelope: Envelope<RawMessage<P>>) -> Option<
        Seq<(Seq<char>, MessageView<P>)>,
    > {
        match envelope {
            Envelope::SyncRequest(origin) => if self.answers(origin@) {
                Some(self.backlog())
            } else {
                None
            },
            _ => None,
        }
    }

    /// What the first `n` topics retain, in the order of their handles and
    /// oldest first within each, each message with its topic's name.
    pub open spec fn backlog_upto(self, n: int) -> Seq<(Seq<char>, MessageView<P>)>
        decreases n,
    {
        if n <= 0 {
            Seq::empty()
        } else {
            self.backlog_upto(n - 1) + named(self.topics[n - 1].name, self.topics[n - 1].retained())
        }
    }

    /// The whole replay backlog.
    pub open spec fn backlog(self) -> Seq<(Seq<char>, MessageView<P>)> {
        self.backlog_upto(self.topics.len() as int)
    }

    /// Whether this instance answers a request for the backlog from
    /// `origin`: it has a channel, the request is not its own, and it
    /// retains something.
    pub open spec fn answers(self, origin: Seq<char>) -> bool {
        self.channel is Some && origin != self.client_id && self.backlog().len() > 0
    }
}

/// The records that an envelope carries.
pub open spec fn records<P>(envelope: Envelope<RawMessage<P>>) -> Seq<RawMessage<P>> {
    match envelope {
        Envelope::Publish(raw) => seq![raw],
        Envelope::SyncRequest(_) => Seq::empty(),
        Envelope::SyncResponse(list) => list@,
    }
}

/// The capacity that a request for a buffer asks for.
pub open spec fn requested(capacity: Option<usize>) -> nat {
    match capacity {
        Some(c) => c as nat,
        None => DEFAULT_BUFFER_CAPACITY as nat,
    }
}

} // verus!
