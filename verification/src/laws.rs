//! What holds of the bus whatever is done with it: stable handles,
//! delivery to exactly the current subscribers, at most one dispatch per
//! message id, no echo of an instance's own messages, and a closed queue
//! that stays closed.

use crate::js_utils::{parsed, RawMessage};
use crate::ring_buffer::pushed_all;
use crate::types::{BufferView, MessageView, QueueView};
use vstd::prelude::*;

verus! {

impl<P, C> QueueView<P, C> {
    /// A closed queue stays as it is: whatever is asked of it at its
    /// surface changes nothing, registers nothing and reaches no one, and
    /// closing it again is no different.
    pub proof fn lemma_closed_is_inert(
        self,
        name: Seq<char>,
        handle: int,
        callback: C,
        id: u32,
        capacity: nat,
    )
        requires
            self.wf(),
            self.settled(),
            self.closed,
        ensures
            self.shut() == self,
            self.opened(name) == self,
            !self.has(self.handle_at(name)),
            !self.has(handle),
            self.destroyed(handle) == self,
            self.subscribed(handle, callback) == self,
            self.unsubscribed(handle, id) == self,
            self.silenced(handle) == self,
            self.buffered(handle, capacity) == self,
            self.unbuffered(handle) == self,
            self.cleared(handle) == self,
            self.receivers(handle) == Set::<u32>::empty(),
    {
        assert(self.shut() =~= self);
    }

    /// Closing is final: the queue is closed afterwards, with neither
    /// topics nor a channel, and every handle given out before names
    /// nothing any more.
    pub proof fn lemma_shut_is_settled(self, handle: int)
        requires
            self.wf(),
        ensures
            self.shut().wf(),
            self.shut().settled(),
            self.shut().closed,
            !self.shut().has(handle),
            self.shut().shut() == self.shut(),
    {
    }

    /// Registering a name a second time yields the handle of the first
    /// time and changes nothing; once registered, a name is known, so that
    /// only its first creation is reported as one.
    pub proof fn lemma_register_twice(self, name: Seq<char>)
        requires
            self.wf(),
        ensures
            self.registered(name).wf(),
            self.registered(name).knows(name) == (self.knows(name) || self.has_room()),
            self.registered(name).handle_for(name) == self.handle_for(name),
            self.registered(name).registered(name) == self.registered(name),
    {
        let after = self.registered(name);
        let h = self.handle_for(name);
        if self.knows(name) {
            assert(self.names(self.handle_of(name), name));
        } else if self.has_room() {
            assert forall|i: int, j: int| 0 <= i < j < after.topics.len() implies (
            #[trigger] after.topics[i]).name != (#[trigger] after.topics[j]).name by {
                if j == self.topics.len() {
                    assert(!self.names(i, name));
                }
            }
        }
        if self.knows(name) || self.has_room() {
            assert(after.names(h, name));
            let again = after.handle_of(name);
            assert(after.names(again, name));
            if again < h {
                assert(after.topics[again].name != after.topics[h].name);
            } else if again > h {
                assert(after.topics[h].name != after.topics[again].name);
            }
        }
    }

    /// A handle, once given out, stays with its name: registering another
    /// name, destroying a topic, dispatching a message or taking a record
    /// from the channel moves no topic to another handle.
    pub proof fn lemma_handles_stable(
        self,
        name: Seq<char>,
        other: Seq<char>,
        handle: int,
        message: MessageView<P>,
        raw: RawMessage<P>,
    )
        requires
            self.wf(),
            self.knows(name),
        ensures
            self.registered(other).names(self.handle_for(name), name),
            self.destroyed(handle).names(self.handle_for(name), name),
            self.dispatched(message).names(self.handle_for(name), name),
            self.taken(raw).names(self.handle_for(name), name),
    {
        let h = self.handle_of(name);
        assert(self.names(h, name));
    }

    /// Ending a subscription takes exactly that subscription out of the
    /// receivers of its topic, and a new subscription adds exactly itself.
    pub proof fn lemma_receivers_follow_subscriptions(self, handle: int, id: u32, callback: C)
        requires
            self.has(handle),
        ensures
            self.unsubscribed(handle, id).receivers(handle) == self.receivers(handle).remove(id),
            self.subscribed(handle, callback).receivers(handle) == self.receivers(handle).insert(
                self.next_id_of(handle),
            ),
    {
        assert(self.unsubscribed(handle, id).receivers(handle) =~= self.receivers(handle).remove(
            id,
        ));
        assert(self.subscribed(handle, callback).receivers(handle) =~= self.receivers(
            handle,
        ).insert(self.next_id_of(handle)));
    }

    /// The replay buffer of a topic takes what is dispatched to the topic,
    /// in order, and nothing else touches it: after any run of messages
    /// for the topic, the buffer holds what a bounded store of its
    /// capacity holds after those arrivals.
    pub proof fn lemma_buffer_follows_dispatch(self, handle: int, messages: Seq<MessageView<P>>)
        requires
            self.has(handle),
            self.buffer_of(handle) is Some,
            forall|k: int|
                0 <= k < messages.len() ==> (#[trigger] messages[k]).topic_id as int == handle,
        ensures
            self.dispatched_all(messages).buffer_of(handle) == Some(
                BufferView {
                    capacity: self.buffer_of(handle)->Some_0.capacity,
                    items: pushed_all(
                        self.buffer_of(handle)->Some_0.items,
                        self.buffer_of(handle)->Some_0.capacity,
                        messages,
                    ),
                },
            ),
            self.alike(self.dispatched_all(messages)),
        decreases messages.len(),
    {
        if messages.len() > 0 {
            let front = messages.drop_last();
            assert forall|k: int| 0 <= k < front.len() implies (#[trigger] front[k]).topic_id as int
                == handle by {
                assert(front[k] == messages[k]);
            }
            self.lemma_buffer_follows_dispatch(handle, front);
            assert(messages.last() == messages[messages.len() - 1]);
            let mid = self.dispatched_all(front);
            mid.lemma_dispatched_alike(messages.last());
            assert forall|h: int|
                #[trigger] self.dispatched_all(messages).receivers(h) == self.receivers(h) by {
                assert(mid.dispatched(messages.last()).receivers(h) == mid.receivers(h));
            }
        }
    }

    /// The id of a record is noted no later than the record is dispatched,
    /// and an id once noted stays noted.
    pub proof fn lemma_seen_before_dispatch(self, raw: RawMessage<P>)
        ensures
            self.seen_ids.subset_of(self.taken(raw).seen_ids),
            parsed(raw) matches Ok(p) ==> self.taken(raw).seen_ids.contains(p.id),
    {
    }

    /// A record whose id was seen before is dropped, as is one that is no
    /// message: nothing changes and nothing is dispatched.
    pub proof fn lemma_seen_is_dropped(self, raw: RawMessage<P>)
        requires
            parsed(raw) matches Ok(p) ==> self.seen_ids.contains(p.id),
        ensures
            self.taken(raw) == self,
            self.taken_delivery(raw) is None,
    {
    }

    /// The same record taken twice is dispatched at most once: the second
    /// time nothing is dispatched and nothing changes.
    pub proof fn lemma_taken_twice(self, raw: RawMessage<P>)
        ensures
            self.taken(raw).taken_delivery(raw) is None,
            self.taken(raw).taken(raw) == self.taken(raw),
    {
        self.lemma_seen_before_dispatch(raw);
    }

    /// The id of every message among `raws` is noted.
    pub open spec fn has_seen(self, raws: Seq<RawMessage<P>>) -> bool {
        forall|i: int|
            0 <= i < raws.len() ==> (parsed(#[trigger] raws[i]) matches Ok(p)
                ==> self.seen_ids.contains(p.id))
    }

    /// Records whose ids were all seen before are dropped, all of them.
    pub proof fn lemma_seen_are_dropped(self, raws: Seq<RawMessage<P>>)
        requires
            self.has_seen(raws),
        ensures
            self.taken_all(raws) == self,
            self.delivered_all(raws) == Seq::<MessageView<P>>::empty(),
        decreases raws.len(),
    {
        if raws.len() > 0 {
            assert(self.has_seen(raws.drop_last())) by {
                assert forall|i: int| 0 <= i < raws.drop_last().len() implies (parsed(
                    #[trigger] raws.drop_last()[i],
                ) matches Ok(p) ==> self.seen_ids.contains(p.id)) by {
                    assert(raws.drop_last()[i] == raws[i]);
                }
            }
            self.lemma_seen_are_dropped(raws.drop_last());
            assert(raws.last() == raws[raws.len() - 1]);
            self.lemma_seen_is_dropped(raws.last());
        }
    }

    /// After a batch was taken, the id of each of its messages is noted.
    pub proof fn lemma_taken_are_seen(self, raws: Seq<RawMessage<P>>)
        ensures
            self.taken_all(raws).has_seen(raws),
            self.seen_ids.subset_of(self.taken_all(raws).seen_ids),
        decreases raws.len(),
    {
        if raws.len() > 0 {
            let mid = self.taken_all(raws.drop_last());
            self.lemma_taken_are_seen(raws.drop_last());
            mid.lemma_seen_before_dispatch(raws.last());
            let end = self.taken_all(raws);
            assert(end == mid.taken(raws.last()));
            assert forall|i: int| 0 <= i < raws.len() implies (parsed(
                #[trigger] raws[i],
            ) matches Ok(p) ==> end.seen_ids.contains(p.id)) by {
                if i < raws.len() - 1 {
                    assert(raws.drop_last()[i] == raws[i]);
                }
            }
        }
    }

    /// A batch that arrives a second time is merged without effect:
    /// nothing is dispatched and nothing changes. However often and from
    /// however many peers a backlog comes, each of its messages is
    /// dispatched once.
    pub proof fn lemma_replay_is_idle(self, raws: Seq<RawMessage<P>>)
        ensures
            self.taken_all(raws).taken_all(raws) == self.taken_all(raws),
            self.taken_all(raws).delivered_all(raws) == Seq::<MessageView<P>>::empty(),
    {
        self.lemma_taken_are_seen(raws);
        self.taken_all(raws).lemma_seen_are_dropped(raws);
    }

    /// Every record among `raws` is a message that is new to this
    /// instance: its id was not seen, no other record among them has it,
    /// and it comes from another instance.
    pub open spec fn all_new(self, raws: Seq<RawMessage<P>>) -> bool {
        &&& forall|i: int|
            0 <= i < raws.len() ==> (parsed(#[trigger] raws[i]) matches Ok(p)
                && !self.seen_ids.contains(p.id) && p.origin_id != self.client_id)
        &&& forall|i: int, j: int|
            0 <= i < j < raws.len() ==> parsed(#[trigger] raws[i])->Ok_0.id != parsed(
                #[trigger] raws[j],
            )->Ok_0.id
    }

    /// Taking records notes their ids and no others, and leaves the
    /// instance's identifier as it is.
    pub proof fn lemma_seen_after(self, raws: Seq<RawMessage<P>>, id: u64)
        ensures
            self.taken_all(raws).client_id == self.client_id,
            self.taken_all(raws).seen_ids.contains(id) == (self.seen_ids.contains(id) || exists|
                i: int,
            |
                0 <= i < raws.len() && (parsed(#[trigger] raws[i]) matches Ok(p) && p.id == id)),
        decreases raws.len(),
    {
        if raws.len() > 0 {
            let front = raws.drop_last();
            let mid = self.taken_all(front);
            self.lemma_seen_after(front, id);
            if self.taken_all(raws).seen_ids.contains(id) && !self.seen_ids.contains(id) {
                if mid.seen_ids.contains(id) {
                    let i = choose|i: int|
                        0 <= i < front.len() && (parsed(#[trigger] front[i]) matches Ok(p) && p.id
                            == id);
                    assert(raws[i] == front[i]);
                } else {
                    assert(raws[raws.len() - 1] == raws.last());
                }
            }
            if exists|i: int|
                0 <= i < raws.len() && (parsed(#[trigger] raws[i]) matches Ok(p) && p.id == id) {
                let i = choose|i: int|
                    0 <= i < raws.len() && (parsed(#[trigger] raws[i]) matches Ok(p) && p.id
                        == id);
                if i < raws.len() - 1 {
                    assert(front[i] == raws[i]);
                }
            }
        }
    }

    /// A backlog of messages that are all new to this instance is
    /// dispatched whole and in order: one dispatch for each record, of the
    /// message that the record says, under the handle that its topic's
    /// name has or gets at that moment.
    pub proof fn lemma_new_messages_are_dispatched_in_order(self, raws: Seq<RawMessage<P>>)
        requires
            self.all_new(raws),
        ensures
            self.delivered_all(raws).len() == raws.len(),
            forall|k: int|
                0 <= k < raws.len() ==> #[trigger] self.delivered_all(raws)[k] == parsed(
                    raws[k],
                )->Ok_0.message(
                    self.taken_all(raws.take(k)).handle_for(parsed(raws[k])->Ok_0.topic) as u32,
                ),
        decreases raws.len(),
    {
        if raws.len() > 0 {
            let front = raws.drop_last();
            let n = front.len() as int;
            let last = raws.last();
            let p = parsed(last)->Ok_0;
            assert(raws[n] == last);
            assert(self.all_new(front)) by {
                assert forall|i: int| 0 <= i < front.len() implies (parsed(
                    #[trigger] front[i],
                ) matches Ok(q) && !self.seen_ids.contains(q.id) && q.origin_id
                    != self.client_id) by {
                    assert(front[i] == raws[i]);
                }
                assert forall|i: int, j: int| 0 <= i < j < front.len() implies parsed(
                    #[trigger] front[i],
                )->Ok_0.id != parsed(#[trigger] front[j])->Ok_0.id by {
                    assert(front[i] == raws[i]);
                    assert(front[j] == raws[j]);
                }
            }
            self.lemma_new_messages_are_dispatched_in_order(front);
            self.lemma_seen_after(front, p.id);
            let mid = self.taken_all(front);
            assert(!mid.seen_ids.contains(p.id)) by {
                if mid.seen_ids.contains(p.id) {
                    let i = choose|i: int|
                        0 <= i < front.len() && (parsed(#[trigger] front[i]) matches Ok(q) && q.id
                            == p.id);
                    assert(front[i] == raws[i]);
                }
            }
            assert(front =~= raws.take(n));
            assert forall|k: int| 0 <= k < raws.len() implies #[trigger] self.delivered_all(
                raws,
            )[k] == parsed(raws[k])->Ok_0.message(
                self.taken_all(raws.take(k)).handle_for(parsed(raws[k])->Ok_0.topic) as u32,
            ) by {
                if k < n {
                    assert(front[k] == raws[k]);
                    assert(front.take(k) =~= raws.take(k));
                }
            }
        }
    }

    /// A message of this instance's own that comes back from the channel
    /// is not dispatched again, and no buffer takes it.
    pub proof fn lemma_own_message_not_dispatched(self, raw: RawMessage<P>)
        requires
            parsed(raw) matches Ok(p) && p.origin_id == self.client_id,
        ensures
            self.taken_delivery(raw) is None,
            forall|h: int| #[trigger] self.taken(raw).retained(h) == self.retained(h),
    {
        assert forall|h: int| #[trigger] self.taken(raw).retained(h) == self.retained(h) by {
            assert(self.taken(raw).retained(h) =~= self.retained(h));
        }
    }

    /// What this instance publishes never comes back to its subscribers:
    /// a record that carries a message made by a local publish is not
    /// dispatched here, whatever happened in between.
    pub proof fn lemma_no_self_echo(
        self,
        later: Self,
        topic_id: u32,
        payload: P,
        id: u64,
        timestamp: u64,
        raw: RawMessage<P>,
    )
        requires
            later.client_id == self.client_id,
            parsed(raw) matches Ok(p) && p.message(topic_id) == self.stamped(
                topic_id,
                payload,
                id,
                timestamp,
            ),
        ensures
            later.taken_delivery(raw) is None,
    {
    }
}

} // verus!
