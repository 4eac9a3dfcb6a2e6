//! Local dispatch.

use crate::types::{share, InnerQueue, Message};
use std::rc::Rc;
use vstd::prelude::*;
use vstd::std_specs::iter::IteratorSpec;

verus! {

impl<P, C> InnerQueue<P, C> {
    /// Dispatch a message to the local subscribers of its topic.
    ///
    /// The topic's replay buffer, when it has one, takes the message. The
    /// result names the subscriptions whose callbacks are to be invoked with
    /// `(payload, topic handle, timestamp, message id)`: each subscription
    /// of the topic exactly once, in no particular order. A message for a
    /// handle that is not registered is dropped.
    pub fn dispatch_local(&mut self, message: &Rc<Message<P>>) -> (subscribers: Vec<u32>)
        requires
            old(self).wf(),
        ensures
            final(self).wf(),
            final(self)@ == old(self)@.dispatched(message@),
            subscribers@.no_duplicates(),
            subscribers@.to_set() == old(self)@.receivers(message.topic_id as int),
    {
        let topic_idx = message.topic_id as usize;
        let mut subscribers: Vec<u32> = Vec::new();
        if topic_idx >= self.topics.len() {
            assert(subscribers@.to_set() =~= Set::<u32>::empty());
            return subscribers;
        }
        let topic = &mut self.topics[topic_idx];
        match topic.get_buffer_mut() {
            Some(buffer) => {
                buffer.push(share(message));
            },
            None => {},
        }
        for id in it: topic.subscribers.keys()
            invariant
                it.seq() == topic.subscribers.keys().remaining(),
                subscribers@ == it.seq().unref().take(it.index()),
        {
            subscribers.push(*id);
        }
        proof {
            let table = self.topics@[topic_idx as int].subscribers;
            assert(subscribers@ =~= table.keys().remaining().unref());
            assert(self@.topics =~= old(self)@.dispatched(message@).topics);
        }
        subscribers
    }
}

} // verus!
