use std::collections::VecDeque;
use vstd::prelude::*;

verus! {

/// A FIFO queue of text messages.
///
/// The view of the queue is the sequence of its messages (each as a
/// sequence of characters), oldest first. `enqueue` appends at the tail
/// and `dequeue` removes at the head, so insertion order is preserved
/// and removal always takes the oldest remaining message.
///
/// The queue is created empty and is unbounded: `enqueue` never fails
/// and imposes no size cap. One process owns the queue for its whole
/// lifetime; concurrent handlers must serialize their access to it
/// (for example behind a mutex), which keeps each `enqueue`/`dequeue`
/// atomic relative to the others.
pub struct MessageQueue {
    items: VecDeque<String>,
}

impl View for MessageQueue {
    type V = Seq<Seq<char>>;

    closed spec fn view(&self) -> Seq<Seq<char>> {
        Seq::new(self.items@.len(), |i: int| self.items@[i]@)
    }
}

impl MessageQueue {
    /// Creates an empty queue.
    pub fn new() -> (q: MessageQueue)
        ensures
            q@ == Seq::<Seq<char>>::empty(),
    {
        let q = MessageQueue { items: VecDeque::new() };
        proof {
            assert(q@ =~= Seq::<Seq<char>>::empty());
        }
        q
    }

    /// The number of messages waiting in the queue.
    pub fn len(&self) -> (n: usize)
        ensures
            n == self@.len(),
    {
        self.items.len()
    }

    /// Appends `message` at the tail of the queue.
    pub fn enqueue(&mut self, message: String)
        ensures
            final(self)@ == old(self)@.push(message@),
    {
        self.items.push_back(message);
        proof {
            assert(self@ =~= old(self)@.push(message@));
        }
    }

    /// Removes and returns the oldest message; returns `None` exactly
    /// when the queue is empty, and then leaves the queue unchanged.
    pub fn dequeue(&mut self) -> (result: Option<String>)
        ensures
            (match result {
                Some(message) => {
                    &&& old(self)@.len() > 0
                    &&& message@ == old(self)@[0]
                    &&& final(self)@ == old(self)@.drop_first()
                },
                None => {
                    &&& old(self)@.len() == 0
                    &&& final(self)@ == old(self)@
                },
            }),
    {
        let result = self.items.pop_front();
        proof {
            if old(self).items@.len() > 0 {
                assert(self@ =~= old(self)@.drop_first());
            } else {
                assert(self@ =~= old(self)@);
            }
        }
        result
    }
}

} // verus!
