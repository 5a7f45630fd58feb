//! The queue of messages a process has received but not yet taken.
use vstd::prelude::*;

use crate::erts::message::Message;
use crate::erts::signal::MessageSignal;
use crate::erts::signal::Signal;

verus! {

/// Error of a poll on a signal channel whose senders are all gone.
#[derive(Clone, Copy, Debug, PartialEq, Eq, Structural)]
pub struct Disconnected;

impl Disconnected {
    /// The error's message.
    pub fn to_string(&self) -> (r: String)
        ensures
            r@ == "receiving on a closed channel"@,
    {
        String::from_str("receiving on a closed channel")
    }
}

/// Messages received and set aside, oldest first, for selective receive.
pub struct SignalQueue<T> {
    internal: Vec<Message<T>>,
}

impl<T> View for SignalQueue<T> {
    type V = Seq<Message<T>>;

    closed spec fn view(&self) -> Seq<Message<T>> {
        self.internal@
    }
}

/// Returns `true` if taking the message at `index` of `before`, leaving
/// `after`, is what selective receive with `filter` does: the first message
/// the filter accepts is taken, the others keep their order.
pub open spec fn takes_first<T, F: Fn(&Message<T>) -> bool>(
    filter: F,
    before: Seq<Message<T>>,
    index: int,
    after: Seq<Message<T>>,
) -> bool {
    &&& 0 <= index < before.len()
    &&& after == before.remove(index)
    &&& call_ensures(filter, (&before[index],), true)
    &&& forall|j: int| 0 <= j < index ==> call_ensures(filter, (&before[j],), false)
}

impl<T> SignalQueue<T> {
    /// Creates an empty queue.
    pub fn new() -> (r: SignalQueue<T>)
        ensures
            r@ == Seq::<Message<T>>::empty(),
    {
        SignalQueue { internal: Vec::new() }
    }

    /// The message a signal carries into the mailbox: the data of a sent
    /// message; a control signal carries none.
    pub fn capture(&self, signal: Signal<T>) -> (r: Option<Message<T>>)
        ensures
            r == match signal {
                Signal::Message(MessageSignal::Send(send)) => Some(Message::Term(send.data)),
                Signal::Control(_) => None::<Message<T>>,
            },
    {
        match signal {
            Signal::Message(MessageSignal::Send(send)) => Some(Message::Term(send.data)),
            Signal::Control(_) => None,
        }
    }

    /// Sets `message` aside at the end of the queue.
    pub fn stash(&mut self, message: Message<T>)
        ensures
            final(self)@ == old(self)@.push(message),
    {
        self.internal.push(message);
    }

    /// Takes the oldest message that `filter` accepts, or `None` if it
    /// accepts none; the other messages keep their order.
    pub fn poll_internal<F>(&mut self, filter: F) -> (r: Option<Message<T>>)
        where
            F: Fn(&Message<T>) -> bool,
        requires
            forall|m: &Message<T>| #[trigger] filter.requires((m,)),
        ensures
            r is None ==> final(self)@ == old(self)@ && forall|j: int|
                0 <= j < old(self)@.len() ==> call_ensures(filter, (&#[trigger] old(self)@[j],), false),
            r is Some ==> exists|i: int|
                #![trigger old(self)@[i]]
                takes_first(filter, old(self)@, i, final(self)@) && r->0 == old(self)@[i],
    {
        let mut i: usize = 0;
        while i < self.internal.len()
            invariant
                forall|m: &Message<T>| #[trigger] filter.requires((m,)),
                i <= self.internal@.len(),
                self.internal@ == old(self)@,
                forall|j: int| 0 <= j < i ==> call_ensures(filter, (&#[trigger] self.internal@[j],), false),
            decreases self.internal@.len() - i,
        {
            let accepted: bool = filter(&self.internal[i]);
            if accepted {
                let message: Message<T> = self.internal.remove(i);
                proof {
                    assert(takes_first(filter, old(self)@, i as int, self.internal@));
                }
                return Some(message);
            }
            i = i + 1;
        }
        None
    }
}

} // verus!
