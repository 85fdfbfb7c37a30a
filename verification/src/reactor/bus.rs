use vstd::prelude::*;
use std::collections::VecDeque;

verus! {

/// The reactor's own bus: what is sent over it is received in the order in
/// which it was sent.
pub struct EventLoopBus<T> {
    queue: VecDeque<T>,
}

impl<T> View for EventLoopBus<T> {
    type V = Seq<T>;

    closed spec fn view(&self) -> Seq<T> {
        self.queue@
    }
}

impl<T> EventLoopBus<T> {
    pub fn new() -> (bus: EventLoopBus<T>)
        ensures
            bus@ == Seq::<T>::empty(),
    {
        EventLoopBus { queue: VecDeque::new() }
    }

    pub fn len(&self) -> (n: usize)
        ensures
            n == self@.len(),
    {
        self.queue.len()
    }

    pub fn send(&mut self, signal: T)
        ensures
            final(self)@ == old(self)@.push(signal),
    {
        self.queue.push_back(signal);
    }

    /// Hands out all that waits, oldest first.
    pub fn take_all(&mut self) -> (signals: Vec<T>)
        ensures
            signals@ == old(self)@,
            final(self)@ == Seq::<T>::empty(),
    {
        let mut signals: Vec<T> = Vec::new();
        while self.queue.len() > 0
            invariant
                signals@ + self@ == old(self)@,
            decreases self@.len(),
        {
            let ghost waiting = self@;
            match self.queue.pop_front() {
                Some(signal) => {
                    signals.push(signal);
                    proof {
                        assert(signals@ + self@ =~= old(self)@);
                    }
                },
                None => {},
            }
        }
        proof {
            assert(signals@ =~= signals@ + self@);
        }
        signals
    }

    pub fn recv(&mut self) -> (signal: Option<T>)
        ensures
            match signal {
                Some(first) => old(self)@.len() > 0 && first == old(self)@[0] && final(self)@ == old(self)@.subrange(1, old(self)@.len() as int),
                None => old(self)@.len() == 0 && final(self)@ == old(self)@,
            },
    {
        self.queue.pop_front()
    }
}

} // verus!
