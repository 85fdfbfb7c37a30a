use vstd::prelude::*;
use crate::context::Timeout;
use crate::pipe::Pipe;
use crate::transport::{Connection, EventLoop, Token};

verus! {

/// Clears the deadline, if one was set.
pub fn clear_timeout(event_loop: &mut EventLoop, timeout: Timeout)
    ensures
        final(event_loop)@ == (match timeout {
            Some(handle) => old(event_loop)@.push(
                crate::transport::PollRequest::ClearTimeout(handle),
            ),
            None => old(event_loop)@,
        }),
{
    match timeout {
        Some(handle) => event_loop.clear_timeout(handle),
        None => {},
    }
}

/// How many of the pipes can be given a message with a chance that it goes
/// out.
pub open spec fn send_ready_count<C: Connection>(entries: Seq<Entry<C>>) -> nat
    decreases entries.len(),
{
    if entries.len() == 0 {
        0
    } else {
        send_ready_count(entries.drop_last()) + (if entries.last().pipe.can_send() {
            1nat
        } else {
            0nat
        })
    }
}

/// How many of the pipes cannot be given a message now.
pub open spec fn send_unready_count<C: Connection>(entries: Seq<Entry<C>>) -> nat
    decreases entries.len(),
{
    if entries.len() == 0 {
        0
    } else {
        send_unready_count(entries.drop_last()) + (if entries.last().pipe.can_send() {
            0nat
        } else {
            1nat
        })
    }
}

/// Every pipe of a socket either can be given a message or cannot: the two
/// kinds together are all the pipes.
pub proof fn every_pipe_is_ready_or_not<C: Connection>(pipes: Pipes<C>)
    ensures
        send_ready_count(pipes.entries()) + send_unready_count(pipes.entries())
            == pipes.entries().len(),
{
    ready_or_not(pipes.entries());
}

proof fn ready_or_not<C: Connection>(entries: Seq<Entry<C>>)
    ensures
        send_ready_count(entries) + send_unready_count(entries) == entries.len(),
    decreases entries.len(),
{
    if entries.len() > 0 {
        ready_or_not(entries.drop_last());
    }
}

/// A pipe under the token that its socket knows it by.
pub struct Entry<C: Connection> {
    pub token: Token,
    pub pipe: Pipe<C>,
}

/// The pipes of a socket, in the order in which they were added, each under
/// a token of its own.
pub struct Pipes<C: Connection> {
    entries: Vec<Entry<C>>,
}

impl<C: Connection> Pipes<C> {
    pub closed spec fn entries(&self) -> Seq<Entry<C>> {
        self.entries@
    }

    /// No two pipes are known by the same token.
    pub open spec fn wf(&self) -> bool {
        forall|i: int, j: int|
            0 <= i < j < self.entries().len() ==> (#[trigger] self.entries()[i]).token != (
            #[trigger] self.entries()[j]).token
    }

    /// Where the pipe known by `token` is, if there is one.
    pub open spec fn position(&self, token: Token) -> Option<int> {
        if exists|i: int| 0 <= i < self.entries().len() && self.entries()[i].token == token {
            Some(choose|i: int| 0 <= i < self.entries().len() && self.entries()[i].token == token)
        } else {
            None
        }
    }

    /// Where a token stands is where the pipe known by it is.
    pub proof fn found_is_position(&self, token: Token, i: int)
        requires
            self.wf(),
            0 <= i < self.entries().len(),
            self.entries()[i].token == token,
        ensures
            self.position(token) == Some(i),
    {
        let p = choose|p: int| 0 <= p < self.entries().len() && self.entries()[p].token == token;
        if p < i {
            assert(self.entries()[p].token != self.entries()[i].token);
        } else if i < p {
            assert(self.entries()[i].token != self.entries()[p].token);
        }
    }

    pub fn new() -> (pipes: Pipes<C>)
        ensures
            pipes.wf(),
            pipes.entries().len() == 0,
    {
        Pipes { entries: Vec::new() }
    }

    pub fn len(&self) -> (n: usize)
        ensures
            n == self.entries().len(),
    {
        self.entries.len()
    }

    /// Where the pipe known by `token` is.
    pub fn find(&self, token: &Token) -> (at: Option<usize>)
        requires
            self.wf(),
        ensures
            match at {
                Some(i) => self.position(*token) == Some(i as int) && i < self.entries().len()
                    && self.entries()[i as int].token == *token,
                None => self.position(*token) is None,
            },
    {
        let mut i: usize = 0;
        while i < self.entries.len()
            invariant
                self.wf(),
                i <= self.entries().len(),
                forall|k: int| 0 <= k < i ==> (#[trigger] self.entries()[k]).token != *token,
            decreases self.entries.len() - i,
        {
            if self.entries[i].token == *token {
                proof {
                    self.found_is_position(*token, i as int);
                }
                return Some(i);
            }
            i = i + 1;
        }
        None
    }

    /// The pipe known by `token`.
    pub fn get(&self, token: &Token) -> (pipe: Option<&Pipe<C>>)
        requires
            self.wf(),
        ensures
            match self.position(*token) {
                Some(i) => pipe == Some(&self.entries()[i].pipe),
                None => pipe is None,
            },
    {
        match self.find(token) {
            Some(i) => Some(&self.entries[i].pipe),
            None => None,
        }
    }

    /// The pipe at place `i`, to work on.
    pub fn at_mut(&mut self, i: usize) -> (pipe: &mut Pipe<C>)
        requires
            i < old(self).entries().len(),
        ensures
            *pipe == old(self).entries()[i as int].pipe,
            final(self).entries() == old(self).entries().update(
                i as int,
                Entry { token: old(self).entries()[i as int].token, pipe: *final(pipe) },
            ),
    {
        &mut self.entries[i].pipe
    }

    /// Takes the pipe in under `token`. If a pipe was known by that token it
    /// gives way to the new one and comes back.
    pub fn insert(&mut self, token: Token, pipe: Pipe<C>) -> (replaced: Option<Pipe<C>>)
        requires
            old(self).wf(),
        ensures
            final(self).wf(),
            match old(self).position(token) {
                Some(i) => replaced == Some(old(self).entries()[i].pipe) && final(self).entries()
                    == old(self).entries().update(i, Entry { token, pipe }),
                None => replaced is None && final(self).entries() == old(self).entries().push(
                    Entry { token, pipe },
                ),
            },
    {
        match self.find(&token) {
            Some(i) => {
                let mut entry = Entry { token, pipe };
                std::mem::swap(&mut self.entries[i], &mut entry);
                proof {
                    let before = old(self).entries();
                    let after = self.entries();
                    assert(after =~= before.update(i as int, Entry { token, pipe }));
                    assert forall|a: int, b: int| 0 <= a < b < after.len() implies (
                    #[trigger] after[a]).token != (#[trigger] after[b]).token by {
                        assert(before[a].token != before[b].token);
                    }
                }
                Some(entry.pipe)
            },
            None => {
                self.entries.push(Entry { token, pipe });
                proof {
                    let before = old(self).entries();
                    let after = self.entries();
                    assert forall|a: int, b: int| 0 <= a < b < after.len() implies (
                    #[trigger] after[a]).token != (#[trigger] after[b]).token by {
                        assert(after[a] == before[a]);
                        if b < before.len() {
                            assert(after[b] == before[b]);
                            assert(before[a].token != before[b].token);
                        }
                    }
                }
                None
            },
        }
    }

    /// Gives the pipe known by `token` back, if there is one.
    pub fn remove(&mut self, token: &Token) -> (pipe: Option<Pipe<C>>)
        requires
            old(self).wf(),
        ensures
            final(self).wf(),
            final(self).position(*token) is None,
            match old(self).position(*token) {
                Some(i) => pipe == Some(old(self).entries()[i].pipe) && final(self).entries()
                    == old(self).entries().remove(i),
                None => pipe is None && final(self).entries() == old(self).entries(),
            },
    {
        match self.find(token) {
            Some(i) => {
                let entry = self.entries.remove(i);
                proof {
                    let before = old(self).entries();
                    let after = self.entries();
                    assert forall|a: int, b: int| 0 <= a < b < after.len() implies (
                    #[trigger] after[a]).token != (#[trigger] after[b]).token by {
                        let a0 = if a < i { a } else { a + 1 };
                        let b0 = if b < i { b } else { b + 1 };
                        assert(after[a] == before[a0]);
                        assert(after[b] == before[b0]);
                        assert(before[a0].token != before[b0].token);
                    }
                    assert forall|k: int| 0 <= k < after.len() implies (#[trigger] after[k]).token
                        != *token by {
                        let k0 = if k < i { k } else { k + 1 };
                        assert(after[k] == before[k0]);
                        if k0 < i {
                            assert(before[k0].token != before[i as int].token);
                        } else {
                            assert(before[i as int].token != before[k0].token);
                        }
                    }
                }
                Some(entry.pipe)
            },
            None => None,
        }
    }
}

} // verus!
