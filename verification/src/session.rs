use vstd::prelude::*;
use crate::id::SocketId;
use crate::io_error::{other_io_error, IoError};
use crate::sequence::Sequence;

verus! {

/// What a user asks of a session. `F` makes the socket that is asked for.
pub enum Request<F> {
    CreateSocket(F),
    CreateDevice(SocketId, SocketId),
    Shutdown,
}

/// What a session answers.
#[derive(Debug)]
pub enum Reply {
    Failed(IoError),
    SocketCreated(SocketId),
    DeviceCreated,
    Shutdown,
}

/// A socket of a session, under its name.
pub struct Entry<S> {
    pub id: SocketId,
    pub socket: S,
}

/// The sockets of one session, each under a name of its own, and the
/// answers that the session owes its user.
pub struct Session<S> {
    replies: Vec<Reply>,
    sockets: Vec<Entry<S>>,
    ids: Sequence,
}

impl<S> Session<S> {
    /// The sockets, oldest first.
    pub closed spec fn sockets(&self) -> Seq<Entry<S>> {
        self.sockets@
    }

    /// The answers that were not handed out yet, oldest first.
    pub closed spec fn replies(&self) -> Seq<Reply> {
        self.replies@
    }

    /// How many names were given.
    pub closed spec fn named(&self) -> nat {
        self.ids.issued()
    }

    /// Where the socket named `id` is, if there is one.
    pub open spec fn position(&self, id: SocketId) -> Option<int> {
        if exists|i: int| 0 <= i < self.sockets().len() && self.sockets()[i].id == id {
            Some(choose|i: int| 0 <= i < self.sockets().len() && self.sockets()[i].id == id)
        } else {
            None
        }
    }

    /// The names are those given so far, and a socket that was added later
    /// has a greater name.
    pub open spec fn wf(&self) -> bool {
        &&& forall|i: int| 0 <= i < self.sockets().len() ==> (#[trigger] self.sockets()[i]).id.0
            < self.named()
        &&& forall|i: int, j: int|
            0 <= i < j < self.sockets().len() ==> (#[trigger] self.sockets()[i]).id.0 < (
            #[trigger] self.sockets()[j]).id.0
    }

    /// In a sound session a name is found where it is.
    pub proof fn position_is_unique(&self, i: int)
        requires
            self.wf(),
            0 <= i < self.sockets().len(),
        ensures
            self.position(self.sockets()[i].id) == Some(i),
    {
        let id = self.sockets()[i].id;
        let p = choose|p: int| 0 <= p < self.sockets().len() && self.sockets()[p].id == id;
        if p < i {
            assert(self.sockets()[p].id.0 < self.sockets()[i].id.0);
        } else if i < p {
            assert(self.sockets()[i].id.0 < self.sockets()[p].id.0);
        }
    }

    pub fn new() -> (session: Session<S>)
        ensures
            session.wf(),
            session.sockets().len() == 0,
            session.replies().len() == 0,
            session.named() == 0,
    {
        Session { replies: Vec::new(), sockets: Vec::new(), ids: Sequence::new() }
    }

    /// That `after` is `before` with a socket made by `protocol_ctor`
    /// added under the next name, and the user answered with the name; or,
    /// where the names are used up, with the user answered with an error.
    pub open spec fn socket_added<F: FnOnce() -> S>(
        before: Session<S>,
        protocol_ctor: F,
        after: Session<S>,
    ) -> bool {
        if before.named() < usize::MAX {
            let id = SocketId(before.named() as usize);
            &&& after.named() == before.named() + 1
            &&& after.sockets().len() == before.sockets().len() + 1
            &&& after.sockets().drop_last() == before.sockets()
            &&& after.sockets().last().id == id
            &&& protocol_ctor.ensures((), after.sockets().last().socket)
            &&& after.replies() == before.replies().push(Reply::SocketCreated(id))
        } else {
            &&& after.named() == before.named()
            &&& after.sockets() == before.sockets()
            &&& after.replies().len() == before.replies().len() + 1
            &&& after.replies().drop_last() == before.replies()
            &&& after.replies().last() matches Reply::Failed(e)
            &&& e.kind == crate::io_error::ErrorKind::Other
            &&& e.message@ == "no socket id left"@
        }
    }

    /// That `after` is `before` without the socket named `id`.
    pub open spec fn socket_removed(before: Session<S>, id: SocketId, after: Session<S>) -> bool {
        &&& after.named() == before.named()
        &&& after.replies() == before.replies()
        &&& after.position(id) is None
        &&& after.sockets() == (match before.position(id) {
            Some(i) => before.sockets().remove(i),
            None => before.sockets(),
        })
    }

    /// Makes a socket, keeps it under the next name, and answers with the
    /// name. Once the names are used up nothing is made, and the answer is
    /// an error.
    pub fn add_socket<F: FnOnce() -> S>(&mut self, protocol_ctor: F)
        requires
            old(self).wf(),
            protocol_ctor.requires(()),
        ensures
            final(self).wf(),
            Self::socket_added(*old(self), protocol_ctor, *final(self)),
    {
        match self.ids.next() {
            Some(n) => {
                let id = SocketId(n);
                let socket = protocol_ctor();
                self.sockets.push(Entry { id, socket });
                self.replies.push(Reply::SocketCreated(id));
                proof {
                    let before = old(self).sockets();
                    let after = self.sockets();
                    assert(after.drop_last() =~= before);
                    assert forall|i: int| 0 <= i < after.len() implies (#[trigger] after[i]).id.0
                        < self.named() by {
                        if i < before.len() {
                            assert(after[i] == before[i]);
                            assert(before[i].id.0 < old(self).named());
                        }
                    }
                    assert forall|i: int, j: int| 0 <= i < j < after.len() implies (
                    #[trigger] after[i]).id.0 < (#[trigger] after[j]).id.0 by {
                        assert(after[i] == before[i]);
                        assert(before[i].id.0 < old(self).named());
                        if j < before.len() {
                            assert(after[j] == before[j]);
                        }
                    }
                    assert(self.wf());
                }
            },
            None => {
                self.replies.push(Reply::Failed(other_io_error("no socket id left")));
                proof {
                    assert(self.replies().drop_last() =~= old(self).replies());
                    assert(self.sockets() == old(self).sockets());
                    assert(self.named() == old(self).named());
                    assert(self.wf());
                }
            },
        }
    }

    /// Where the socket named `id` is.
    fn find(&self, id: SocketId) -> (at: Option<usize>)
        requires
            self.wf(),
        ensures
            match at {
                Some(i) => self.position(id) == Some(i as int) && i < self.sockets().len()
                    && self.sockets()[i as int].id == id,
                None => self.position(id) is None,
            },
    {
        let mut i: usize = 0;
        while i < self.sockets.len()
            invariant
                self.wf(),
                i <= self.sockets().len(),
                forall|k: int| 0 <= k < i ==> (#[trigger] self.sockets()[k]).id != id,
            decreases self.sockets.len() - i,
        {
            if self.sockets[i].id == id {
                proof {
                    self.position_is_unique(i as int);
                }
                return Some(i);
            }
            i = i + 1;
        }
        None
    }

    /// Whether there is a socket named `id`.
    pub fn has_socket(&self, id: SocketId) -> (found: bool)
        requires
            self.wf(),
        ensures
            found == self.position(id) is Some,
    {
        self.find(id).is_some()
    }

    /// Lets `f` look at the socket named `id`, if there is one.
    pub fn do_on_socket<F>(&self, id: SocketId, f: F) where F: FnOnce(&S)
        requires
            self.wf(),
            forall|s: &S| #[trigger] f.requires((s,)),
        ensures
            self.position(id) matches Some(i) ==> f.ensures((&self.sockets()[i].socket,), ()),
    {
        match self.find(id) {
            Some(i) => f(&self.sockets[i].socket),
            None => {},
        }
    }

    /// Lets `f` work on the socket named `id`, if there is one. Nothing
    /// else changes.
    pub fn do_on_socket_mut<F>(&mut self, id: SocketId, f: F) where F: FnOnce(&mut S)
        requires
            old(self).wf(),
            forall|s: &mut S| #[trigger] f.requires((s,)),
        ensures
            final(self).wf(),
            final(self).named() == old(self).named(),
            final(self).replies() == old(self).replies(),
            final(self).sockets().len() == old(self).sockets().len(),
            forall|k: int|
                0 <= k < old(self).sockets().len() ==> (#[trigger] final(self).sockets()[k]).id
                    == old(self).sockets()[k].id,
            forall|k: int|
                0 <= k < old(self).sockets().len() && old(self).position(id) != Some(k)
                    ==> #[trigger] final(self).sockets()[k] == old(self).sockets()[k],
            old(self).position(id) matches Some(i) ==> (exists|r: &mut S|
                *r == old(self).sockets()[i].socket && *final(r) == final(self).sockets()[i].socket
                    && #[trigger] f.ensures((r,), ())),
    {
        match self.find(id) {
            Some(i) => {
                let r = &mut self.sockets[i].socket;
                f(r);
            },
            None => {},
        }
    }

    /// Takes the socket named `id` out of the session, if there is one.
    pub fn remove_socket(&mut self, id: SocketId) -> (removed: Option<S>)
        requires
            old(self).wf(),
        ensures
            final(self).wf(),
            Self::socket_removed(*old(self), id, *final(self)),
            removed == (match old(self).position(id) {
                Some(i) => Some(old(self).sockets()[i].socket),
                None => None,
            }),
    {
        match self.find(id) {
            Some(i) => {
                let entry = self.sockets.remove(i);
                proof {
                    let after = self.sockets();
                    let before = old(self).sockets();
                    assert forall|k: int| 0 <= k < after.len() implies (#[trigger] after[k]).id
                        != id by {
                        if k < i {
                            assert(after[k] == before[k]);
                            assert(before[k].id.0 < before[i as int].id.0);
                        } else {
                            assert(after[k] == before[k + 1]);
                            assert(before[i as int].id.0 < before[k + 1].id.0);
                        }
                    }
                    assert forall|a: int, b: int| 0 <= a < b < after.len() implies (
                    #[trigger] after[a]).id.0 < (#[trigger] after[b]).id.0 by {
                        let a0 = if a < i { a } else { a + 1 };
                        let b0 = if b < i { b } else { b + 1 };
                        assert(after[a] == before[a0]);
                        assert(after[b] == before[b0]);
                        assert(before[a0].id.0 < before[b0].id.0);
                    }
                    assert forall|k: int| 0 <= k < after.len() implies (#[trigger] after[k]).id.0
                        < self.named() by {
                        let k0 = if k < i { k } else { k + 1 };
                        assert(after[k] == before[k0]);
                        assert(before[k0].id.0 < old(self).named());
                    }
                }
                Some(entry.socket)
            },
            None => None,
        }
    }

    /// Hands out the answers that are owed, oldest first.
    pub fn take_replies(&mut self) -> (replies: Vec<Reply>)
        ensures
            replies@ == old(self).replies(),
            final(self).replies().len() == 0,
            final(self).sockets() == old(self).sockets(),
            final(self).named() == old(self).named(),
    {
        let mut replies: Vec<Reply> = Vec::new();
        replies.append(&mut self.replies);
        replies
    }
}

} // verus!
