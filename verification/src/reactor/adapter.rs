use vstd::prelude::*;
use crate::id::{EndpointId, SocketId};
use crate::sequence::Sequence;

verus! {

/// An endpoint under its name, with the socket that it belongs to.
pub struct Endpoint<T> {
    pub id: EndpointId,
    pub socket: SocketId,
    pub inner: T,
}

/// The endpoints of the reactor: the pipes and the acceptors, each under a
/// name of its own. The collection alone owns them.
pub struct EndpointCollection<P, A> {
    ids: Sequence,
    pipes: Vec<Endpoint<P>>,
    acceptors: Vec<Endpoint<A>>,
}

/// Whether every name is below `named`, an endpoint that was added later
/// has a greater name, and no pipe has the name of an acceptor.
pub open spec fn names_are_sound<P, A>(
    pipes: Seq<Endpoint<P>>,
    acceptors: Seq<Endpoint<A>>,
    named: nat,
) -> bool {
    &&& forall|i: int| 0 <= i < pipes.len() ==> (#[trigger] pipes[i]).id.0 < named
    &&& forall|i: int| 0 <= i < acceptors.len() ==> (#[trigger] acceptors[i]).id.0 < named
    &&& forall|i: int, j: int|
        0 <= i < j < pipes.len() ==> (#[trigger] pipes[i]).id.0 < (#[trigger] pipes[j]).id.0
    &&& forall|i: int, j: int|
        0 <= i < j < acceptors.len() ==> (#[trigger] acceptors[i]).id.0 < (
        #[trigger] acceptors[j]).id.0
    &&& forall|i: int, j: int|
        0 <= i < pipes.len() && 0 <= j < acceptors.len() ==> (#[trigger] pipes[i]).id != (
        #[trigger] acceptors[j]).id
}

/// Whether one of `endpoints` has the name `id`.
pub open spec fn has_name<T>(endpoints: Seq<Endpoint<T>>, id: EndpointId) -> bool {
    exists|i: int| 0 <= i < endpoints.len() && (#[trigger] endpoints[i]).id == id
}

impl<P, A> EndpointCollection<P, A> {
    pub closed spec fn pipes(&self) -> Seq<Endpoint<P>> {
        self.pipes@
    }

    pub closed spec fn acceptors(&self) -> Seq<Endpoint<A>> {
        self.acceptors@
    }

    /// How many names were given.
    pub closed spec fn named(&self) -> nat {
        self.ids.issued()
    }

    pub open spec fn wf(&self) -> bool {
        names_are_sound(self.pipes(), self.acceptors(), self.named())
    }

    /// That `after` is `before` without the pipe named `id`.
    pub open spec fn pipe_removed(
        before: EndpointCollection<P, A>,
        id: EndpointId,
        after: EndpointCollection<P, A>,
    ) -> bool {
        &&& after.named() == before.named()
        &&& after.acceptors() == before.acceptors()
        &&& !has_name(after.pipes(), id)
        &&& if has_name(before.pipes(), id) {
            exists|i: int|
                0 <= i < before.pipes().len() && (#[trigger] before.pipes()[i]).id == id
                    && after.pipes() == before.pipes().remove(i)
        } else {
            after.pipes() == before.pipes()
        }
    }

    /// The pipes that come of taking `pipes` in for socket `sid`, one after
    /// the other, when `named` names were given before.
    pub open spec fn taken_in(pipes: Seq<P>, sid: SocketId, named: nat) -> Seq<Endpoint<P>> {
        Seq::new(
            pipes.len(),
            |k: int| Endpoint { id: EndpointId((named + k) as usize), socket: sid, inner: pipes[k] },
        )
    }

    pub fn new() -> (endpoints: EndpointCollection<P, A>)
        ensures
            endpoints.wf(),
            endpoints.pipes().len() == 0,
            endpoints.acceptors().len() == 0,
            endpoints.named() == 0,
    {
        EndpointCollection { ids: Sequence::new(), pipes: Vec::new(), acceptors: Vec::new() }
    }

    /// Where the pipe named `id` is.
    fn find_pipe(&self, id: EndpointId) -> (at: Option<usize>)
        ensures
            match at {
                Some(i) => i < self.pipes().len() && self.pipes()[i as int].id == id,
                None => !has_name(self.pipes(), id),
            },
    {
        let mut i: usize = 0;
        while i < self.pipes.len()
            invariant
                i <= self.pipes().len(),
                forall|k: int| 0 <= k < i ==> (#[trigger] self.pipes()[k]).id != id,
            decreases self.pipes.len() - i,
        {
            if self.pipes[i].id == id {
                return Some(i);
            }
            i = i + 1;
        }
        None
    }

    /// Where the acceptor named `id` is.
    fn find_acceptor(&self, id: EndpointId) -> (at: Option<usize>)
        ensures
            match at {
                Some(i) => i < self.acceptors().len() && self.acceptors()[i as int].id == id,
                None => !has_name(self.acceptors(), id),
            },
    {
        let mut i: usize = 0;
        while i < self.acceptors.len()
            invariant
                i <= self.acceptors().len(),
                forall|k: int| 0 <= k < i ==> (#[trigger] self.acceptors()[k]).id != id,
            decreases self.acceptors.len() - i,
        {
            if self.acceptors[i].id == id {
                return Some(i);
            }
            i = i + 1;
        }
        None
    }

    pub fn has_pipe(&self, id: EndpointId) -> (found: bool)
        ensures
            found == has_name(self.pipes(), id),
    {
        self.find_pipe(id).is_some()
    }

    pub fn has_acceptor(&self, id: EndpointId) -> (found: bool)
        ensures
            found == has_name(self.acceptors(), id),
    {
        self.find_acceptor(id).is_some()
    }

    /// Takes a pipe of socket `sid` in under the next name, and says the
    /// name. Once the names are used up the pipe comes back.
    pub fn insert_pipe(&mut self, sid: SocketId, pipe: P) -> (r: Result<EndpointId, P>)
        requires
            old(self).wf(),
        ensures
            final(self).wf(),
            final(self).acceptors() == old(self).acceptors(),
            match r {
                Ok(id) => {
                    &&& old(self).named() < usize::MAX
                    &&& id.0 == old(self).named()
                    &&& final(self).named() == old(self).named() + 1
                    &&& final(self).pipes() == old(self).pipes().push(
                        Endpoint { id, socket: sid, inner: pipe },
                    )
                },
                Err(back) => {
                    &&& old(self).named() >= usize::MAX
                    &&& back == pipe
                    &&& final(self).named() == old(self).named()
                    &&& final(self).pipes() == old(self).pipes()
                },
            },
    {
        match self.ids.next() {
            Some(n) => {
                let id = EndpointId(n);
                self.pipes.push(Endpoint { id, socket: sid, inner: pipe });
                proof {
                    let before = old(self).pipes();
                    let after = self.pipes();
                    assert forall|i: int| 0 <= i < after.len() implies (#[trigger] after[i]).id.0
                        < self.named() by {
                        if i < before.len() {
                            assert(after[i] == before[i]);
                            assert(before[i].id.0 < old(self).named());
                        }
                    }
                    assert forall|i: int, j: int| 0 <= i < j < after.len() implies (
                    #[trigger] after[i]).id.0 < (#[trigger] after[j]).id.0 by {
                        assert(after[i] == before[i]);
                        assert(before[i].id.0 < old(self).named());
                        if j < before.len() {
                            assert(after[j] == before[j]);
                            assert(before[i].id.0 < before[j].id.0);
                        }
                    }
                    assert forall|i: int, j: int|
                        0 <= i < after.len() && 0 <= j < self.acceptors().len() implies (
                    #[trigger] after[i]).id != (#[trigger] self.acceptors()[j]).id by {
                        assert(self.acceptors()[j].id.0 < old(self).named());
                        if i < before.len() {
                            assert(after[i] == before[i]);
                        }
                    }
                    assert forall|i: int| 0 <= i < self.acceptors().len() implies (
                    #[trigger] self.acceptors()[i]).id.0 < self.named() by {
                        assert(old(self).acceptors()[i].id.0 < old(self).named());
                    }
                }
                Ok(id)
            },
            None => Err(pipe),
        }
    }

    /// Takes in, under the next name, the pipe of socket `sid` that `make`
    /// makes for that name, and says the name. Once the names are used up
    /// nothing is made.
    pub fn insert_pipe_with<F: FnOnce(EndpointId) -> P>(&mut self, sid: SocketId, make: F) -> (r:
        Option<EndpointId>)
        requires
            old(self).wf(),
            forall|id: EndpointId| #[trigger] make.requires((id,)),
        ensures
            final(self).wf(),
            final(self).acceptors() == old(self).acceptors(),
            match r {
                Some(id) => {
                    &&& old(self).named() < usize::MAX
                    &&& id.0 == old(self).named()
                    &&& final(self).named() == old(self).named() + 1
                    &&& final(self).pipes().len() == old(self).pipes().len() + 1
                    &&& final(self).pipes().drop_last() == old(self).pipes()
                    &&& final(self).pipes().last().id == id
                    &&& final(self).pipes().last().socket == sid
                    &&& make.ensures((id,), final(self).pipes().last().inner)
                },
                None => {
                    &&& old(self).named() >= usize::MAX
                    &&& final(self).named() == old(self).named()
                    &&& final(self).pipes() == old(self).pipes()
                },
            },
    {
        if self.ids.is_used_up() {
            return None;
        }
        let id = EndpointId(self.ids.peek());
        let pipe = make(id);
        match self.insert_pipe(sid, pipe) {
            Ok(given) => {
                proof {
                    assert(self.pipes().drop_last() =~= old(self).pipes());
                }
                Some(given)
            },
            Err(_) => None,
        }
    }

    /// Takes in, under the next name, the acceptor of socket `sid` that
    /// `make` makes for that name, and says the name. Once the names are used
    /// up nothing is made.
    pub fn insert_acceptor_with<F: FnOnce(EndpointId) -> A>(
        &mut self,
        sid: SocketId,
        make: F,
    ) -> (r: Option<EndpointId>)
        requires
            old(self).wf(),
            forall|id: EndpointId| #[trigger] make.requires((id,)),
        ensures
            final(self).wf(),
            final(self).pipes() == old(self).pipes(),
            match r {
                Some(id) => {
                    &&& old(self).named() < usize::MAX
                    &&& id.0 == old(self).named()
                    &&& final(self).named() == old(self).named() + 1
                    &&& final(self).acceptors().len() == old(self).acceptors().len() + 1
                    &&& final(self).acceptors().drop_last() == old(self).acceptors()
                    &&& final(self).acceptors().last().id == id
                    &&& final(self).acceptors().last().socket == sid
                    &&& make.ensures((id,), final(self).acceptors().last().inner)
                },
                None => {
                    &&& old(self).named() >= usize::MAX
                    &&& final(self).named() == old(self).named()
                    &&& final(self).acceptors() == old(self).acceptors()
                },
            },
    {
        if self.ids.is_used_up() {
            return None;
        }
        let id = EndpointId(self.ids.peek());
        let acceptor = make(id);
        match self.insert_acceptor(sid, acceptor) {
            Ok(given) => {
                proof {
                    assert(self.acceptors().drop_last() =~= old(self).acceptors());
                }
                Some(given)
            },
            Err(_) => None,
        }
    }

    /// Takes an acceptor of socket `sid` in under the next name, and says
    /// the name. Once the names are used up the acceptor comes back.
    pub fn insert_acceptor(&mut self, sid: SocketId, acceptor: A) -> (r: Result<EndpointId, A>)
        requires
            old(self).wf(),
        ensures
            final(self).wf(),
            final(self).pipes() == old(self).pipes(),
            match r {
                Ok(id) => {
                    &&& old(self).named() < usize::MAX
                    &&& id.0 == old(self).named()
                    &&& final(self).named() == old(self).named() + 1
                    &&& final(self).acceptors() == old(self).acceptors().push(
                        Endpoint { id, socket: sid, inner: acceptor },
                    )
                },
                Err(back) => {
                    &&& old(self).named() >= usize::MAX
                    &&& back == acceptor
                    &&& final(self).named() == old(self).named()
                    &&& final(self).acceptors() == old(self).acceptors()
                },
            },
    {
        match self.ids.next() {
            Some(n) => {
                let id = EndpointId(n);
                self.acceptors.push(Endpoint { id, socket: sid, inner: acceptor });
                proof {
                    let before = old(self).acceptors();
                    let after = self.acceptors();
                    assert forall|i: int| 0 <= i < after.len() implies (#[trigger] after[i]).id.0
                        < self.named() by {
                        if i < before.len() {
                            assert(after[i] == before[i]);
                            assert(before[i].id.0 < old(self).named());
                        }
                    }
                    assert forall|i: int, j: int| 0 <= i < j < after.len() implies (
                    #[trigger] after[i]).id.0 < (#[trigger] after[j]).id.0 by {
                        assert(after[i] == before[i]);
                        assert(before[i].id.0 < old(self).named());
                        if j < before.len() {
                            assert(after[j] == before[j]);
                            assert(before[i].id.0 < before[j].id.0);
                        }
                    }
                    assert forall|i: int, j: int|
                        0 <= i < self.pipes().len() && 0 <= j < after.len() implies (
                    #[trigger] self.pipes()[i]).id != (#[trigger] after[j]).id by {
                        assert(self.pipes()[i].id.0 < old(self).named());
                        if j < before.len() {
                            assert(after[j] == before[j]);
                        }
                    }
                    assert forall|i: int| 0 <= i < self.pipes().len() implies (
                    #[trigger] self.pipes()[i]).id.0 < self.named() by {
                        assert(old(self).pipes()[i].id.0 < old(self).named());
                    }
                }
                Ok(id)
            },
            None => Err(acceptor),
        }
    }

    /// Lets `f` work on the pipe named `id`, if there is one. Nothing else
    /// changes.
    pub fn do_on_pipe_mut<F>(&mut self, id: EndpointId, f: F) where F: FnOnce(&mut P)
        requires
            old(self).wf(),
            forall|p: &mut P| #[trigger] f.requires((p,)),
        ensures
            final(self).wf(),
            final(self).named() == old(self).named(),
            final(self).acceptors() == old(self).acceptors(),
            final(self).pipes().len() == old(self).pipes().len(),
            forall|k: int|
                0 <= k < old(self).pipes().len() ==> (#[trigger] final(self).pipes()[k]).id == old(self).pipes()[k].id && final(self).pipes()[k].socket == old(self).pipes()[k].socket,
            forall|k: int|
                0 <= k < old(self).pipes().len() && old(self).pipes()[k].id != id
                    ==> #[trigger] final(self).pipes()[k] == old(self).pipes()[k],
            forall|k: int|
                0 <= k < old(self).pipes().len() && old(self).pipes()[k].id == id ==> (exists|
                    r: &mut P,
                |
                    *r == old(self).pipes()[k].inner && *final(r) == (#[trigger] final(self).pipes()[k]).inner && #[trigger] f.ensures((r,), ())),
    {
        match self.find_pipe(id) {
            Some(i) => {
                let r = &mut self.pipes[i].inner;
                f(r);
                proof {
                    let before = old(self).pipes();
                    let after = self.pipes();
                    assert forall|a: int, b: int| 0 <= a < b < after.len() implies (
                    #[trigger] after[a]).id.0 < (#[trigger] after[b]).id.0 by {
                        assert(before[a].id.0 < before[b].id.0);
                    }
                    assert forall|k: int| 0 <= k < after.len() implies (#[trigger] after[k]).id.0
                        < self.named() by {
                        assert(before[k].id.0 < old(self).named());
                    }
                    assert forall|a: int, b: int|
                        0 <= a < after.len() && 0 <= b < self.acceptors().len() implies (
                    #[trigger] after[a]).id != (#[trigger] self.acceptors()[b]).id by {
                        assert(before[a].id != old(self).acceptors()[b].id);
                    }
                    assert forall|k: int|
                        0 <= k < before.len() && before[k].id == id implies (exists|r: &mut P|
                        *r == before[k].inner && *final(r) == (#[trigger] after[k]).inner
                            && #[trigger] f.ensures((r,), ())) by {
                        if k < i {
                            assert(before[k].id.0 < before[i as int].id.0);
                        } else if k > i {
                            assert(before[i as int].id.0 < before[k].id.0);
                        }
                    }
                }
            },
            None => {},
        }
    }

    /// The socket that the pipe named `id` belongs to, if there is such a pipe.
    pub fn socket_of_pipe(&self, id: EndpointId) -> (socket: Option<SocketId>)
        ensures
            socket is Some <==> has_name(self.pipes(), id),
            socket matches Some(sid) ==> exists|i: int|
                0 <= i < self.pipes().len() && (#[trigger] self.pipes()[i]).id == id
                    && self.pipes()[i].socket == sid,
    {
        match self.find_pipe(id) {
            Some(i) => Some(self.pipes[i].socket),
            None => None,
        }
    }

    /// The socket that the acceptor named `id` belongs to, if there is such
    /// an acceptor.
    pub fn socket_of_acceptor(&self, id: EndpointId) -> (socket: Option<SocketId>)
        ensures
            socket is Some <==> has_name(self.acceptors(), id),
            socket matches Some(sid) ==> exists|i: int|
                0 <= i < self.acceptors().len() && (#[trigger] self.acceptors()[i]).id == id
                    && self.acceptors()[i].socket == sid,
    {
        match self.find_acceptor(id) {
            Some(i) => Some(self.acceptors[i].socket),
            None => None,
        }
    }

    /// Lets `f` work on the acceptor named `id`, if there is one. Nothing
    /// else changes.
    pub fn do_on_acceptor_mut<F>(&mut self, id: EndpointId, f: F) where F: FnOnce(&mut A)
        requires
            old(self).wf(),
            forall|a: &mut A| #[trigger] f.requires((a,)),
        ensures
            final(self).wf(),
            final(self).named() == old(self).named(),
            final(self).pipes() == old(self).pipes(),
            final(self).acceptors().len() == old(self).acceptors().len(),
            forall|k: int|
                0 <= k < old(self).acceptors().len() ==> (#[trigger] final(self).acceptors()[k]).id == old(self).acceptors()[k].id && final(self).acceptors()[k].socket == old(self).acceptors()[k].socket,
            forall|k: int|
                0 <= k < old(self).acceptors().len() && old(self).acceptors()[k].id != id
                    ==> #[trigger] final(self).acceptors()[k] == old(self).acceptors()[k],
            forall|k: int|
                0 <= k < old(self).acceptors().len() && old(self).acceptors()[k].id == id ==> (
                exists|r: &mut A|
                    *r == old(self).acceptors()[k].inner && *final(r) == (#[trigger] final(self).acceptors()[k]).inner && #[trigger] f.ensures((r,), ())),
    {
        match self.find_acceptor(id) {
            Some(i) => {
                let r = &mut self.acceptors[i].inner;
                f(r);
                proof {
                    let before = old(self).acceptors();
                    let after = self.acceptors();
                    assert forall|a: int, b: int| 0 <= a < b < after.len() implies (
                    #[trigger] after[a]).id.0 < (#[trigger] after[b]).id.0 by {
                        assert(before[a].id.0 < before[b].id.0);
                    }
                    assert forall|k: int| 0 <= k < after.len() implies (#[trigger] after[k]).id.0
                        < self.named() by {
                        assert(before[k].id.0 < old(self).named());
                    }
                    assert forall|a: int, b: int|
                        0 <= a < self.pipes().len() && 0 <= b < after.len() implies (
                    #[trigger] self.pipes()[a]).id != (#[trigger] after[b]).id by {
                        assert(old(self).pipes()[a].id != before[b].id);
                    }
                    assert forall|k: int|
                        0 <= k < before.len() && before[k].id == id implies (exists|r: &mut A|
                        *r == before[k].inner && *final(r) == (#[trigger] after[k]).inner
                            && #[trigger] f.ensures((r,), ())) by {
                        if k < i {
                            assert(before[k].id.0 < before[i as int].id.0);
                        } else if k > i {
                            assert(before[i as int].id.0 < before[k].id.0);
                        }
                    }
                }
            },
            None => {},
        }
    }

    /// Takes the pipe named `id` out, if there is one.
    pub fn remove_pipe(&mut self, id: EndpointId) -> (removed: Option<P>)
        requires
            old(self).wf(),
        ensures
            final(self).wf(),
            Self::pipe_removed(*old(self), id, *final(self)),
            removed is Some <==> has_name(old(self).pipes(), id),
            removed matches Some(pipe) ==> exists|i: int|
                0 <= i < old(self).pipes().len() && (#[trigger] old(self).pipes()[i]).id == id
                    && old(self).pipes()[i].inner == pipe,
    {
        match self.find_pipe(id) {
            Some(i) => {
                let endpoint = self.pipes.remove(i);
                proof {
                    let before = old(self).pipes();
                    let after = self.pipes();
                    assert forall|k: int| 0 <= k < after.len() implies #[trigger] after[k]
                        == before[if k < i {
                        k
                    } else {
                        k + 1
                    }] by {}
                    assert forall|k: int| 0 <= k < after.len() implies (#[trigger] after[k]).id.0
                        < self.named() by {
                        let k0 = if k < i { k } else { k + 1 };
                        assert(before[k0].id.0 < old(self).named());
                    }
                    assert forall|a: int, b: int| 0 <= a < b < after.len() implies (
                    #[trigger] after[a]).id.0 < (#[trigger] after[b]).id.0 by {
                        let a0 = if a < i { a } else { a + 1 };
                        let b0 = if b < i { b } else { b + 1 };
                        assert(before[a0].id.0 < before[b0].id.0);
                    }
                    assert forall|a: int, b: int|
                        0 <= a < after.len() && 0 <= b < self.acceptors().len() implies (
                    #[trigger] after[a]).id != (#[trigger] self.acceptors()[b]).id by {
                        let a0 = if a < i { a } else { a + 1 };
                        assert(before[a0].id != old(self).acceptors()[b].id);
                    }
                    assert forall|k: int| 0 <= k < after.len() implies (#[trigger] after[k]).id
                        != id by {
                        let k0 = if k < i { k } else { k + 1 };
                        if k0 < i {
                            assert(before[k0].id.0 < before[i as int].id.0);
                        } else {
                            assert(before[i as int].id.0 < before[k0].id.0);
                        }
                    }
                    assert(before[i as int].id == id);
                }
                Some(endpoint.inner)
            },
            None => None,
        }
    }
}

} // verus!
