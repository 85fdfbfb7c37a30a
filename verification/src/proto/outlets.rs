use vstd::prelude::*;
use std::rc::Rc;
use crate::context::{Context, Effect};
use crate::endpoint::Pipe;
use crate::id::EndpointId;
use crate::message::{share, Message};
use crate::proto::handles::{eid_of, token_of};
use crate::protocol::policy::priolist::{PrioList, Ring};
use crate::transport::Token;

verus! {

/// A pipe of a socket that sends each message over all its pipes.
pub struct Outlet {
    /// The name that the socket knows the pipe by.
    pub eid: EndpointId,
    pub pipe: Pipe,
    /// Whether the pipe has said that it can send, and was not given a
    /// message since.
    pub ready: bool,
}

/// The first place from `lo` on of a pipe named `eid`.
pub open spec fn first_outlet(outlets: Seq<Outlet>, lo: int, eid: EndpointId) -> Option<int>
    decreases outlets.len() - lo,
{
    if lo >= outlets.len() {
        None
    } else if outlets[lo].eid == eid {
        Some(lo)
    } else {
        first_outlet(outlets, lo + 1, eid)
    }
}

/// What a search with `first_outlet` finds: the first pipe of that name.
pub proof fn first_outlet_finds(outlets: Seq<Outlet>, lo: int, eid: EndpointId)
    requires
        0 <= lo,
    ensures
        match first_outlet(outlets, lo, eid) {
            Some(i) => {
                &&& lo <= i < outlets.len()
                &&& outlets[i].eid == eid
                &&& forall|k: int| lo <= k < i ==> (#[trigger] outlets[k]).eid != eid
            },
            None => forall|k: int| lo <= k < outlets.len() ==> (#[trigger] outlets[k]).eid != eid,
        },
    decreases outlets.len() - lo,
{
    if lo < outlets.len() && outlets[lo].eid != eid {
        first_outlet_finds(outlets, lo + 1, eid);
    }
}

/// What is asked of the context to publish `msg`: each pipe that can send
/// is ordered to send it, in the pipes' order.
pub open spec fn published(outlets: Seq<Outlet>, msg: Rc<Message>) -> Seq<Effect>
    decreases outlets.len(),
{
    if outlets.len() == 0 {
        Seq::empty()
    } else if outlets.last().ready {
        published(outlets.drop_last(), msg).push(Effect::Send(outlets.last().pipe.eid(), msg))
    } else {
        published(outlets.drop_last(), msg)
    }
}

/// The pipes once each that could send was given a message: none is taken
/// to be able to send.
pub open spec fn all_busy(outlets: Seq<Outlet>) -> Seq<Outlet> {
    Seq::new(outlets.len(), |i: int| Outlet { ready: false, ..outlets[i] })
}

/// What is asked of the context to close the pipes, in their order.
pub open spec fn asked_to_close(outlets: Seq<Outlet>) -> Seq<Effect>
    decreases outlets.len(),
{
    if outlets.len() == 0 {
        Seq::empty()
    } else {
        asked_to_close(outlets.drop_last()).push(Effect::Close(outlets.last().pipe.eid(), true))
    }
}

/// The pipes with one more, under `eid`, not yet known to be able to send.
/// A second pipe of one name is not taken in.
pub open spec fn with_outlet(outlets: Seq<Outlet>, eid: EndpointId, pipe: Pipe) -> Seq<Outlet> {
    match first_outlet(outlets, 0, eid) {
        Some(_) => outlets,
        None => outlets.push(Outlet { eid, pipe, ready: false }),
    }
}

/// The pipes without the first that is named `eid`.
pub open spec fn without_outlet(outlets: Seq<Outlet>, eid: EndpointId) -> Seq<Outlet> {
    match first_outlet(outlets, 0, eid) {
        Some(i) => outlets.remove(i),
        None => outlets,
    }
}

/// The pipes with the first that is named `eid` taken to be able to send.
pub open spec fn with_ready(outlets: Seq<Outlet>, eid: EndpointId) -> Seq<Outlet> {
    match first_outlet(outlets, 0, eid) {
        Some(i) => outlets.update(i, Outlet { ready: true, ..outlets[i] }),
        None => outlets,
    }
}

/// The pipe whose turn it is: the one that the ring's cursor stands on, if
/// it is one of the pipes.
pub open spec fn in_turn(ring: Ring, outlets: Seq<Outlet>) -> Option<int> {
    match ring.cursor {
        Some(c) => first_outlet(outlets, 0, eid_of(ring.items[c].token)),
        None => None,
    }
}

/// The pipes of a socket that sends each message over all of them, in the
/// order in which they were added.
pub struct Outlets {
    entries: Vec<Outlet>,
}

impl View for Outlets {
    type V = Seq<Outlet>;

    closed spec fn view(&self) -> Seq<Outlet> {
        self.entries@
    }
}

impl Outlets {
    pub fn new() -> (outlets: Outlets)
        ensures
            outlets@.len() == 0,
    {
        Outlets { entries: Vec::new() }
    }

    pub fn is_empty(&self) -> (empty: bool)
        ensures
            empty == (self@.len() == 0),
    {
        self.entries.len() == 0
    }

    /// Where the pipe named `eid` is.
    pub fn find(&self, eid: EndpointId) -> (at: Option<usize>)
        ensures
            match at {
                Some(i) => first_outlet(self@, 0, eid) == Some(i as int) && i < self@.len(),
                None => first_outlet(self@, 0, eid) is None,
            },
    {
        let mut i: usize = 0;
        while i < self.entries.len()
            invariant
                i <= self@.len(),
                first_outlet(self@, 0, eid) == first_outlet(self@, i as int, eid),
            decreases self.entries.len() - i,
        {
            if self.entries[i].eid == eid {
                return Some(i);
            }
            i = i + 1;
        }
        None
    }

    /// Takes the pipe in under `eid`, behind the others, unless a pipe is
    /// known by that name already: then the pipe comes back.
    pub fn insert(&mut self, eid: EndpointId, pipe: Pipe) -> (refused: Option<Pipe>)
        ensures
            final(self)@ == with_outlet(old(self)@, eid, pipe),
            refused == (match first_outlet(old(self)@, 0, eid) {
                Some(_) => Some(pipe),
                None => None,
            }),
    {
        match self.find(eid) {
            Some(_) => Some(pipe),
            None => {
                self.entries.push(Outlet { eid, pipe, ready: false });
                None
            },
        }
    }

    /// Takes the pipe in under `eid`, and into `list` with the priority
    /// `priority`, open but not active; unless a pipe is known by that name
    /// already: then the pipe comes back.
    pub fn enlist(&mut self, list: &mut PrioList, eid: EndpointId, pipe: Pipe, priority: u8) -> (refused:
        Option<Pipe>)
        requires
            old(list).wf(),
        ensures
            final(list).wf(),
            final(self)@ == with_outlet(old(self)@, eid, pipe),
            match first_outlet(old(self)@, 0, eid) {
                None => refused is None && final(list)@ == old(list)@.inserted(
                    token_of(eid),
                    priority,
                ).shown(token_of(eid)),
                Some(_) => refused == Some(pipe) && final(list)@ == old(list)@,
            },
    {
        match self.insert(eid, pipe) {
            None => {
                let token = Token(eid.0);
                list.insert(token, priority);
                let ghost inserted = *list;
                list.show(token);
                proof {
                    crate::protocol::policy::priolist::rings_follow(
                        *old(list),
                        inserted,
                        token,
                        priority,
                    );
                    crate::protocol::policy::priolist::rings_follow(inserted, *list, token, priority);
                }
                None
            },
            Some(refused) => Some(refused),
        }
    }

    /// Gives the pipe under the cursor of `list` its turn: the pipe is not
    /// active in the list until it says that it is again, so that the
    /// cursor goes on. The pipe comes back with its name, if it is one of
    /// these.
    pub fn take_turn(&self, list: &mut PrioList) -> (turn: Option<(EndpointId, &Pipe)>)
        requires
            old(list).wf(),
        ensures
            final(list).wf(),
            final(list)@ == old(list)@.turn_taken(),
            match in_turn(old(list)@, self@) {
                Some(i) => 0 <= i < self@.len() && turn == Some((self@[i].eid, &self@[i].pipe)),
                None => turn is None,
            },
    {
        match list.get() {
            None => None,
            Some(token) => {
                list.deactivate(token);
                proof {
                    crate::protocol::policy::priolist::rings_follow(*old(list), *list, token, 0);
                }
                let eid = EndpointId(token.0);
                match self.find(eid) {
                    Some(i) => {
                        proof {
                            first_outlet_finds(self@, 0, eid);
                        }
                        Some((eid, &self.entries[i].pipe))
                    },
                    None => None,
                }
            },
        }
    }

    /// Gives the handle of the pipe named `eid` back, if there is one.
    pub fn remove(&mut self, eid: EndpointId) -> (pipe: Option<Pipe>)
        ensures
            final(self)@ == without_outlet(old(self)@, eid),
            pipe == (match first_outlet(old(self)@, 0, eid) {
                Some(i) => Some(old(self)@[i].pipe),
                None => None,
            }),
    {
        match self.find(eid) {
            Some(i) => Some(self.entries.remove(i).pipe),
            None => None,
        }
    }

    /// The pipe named `eid` can send.
    pub fn set_ready(&mut self, eid: EndpointId)
        ensures
            final(self)@ == with_ready(old(self)@, eid),
    {
        match self.find(eid) {
            Some(i) => {
                let outlet = self.entries.remove(i);
                self.entries.insert(i, Outlet { ready: true, ..outlet });
                proof {
                    assert(self@ =~= with_ready(old(self)@, eid));
                }
            },
            None => {},
        }
    }

    /// Orders each pipe that can send to send the message; none is taken
    /// to be able to send until it says so again.
    pub fn publish<C: Context>(&mut self, ctx: &mut C, msg: Rc<Message>)
        ensures
            final(self)@ == all_busy(old(self)@),
            final(ctx).journal() == old(ctx).journal() + published(old(self)@, msg),
    {
        let mut i: usize = 0;
        proof {
            assert(old(self)@.take(0) =~= Seq::<Outlet>::empty());
            assert(ctx.journal() + Seq::<Effect>::empty() =~= ctx.journal());
        }
        while i < self.entries.len()
            invariant
                i <= self@.len(),
                self@.len() == old(self)@.len(),
                forall|k: int|
                    0 <= k < i ==> #[trigger] self@[k] == (Outlet { ready: false, ..old(self)@[k] }),
                forall|k: int| i <= k < self@.len() ==> #[trigger] self@[k] == old(self)@[k],
                ctx.journal() == old(ctx).journal() + published(old(self)@.take(i as int), msg),
            decreases self.entries.len() - i,
        {
            let ghost upto = old(self)@.take(i + 1);
            proof {
                assert(upto.drop_last() =~= old(self)@.take(i as int));
                assert(upto.last() == old(self)@[i as int]);
            }
            if self.entries[i].ready {
                self.entries[i].pipe.send(ctx, share(&msg));
                let outlet = self.entries.remove(i);
                self.entries.insert(i, Outlet { ready: false, ..outlet });
                proof {
                    assert(ctx.journal() =~= old(ctx).journal() + published(upto, msg));
                }
            }
            i = i + 1;
        }
        proof {
            assert(old(self)@.take(i as int) =~= old(self)@);
            assert(self@ =~= all_busy(old(self)@));
        }
    }

    /// Orders every pipe to close, in their order, and lets them all go.
    pub fn close_all<C: Context>(&mut self, ctx: &mut C)
        ensures
            final(self)@.len() == 0,
            final(ctx).journal() == old(ctx).journal() + asked_to_close(old(self)@),
    {
        let mut i: usize = 0;
        proof {
            assert(self@.take(0) =~= Seq::<Outlet>::empty());
            assert(ctx.journal() + Seq::<Effect>::empty() =~= ctx.journal());
        }
        while i < self.entries.len()
            invariant
                i <= self@.len(),
                self@ == old(self)@,
                ctx.journal() == old(ctx).journal() + asked_to_close(self@.take(i as int)),
            decreases self.entries.len() - i,
        {
            self.entries[i].pipe.close(ctx);
            proof {
                let upto = self@.take(i + 1);
                assert(upto.drop_last() =~= self@.take(i as int));
                assert(upto.last() == self@[i as int]);
                assert(ctx.journal() =~= old(ctx).journal() + asked_to_close(upto));
            }
            i = i + 1;
        }
        proof {
            assert(self@.take(i as int) =~= self@);
        }
        self.entries.clear();
    }
}

} // verus!
