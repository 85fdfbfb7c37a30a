use vstd::prelude::*;
use crate::context::{Context, Effect};
use crate::endpoint::Pipe;
use crate::id::EndpointId;
use crate::protocol::policy::priolist::{PrioList, Ring};
use crate::transport::Token;

verus! {

/// A pipe's handle under the name that its protocol knows the pipe by.
pub struct Handle {
    pub eid: EndpointId,
    pub pipe: Pipe,
}

/// The token that a priority list knows a pipe by.
pub open spec fn token_of(eid: EndpointId) -> Token {
    Token(eid.0)
}

/// The name of the pipe that a priority list knows by `token`.
pub open spec fn eid_of(token: Token) -> EndpointId {
    EndpointId(token.0)
}

/// The first place from `lo` on of a pipe named `eid`.
pub open spec fn first_named(handles: Seq<Handle>, lo: int, eid: EndpointId) -> Option<int>
    decreases handles.len() - lo,
{
    if lo >= handles.len() {
        None
    } else if handles[lo].eid == eid {
        Some(lo)
    } else {
        first_named(handles, lo + 1, eid)
    }
}

/// What a search with `first_named` finds: the first pipe of that name.
pub proof fn first_named_finds(handles: Seq<Handle>, lo: int, eid: EndpointId)
    requires
        0 <= lo,
    ensures
        match first_named(handles, lo, eid) {
            Some(i) => {
                &&& lo <= i < handles.len()
                &&& handles[i].eid == eid
                &&& forall|k: int| lo <= k < i ==> (#[trigger] handles[k]).eid != eid
            },
            None => forall|k: int| lo <= k < handles.len() ==> (#[trigger] handles[k]).eid != eid,
        },
    decreases handles.len() - lo,
{
    if lo < handles.len() && handles[lo].eid != eid {
        first_named_finds(handles, lo + 1, eid);
    }
}

/// The pipe whose turn it is: the one that the ring's cursor stands on, if
/// it is one of the pipes.
pub open spec fn in_turn(ring: Ring, handles: Seq<Handle>) -> Option<int> {
    match ring.cursor {
        Some(c) => first_named(handles, 0, eid_of(ring.items[c].token)),
        None => None,
    }
}

/// What is asked of the context to close the pipes, in their order.
pub open spec fn asked_to_close_all(handles: Seq<Handle>) -> Seq<Effect>
    decreases handles.len(),
{
    if handles.len() == 0 {
        Seq::empty()
    } else {
        asked_to_close_all(handles.drop_last()).push(Effect::Close(handles.last().pipe.eid(), true))
    }
}

/// The pipes of a protocol, in the order in which they were added.
pub struct Handles {
    entries: Vec<Handle>,
}

impl View for Handles {
    type V = Seq<Handle>;

    closed spec fn view(&self) -> Seq<Handle> {
        self.entries@
    }
}

impl Handles {
    /// Where the pipe named `eid` is, if there is one.
    pub open spec fn position(&self, eid: EndpointId) -> Option<int> {
        first_named(self@, 0, eid)
    }

    pub fn new() -> (handles: Handles)
        ensures
            handles@.len() == 0,
    {
        Handles { entries: Vec::new() }
    }

    pub fn is_empty(&self) -> (empty: bool)
        ensures
            empty == (self@.len() == 0),
    {
        self.entries.len() == 0
    }

    /// Where the pipe named `eid` is.
    pub fn find(&self, eid: EndpointId) -> (at: Option<usize>)
        ensures
            match at {
                Some(i) => self.position(eid) == Some(i as int) && i < self@.len() && self@[i as int].eid
                    == eid,
                None => self.position(eid) is None,
            },
    {
        let mut i: usize = 0;
        while i < self.entries.len()
            invariant
                i <= self@.len(),
                first_named(self@, 0, eid) == first_named(self@, i as int, eid),
            decreases self.entries.len() - i,
        {
            if self.entries[i].eid == eid {
                return Some(i);
            }
            i = i + 1;
        }
        None
    }

    /// The handle of the pipe named `eid`.
    pub fn get(&self, eid: EndpointId) -> (pipe: Option<&Pipe>)
        ensures
            match self.position(eid) {
                Some(i) => 0 <= i < self@.len() && self@[i].eid == eid && pipe == Some(
                    &self@[i].pipe,
                ),
                None => pipe is None,
            },
    {
        match self.find(eid) {
            Some(i) => Some(&self.entries[i].pipe),
            None => None,
        }
    }

    /// Takes the handle in under `eid`, behind the others, unless a pipe is
    /// known by that name already: then the handle comes back.
    pub fn insert(&mut self, eid: EndpointId, pipe: Pipe) -> (refused: Option<Pipe>)
        ensures
            match old(self).position(eid) {
                None => refused is None && final(self)@ == old(self)@.push(Handle { eid, pipe }),
                Some(_) => refused == Some(pipe) && final(self)@ == old(self)@,
            },
    {
        match self.find(eid) {
            Some(_) => Some(pipe),
            None => {
                self.entries.push(Handle { eid, pipe });
                None
            },
        }
    }

    /// Gives the handle of the pipe named `eid` back, if there is one.
    pub fn remove(&mut self, eid: EndpointId) -> (pipe: Option<Pipe>)
        ensures
            match old(self).position(eid) {
                Some(i) => pipe == Some(old(self)@[i].pipe) && final(self)@ == old(self)@.remove(i),
                None => pipe is None && final(self)@ == old(self)@,
            },
    {
        match self.find(eid) {
            Some(i) => {
                let handle = self.entries.remove(i);
                Some(handle.pipe)
            },
            None => None,
        }
    }

    /// Gives the pipe under the cursor of `list` its turn: the pipe is not
    /// active in the list until it says that it is again, so that the
    /// cursor goes on. The pipe comes back with its name, if it is one of
    /// these.
    pub fn take_turn(&self, list: &mut PrioList) -> (turn: Option<(EndpointId, &Pipe)>)
        requires
            old(list).wf(),
        ensures
            final(list).wf(),
            final(list)@ == old(list)@.turn_taken(),
            match in_turn(old(list)@, self@) {
                Some(i) => 0 <= i < self@.len() && turn == Some((self@[i].eid, &self@[i].pipe)),
                None => turn is None,
            },
    {
        match list.get() {
            None => None,
            Some(token) => {
                list.deactivate(token);
                proof {
                    crate::protocol::policy::priolist::rings_follow(*old(list), *list, token, 0);
                }
                let eid = EndpointId(token.0);
                match self.find(eid) {
                    Some(i) => Some((eid, &self.entries[i].pipe)),
                    None => None,
                }
            },
        }
    }

    /// Takes the pipe in under `eid`, and into `list` with the priority
    /// `priority`, open but not active; unless a pipe is known by that name
    /// already: then the pipe comes back.
    pub fn enlist(&mut self, list: &mut PrioList, eid: EndpointId, pipe: Pipe, priority: u8) -> (refused:
        Option<Pipe>)
        requires
            old(list).wf(),
        ensures
            final(list).wf(),
            match old(self).position(eid) {
                None => {
                    &&& refused is None
                    &&& final(self)@ == old(self)@.push(Handle { eid, pipe })
                    &&& final(list)@ == old(list)@.inserted(token_of(eid), priority).shown(
                        token_of(eid),
                    )
                },
                Some(_) => refused == Some(pipe) && final(self)@ == old(self)@ && final(list)@
                    == old(list)@,
            },
    {
        match self.insert(eid, pipe) {
            None => {
                let token = Token(eid.0);
                list.insert(token, priority);
                let ghost inserted = *list;
                list.show(token);
                proof {
                    crate::protocol::policy::priolist::rings_follow(
                        *old(list),
                        inserted,
                        token,
                        priority,
                    );
                    crate::protocol::policy::priolist::rings_follow(inserted, *list, token, priority);
                }
                None
            },
            Some(refused) => Some(refused),
        }
    }

    /// Orders every pipe to close, in their order, and lets them all go.
    pub fn close_all<C: Context>(&mut self, ctx: &mut C)
        ensures
            final(self)@.len() == 0,
            final(ctx).journal() == old(ctx).journal() + asked_to_close_all(old(self)@),
    {
        let mut i: usize = 0;
        proof {
            assert(self@.take(0) =~= Seq::<Handle>::empty());
            assert(ctx.journal() + Seq::<Effect>::empty() =~= ctx.journal());
        }
        while i < self.entries.len()
            invariant
                i <= self@.len(),
                self@ == old(self)@,
                ctx.journal() == old(ctx).journal() + asked_to_close_all(self@.take(i as int)),
            decreases self.entries.len() - i,
        {
            let ghost so_far = ctx.journal();
            self.entries[i].pipe.close(ctx);
            proof {
                let upto = self@.take(i + 1);
                assert(upto.drop_last() =~= self@.take(i as int));
                assert(upto.last() == self@[i as int]);
                assert(ctx.journal() =~= old(ctx).journal() + asked_to_close_all(upto));
            }
            i = i + 1;
        }
        proof {
            assert(self@.take(i as int) =~= self@);
        }
        self.entries.clear();
    }
}

} // verus!
