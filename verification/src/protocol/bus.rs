use vstd::prelude::*;
use std::rc::Rc;
use crate::context::Timeout;
use crate::event_loop_msg::SocketEvt;
use crate::global::SocketType;
use crate::io_error::{ErrorKind, IoError};
use crate::message::{share, Message};
use crate::pipe::{Phase, Pipe, RecvStatus, SendStatus};
use crate::transport::{Connection, EventLoop, EventSet, PollRequest, Token};

verus! {

/// What a bus keeps in mind of one of its pipes.
pub struct Ledger {
    /// The message that the pipe could not take yet.
    pub pending_send: Option<Rc<Message>>,
    /// Whether the pipe has a part in the message that is going out, and if
    /// so, whether it is done with it.
    pub send_done: Option<bool>,
    /// Whether the pipe had nothing to give when it was last asked.
    pub pending_recv: bool,
}

/// How the attempt to send over one pipe ended.
pub enum Attempt {
    /// The message went out in full.
    Sent,
    /// A part of the message went out.
    Sending,
    /// Nothing went out; the message is kept for later.
    Pending,
    /// The pipe failed.
    Failed,
}

/// The attempt that a result of `BusPipe::send` stands for.
pub open spec fn attempt_of(r: Result<Option<bool>, IoError>) -> Attempt {
    match r {
        Ok(Some(true)) => Attempt::Sent,
        Ok(Some(false)) => Attempt::Sending,
        Ok(None) => Attempt::Pending,
        Err(_) => Attempt::Failed,
    }
}

/// What `BusPipe::send` answers where the pipe has answered `outcome`:
/// whether the message went out in full, or nothing where the message is
/// kept for later.
pub open spec fn send_answer(outcome: Result<SendStatus, IoError>) -> Result<Option<bool>, IoError> {
    match outcome {
        Ok(SendStatus::Completed) => Ok(Some(true)),
        Ok(SendStatus::InProgress) => Ok(Some(false)),
        Ok(SendStatus::Postponed(_)) => Ok(None),
        Err(e) => Err(e),
    }
}

/// What is kept in mind of a pipe after an attempt to send `msg` over it.
pub open spec fn ledger_after_send(before: Ledger, msg: Rc<Message>, attempt: Attempt) -> Ledger {
    Ledger {
        pending_send: if attempt is Pending {
            Some(msg)
        } else {
            None
        },
        send_done: Some(attempt is Sent || attempt is Failed),
        pending_recv: before.pending_recv,
    }
}

/// A pipe of a bus, with what the bus keeps in mind of it.
pub struct BusPipe<C: Connection> {
    pipe: Pipe<C>,
    pending_send: Option<Rc<Message>>,
    send_done: Option<bool>,  // if some, operation is finished or not ?
    pending_recv: bool,
}

impl<C: Connection> BusPipe<C> {
    pub closed spec fn inner(&self) -> Pipe<C> {
        self.pipe
    }

    pub closed spec fn ledger(&self) -> Ledger {
        Ledger {
            pending_send: self.pending_send,
            send_done: self.send_done,
            pending_recv: self.pending_recv,
        }
    }

    pub open spec fn token(&self) -> Token {
        self.inner().token()
    }

    pub fn new(pipe: Pipe<C>) -> (bp: BusPipe<C>)
        ensures
            bp.inner() == pipe,
            bp.ledger() == (Ledger { pending_send: None, send_done: None, pending_recv: false }),
    {
        BusPipe { pipe, pending_send: None, send_done: None, pending_recv: false }
    }

    pub fn send_status(&self) -> (status: Option<bool>)
        ensures
            status == self.ledger().send_done,
    {
        self.send_done
    }

    /// That `after` is `before` once the pipe has acted on what the poller
    /// reported, with the result `r`: the pipe has done what `Pipe::ready`
    /// does, and what is kept in mind of it is as it was.
    pub open spec fn readied(
        before: BusPipe<C>,
        asked0: Seq<PollRequest>,
        events: EventSet,
        after: BusPipe<C>,
        asked1: Seq<PollRequest>,
        r: Result<(bool, Option<Message>), IoError>,
    ) -> bool {
        &&& after.ledger() == before.ledger()
        &&& after.token() == before.token()
        &&& r is Err ==> after.inner().phase() == Phase::Dead && asked1 == asked0
        &&& r is Ok ==> !events.hup && !events.error && before.inner().phase() != Phase::Dead
        &&& r matches Ok((sent, received)) ==> match before.inner().phase() {
            Phase::Handshake => {
                &&& !sent
                &&& received is None
                &&& Pipe::handshake_step(before.inner(), after.inner(), events)
                &&& asked1 == asked0.push(
                    PollRequest::Reregister(
                        before.token(),
                        crate::transport::all_events(),
                        crate::transport::PollOpt::Edge,
                    ),
                )
            },
            _ => {
                &&& Pipe::active_step(
                    before.inner(),
                    after.inner(),
                    events,
                    sent,
                    received,
                )
                &&& asked1 == asked0
            },
        }
        &&& Pipe::did_ready(before.inner(), asked0, events, after.inner(), asked1, r)
    }

    pub fn ready(&mut self, event_loop: &mut EventLoop, events: EventSet) -> (r: Result<
        (bool, Option<Message>),
        IoError,
    >)
        ensures
            Self::readied(
                *old(self),
                old(event_loop)@,
                events,
                *final(self),
                final(event_loop)@,
                r,
            ),
    {
        self.pipe.ready(event_loop, events)
    }

    /// That `after` is `before` once `msg` was sent over the pipe as far as
    /// it went, with the result `r`: the pipe has done what `Pipe::send`
    /// does, and has then given up what it does not go on with by itself,
    /// which is all but a message that is partly written.
    pub open spec fn sent(
        before: BusPipe<C>,
        msg: Rc<Message>,
        after: BusPipe<C>,
        r: Result<Option<bool>, IoError>,
    ) -> bool {
        &&& after.token() == before.token()
        &&& after.ledger() == ledger_after_send(before.ledger(), msg, attempt_of(r))
        &&& before.inner().phase() == Phase::Handshake ==> r is Ok
        &&& before.inner().phase() == Phase::Dead ==> r is Err
        &&& after.inner().phase() == (if r is Err {
            Phase::Dead
        } else {
            before.inner().phase()
        })
        &&& r is Ok ==> after.inner().stream().received() == before.inner().stream().received() && after.inner().incoming() == before.inner().incoming()
        &&& match r {
            Ok(Some(true)) => {
                &&& before.inner().phase() == Phase::Active
                &&& after.inner().outgoing() is None
                &&& after.inner().stream().sent() == before.inner().stream().sent()
                    + crate::wire::frame(msg@.payload())
            },
            Ok(Some(false)) => {
                &&& before.inner().phase() == Phase::Active
                &&& Pipe::active_send(
                    before.inner(),
                    after.inner(),
                    msg,
                    SendStatus::InProgress,
                )
            },
            Ok(None) => {
                &&& after.inner().outgoing() is None
                &&& after.inner().stream().sent() == before.inner().stream().sent()
            },
            Err(_) => true,
        }
        &&& exists|outcome: Result<SendStatus, IoError>, mid: Pipe<C>|
            {
                &&& #[trigger] Pipe::did_send(before.inner(), msg, mid, outcome)
                &&& r == send_answer(outcome)
                &&& if outcome matches Ok(SendStatus::InProgress) {
                    after.inner() == mid
                } else {
                    Pipe::gave_up_sending(mid, after.inner())
                }
            }
    }

    /// Sends `msg` over the pipe as far as it goes now, and keeps in mind how
    /// far that was: `Some(true)` if it went out in full, `Some(false)` if in
    /// part, `None` if it is kept for later.
    /// That `after` is `before` once `msg` was sent over the pipe as `send`
    /// sends, and the attempt ended as `attempt` says.
    pub open spec fn sent_as(
        before: BusPipe<C>,
        msg: Rc<Message>,
        after: BusPipe<C>,
        attempt: Attempt,
    ) -> bool {
        exists|r: Result<Option<bool>, IoError>|
            attempt_of(r) == attempt && #[trigger] Self::sent(before, msg, after, r)
    }

    pub fn send(&mut self, msg: Rc<Message>) -> (r: Result<Option<bool>, IoError>)
        ensures
            Self::sent(
                *old(self),
                msg,
                *final(self),
                r,
            ),
    {
        let ghost before = self.pipe;
        let outcome = self.pipe.send(msg);
        let ghost witness = outcome;
        let ghost mid = self.pipe;
        let result = match outcome {
            Ok(SendStatus::Completed) => {
                self.pipe.cancel_sending();
                self.pending_send = None;
                self.send_done = Some(true);
                Ok(Some(true))
            },
            Ok(SendStatus::InProgress) => {
                self.pending_send = None;
                self.send_done = Some(false);
                Ok(Some(false))
            },
            Ok(SendStatus::Postponed(message)) => {
                self.pipe.cancel_sending();
                self.pending_send = Some(message);
                self.send_done = Some(false);
                Ok(None)
            },
            Err(e) => {
                self.pipe.cancel_sending();
                self.pending_send = None;
                self.send_done = Some(true);
                Err(e)
            },
        };
        proof {
            assert(Pipe::did_send(old(self).inner(), msg, mid, witness));
            assert(result == send_answer(witness));
        }
        result
    }

    pub fn on_send_timeout(&mut self)
        ensures
            final(self).ledger() == (Ledger {
                pending_send: None,
                send_done: None,
                pending_recv: old(self).ledger().pending_recv,
            }),
            Pipe::same_but_pending(old(self).inner(), final(self).inner()),
            final(self).inner().outgoing() is None,
            final(self).inner().incoming() == old(self).inner().incoming(),
    {
        self.pending_send = None;
        self.send_done = None;
        self.pipe.cancel_sending();
    }

    /// That `after` is `before` once the message that was kept for the pipe,
    /// if one was, was sent again as `send` sends, with the result `r`.
    pub open spec fn resumed_send(
        before: BusPipe<C>,
        after: BusPipe<C>,
        r: Result<Option<bool>, IoError>,
    ) -> bool {
        &&& after.token() == before.token()
        &&& match before.ledger().pending_send {
            None => r == Ok::<Option<bool>, IoError>(None) && after == before,
            Some(msg) => {
                &&& before.inner().phase() == Phase::Handshake ==> r is Ok
                &&& after.ledger() == ledger_after_send(
                    before.ledger(),
                    msg,
                    attempt_of(r),
                )
                &&& after.inner().phase() == (if r is Err {
                    Phase::Dead
                } else {
                    before.inner().phase()
                })
                &&& r == Ok::<Option<bool>, IoError>(Some(true)) ==> before.inner().phase() == Phase::Active && after.inner().stream().sent()
                    == before.inner().stream().sent() + crate::wire::frame(
                    msg@.payload(),
                )
            },
        }
        &&& before.ledger().pending_send matches Some(msg) ==> exists|taken: BusPipe<C>|
            {
                &&& taken.inner() == before.inner()
                &&& taken.ledger() == (Ledger { pending_send: None, ..before.ledger() })
                &&& #[trigger] Self::sent(taken, msg, after, r)
            }
    }

    /// Tries again to send the message that is kept for later, if one is.
    pub fn resume_pending_send(&mut self) -> (r: Result<Option<bool>, IoError>)
        ensures
            Self::resumed_send(
                *old(self),
                *final(self),
                r,
            ),
    {
        match self.pending_send.take() {
            None => Ok(None),
            Some(msg) => {
                let ghost taken = *self;
                let r = self.send(msg);
                proof {
                    assert(Self::sent(taken, msg, *self, r));
                }
                r
            },
        }
    }

    pub fn reset_pending_send(&mut self)
        ensures
            final(self).inner() == old(self).inner(),
            final(self).ledger() == (Ledger { pending_send: None, ..old(self).ledger() }),
    {
        self.pending_send = None;
    }

    pub fn on_msg_sending_finished(&mut self)
        ensures
            final(self).ledger() == (Ledger {
                pending_send: None,
                send_done: None,
                pending_recv: old(self).ledger().pending_recv,
            }),
            Pipe::same_but_pending(old(self).inner(), final(self).inner()),
            final(self).inner().outgoing() is None,
            final(self).inner().incoming() == old(self).inner().incoming(),
    {
        self.pending_send = None;
        self.send_done = None;
        self.pipe.cancel_sending();
    }

    /// That `after` is `before` once the pipe was asked for a message, with
    /// the result `r`: the pipe has done what `Pipe::recv` does, and has then
    /// given up what it does not go on with by itself, which is all but a
    /// frame that is partly read.
    pub open spec fn received(
        before: BusPipe<C>,
        after: BusPipe<C>,
        r: Result<RecvStatus, IoError>,
    ) -> bool {
        &&& after.token() == before.token()
        &&& after.ledger().pending_send == before.ledger().pending_send
        &&& after.ledger().send_done == before.ledger().send_done
        &&& after.ledger().pending_recv == (match r {
            Ok(RecvStatus::Postponed) => true,
            Ok(_) => false,
            Err(_) => before.ledger().pending_recv,
        })
        &&& before.inner().phase() == Phase::Handshake ==> r is Ok
        &&& before.inner().phase() == Phase::Dead ==> r is Err
        &&& after.inner().phase() == (if r is Err {
            Phase::Dead
        } else {
            before.inner().phase()
        })
        &&& r matches Ok(RecvStatus::Completed(msg)) ==> {
            &&& before.inner().phase() == Phase::Active
            &&& msg@.header == Seq::<u8>::empty()
            &&& crate::wire::frame(msg@.body) == crate::pipe::newly(
                before.inner().stream().received(),
                after.inner().stream().received(),
            )
        }
        &&& r matches Ok(RecvStatus::InProgress) ==> Pipe::active_recv(
            before.inner(),
            after.inner(),
            RecvStatus::InProgress,
        )
        &&& exists|mid: Pipe<C>|
            {
                &&& #[trigger] Pipe::did_recv(before.inner(), mid, r)
                &&& if r matches Ok(RecvStatus::InProgress) || r is Err {
                    after.inner() == mid
                } else {
                    Pipe::gave_up_receiving(mid, after.inner())
                }
            }
    }

    /// Receives from the pipe as far as it goes now, and keeps in mind
    /// whether the pipe had nothing to give.
    /// That `after` is `before` once the pipe was asked for a message as
    /// `recv` asks, the attempt ended as `attempt` says, and `message` is
    /// the message if one came in.
    pub open spec fn received_as(
        before: BusPipe<C>,
        after: BusPipe<C>,
        attempt: RecvAttempt,
        message: Option<Message>,
    ) -> bool {
        exists|r: Result<RecvStatus, IoError>|
            {
                &&& recv_attempt_of(r) == attempt
                &&& r matches Ok(RecvStatus::Completed(m)) ==> message == Some(m)
                &&& #[trigger] Self::received(before, after, r)
            }
    }

    pub fn recv(&mut self) -> (r: Result<RecvStatus, IoError>)
        ensures
            Self::received(
                *old(self),
                *final(self),
                r,
            ),
    {
        let progress = match self.pipe.recv() {
            Ok(progress) => progress,
            Err(e) => {
                proof {
                    assert(Pipe::did_recv(old(self).inner(), self.pipe, Err(e)));
                }
                return Err(e);
            },
        };
        let ghost mid = self.pipe;
        proof {
            assert(Pipe::did_recv(old(self).inner(), mid, Ok(progress)));
        }
        match progress {
            RecvStatus::Completed(_) => {
                self.pipe.cancel_receiving();
                self.pending_recv = false;
            },
            RecvStatus::InProgress => {
                self.pending_recv = false;
            },
            RecvStatus::Postponed => {
                self.pipe.cancel_receiving();
                self.pending_recv = true;
            },
        }
        Ok(progress)
    }

    pub fn on_recv_timeout(&mut self)
        ensures
            final(self).ledger() == (Ledger { pending_recv: false, ..old(self).ledger() }),
            Pipe::same_but_pending(old(self).inner(), final(self).inner()),
            final(self).inner().incoming() is None,
            final(self).inner().outgoing() == old(self).inner().outgoing(),
    {
        self.pending_recv = false;
        self.pipe.cancel_receiving();
    }

    /// That `after` is `before` once the pipe, if it had had nothing to give,
    /// was asked again as `Pipe::recv` asks, with the result `r`.
    pub open spec fn resumed_recv(
        before: BusPipe<C>,
        after: BusPipe<C>,
        r: Result<Option<RecvStatus>, IoError>,
    ) -> bool {
        &&& after.token() == before.token()
        &&& after.ledger() == before.ledger()
        &&& !before.ledger().pending_recv ==> r == Ok::<Option<RecvStatus>, IoError>(None)
            && after == before
        &&& before.ledger().pending_recv ==> !(r matches Ok(None))
        &&& before.inner().phase() == Phase::Handshake ==> r is Ok
        &&& before.inner().phase() == Phase::Dead && before.ledger().pending_recv ==> r
            is Err
        &&& after.inner().phase() == (if r is Err {
            Phase::Dead
        } else {
            before.inner().phase()
        })
        &&& r matches Ok(Some(RecvStatus::Completed(msg))) ==> {
            &&& before.inner().phase() == Phase::Active
            &&& msg@.header == Seq::<u8>::empty()
            &&& crate::wire::frame(msg@.body) == crate::pipe::newly(
                before.inner().stream().received(),
                after.inner().stream().received(),
            )
        }
        &&& before.ledger().pending_recv ==> Pipe::did_recv(
            before.inner(),
            after.inner(),
            match r {
                Ok(Some(status)) => Ok(status),
                Ok(None) => Ok(RecvStatus::Postponed),
                Err(e) => Err(e),
            },
        )
    }

    /// Asks the pipe again if it had nothing to give when it was last asked.
    pub fn resume_pending_recv(&mut self) -> (r: Result<Option<RecvStatus>, IoError>)
        ensures
            Self::resumed_recv(
                *old(self),
                *final(self),
                r,
            ),
    {
        let result = if self.pending_recv {
            let status = self.pipe.recv()?;
            Some(status)
        } else {
            None
        };
        Ok(result)
    }

    pub fn reset_pending_recv(&mut self)
        ensures
            final(self).inner() == old(self).inner(),
            final(self).ledger() == (Ledger { pending_recv: false, ..old(self).ledger() }),
    {
        self.pending_recv = false;
    }

    pub fn remove(self) -> (pipe: Pipe<C>)
        ensures
            pipe == self.inner(),
    {
        self.pipe
    }
}

/// What is asked of the poller to clear a deadline, if one was set.
pub open spec fn cleared(timeout: Timeout) -> Seq<PollRequest> {
    match timeout {
        Some(handle) => seq![PollRequest::ClearTimeout(handle)],
        None => Seq::empty(),
    }
}

/// How many of the attempts ended as `kind`.
pub open spec fn how_many(attempts: Seq<Attempt>, kind: Attempt) -> nat
    decreases attempts.len(),
{
    if attempts.len() == 0 {
        0
    } else {
        how_many(attempts.drop_last(), kind) + (if attempts.last() == kind {
            1nat
        } else {
            0nat
        })
    }
}

/// One more attempt counts for its kind and for no other.
pub proof fn how_many_with_one_more(attempts: Seq<Attempt>, last: Attempt, kind: Attempt)
    ensures
        how_many(attempts.push(last), kind) == how_many(attempts, kind) + (if last == kind {
            1nat
        } else {
            0nat
        }),
        how_many(attempts, kind) <= attempts.len(),
    decreases attempts.len(),
{
    assert(attempts.push(last).drop_last() =~= attempts);
    if attempts.len() > 0 {
        how_many_with_one_more(attempts.drop_last(), attempts.last(), kind);
        assert(attempts.drop_last().push(attempts.last()) =~= attempts);
    }
}

/// How the attempts to send a message over the pipes ended, by numbers.
#[derive(Debug)]
pub struct Tally {
    /// Over how many pipes the message went out in full.
    pub sent: usize,
    /// Over how many pipes a part of it went out.
    pub sending: usize,
    /// For how many pipes it is kept for later.
    pub pending: usize,
}

/// The tally of a run of attempts.
pub open spec fn tally_of(attempts: Seq<Attempt>) -> Tally {
    Tally {
        sent: how_many(attempts, Attempt::Sent) as usize,
        sending: how_many(attempts, Attempt::Sending) as usize,
        pending: how_many(attempts, Attempt::Pending) as usize,
    }
}

/// What is made of a tally.
pub enum Verdict {
    /// There are pipes, and the message went out over every one: the send
    /// is over, and well.
    Done,
    /// There is no pipe, or no pipe took the message or any part of it and
    /// none keeps it for later: the send is over, and failed.
    NotConnected,
    /// The send goes on.
    Waiting,
}

/// The verdict on a tally over `pipes` pipes.
pub open spec fn send_verdict(tally: Tally, pipes: nat) -> Verdict {
    if pipes > 0 && tally.sent == pipes {
        Verdict::Done
    } else if tally.pending == 0 && tally.sending == 0 {
        Verdict::NotConnected
    } else {
        Verdict::Waiting
    }
}

/// How the attempt to receive from one pipe ended.
pub enum RecvAttempt {
    /// A whole message came in.
    Got,
    /// A part of a message came in.
    Getting,
    /// Nothing came in.
    Nothing,
    /// The pipe failed.
    Failed,
}

/// The attempt that a result of `BusPipe::recv` stands for.
pub open spec fn recv_attempt_of(r: Result<RecvStatus, IoError>) -> RecvAttempt {
    match r {
        Ok(RecvStatus::Completed(_)) => RecvAttempt::Got,
        Ok(RecvStatus::InProgress) => RecvAttempt::Getting,
        Ok(RecvStatus::Postponed) => RecvAttempt::Nothing,
        Err(_) => RecvAttempt::Failed,
    }
}

/// What was seen of a pipe when the poller reported on it.
pub struct Poke {
    /// The pipe failed to act on the report.
    pub ready_failed: bool,
    /// The pipe finished a message that it had partly written.
    pub sent: bool,
    /// The pipe finished a frame that it had partly read.
    pub received: bool,
    /// How a new attempt went to send the message that was kept for the
    /// pipe, if one was made.
    pub resumed_send: Option<Attempt>,
    /// How a new attempt went to receive from the pipe, if one was made.
    pub resumed_recv: Option<RecvAttempt>,
}

impl Poke {
    /// Whether a message went out in full.
    pub open spec fn sent_msg(self) -> bool {
        !self.ready_failed && (self.sent || self.resumed_send == Some(Attempt::Sent))
    }

    /// Whether sending failed.
    pub open spec fn send_msg_error(self) -> bool {
        self.ready_failed || self.resumed_send == Some(Attempt::Failed)
    }

    /// Whether a message came in.
    pub open spec fn received_msg(self) -> bool {
        !self.ready_failed && (self.received || self.resumed_recv == Some(RecvAttempt::Got))
    }

    /// Whether a part of a message came in on a new attempt.
    pub open spec fn receiving_msg(self) -> bool {
        !self.ready_failed && !self.received && self.resumed_recv == Some(RecvAttempt::Getting)
    }

    /// Whether anything failed.
    pub open spec fn failed(self) -> bool {
        ||| self.ready_failed
        ||| self.resumed_send == Some(Attempt::Failed)
        ||| self.resumed_recv == Some(RecvAttempt::Failed)
    }

    /// What is seen where there is no pipe to look at.
    pub open spec fn nothing() -> Poke {
        Poke {
            ready_failed: false,
            sent: false,
            received: false,
            resumed_send: None,
            resumed_recv: None,
        }
    }
}

/// The place that is asked at step `k`, when `n` pipes are asked in turn
/// from the place `first` on and from the first place on behind the last.
pub open spec fn place_asked(n: int, first: int, k: int) -> int {
    if k < n - first {
        first + k
    } else {
        k - (n - first)
    }
}

/// The step at which the pipe at `place` is asked.
pub open spec fn step_of(n: int, first: int, place: int) -> int {
    if place >= first {
        place - first
    } else {
        place + (n - first)
    }
}

/// The place behind `place`, which is the first place behind the last.
pub open spec fn place_behind(n: int, place: int) -> int {
    if place + 1 < n {
        place + 1
    } else {
        0
    }
}

/// Whether one of the attempts found nothing.
pub open spec fn had_nothing(attempts: Seq<RecvAttempt>) -> bool
    decreases attempts.len(),
{
    if attempts.len() == 0 {
        false
    } else {
        had_nothing(attempts.drop_last()) || attempts.last() is Nothing
    }
}

/// A pipe of a bus under the token that the bus knows it by.
pub struct Slot<C: Connection> {
    pub token: Token,
    pub pipe: BusPipe<C>,
}

/// How many of the pipes have a part in the message that is going out.
pub open spec fn taking_part<C: Connection>(slots: Seq<Slot<C>>) -> nat
    decreases slots.len(),
{
    if slots.len() == 0 {
        0
    } else {
        taking_part(slots.drop_last()) + (if slots.last().pipe.ledger().send_done is Some {
            1nat
        } else {
            0nat
        })
    }
}

/// How many of the pipes are done with the message that is going out.
pub open spec fn done_with_it<C: Connection>(slots: Seq<Slot<C>>) -> nat
    decreases slots.len(),
{
    if slots.len() == 0 {
        0
    } else {
        done_with_it(slots.drop_last()) + (if slots.last().pipe.ledger().send_done == Some(true) {
            1nat
        } else {
            0nat
        })
    }
}

/// Every pipe is done with the message: each of those that have a part in
/// it, of which there is one at least.
pub open spec fn all_done<C: Connection>(slots: Seq<Slot<C>>) -> bool {
    taking_part(slots) > 0 && taking_part(slots) == done_with_it(slots)
}

/// That the pipe has given up what it was sending, and is otherwise as it was.
pub open spec fn gave_up_sending<C: Connection>(before: Slot<C>, after: Slot<C>) -> bool {
    &&& after.token == before.token
    &&& after.pipe.ledger() == (Ledger {
        pending_send: None,
        send_done: None,
        pending_recv: before.pipe.ledger().pending_recv,
    })
    &&& Pipe::same_but_pending(before.pipe.inner(), after.pipe.inner())
    &&& after.pipe.inner().outgoing() is None
    &&& after.pipe.inner().incoming() == before.pipe.inner().incoming()
}

/// That the pipe has given up what it was receiving, and is otherwise as it was.
pub open spec fn gave_up_receiving<C: Connection>(before: Slot<C>, after: Slot<C>) -> bool {
    &&& after.token == before.token
    &&& after.pipe.ledger() == (Ledger { pending_recv: false, ..before.pipe.ledger() })
    &&& Pipe::same_but_pending(before.pipe.inner(), after.pipe.inner())
    &&& after.pipe.inner().incoming() is None
    &&& after.pipe.inner().outgoing() == before.pipe.inner().outgoing()
}

/// That the pipe is as it was, but that no message is kept for it.
pub open spec fn forgot_pending_send<C: Connection>(before: Slot<C>, after: Slot<C>) -> bool {
    &&& after.token == before.token
    &&& after.pipe.inner() == before.pipe.inner()
    &&& after.pipe.ledger() == (Ledger { pending_send: None, ..before.pipe.ledger() })
}

/// That the pipe is as it was, but that it is not marked as having had
/// nothing to give.
pub open spec fn forgot_pending_recv<C: Connection>(before: Slot<C>, after: Slot<C>) -> bool {
    &&& after.token == before.token
    &&& after.pipe.inner() == before.pipe.inner()
    &&& after.pipe.ledger() == (Ledger { pending_recv: false, ..before.pipe.ledger() })
}

/// The bus pattern: what one sends goes to every other; what comes in from
/// any of them is received.
pub struct Bus<C: Connection> {
    pipes: Vec<Slot<C>>,
    events: Vec<SocketEvt>,
    cancel_send_timeout: Timeout,
    cancel_recv_timeout: Timeout,
    turn: usize,
}

impl<C: Connection> Bus<C> {
    /// The pipes, in the order in which they were added.
    pub closed spec fn pipes(&self) -> Seq<Slot<C>> {
        self.pipes@
    }

    /// What the user was not told yet, oldest first.
    pub closed spec fn events(&self) -> Seq<SocketEvt> {
        self.events@
    }

    /// The deadline of the send that is under way.
    pub closed spec fn send_timeout(&self) -> Timeout {
        self.cancel_send_timeout
    }

    /// The deadline of the receive that is under way.
    pub closed spec fn recv_timeout(&self) -> Timeout {
        self.cancel_recv_timeout
    }

    /// The place of the pipe whose turn it is to be asked for a message
    /// first, as long as there is a pipe at that place.
    pub closed spec fn turn(&self) -> int {
        self.turn as int
    }

    /// The place of the pipe that is asked for a message first: the pipe
    /// whose turn it is, or the first if the turn is beyond the last.
    pub open spec fn first_asked(&self) -> int {
        if self.turn() < self.pipes().len() {
            self.turn()
        } else {
            0
        }
    }

    /// No two pipes are known by the same token.
    pub open spec fn wf(&self) -> bool {
        forall|i: int, j: int|
            0 <= i < j < self.pipes().len() ==> (#[trigger] self.pipes()[i]).token != (
            #[trigger] self.pipes()[j]).token
    }

    /// Where the pipe known by `token` is, if there is one.
    pub open spec fn position(&self, token: Token) -> Option<int> {
        if exists|i: int| 0 <= i < self.pipes().len() && self.pipes()[i].token == token {
            Some(choose|i: int| 0 <= i < self.pipes().len() && self.pipes()[i].token == token)
        } else {
            None
        }
    }

    pub fn new() -> (bus: Bus<C>)
        ensures
            bus.wf(),
            bus.pipes().len() == 0,
            bus.events().len() == 0,
            bus.turn() == 0,
            bus.send_timeout() is None,
            bus.recv_timeout() is None,
    {
        Bus {
            pipes: Vec::new(),
            events: Vec::new(),
            cancel_send_timeout: None,
            cancel_recv_timeout: None,
            turn: 0,
        }
    }

    /// Hands out what the user is to be told, oldest first.
    pub fn take_events(&mut self) -> (events: Vec<SocketEvt>)
        ensures
            events@ == old(self).events(),
            final(self).events().len() == 0,
            final(self).pipes() == old(self).pipes(),
            final(self).turn() == old(self).turn(),
            final(self).send_timeout() == old(self).send_timeout(),
            final(self).recv_timeout() == old(self).recv_timeout(),
    {
        let mut events: Vec<SocketEvt> = Vec::new();
        events.append(&mut self.events);
        events
    }

    pub fn id(&self) -> (id: u16)
        ensures
            id == SocketType::Bus.spec_id(),
    {
        SocketType::Bus.id()
    }

    pub fn peer_id(&self) -> (id: u16)
        ensures
            id == SocketType::Bus.spec_id(),
    {
        SocketType::Bus.id()
    }

    /// Where the pipe known by `token` is.
    fn find(&self, token: Token) -> (at: Option<usize>)
        ensures
            match at {
                Some(i) => i < self.pipes().len() && self.pipes()[i as int].token == token && (
                forall|k: int| 0 <= k < i ==> (#[trigger] self.pipes()[k]).token != token),
                None => forall|k: int|
                    0 <= k < self.pipes().len() ==> (#[trigger] self.pipes()[k]).token != token,
            },
    {
        let mut i: usize = 0;
        while i < self.pipes.len()
            invariant
                i <= self.pipes().len(),
                forall|k: int| 0 <= k < i ==> (#[trigger] self.pipes()[k]).token != token,
            decreases self.pipes.len() - i,
        {
            if self.pipes[i].token == token {
                return Some(i);
            }
            i = i + 1;
        }
        None
    }

    /// Takes the pipe in under `token`, in place of the pipe that was known
    /// by that token if there was one.
    pub fn add_pipe(&mut self, token: Token, pipe: Pipe<C>)
        requires
            old(self).wf(),
        ensures
            final(self).wf(),
            final(self).events() == old(self).events(),
            final(self).turn() == old(self).turn(),
            final(self).send_timeout() == old(self).send_timeout(),
            final(self).recv_timeout() == old(self).recv_timeout(),
            match old(self).position(token) {
                Some(i) => final(self).pipes().len() == old(self).pipes().len() && final(self).pipes() == old(self).pipes().update(i, final(self).pipes()[i]) && final(self).pipes()[i].token == token && final(self).pipes()[i].pipe.inner() == pipe
                    && final(self).pipes()[i].pipe.ledger() == (Ledger {
                    pending_send: None,
                    send_done: None,
                    pending_recv: false,
                }),
                None => final(self).pipes().len() == old(self).pipes().len() + 1 && final(self).pipes().drop_last() == old(self).pipes() && final(self).pipes().last().token
                    == token && final(self).pipes().last().pipe.inner() == pipe && final(self).pipes().last().pipe.ledger() == (Ledger {
                    pending_send: None,
                    send_done: None,
                    pending_recv: false,
                }),
            },
    {
        let slot = Slot { token, pipe: BusPipe::new(pipe) };
        match self.find(token) {
            Some(i) => {
                proof {
                    self.found_is_position(token, i as int);
                }
                self.pipes.set(i, slot);
                proof {
                    let before = old(self).pipes();
                    let after = self.pipes();
                    assert(after =~= before.update(i as int, after[i as int]));
                    assert forall|a: int, b: int| 0 <= a < b < after.len() implies (
                    #[trigger] after[a]).token != (#[trigger] after[b]).token by {
                        assert(before[a].token != before[b].token);
                    }
                }
            },
            None => {
                self.pipes.push(slot);
                proof {
                    let before = old(self).pipes();
                    let after = self.pipes();
                    assert(after.drop_last() =~= before);
                    assert forall|a: int, b: int| 0 <= a < b < after.len() implies (
                    #[trigger] after[a]).token != (#[trigger] after[b]).token by {
                        assert(after[a] == before[a]);
                        if b < before.len() {
                            assert(after[b] == before[b]);
                            assert(before[a].token != before[b].token);
                        }
                    }
                }
            },
        }
    }

    /// Where a token is found first is where the pipe known by it is.
    proof fn found_is_position(&self, token: Token, i: int)
        requires
            self.wf(),
            0 <= i < self.pipes().len(),
            self.pipes()[i].token == token,
        ensures
            self.position(token) == Some(i),
    {
        let p = choose|p: int| 0 <= p < self.pipes().len() && self.pipes()[p].token == token;
        if p < i {
            assert(self.pipes()[p].token != self.pipes()[i].token);
        } else if i < p {
            assert(self.pipes()[i].token != self.pipes()[p].token);
        }
    }

    /// Gives the pipe known by `token` back, if there is one. The turn stays
    /// with the pipe that had it; if that pipe leaves, the turn is the next
    /// pipe's.
    pub fn remove_pipe(&mut self, token: Token) -> (pipe: Option<Pipe<C>>)
        requires
            old(self).wf(),
        ensures
            final(self).wf(),
            final(self).events() == old(self).events(),
            final(self).turn() == (match old(self).position(token) {
                Some(i) if i < old(self).turn() => old(self).turn() - 1,
                _ => old(self).turn(),
            }),
            final(self).send_timeout() == old(self).send_timeout(),
            final(self).recv_timeout() == old(self).recv_timeout(),
            final(self).position(token) is None,
            match old(self).position(token) {
                Some(i) => pipe == Some(old(self).pipes()[i].pipe.inner()) && final(self).pipes()
                    == old(self).pipes().remove(i),
                None => pipe is None && final(self).pipes() == old(self).pipes(),
            },
    {
        match self.find(token) {
            Some(i) => {
                proof {
                    self.found_is_position(token, i as int);
                }
                let slot = self.pipes.remove(i);
                if i < self.turn {
                    self.turn = self.turn - 1;
                }
                proof {
                    let before = old(self).pipes();
                    let after = self.pipes();
                    assert forall|a: int, b: int| 0 <= a < b < after.len() implies (
                    #[trigger] after[a]).token != (#[trigger] after[b]).token by {
                        let a0 = if a < i { a } else { a + 1 };
                        let b0 = if b < i { b } else { b + 1 };
                        assert(after[a] == before[a0]);
                        assert(after[b] == before[b0]);
                        assert(before[a0].token != before[b0].token);
                    }
                    assert forall|k: int| 0 <= k < after.len() implies (#[trigger] after[k]).token
                        != token by {
                        let k0 = if k < i { k } else { k + 1 };
                        assert(after[k] == before[k0]);
                        if k0 < i {
                            assert(before[k0].token != before[i as int].token);
                        } else {
                            assert(before[i as int].token != before[k0].token);
                        }
                    }
                }
                Some(slot.pipe.remove())
            },
            None => None,
        }
    }

    /// Tells the user, and clears the deadline if one was set.
    fn send_event_and_cancel_timeout(
        &mut self,
        event_loop: &mut EventLoop,
        evt: SocketEvt,
        timeout: Timeout,
    )
        ensures
            final(self).pipes() == old(self).pipes(),
            final(self).turn() == old(self).turn(),
            final(self).send_timeout() == old(self).send_timeout(),
            final(self).recv_timeout() == old(self).recv_timeout(),
            final(self).events() == old(self).events().push(evt),
            final(event_loop)@ == old(event_loop)@ + cleared(timeout),
    {
        self.events.push(evt);
        match timeout {
            Some(handle) => {
                event_loop.clear_timeout(handle);
                assert(event_loop@ =~= old(event_loop)@ + cleared(timeout));
            },
            None => {
                assert(event_loop@ =~= old(event_loop)@ + cleared(timeout));
            },
        }
    }

    /// Lets every pipe give up what it was sending.
    fn on_msg_sending_finished(&mut self)
        ensures
            final(self).events() == old(self).events(),
            final(self).turn() == old(self).turn(),
            final(self).send_timeout() == old(self).send_timeout(),
            final(self).recv_timeout() == old(self).recv_timeout(),
            final(self).pipes().len() == old(self).pipes().len(),
            forall|k: int|
                0 <= k < old(self).pipes().len() ==> gave_up_sending(
                    old(self).pipes()[k],
                    #[trigger] final(self).pipes()[k],
                ),
    {
        let mut i: usize = 0;
        while i < self.pipes.len()
            invariant
                i <= self.pipes().len(),
                self.events() == old(self).events(),
                self.turn() == old(self).turn(),
                self.send_timeout() == old(self).send_timeout(),
                self.recv_timeout() == old(self).recv_timeout(),
                self.pipes().len() == old(self).pipes().len(),
                forall|k: int|
                    0 <= k < i ==> gave_up_sending(
                        old(self).pipes()[k],
                        #[trigger] self.pipes()[k],
                    ),
                forall|k: int|
                    i <= k < self.pipes().len() ==> #[trigger] self.pipes()[k] == old(self).pipes()[k],
            decreases self.pipes.len() - i,
        {
            self.pipes[i].pipe.on_msg_sending_finished();
            i = i + 1;
        }
    }

    /// Lets every pipe forget the message that is kept for it.
    fn reset_pending_send(&mut self)
        ensures
            final(self).events() == old(self).events(),
            final(self).turn() == old(self).turn(),
            final(self).send_timeout() == old(self).send_timeout(),
            final(self).recv_timeout() == old(self).recv_timeout(),
            final(self).pipes().len() == old(self).pipes().len(),
            forall|k: int|
                0 <= k < old(self).pipes().len() ==> forgot_pending_send(
                    old(self).pipes()[k],
                    #[trigger] final(self).pipes()[k],
                ),
    {
        let mut i: usize = 0;
        while i < self.pipes.len()
            invariant
                i <= self.pipes().len(),
                self.events() == old(self).events(),
                self.turn() == old(self).turn(),
                self.send_timeout() == old(self).send_timeout(),
                self.recv_timeout() == old(self).recv_timeout(),
                self.pipes().len() == old(self).pipes().len(),
                forall|k: int|
                    0 <= k < i ==> forgot_pending_send(
                        old(self).pipes()[k],
                        #[trigger] self.pipes()[k],
                    ),
                forall|k: int|
                    i <= k < self.pipes().len() ==> #[trigger] self.pipes()[k] == old(self).pipes()[k],
            decreases self.pipes.len() - i,
        {
            self.pipes[i].pipe.reset_pending_send();
            i = i + 1;
        }
    }

    /// Lets every pipe forget that it had nothing to give.
    fn reset_pending_recv(&mut self)
        ensures
            final(self).events() == old(self).events(),
            final(self).turn() == old(self).turn(),
            final(self).send_timeout() == old(self).send_timeout(),
            final(self).recv_timeout() == old(self).recv_timeout(),
            final(self).pipes().len() == old(self).pipes().len(),
            forall|k: int|
                0 <= k < old(self).pipes().len() ==> forgot_pending_recv(
                    old(self).pipes()[k],
                    #[trigger] final(self).pipes()[k],
                ),
    {
        let mut i: usize = 0;
        while i < self.pipes.len()
            invariant
                i <= self.pipes().len(),
                self.events() == old(self).events(),
                self.turn() == old(self).turn(),
                self.send_timeout() == old(self).send_timeout(),
                self.recv_timeout() == old(self).recv_timeout(),
                self.pipes().len() == old(self).pipes().len(),
                forall|k: int|
                    0 <= k < i ==> forgot_pending_recv(
                        old(self).pipes()[k],
                        #[trigger] self.pipes()[k],
                    ),
                forall|k: int|
                    i <= k < self.pipes().len() ==> #[trigger] self.pipes()[k] == old(self).pipes()[k],
            decreases self.pipes.len() - i,
        {
            self.pipes[i].pipe.reset_pending_recv();
            i = i + 1;
        }
    }

    /// The sending is over: every pipe gives up what it was sending, the
    /// user is told `evt`, and the deadline is cleared.
    fn finish_sending(&mut self, event_loop: &mut EventLoop, evt: SocketEvt)
        ensures
            final(self).recv_timeout() == old(self).recv_timeout(),
            final(self).turn() == old(self).turn(),
            final(self).send_timeout() is None,
            final(self).events() == old(self).events().push(evt),
            final(event_loop)@ == old(event_loop)@ + cleared(old(self).send_timeout()),
            final(self).pipes().len() == old(self).pipes().len(),
            forall|k: int|
                0 <= k < old(self).pipes().len() ==> gave_up_sending(
                    old(self).pipes()[k],
                    #[trigger] final(self).pipes()[k],
                ),
    {
        let timeout = self.cancel_send_timeout.take();
        self.on_msg_sending_finished();
        self.send_event_and_cancel_timeout(event_loop, evt, timeout)
    }

    fn on_msg_send_ok(&mut self, event_loop: &mut EventLoop)
        ensures
            final(self).recv_timeout() == old(self).recv_timeout(),
            final(self).turn() == old(self).turn(),
            final(self).send_timeout() is None,
            final(self).events() == old(self).events().push(SocketEvt::MsgSent),
            final(event_loop)@ == old(event_loop)@ + cleared(old(self).send_timeout()),
            final(self).pipes().len() == old(self).pipes().len(),
            forall|k: int|
                0 <= k < old(self).pipes().len() ==> gave_up_sending(
                    old(self).pipes()[k],
                    #[trigger] final(self).pipes()[k],
                ),
    {
        let evt = SocketEvt::MsgSent;
        self.finish_sending(event_loop, evt)
    }

    fn on_msg_send_err(&mut self, event_loop: &mut EventLoop, err: IoError)
        ensures
            final(self).recv_timeout() == old(self).recv_timeout(),
            final(self).turn() == old(self).turn(),
            final(self).send_timeout() is None,
            final(self).events() == old(self).events().push(SocketEvt::MsgNotSent(err)),
            final(event_loop)@ == old(event_loop)@ + cleared(old(self).send_timeout()),
            final(self).pipes().len() == old(self).pipes().len(),
            forall|k: int|
                0 <= k < old(self).pipes().len() ==> gave_up_sending(
                    old(self).pipes()[k],
                    #[trigger] final(self).pipes()[k],
                ),
    {
        let evt = SocketEvt::MsgNotSent(err);
        self.finish_sending(event_loop, evt)
    }

    fn on_msg_recv_ok(&mut self, event_loop: &mut EventLoop, msg: Message)
        ensures
            final(self).pipes() == old(self).pipes(),
            final(self).turn() == old(self).turn(),
            final(self).send_timeout() == old(self).send_timeout(),
            final(self).recv_timeout() is None,
            final(self).events() == old(self).events().push(SocketEvt::MsgRecv(msg)),
            final(event_loop)@ == old(event_loop)@ + cleared(old(self).recv_timeout()),
    {
        let evt = SocketEvt::MsgRecv(msg);
        let timeout = self.cancel_recv_timeout.take();
        self.send_event_and_cancel_timeout(event_loop, evt, timeout)
    }

    fn on_msg_recv_err(&mut self, event_loop: &mut EventLoop, err: IoError)
        ensures
            final(self).pipes() == old(self).pipes(),
            final(self).turn() == old(self).turn(),
            final(self).send_timeout() == old(self).send_timeout(),
            final(self).recv_timeout() is None,
            final(self).events() == old(self).events().push(SocketEvt::MsgNotRecv(err)),
            final(event_loop)@ == old(event_loop)@ + cleared(old(self).recv_timeout()),
    {
        let evt = SocketEvt::MsgNotRecv(err);
        let timeout = self.cancel_recv_timeout.take();
        self.send_event_and_cancel_timeout(event_loop, evt, timeout)
    }

    /// That `after` is `before` with `shared` offered to every pipe in turn
    /// under the deadline `timeout`, where `attempts` says how each attempt
    /// ended: each pipe has done what `BusPipe::send` does. So where the
    /// message went out in full, the pipe was active and its connection has
    /// taken the message's frame.
    pub open spec fn offered_to_all(
        before: Bus<C>,
        after: Bus<C>,
        shared: Rc<Message>,
        timeout: Timeout,
        attempts: Seq<Attempt>,
    ) -> bool {
        &&& attempts.len() == before.pipes().len()
        &&& after.pipes().len() == before.pipes().len()
        &&& after.events() == before.events()
        &&& after.recv_timeout() == before.recv_timeout()
        &&& after.turn() == before.turn()
        &&& after.send_timeout() == timeout
        &&& forall|k: int|
            0 <= k < before.pipes().len() ==> {
                let was = before.pipes()[k];
                let is = #[trigger] after.pipes()[k];
                &&& is.token == was.token
                &&& is.pipe.ledger() == ledger_after_send(was.pipe.ledger(), shared, attempts[k])
                &&& attempts[k] is Sent ==> was.pipe.inner().phase() == Phase::Active
                    && is.pipe.inner().stream().sent() == was.pipe.inner().stream().sent()
                    + crate::wire::frame(shared@.payload())
                &&& BusPipe::sent_as(was.pipe, shared, is.pipe, attempts[k])
            }
    }

    /// That `after` is `before` with the send concluded as `tally` has it:
    /// over and well, over and failed, or going on.
    pub open spec fn concluded_send(
        before: Bus<C>,
        tally: Tally,
        after: Bus<C>,
        asked_before: Seq<PollRequest>,
        asked_after: Seq<PollRequest>,
    ) -> bool {
        match send_verdict(tally, before.pipes().len()) {
            Verdict::Waiting => after == before && asked_after == asked_before,
            verdict => {
                &&& after.recv_timeout() == before.recv_timeout()
                &&& after.turn() == before.turn()
                &&& after.send_timeout() is None
                &&& asked_after == asked_before + cleared(before.send_timeout())
                &&& crate::event_loop_msg::notices(after.events()) == crate::event_loop_msg::notices(
                    before.events(),
                ).push(
                    if verdict is Done {
                        crate::event_loop_msg::Notice::MsgSent
                    } else {
                        crate::event_loop_msg::Notice::MsgNotSent(
                            ErrorKind::NotConnected,
                            "no connected endpoint"@,
                        )
                    },
                )
                &&& after.pipes().len() == before.pipes().len()
                &&& forall|k: int|
                    0 <= k < before.pipes().len() ==> gave_up_sending(
                        before.pipes()[k],
                        #[trigger] after.pipes()[k],
                    )
            },
        }
    }

    /// Concludes a send from the tally of the attempts.
    pub fn conclude_send(&mut self, event_loop: &mut EventLoop, tally: Tally)
        ensures
            Self::concluded_send(
                *old(self),
                tally,
                *final(self),
                old(event_loop)@,
                final(event_loop)@,
            ),
    {
        let sent = self.pipes.len() > 0 && tally.sent == self.pipes.len();
        let sending = tally.sending > 0;
        let pending = tally.pending > 0;
        if sent {
            self.on_msg_send_ok(event_loop);
        }
        if sent {
            let ghost finished = self.pipes();
            self.reset_pending_send();
            proof {
                assert forall|k: int| 0 <= k < old(self).pipes().len() implies gave_up_sending(
                    old(self).pipes()[k],
                    #[trigger] self.pipes()[k],
                ) by {
                    assert(gave_up_sending(old(self).pipes()[k], finished[k]));
                    assert(forgot_pending_send(finished[k], self.pipes()[k]));
                }
                assert(crate::event_loop_msg::notices(self.events())
                    =~= crate::event_loop_msg::notices(old(self).events()).push(
                    crate::event_loop_msg::Notice::MsgSent,
                ));
            }
        } else if pending == false && sending == false {
            let err = IoError::new(ErrorKind::NotConnected, "no connected endpoint");
            self.on_msg_send_err(event_loop, err);
            proof {
                assert(crate::event_loop_msg::notices(self.events())
                    =~= crate::event_loop_msg::notices(old(self).events()).push(
                    crate::event_loop_msg::Notice::MsgNotSent(
                        ErrorKind::NotConnected,
                        "no connected endpoint"@,
                    ),
                ));
            }
        }
    }

    /// Sends `msg` over every pipe, as far as each takes it now, and
    /// concludes from how that went: if there are pipes and the message went
    /// out in full over every one, the user is told that it was sent; if
    /// there is no pipe, or no pipe took any of the message nor keeps it for
    /// later, the user is told that the bus is not connected; else the send
    /// goes on under the deadline.
    pub fn send(&mut self, event_loop: &mut EventLoop, msg: Message, cancel_timeout: Timeout)
        ensures
            old(self).wf() ==> final(self).wf(),
            exists|offered: Bus<C>, shared: Rc<Message>, attempts: Seq<Attempt>|
                {
                    &&& shared@ == msg@
                    &&& #[trigger] Self::offered_to_all(
                        *old(self),
                        offered,
                        shared,
                        cancel_timeout,
                        attempts,
                    )
                    &&& Self::concluded_send(
                        offered,
                        tally_of(attempts),
                        *final(self),
                        old(event_loop)@,
                        final(event_loop)@,
                    )
                },
    {
        self.cancel_send_timeout = cancel_timeout;
        let mut sent_count: usize = 0;
        let mut sending_count: usize = 0;
        let mut pending_count: usize = 0;
        let shared_msg = Rc::new(msg);
        let ghost mut attempts: Seq<Attempt> = Seq::empty();
        let mut i: usize = 0;
        while i < self.pipes.len()
            invariant
                i <= self.pipes().len(),
                attempts.len() == i,
                self.pipes().len() == old(self).pipes().len(),
                self.events() == old(self).events(),
                self.recv_timeout() == old(self).recv_timeout(),
                self.turn() == old(self).turn(),
                self.send_timeout() == cancel_timeout,
                sent_count == how_many(attempts, Attempt::Sent),
                sending_count == how_many(attempts, Attempt::Sending),
                pending_count == how_many(attempts, Attempt::Pending),
                sent_count <= i,
                sending_count <= i,
                pending_count <= i,
                forall|k: int|
                    0 <= k < i ==> {
                        let was = old(self).pipes()[k];
                        let is = #[trigger] self.pipes()[k];
                        &&& is.token == was.token
                        &&& is.pipe.ledger() == ledger_after_send(
                            was.pipe.ledger(),
                            shared_msg,
                            attempts[k],
                        )
                        &&& attempts[k] is Sent ==> was.pipe.inner().phase() == Phase::Active
                            && is.pipe.inner().stream().sent() == was.pipe.inner().stream().sent()
                            + crate::wire::frame(shared_msg@.payload())
                        &&& BusPipe::sent_as(was.pipe, shared_msg, is.pipe, attempts[k])
                    },
                forall|k: int|
                    i <= k < self.pipes().len() ==> #[trigger] self.pipes()[k] == old(self).pipes()[k],
            decreases self.pipes.len() - i,
        {
            let r = self.pipes[i].pipe.send(share(&shared_msg));
            let ghost attempt = attempt_of(r);
            proof {
                assert(BusPipe::sent(
                    old(self).pipes()[i as int].pipe,
                    shared_msg,
                    self.pipes()[i as int].pipe,
                    r,
                ));
                assert(BusPipe::sent_as(
                    old(self).pipes()[i as int].pipe,
                    shared_msg,
                    self.pipes()[i as int].pipe,
                    attempt,
                ));
                how_many_with_one_more(attempts, attempt, Attempt::Sent);
                how_many_with_one_more(attempts, attempt, Attempt::Sending);
                how_many_with_one_more(attempts, attempt, Attempt::Pending);
            }
            match r {
                Ok(Some(true)) => sent_count += 1,
                Ok(Some(false)) => sending_count += 1,
                Ok(None) => pending_count += 1,
                Err(_) => {},
                // this pipe looks dead, but it will be taken care of during next ready notification
            }
            proof {
                attempts = attempts.push(attempt);
            }
            i = i + 1;
        }
        let ghost offered = *self;
        let tally = Tally { sent: sent_count, sending: sending_count, pending: pending_count };
        proof {
            assert(tally == tally_of(attempts));
            assert(Self::offered_to_all(
                *old(self),
                offered,
                shared_msg,
                cancel_timeout,
                attempts,
            ));
        }
        self.conclude_send(event_loop, tally);
        proof {
            if old(self).wf() {
                let before = old(self).pipes();
                let after = self.pipes();
                assert forall|a: int, b: int| 0 <= a < b < after.len() implies (
                #[trigger] after[a]).token != (#[trigger] after[b]).token by {
                    assert(offered.pipes()[a].token == before[a].token);
                    assert(offered.pipes()[b].token == before[b].token);
                    assert(before[a].token != before[b].token);
                    if send_verdict(tally, before.len()) !is Waiting {
                        assert(gave_up_sending(offered.pipes()[a], after[a]));
                        assert(gave_up_sending(offered.pipes()[b], after[b]));
                    }
                }
            }
        }
    }

    /// That `after` is `before` with a receive or a part of one, or a send,
    /// concluded after the poller's report on a pipe: if a message went out
    /// or sending failed, and every pipe that has a part in the message is
    /// done with it, the send is over and the user is told that the message
    /// was sent; if a message came in, the user is given it.
    pub open spec fn concluded_ready(
        before: Bus<C>,
        sent_msg: bool,
        send_msg_error: bool,
        received_msg: Option<Message>,
        receiving_msg: bool,
        after: Bus<C>,
        asked_before: Seq<PollRequest>,
        asked_after: Seq<PollRequest>,
    ) -> bool {
        let notify_sent = (sent_msg || send_msg_error) && all_done(before.pipes());
        let reset_recv = received_msg is Some || receiving_msg;
        &&& after.turn() == before.turn()
        &&& after.send_timeout() == (if notify_sent {
            None
        } else {
            before.send_timeout()
        })
        &&& after.recv_timeout() == (if received_msg is Some {
            None
        } else {
            before.recv_timeout()
        })
        &&& asked_after == asked_before + (if notify_sent {
            cleared(before.send_timeout())
        } else {
            Seq::empty()
        }) + (if received_msg is Some {
            cleared(before.recv_timeout())
        } else {
            Seq::empty()
        })
        &&& crate::event_loop_msg::notices(after.events()) == crate::event_loop_msg::notices(
            before.events(),
        ) + (if notify_sent {
            seq![crate::event_loop_msg::Notice::MsgSent]
        } else {
            Seq::empty()
        }) + (match received_msg {
            Some(msg) => seq![crate::event_loop_msg::Notice::MsgRecv(msg@)],
            None => Seq::empty(),
        })
        &&& after.pipes().len() == before.pipes().len()
        &&& forall|k: int|
            0 <= k < before.pipes().len() ==> {
                let was = before.pipes()[k];
                let is = #[trigger] after.pipes()[k];
                &&& is.token == was.token
                &&& is.pipe.ledger() == (Ledger {
                    pending_send: if notify_sent {
                        None
                    } else {
                        was.pipe.ledger().pending_send
                    },
                    send_done: if notify_sent {
                        None
                    } else {
                        was.pipe.ledger().send_done
                    },
                    pending_recv: if reset_recv {
                        false
                    } else {
                        was.pipe.ledger().pending_recv
                    },
                })
                &&& if notify_sent {
                    &&& Pipe::same_but_pending(was.pipe.inner(), is.pipe.inner())
                    &&& is.pipe.inner().outgoing() is None
                    &&& is.pipe.inner().incoming() == was.pipe.inner().incoming()
                } else {
                    is.pipe.inner() == was.pipe.inner()
                }
            }
    }

    /// Whether every pipe that has a part in the message that is going out
    /// is done with it, and there is one at least.
    fn everyone_is_done(&self) -> (done: bool)
        ensures
            done == all_done(self.pipes()),
    {
        let mut notify_sent = false;
        let mut pipe_count: usize = 0;
        let mut pipe_done_count: usize = 0;
        let mut i: usize = 0;
        while i < self.pipes.len()
            invariant
                i <= self.pipes().len(),
                pipe_count == taking_part(self.pipes().subrange(0, i as int)),
                pipe_done_count == done_with_it(self.pipes().subrange(0, i as int)),
                pipe_done_count <= pipe_count <= i,
                notify_sent == (pipe_count > 0 && pipe_count == pipe_done_count),
            decreases self.pipes.len() - i,
        {
            proof {
                let upto = self.pipes().subrange(0, i + 1);
                assert(upto.drop_last() =~= self.pipes().subrange(0, i as int));
            }
            match self.pipes[i].pipe.send_status() {
                Some(true) => {
                    pipe_count += 1;
                    pipe_done_count += 1;
                    notify_sent = pipe_count > 0 && pipe_count == pipe_done_count;
                },
                Some(false) => {
                    pipe_count += 1;
                    notify_sent = pipe_count > 0 && pipe_count == pipe_done_count;
                },
                None => {},
            }
            i = i + 1;
        }
        proof {
            assert(self.pipes().subrange(0, i as int) =~= self.pipes());
        }
        notify_sent
    }

    /// Concludes from what was seen of a pipe.
    pub fn conclude_ready(
        &mut self,
        event_loop: &mut EventLoop,
        sent_msg: bool,
        send_msg_error: bool,
        received_msg: Option<Message>,
        receiving_msg: bool,
    )
        ensures
            Self::concluded_ready(
                *old(self),
                sent_msg,
                send_msg_error,
                received_msg,
                receiving_msg,
                *final(self),
                old(event_loop)@,
                final(event_loop)@,
            ),
    {
        let mut notify_sent = false;
        if sent_msg || send_msg_error {
            notify_sent = self.everyone_is_done();
            if notify_sent {
                self.reset_pending_send();
                self.on_msg_send_ok(event_loop);
            }
        }
        let ghost midway = *self;
        let ghost asked_midway = event_loop@;
        proof {
            assert(crate::event_loop_msg::notices(midway.events())
                =~= crate::event_loop_msg::notices(old(self).events()) + (if notify_sent {
                seq![crate::event_loop_msg::Notice::MsgSent]
            } else {
                Seq::empty()
            }));
            assert(asked_midway =~= old(event_loop)@ + (if notify_sent {
                cleared(old(self).send_timeout())
            } else {
                Seq::empty()
            }));
        }
        if received_msg.is_some() || receiving_msg {
            self.reset_pending_recv();
        }
        match received_msg {
            Some(msg) => {
                self.on_msg_recv_ok(event_loop, msg);
                proof {
                    assert(crate::event_loop_msg::notices(self.events())
                        =~= crate::event_loop_msg::notices(midway.events()).push(
                        crate::event_loop_msg::Notice::MsgRecv(msg@),
                    ));
                }
            },
            None => {},
        }
        proof {
            assert(crate::event_loop_msg::notices(self.events())
                =~= crate::event_loop_msg::notices(old(self).events()) + (if notify_sent {
                seq![crate::event_loop_msg::Notice::MsgSent]
            } else {
                Seq::empty()
            }) + (match received_msg {
                Some(msg) => seq![crate::event_loop_msg::Notice::MsgRecv(msg@)],
                None => Seq::empty(),
            }));
            assert(event_loop@ =~= old(event_loop)@ + (if notify_sent {
                cleared(old(self).send_timeout())
            } else {
                Seq::empty()
            }) + (if received_msg is Some {
                cleared(old(self).recv_timeout())
            } else {
                Seq::empty()
            }));
            assert forall|k: int| 0 <= k < old(self).pipes().len() implies {
                let was = old(self).pipes()[k];
                let is = #[trigger] self.pipes()[k];
                &&& is.token == was.token
                &&& is.pipe.ledger() == (Ledger {
                    pending_send: if notify_sent {
                        None
                    } else {
                        was.pipe.ledger().pending_send
                    },
                    send_done: if notify_sent {
                        None
                    } else {
                        was.pipe.ledger().send_done
                    },
                    pending_recv: if received_msg is Some || receiving_msg {
                        false
                    } else {
                        was.pipe.ledger().pending_recv
                    },
                })
                &&& if notify_sent {
                    &&& Pipe::same_but_pending(was.pipe.inner(), is.pipe.inner())
                    &&& is.pipe.inner().outgoing() is None
                    &&& is.pipe.inner().incoming() == was.pipe.inner().incoming()
                } else {
                    is.pipe.inner() == was.pipe.inner()
                }
            } by {
                let m = midway.pipes()[k];
                assert(self.pipes()[k].token == m.token);
            }
        }
    }

    /// That `after` is `reported`, a pipe that has acted on the poller's
    /// report and has said whether it finished a message, once a new attempt
    /// was made, if it did not, to send the message that was kept for it,
    /// with the result `s`.
    pub open spec fn sent_again(
        reported: BusPipe<C>,
        sent: bool,
        after: BusPipe<C>,
        s: Result<Option<bool>, IoError>,
    ) -> bool {
        if sent {
            after == reported && s == Ok::<Option<bool>, IoError>(None)
        } else {
            BusPipe::resumed_send(reported, after, s)
        }
    }

    /// That `after` is `before`, a pipe that has acted on the poller's
    /// report and has given the message `got` or none, once a new attempt was
    /// made, if it gave none and had had nothing to give, to receive from it,
    /// with the result `q`.
    pub open spec fn asked_again(
        before: BusPipe<C>,
        got: Option<Message>,
        after: BusPipe<C>,
        q: Result<Option<RecvStatus>, IoError>,
    ) -> bool {
        if got is Some {
            after == before && q == Ok::<Option<RecvStatus>, IoError>(None)
        } else {
            BusPipe::resumed_recv(before, after, q)
        }
    }

    /// The message that came in: the one that the pipe gave when it acted
    /// on the report, or else the one that the new attempt to receive gave.
    pub open spec fn message_of(got: Option<Message>, q: Result<Option<RecvStatus>, IoError>) -> Option<
        Message,
    > {
        match got {
            Some(msg) => Some(msg),
            None => match q {
                Ok(Some(RecvStatus::Completed(msg))) => Some(msg),
                _ => None,
            },
        }
    }

    /// What comes of the new attempts: the error of the attempt to receive
    /// if it failed, else that of the attempt to send if it failed.
    pub open spec fn result_of(
        s: Result<Option<bool>, IoError>,
        q: Result<Option<RecvStatus>, IoError>,
    ) -> Result<(), IoError> {
        match q {
            Err(e) => Err(e),
            Ok(_) => match s {
                Err(e) => Err(e),
                Ok(_) => Ok(()),
            },
        }
    }

    /// That `after` is `before` once the pipe has acted on the poller's
    /// report as `BusPipe::ready` says, once a new attempt was made, if the
    /// pipe did not finish a message, to send the message that was kept for
    /// it, and once a new attempt was made, if the pipe did not finish a
    /// frame and had had nothing to give, to receive from it. `poke` says how
    /// each went, `received` is the message that came in, and `result` what
    /// comes of it all: the pipe's own error if it failed to act on the
    /// report, else the error of a new attempt that failed.
    pub open spec fn poked_pipe(
        before: BusPipe<C>,
        events: EventSet,
        poke: Poke,
        received: Option<Message>,
        after: BusPipe<C>,
        asked_before: Seq<PollRequest>,
        asked_after: Seq<PollRequest>,
        result: Result<(), IoError>,
    ) -> bool {
        let kept = before.ledger();
        &&& exists|r: Result<(bool, Option<Message>), IoError>, reported: BusPipe<C>|
            {
                &&& #[trigger] BusPipe::readied(
                    before,
                    asked_before,
                    events,
                    reported,
                    asked_after,
                    r,
                )
                &&& match r {
                    Err(e) => after == reported && result == Err::<(), IoError>(e) && received
                        is None,
                    Ok((sent, got)) => exists|s: Result<Option<bool>, IoError>, resent: BusPipe<C>|
                        {
                            &&& #[trigger] Self::sent_again(reported, sent, resent, s)
                            &&& exists|q: Result<Option<RecvStatus>, IoError>|
                                {
                                    &&& #[trigger] Self::asked_again(resent, got, after, q)
                                    &&& received == Self::message_of(got, q)
                                    &&& result == Self::result_of(s, q)
                                }
                        },
                }
            }
        &&& after.token() == before.token()
        &&& poke.received_msg() <==> received is Some
        &&& received matches Some(msg) ==> msg@.header == Seq::<u8>::empty()
        &&& if poke.ready_failed {
            &&& after.ledger() == kept
            &&& after.inner().phase() == Phase::Dead
            &&& asked_after == asked_before
            &&& poke == (Poke { ready_failed: true, ..Poke::nothing() })
        } else {
            &&& !events.hup && !events.error
            &&& before.inner().phase() != Phase::Dead
            &&& before.inner().phase() == Phase::Handshake ==> !poke.sent && !poke.received
            &&& asked_after == (if before.inner().phase() == Phase::Handshake {
                asked_before.push(
                    PollRequest::Reregister(
                        before.token(),
                        crate::transport::all_events(),
                        crate::transport::PollOpt::Edge,
                    ),
                )
            } else {
                asked_before
            })
            &&& poke.resumed_send is Some <==> !poke.sent && kept.pending_send is Some
            &&& after.ledger() == (match poke.resumed_send {
                Some(attempt) => ledger_after_send(kept, kept.pending_send.unwrap(), attempt),
                None => kept,
            })
            &&& poke.resumed_recv is Some <==> !poke.received && kept.pending_recv
            &&& poke.failed() <==> after.inner().phase() == Phase::Dead
        }
    }

    /// That `after` is `before` once the pipe known by `token`, if there is
    /// one, was looked at as `poked_pipe` says, with the result `result`;
    /// without such a pipe nothing happens, and that is no failure. After a
    /// message the turn to be asked first is that of the pipe behind the one
    /// that gave it.
    pub open spec fn poked(
        before: Bus<C>,
        token: Token,
        events: EventSet,
        poke: Poke,
        received: Option<Message>,
        after: Bus<C>,
        asked_before: Seq<PollRequest>,
        asked_after: Seq<PollRequest>,
        result: Result<(), IoError>,
    ) -> bool {
        &&& after.events() == before.events()
        &&& after.send_timeout() == before.send_timeout()
        &&& after.recv_timeout() == before.recv_timeout()
        &&& after.pipes().len() == before.pipes().len()
        &&& match before.position(token) {
            None => {
                &&& after.pipes() == before.pipes()
                &&& after.turn() == before.turn()
                &&& asked_after == asked_before
                &&& poke == Poke::nothing()
                &&& received is None
                &&& result == Ok::<(), IoError>(())
            },
            Some(i) => {
                &&& after.turn() == (if received is Some {
                    place_behind(before.pipes().len() as int, i)
                } else {
                    before.turn()
                })
                &&& after.pipes()[i].token == token
                &&& forall|k: int|
                    0 <= k < before.pipes().len() && k != i ==> #[trigger] after.pipes()[k]
                        == before.pipes()[k]
                &&& Self::poked_pipe(
                    before.pipes()[i].pipe,
                    events,
                    poke,
                    received,
                    after.pipes()[i].pipe,
                    asked_before,
                    asked_after,
                    result,
                )
            },
        }
    }

    /// Acts on what the poller reports of the pipe known by `token`: lets
    /// the pipe act on it, tries again what was kept for the pipe, and
    /// concludes. Fails if the pipe or one of the new attempts failed.
    pub fn ready(&mut self, event_loop: &mut EventLoop, token: Token, events: EventSet) -> (result:
        Result<(), IoError>)
        requires
            old(self).wf(),
        ensures
            final(self).wf(),
            exists|poke: Poke, received: Option<Message>, seen: Bus<C>, asked: Seq<PollRequest>|
                {
                    &&& #[trigger] Self::poked(
                        *old(self),
                        token,
                        events,
                        poke,
                        received,
                        seen,
                        old(event_loop)@,
                        asked,
                        result,
                    )
                    &&& Self::concluded_ready(
                        seen,
                        poke.sent_msg(),
                        poke.send_msg_error(),
                        received,
                        poke.receiving_msg(),
                        *final(self),
                        asked,
                        final(event_loop)@,
                    )
                    &&& result is Err <==> poke.failed()
                },
    {
        let mut result: Result<(), IoError> = Ok(());
        let mut sent_msg = false;
        let mut send_msg_error = false;
        let mut received_msg: Option<Message> = None;
        let mut receiving_msg = false;
        let ghost mut poke = Poke::nothing();

        match self.find(token) {
            Some(i) => {
                proof {
                    self.found_is_position(token, i as int);
                }
                let readied = self.pipes[i].pipe.ready(event_loop, events);
                let ghost r0 = readied;
                let ghost reported = self.pipes()[i as int].pipe;
                let ghost mut s0: Result<Option<bool>, IoError> = Ok(None);
                let ghost mut resent = reported;
                let ghost mut q0: Result<Option<RecvStatus>, IoError> = Ok(None);
                match readied {
                    Ok((sent, received)) => {
                        proof {
                            poke = Poke { sent, received: received is Some, ..poke };
                        }
                        if sent {
                            sent_msg = true;
                        } else {
                            let resumed = self.pipes[i].pipe.resume_pending_send();
                            proof {
                                s0 = resumed;
                                resent = self.pipes()[i as int].pipe;
                                if old(self).pipes()[i as int].pipe.ledger().pending_send is Some {
                                    poke = Poke { resumed_send: Some(attempt_of(resumed)), ..poke };
                                }
                            }
                            match resumed {
                                Ok(Some(true)) => sent_msg = true,
                                Err(e) => {
                                    send_msg_error = true;
                                    result = Err(e);
                                },
                                _ => {},
                            }
                        }
                        proof {
                            assert(Self::sent_again(reported, sent, resent, s0));
                        }
                        if received.is_some() {
                            received_msg = received;
                        } else {
                            let asked_anew = self.pipes[i].pipe.resume_pending_recv();
                            proof {
                                q0 = asked_anew;
                            }
                            match asked_anew {
                                Ok(Some(RecvStatus::Completed(msg))) => {
                                    proof {
                                        poke =
                                        Poke { resumed_recv: Some(RecvAttempt::Got), ..poke };
                                    }
                                    received_msg = Some(msg);
                                },
                                Ok(Some(RecvStatus::InProgress)) => {
                                    proof {
                                        poke =
                                        Poke { resumed_recv: Some(RecvAttempt::Getting), ..poke };
                                    }
                                    receiving_msg = true;
                                },
                                Ok(Some(RecvStatus::Postponed)) => {
                                    proof {
                                        poke =
                                        Poke { resumed_recv: Some(RecvAttempt::Nothing), ..poke };
                                    }
                                },
                                Ok(None) => {},
                                Err(e) => {
                                    proof {
                                        poke =
                                        Poke { resumed_recv: Some(RecvAttempt::Failed), ..poke };
                                    }
                                    result = Err(e);
                                },
                            }
                        }
                    },
                    Err(e) => {
                        proof {
                            poke = Poke { ready_failed: true, ..poke };
                        }
                        send_msg_error = true;
                        result = Err(e);
                    },
                }
                proof {
                    let was = old(self).pipes()[i as int].pipe;
                    let is = self.pipes()[i as int].pipe;
                    assert(BusPipe::readied(
                        was,
                        old(event_loop)@,
                        events,
                        reported,
                        event_loop@,
                        r0,
                    ));
                    match r0 {
                        Ok((sent, got)) => {
                            assert(Self::sent_again(reported, sent, resent, s0));
                            assert(Self::asked_again(resent, got, is, q0));
                            assert(received_msg == Self::message_of(got, q0));
                            assert(result == Self::result_of(s0, q0));
                        },
                        Err(_) => {},
                    }
                }
                if received_msg.is_some() {
                    let n = self.pipes.len();
                    self.turn = if i < n - 1 {
                        i + 1
                    } else {
                        0
                    };
                }
                proof {
                    let before = old(self).pipes();
                    let after = self.pipes();
                    assert forall|a: int, b: int| 0 <= a < b < after.len() implies (
                    #[trigger] after[a]).token != (#[trigger] after[b]).token by {
                        assert(before[a].token != before[b].token);
                    }
                }
            },
            None => {
                proof {
                    assert(old(self).position(token) is None);
                }
            },
        }
        let ghost seen = *self;
        let ghost asked = event_loop@;
        proof {
            assert(Self::poked(
                *old(self),
                token,
                events,
                poke,
                received_msg,
                seen,
                old(event_loop)@,
                asked,
                result,
            ));
        }
        self.conclude_ready(event_loop, sent_msg, send_msg_error, received_msg, receiving_msg);
        proof {
            let before = seen.pipes();
            let after = self.pipes();
            assert forall|a: int, b: int| 0 <= a < b < after.len() implies (#[trigger] after[a]).token
                != (#[trigger] after[b]).token by {
                assert(before[a].token != before[b].token);
            }
        }
        result
    }

    /// The deadline of the send has passed: the send is over, the user is
    /// told that it timed out, and every pipe gives up what it was sending.
    pub fn on_send_timeout(&mut self, event_loop: &mut EventLoop)
        ensures
            final(self).recv_timeout() == old(self).recv_timeout(),
            final(self).turn() == old(self).turn(),
            final(self).send_timeout() is None,
            final(event_loop)@ == old(event_loop)@ + cleared(old(self).send_timeout()),
            crate::event_loop_msg::notices(final(self).events()) == crate::event_loop_msg::notices(
                old(self).events(),
            ).push(
                crate::event_loop_msg::Notice::MsgNotSent(
                    ErrorKind::TimedOut,
                    "send timeout reached"@,
                ),
            ),
            final(self).pipes().len() == old(self).pipes().len(),
            forall|k: int|
                0 <= k < old(self).pipes().len() ==> gave_up_sending(
                    old(self).pipes()[k],
                    #[trigger] final(self).pipes()[k],
                ),
    {
        let err = IoError::new(ErrorKind::TimedOut, "send timeout reached");
        self.on_msg_send_err(event_loop, err);
        proof {
            assert(crate::event_loop_msg::notices(self.events())
                =~= crate::event_loop_msg::notices(old(self).events()).push(
                crate::event_loop_msg::Notice::MsgNotSent(
                    ErrorKind::TimedOut,
                    "send timeout reached"@,
                ),
            ));
        }
        let ghost finished = self.pipes();
        let mut i: usize = 0;
        while i < self.pipes.len()
            invariant
                i <= self.pipes().len(),
                self.events() == old(self).events().push(SocketEvt::MsgNotSent(err)),
                self.turn() == old(self).turn(),
                self.send_timeout() is None,
                self.recv_timeout() == old(self).recv_timeout(),
                self.pipes().len() == old(self).pipes().len(),
                finished.len() == old(self).pipes().len(),
                forall|k: int|
                    0 <= k < finished.len() ==> gave_up_sending(
                        old(self).pipes()[k],
                        #[trigger] finished[k],
                    ),
                forall|k: int|
                    0 <= k < i ==> gave_up_sending(
                        old(self).pipes()[k],
                        #[trigger] self.pipes()[k],
                    ),
                forall|k: int|
                    i <= k < self.pipes().len() ==> #[trigger] self.pipes()[k] == finished[k],
            decreases self.pipes.len() - i,
        {
            proof {
                assert(gave_up_sending(old(self).pipes()[i as int], finished[i as int]));
            }
            self.pipes[i].pipe.on_send_timeout();
            i = i + 1;
        }
    }

    /// What is known of the pipe at a place that was asked for a message,
    /// given how the attempt ended and the message that came in: the pipe
    /// has done what `BusPipe::recv` does.
    pub open spec fn asked_pipe(
        was: Slot<C>,
        is: Slot<C>,
        attempt: RecvAttempt,
        received: Option<Message>,
    ) -> bool {
        &&& is.token == was.token
        &&& is.pipe.ledger() == (Ledger {
            pending_recv: match attempt {
                RecvAttempt::Nothing => true,
                RecvAttempt::Failed => was.pipe.ledger().pending_recv,
                _ => false,
            },
            ..was.pipe.ledger()
        })
        &&& attempt is Failed <==> is.pipe.inner().phase() == Phase::Dead
        &&& attempt is Got ==> {
            &&& received matches Some(msg)
            &&& msg@.header == Seq::<u8>::empty()
            &&& was.pipe.inner().phase() == Phase::Active
            &&& crate::wire::frame(msg@.body) == crate::pipe::newly(
                was.pipe.inner().stream().received(),
                is.pipe.inner().stream().received(),
            )
        }
        &&& BusPipe::received_as(was.pipe, is.pipe, attempt, received)
    }

    /// That `after` is `before` with the pipes asked for a message in turn
    /// under the deadline `timeout`: from the pipe whose turn it is on, and
    /// from the first pipe on behind the last, up to the first pipe that has
    /// a message or a part of one. `attempts` says how each attempt ended,
    /// and `received` is the message that came in: the payload of the frame
    /// that the pipe's connection handed out. After a message the turn is
    /// that of the pipe behind the one that gave it.
    pub open spec fn asked_in_turn(
        before: Bus<C>,
        after: Bus<C>,
        timeout: Timeout,
        attempts: Seq<RecvAttempt>,
        received: Option<Message>,
    ) -> bool {
        let n = before.pipes().len() as int;
        let first = before.first_asked();
        &&& attempts.len() <= n
        &&& after.pipes().len() == n
        &&& after.events() == before.events()
        &&& after.send_timeout() == before.send_timeout()
        &&& after.recv_timeout() == timeout
        &&& after.turn() == (if received is Some {
            place_behind(n, place_asked(n, first, attempts.len() - 1))
        } else {
            before.turn()
        })
        &&& received is Some <==> attempts.len() > 0 && attempts.last() is Got
        &&& attempts.len() < n ==> attempts.len() > 0 && (attempts.last() is Got
            || attempts.last() is Getting)
        &&& forall|k: int|
            0 <= k < attempts.len() - 1 ==> (#[trigger] attempts[k]) is Nothing || attempts[k]
                is Failed
        &&& forall|place: int|
            0 <= place < n ==> {
                let was = before.pipes()[place];
                let is = #[trigger] after.pipes()[place];
                let k = step_of(n, first, place);
                if k < attempts.len() {
                    Self::asked_pipe(was, is, attempts[k], received)
                } else {
                    is == was
                }
            }
    }

    /// That `after` is `before` with the receive concluded: if a message or
    /// a part of one came in, no pipe is marked any more as having had
    /// nothing to give, and the user is given the message if it is whole; if
    /// nothing came in and no pipe is left to wait for, the receive is over
    /// and the user is told that the bus is not connected; else the receive
    /// goes on.
    pub open spec fn concluded_recv(
        before: Bus<C>,
        received: Option<Message>,
        receiving: bool,
        pending: bool,
        after: Bus<C>,
        asked_before: Seq<PollRequest>,
        asked_after: Seq<PollRequest>,
    ) -> bool {
        let reset = received is Some || receiving;
        let over = received is Some || (!receiving && !pending);
        &&& after.turn() == before.turn()
        &&& after.send_timeout() == before.send_timeout()
        &&& after.recv_timeout() == (if over {
            None
        } else {
            before.recv_timeout()
        })
        &&& asked_after == asked_before + (if over {
            cleared(before.recv_timeout())
        } else {
            Seq::empty()
        })
        &&& crate::event_loop_msg::notices(after.events()) == crate::event_loop_msg::notices(
            before.events(),
        ) + (match received {
            Some(msg) => seq![crate::event_loop_msg::Notice::MsgRecv(msg@)],
            None => if over {
                seq![
                    crate::event_loop_msg::Notice::MsgNotRecv(
                        ErrorKind::NotConnected,
                        "no connected endpoint"@,
                    ),
                ]
            } else {
                Seq::empty()
            },
        })
        &&& after.pipes().len() == before.pipes().len()
        &&& forall|k: int|
            0 <= k < before.pipes().len() ==> if reset {
                forgot_pending_recv(before.pipes()[k], #[trigger] after.pipes()[k])
            } else {
                #[trigger] after.pipes()[k] == before.pipes()[k]
            }
    }

    /// Concludes a receive from what the pipes gave.
    pub fn conclude_recv(
        &mut self,
        event_loop: &mut EventLoop,
        received: Option<Message>,
        receiving: bool,
        pending: bool,
    )
        ensures
            Self::concluded_recv(
                *old(self),
                received,
                receiving,
                pending,
                *final(self),
                old(event_loop)@,
                final(event_loop)@,
            ),
    {
        if received.is_some() || receiving {
            self.reset_pending_recv();
        } else if pending == false {
            let err = IoError::new(ErrorKind::NotConnected, "no connected endpoint");
            self.on_msg_recv_err(event_loop, err);
            proof {
                assert(crate::event_loop_msg::notices(self.events())
                    =~= crate::event_loop_msg::notices(old(self).events())
                    + seq![
                    crate::event_loop_msg::Notice::MsgNotRecv(
                        ErrorKind::NotConnected,
                        "no connected endpoint"@,
                    ),
                ]);
            }
        }
        let ghost midway = *self;
        let ghost asked_midway = event_loop@;
        match received {
            Some(msg) => {
                self.on_msg_recv_ok(event_loop, msg);
                proof {
                    assert(crate::event_loop_msg::notices(self.events())
                        =~= crate::event_loop_msg::notices(old(self).events())
                        + seq![crate::event_loop_msg::Notice::MsgRecv(msg@)]);
                    assert(event_loop@ =~= old(event_loop)@ + cleared(old(self).recv_timeout()));
                }
            },
            None => {
                proof {
                    assert(crate::event_loop_msg::notices(old(self).events()) + Seq::<
                        crate::event_loop_msg::Notice,
                    >::empty() =~= crate::event_loop_msg::notices(old(self).events()));
                    assert(old(event_loop)@ + Seq::<PollRequest>::empty() =~= old(event_loop)@);
                }
            },
        }
    }

    /// Asks the pipes for a message, one after the other from the pipe whose
    /// turn it is, up to the first that has a message or a part of one, and
    /// concludes from what they gave. So pipes that all have messages are
    /// received from in turn.
    pub fn recv(&mut self, event_loop: &mut EventLoop, cancel_timeout: Timeout)
        ensures
            old(self).wf() ==> final(self).wf(),
            exists|asked: Bus<C>, attempts: Seq<RecvAttempt>, received: Option<Message>|
                {
                    &&& #[trigger] Self::asked_in_turn(
                        *old(self),
                        asked,
                        cancel_timeout,
                        attempts,
                        received,
                    )
                    &&& Self::concluded_recv(
                        asked,
                        received,
                        attempts.len() > 0 && attempts.last() is Getting,
                        had_nothing(attempts),
                        *final(self),
                        old(event_loop)@,
                        final(event_loop)@,
                    )
                },
    {
        self.cancel_recv_timeout = cancel_timeout;
        let mut received: Option<Message> = None;
        let mut receiving = false;
        let mut pending = false;
        let n = self.pipes.len();
        let first = if self.turn < n {
            self.turn
        } else {
            0
        };
        let mut served = first;
        let ghost mut attempts: Seq<RecvAttempt> = Seq::empty();
        let mut k: usize = 0;
        while k < n && received.is_none() && !receiving
            invariant
                k <= n,
                n == old(self).pipes().len(),
                first == old(self).first_asked(),
                n > 0 ==> first < n,
                attempts.len() == k,
                self.pipes().len() == n,
                self.events() == old(self).events(),
                self.turn() == old(self).turn(),
                self.send_timeout() == old(self).send_timeout(),
                self.recv_timeout() == cancel_timeout,
                pending == had_nothing(attempts),
                received is Some <==> attempts.len() > 0 && attempts.last() is Got,
                received is Some ==> served == place_asked(n as int, first as int, k - 1),
                receiving <==> attempts.len() > 0 && attempts.last() is Getting,
                forall|i: int|
                    0 <= i < attempts.len() - 1 ==> (#[trigger] attempts[i]) is Nothing
                        || attempts[i] is Failed,
                forall|place: int|
                    0 <= place < n ==> {
                        let was = old(self).pipes()[place];
                        let is = #[trigger] self.pipes()[place];
                        let step = step_of(n as int, first as int, place);
                        if step < k {
                            Self::asked_pipe(was, is, attempts[step], received)
                        } else {
                            is == was
                        }
                    },
            decreases n - k,
        {
            let ghost so_far = attempts;
            let ghost pipes_so_far = self.pipes();
            let place = if k < n - first {
                first + k
            } else {
                k - (n - first)
            };
            proof {
                assert(step_of(n as int, first as int, place as int) == k);
                assert(self.pipes()[place as int] == old(self).pipes()[place as int]);
            }
            let asked = self.pipes[place].pipe.recv();
            let ghost answer = asked;
            proof {
                assert(BusPipe::received(
                    old(self).pipes()[place as int].pipe,
                    self.pipes()[place as int].pipe,
                    answer,
                ));
            }
            match asked {
                Ok(RecvStatus::Completed(msg)) => {
                    proof {
                        attempts = attempts.push(RecvAttempt::Got);
                    }
                    received = Some(msg);
                    served = place;
                },
                Ok(RecvStatus::InProgress) => {
                    proof {
                        attempts = attempts.push(RecvAttempt::Getting);
                    }
                    receiving = true;
                },
                Ok(RecvStatus::Postponed) => {
                    proof {
                        attempts = attempts.push(RecvAttempt::Nothing);
                    }
                    pending = true;
                },
                Err(_) => {
                    proof {
                        attempts = attempts.push(RecvAttempt::Failed);
                    }
                },
            }
            proof {
                assert(attempts.drop_last() =~= so_far);
                assert forall|other: int| 0 <= other < n implies {
                    let was = old(self).pipes()[other];
                    let is = #[trigger] self.pipes()[other];
                    let step = step_of(n as int, first as int, other);
                    if step < k + 1 {
                        Self::asked_pipe(was, is, attempts[step], received)
                    } else {
                        is == was
                    }
                } by {
                    let step = step_of(n as int, first as int, other);
                    if other != place {
                        assert(self.pipes()[other] == pipes_so_far[other]);
                        assert(step != k);
                        if step < k {
                            assert(attempts[step] == so_far[step]);
                            assert(!(so_far[step] is Got));
                            let was = old(self).pipes()[other];
                            let is = self.pipes()[other];
                            assert(BusPipe::received_as(was.pipe, is.pipe, so_far[step], None));
                            let r = choose|r: Result<RecvStatus, IoError>|
                                {
                                    &&& recv_attempt_of(r) == so_far[step]
                                    &&& r matches Ok(RecvStatus::Completed(m)) ==> None::<
                                        Message,
                                    > == Some(m)
                                    &&& #[trigger] BusPipe::received(was.pipe, is.pipe, r)
                                };
                            assert(BusPipe::received_as(was.pipe, is.pipe, attempts[step], received));
                        }
                    } else {
                        assert(recv_attempt_of(answer) == attempts[k as int]);
                        assert(BusPipe::received_as(
                            old(self).pipes()[place as int].pipe,
                            self.pipes()[place as int].pipe,
                            attempts[k as int],
                            received,
                        ));
                    }
                }
            }
            k = k + 1;
        }
        if received.is_some() {
            self.turn = if served + 1 < n {
                served + 1
            } else {
                0
            };
        }
        let ghost asked = *self;
        proof {
            assert(Self::asked_in_turn(*old(self), asked, cancel_timeout, attempts, received));
        }
        self.conclude_recv(event_loop, received, receiving, pending);
        proof {
            if old(self).wf() {
                let before = old(self).pipes();
                let after = self.pipes();
                assert forall|a: int, b: int| 0 <= a < b < after.len() implies (
                #[trigger] after[a]).token != (#[trigger] after[b]).token by {
                    assert(asked.pipes()[a].token == before[a].token);
                    assert(asked.pipes()[b].token == before[b].token);
                    assert(before[a].token != before[b].token);
                }
            }
        }
    }

    /// The deadline of the receive has passed: the receive is over, the user
    /// is told that it timed out, and every pipe gives up what it was
    /// receiving.
    pub fn on_recv_timeout(&mut self, event_loop: &mut EventLoop)
        ensures
            final(self).turn() == old(self).turn(),
            final(self).send_timeout() == old(self).send_timeout(),
            final(self).recv_timeout() is None,
            final(event_loop)@ == old(event_loop)@ + cleared(old(self).recv_timeout()),
            crate::event_loop_msg::notices(final(self).events()) == crate::event_loop_msg::notices(
                old(self).events(),
            ).push(
                crate::event_loop_msg::Notice::MsgNotRecv(
                    ErrorKind::TimedOut,
                    "recv timeout reached"@,
                ),
            ),
            final(self).pipes().len() == old(self).pipes().len(),
            forall|k: int|
                0 <= k < old(self).pipes().len() ==> gave_up_receiving(
                    old(self).pipes()[k],
                    #[trigger] final(self).pipes()[k],
                ),
    {
        let err = IoError::new(ErrorKind::TimedOut, "recv timeout reached");
        self.on_msg_recv_err(event_loop, err);
        proof {
            assert(crate::event_loop_msg::notices(self.events())
                =~= crate::event_loop_msg::notices(old(self).events()).push(
                crate::event_loop_msg::Notice::MsgNotRecv(
                    ErrorKind::TimedOut,
                    "recv timeout reached"@,
                ),
            ));
        }
        let mut i: usize = 0;
        while i < self.pipes.len()
            invariant
                i <= self.pipes().len(),
                self.events() == old(self).events().push(SocketEvt::MsgNotRecv(err)),
                self.recv_timeout() is None,
                self.turn() == old(self).turn(),
                self.send_timeout() == old(self).send_timeout(),
                self.pipes().len() == old(self).pipes().len(),
                forall|k: int|
                    0 <= k < i ==> gave_up_receiving(
                        old(self).pipes()[k],
                        #[trigger] self.pipes()[k],
                    ),
                forall|k: int|
                    i <= k < self.pipes().len() ==> #[trigger] self.pipes()[k] == old(self).pipes()[k],
            decreases self.pipes.len() - i,
        {
            self.pipes[i].pipe.on_recv_timeout();
            i = i + 1;
        }
    }
}

} // verus!
