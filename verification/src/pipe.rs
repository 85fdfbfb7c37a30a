use vstd::prelude::*;
use vstd::slice::slice_subrange;
use std::rc::Rc;
use crate::io_error::{invalid_data_io_error, other_io_error, would_block_io_error, ErrorKind, IoError};
use crate::transport::PollRequest;
use crate::message::{share, Message};
use crate::transport::{Connection, EventLoop, EventSet, PollOpt, Token};
use crate::wire::{make_greeting, read_u64, same_bytes, write_u64};

verus! {

/// How far a `send` got.
#[derive(Debug)]
pub enum SendStatus {
    /// Nothing of the message was written: the handshake is not over, or the
    /// connection takes nothing now. The message comes back.
    Postponed(Rc<Message>),
    /// The whole message was written.
    Completed,
    /// A part of the message was written; the rest follows when the
    /// connection is writable again.
    InProgress,
}

/// How far a `recv` got.
#[derive(Debug)]
pub enum RecvStatus {
    /// Nothing of a message was read.
    Postponed,
    /// A whole message was read.
    Completed(Message),
    /// A part of a message was read; the rest follows when the connection is
    /// readable again.
    InProgress,
}

/// The status that goes with what is left to write of a message's frame.
pub open spec fn send_status_of(msg: Rc<Message>, remaining: Seq<u8>) -> SendStatus {
    if remaining.len() == 0 {
        SendStatus::Completed
    } else if remaining.len() == crate::wire::frame(msg@.payload()).len() {
        SendStatus::Postponed(msg)
    } else {
        SendStatus::InProgress
    }
}

/// That a stream went from `sent0` to `sent1` by taking the front of what was
/// left to write, `left0`, of which `left1` is still left.
pub open spec fn wrote(sent0: Seq<u8>, left0: Seq<u8>, sent1: Seq<u8>, left1: Seq<u8>) -> bool {
    &&& left1.len() <= left0.len()
    &&& left1 == left0.skip(left0.len() - left1.len())
    &&& sent1 == sent0 + left0.subrange(0, left0.len() - left1.len())
}

/// Writing nothing is writing.
pub proof fn wrote_nothing(sent: Seq<u8>, left: Seq<u8>)
    ensures
        wrote(sent, left, sent, left),
{
    assert(left.skip(0) =~= left);
    assert(sent + left.subrange(0, 0) =~= sent);
}

/// Writing on after writing is writing.
pub proof fn wrote_on(
    sent0: Seq<u8>,
    left0: Seq<u8>,
    sent1: Seq<u8>,
    left1: Seq<u8>,
    sent2: Seq<u8>,
    left2: Seq<u8>,
)
    requires
        wrote(sent0, left0, sent1, left1),
        wrote(sent1, left1, sent2, left2),
    ensures
        wrote(sent0, left0, sent2, left2),
{
    let a = left0.len() - left1.len();
    let b = left1.len() - left2.len();
    assert(left2 =~= left0.skip(a + b));
    assert(left0.subrange(0, a + b) =~= left0.subrange(0, a) + left1.subrange(0, b));
    assert(sent2 =~= sent0 + left0.subrange(0, a + b));
}

/// What was written and what is left are, together, what was left before.
pub proof fn wrote_keeps_the_bytes(sent0: Seq<u8>, left0: Seq<u8>, sent1: Seq<u8>, left1: Seq<u8>)
    requires
        wrote(sent0, left0, sent1, left1),
    ensures
        sent1 + left1 == sent0 + left0,
        sent0.is_prefix_of(sent1),
{
    let a = left0.len() - left1.len();
    assert(left0 =~= left0.subrange(0, a) + left0.skip(a));
    assert(sent1 + left1 =~= sent0 + left0);
}

/// That the connection has not failed between `before` and `after`.
pub open spec fn unharmed<C: Connection>(before: C, after: C) -> bool {
    after.faults() == before.faults()
}

/// That the connection has failed once between `before` and `after`, with
/// the error `e`.
pub open spec fn failed_with<C: Connection>(before: C, after: C, e: IoError) -> bool {
    after.faults() == before.faults().push(e)
}

/// Whether the bytes of a frame that were read so far hold the whole length
/// prefix, and the prefix announces more than `max` bytes, or more than
/// memory can hold.
pub open spec fn too_long(read: Seq<u8>, max: u64) -> bool {
    read.len() >= 8 && (crate::wire::u64_of_be(read.take(8)) > max || crate::wire::u64_of_be(
        read.take(8),
    ) > usize::MAX)
}

/// Whether `e` is the error that refuses a frame that is too long.
pub open spec fn refuses_too_long(e: IoError) -> bool {
    e.kind == ErrorKind::InvalidData && e.message@ == "received message is too long"@
}

/// The part of a frame that a send operation is writing.
#[derive(Debug, Copy, Clone, Eq, PartialEq, Structural)]
pub enum SendOperationStep {
    Prefix,
    Header,
    Body,
    Done,
}

impl SendOperationStep {
    pub open spec fn spec_next(self) -> SendOperationStep {
        match self {
            SendOperationStep::Prefix => SendOperationStep::Header,
            SendOperationStep::Header => SendOperationStep::Body,
            SendOperationStep::Body => SendOperationStep::Done,
            SendOperationStep::Done => SendOperationStep::Done,
        }
    }

    pub fn next(&self) -> (n: SendOperationStep)
        ensures
            n == self.spec_next(),
    {
        match *self {
            SendOperationStep::Prefix => SendOperationStep::Header,
            SendOperationStep::Header => SendOperationStep::Body,
            SendOperationStep::Body => SendOperationStep::Done,
            SendOperationStep::Done => SendOperationStep::Done,
        }
    }
}

/// One message on its way out: the length prefix, then the header, then the
/// body, each written as far as the connection takes it.
pub struct SendOperation {
    prefix: Vec<u8>,
    msg: Rc<Message>,
    step: SendOperationStep,
    written: usize,
}

impl SendOperation {
    /// The message that is being sent.
    pub closed spec fn message(&self) -> Rc<Message> {
        self.msg
    }

    /// The part of the frame that the current step writes.
    spec fn buffer(&self) -> Seq<u8> {
        match self.step {
            SendOperationStep::Prefix => self.prefix@,
            SendOperationStep::Header => self.msg@.header,
            SendOperationStep::Body => self.msg@.body,
            SendOperationStep::Done => Seq::empty(),
        }
    }

    pub closed spec fn wf(&self) -> bool {
        &&& self.prefix@ == crate::wire::be_u64(self.msg@.payload().len() as u64)
        &&& self.written <= self.buffer().len()
    }

    /// The bytes of the frame that are still to be written, in order.
    pub closed spec fn remaining(&self) -> Seq<u8> {
        match self.step {
            SendOperationStep::Prefix => self.prefix@.skip(self.written as int)
                + self.msg@.payload(),
            SendOperationStep::Header => self.msg@.header.skip(self.written as int)
                + self.msg@.body,
            SendOperationStep::Body => self.msg@.body.skip(self.written as int),
            SendOperationStep::Done => Seq::empty(),
        }
    }

    /// No more is left to write than the frame holds.
    pub proof fn remaining_is_bounded(&self)
        requires
            self.wf(),
        ensures
            self.remaining().len() <= crate::wire::frame(self.message()@.payload()).len(),
    {
    }

    pub(crate) fn new(msg: Rc<Message>) -> (op: SendOperation)
        ensures
            op.wf(),
            op.message() == msg,
            op.remaining() == crate::wire::frame(msg@.payload()),
    {
        let mut prefix: Vec<u8> = Vec::with_capacity(8);
        let msg_len = msg.len() as u64;
        write_u64(&mut prefix, msg_len);
        assert(prefix@ =~= crate::wire::be_u64(msg_len));
        assert(prefix@.skip(0) =~= prefix@);
        SendOperation { prefix, msg, step: SendOperationStep::Prefix, written: 0 }
    }

    fn step_forward(&mut self)
        requires
            old(self).wf(),
            old(self).written == old(self).buffer().len(),
        ensures
            final(self).wf(),
            final(self).msg == old(self).msg,
            final(self).step == old(self).step.spec_next(),
            final(self).written == 0,
            final(self).remaining() == old(self).remaining(),
    {
        self.step = self.step.next();
        self.written = 0;
        proof {
            assert(self.remaining() =~= old(self).remaining());
        }
    }

    /// Takes note of `written` more bytes of the current part, and says
    /// whether the part is now written in full.
    fn record_written(&mut self, written: usize) -> (full: bool)
        requires
            old(self).wf(),
            old(self).written + written <= old(self).buffer().len(),
        ensures
            final(self).wf(),
            final(self).msg == old(self).msg,
            final(self).prefix == old(self).prefix,
            final(self).step == old(self).step,
            final(self).written == old(self).written + written,
            full == (final(self).written == final(self).buffer().len()),
            old(self).remaining() == old(self).buffer().subrange(
                old(self).written as int,
                old(self).written + written,
            ) + final(self).remaining(),
    {
        let len = match self.step {
            SendOperationStep::Prefix => self.prefix.len(),
            SendOperationStep::Header => self.msg.get_header().len(),
            SendOperationStep::Body => self.msg.get_body().len(),
            SendOperationStep::Done => 0,
        };
        self.written = self.written + written;
        proof {
            let b = self.buffer();
            let w = old(self).written as int;
            assert(b.skip(w) =~= b.subrange(w, w + written) + b.skip(w + written));
            assert(old(self).remaining() =~= b.subrange(w, w + written) + self.remaining());
        }
        self.written == len
    }

    /// Offers the connection what is left of `buffer`, and says how much of
    /// it the connection took: nothing, if it can take nothing now. Where
    /// nothing is left, the connection is not asked. It fails if the
    /// connection does, and with its error.
    fn send_buffer<C: Connection>(&self, connection: &mut C, buffer: &[u8]) -> (r: Result<
        usize,
        IoError,
    >)
        requires
            self.written <= buffer@.len(),
        ensures
            final(connection).received() == old(connection).received(),
            self.written == buffer@.len() ==> r is Ok && *final(connection) == *old(connection),
            match r {
                Ok(n) => {
                    &&& self.written + n <= buffer@.len()
                    &&& final(connection).sent() == old(connection).sent() + buffer@.subrange(
                        self.written as int,
                        self.written + n,
                    )
                    &&& unharmed(*old(connection), *final(connection))
                },
                Err(e) => final(connection).sent() == old(connection).sent() && failed_with(
                    *old(connection),
                    *final(connection),
                    e,
                ),
            },
    {
        let remaining = buffer.len() - self.written;
        if remaining > 0 {
            let fragment = slice_subrange(buffer, self.written, buffer.len());
            let written = match connection.try_write(fragment) {
                Ok(Some(x)) => x,
                Ok(None) => 0,
                Err(e) => {
                    return Err(e);
                },
            };
            proof {
                assert(fragment@.subrange(0, written as int) =~= buffer@.subrange(
                    self.written as int,
                    self.written + written,
                ));
                assert(old(connection).sent() + Seq::<u8>::empty() =~= old(connection).sent());
            }
            Ok(written)
        } else {
            proof {
                assert(old(connection).sent() + buffer@.subrange(
                    self.written as int,
                    self.written as int,
                ) =~= old(connection).sent());
            }
            Ok(0)
        }
    }

    /// Writes on with the current part, and says whether it is now written
    /// in full.
    fn send_buffer_and_check<C: Connection>(&mut self, connection: &mut C) -> (r: Result<
        bool,
        IoError,
    >)
        requires
            old(self).wf(),
        ensures
            final(self).wf(),
            final(self).msg == old(self).msg,
            final(self).step == old(self).step,
            final(connection).received() == old(connection).received(),
            wrote(
                old(connection).sent(),
                old(self).remaining(),
                final(connection).sent(),
                final(self).remaining(),
            ),
            old(self).written == old(self).buffer().len() ==> r is Ok && *final(self) == *old(self)
                && *final(connection) == *old(connection),
            match r {
                Ok(full) => full == (final(self).written == final(self).buffer().len())
                    && unharmed(*old(connection), *final(connection)),
                Err(e) => *final(self) == *old(self) && failed_with(
                    *old(connection),
                    *final(connection),
                    e,
                ),
            },
    {
        let sent = match self.step {
            SendOperationStep::Prefix => self.send_buffer(connection, self.prefix.as_slice()),
            SendOperationStep::Header => self.send_buffer(connection, self.msg.get_header()),
            SendOperationStep::Body => self.send_buffer(connection, self.msg.get_body()),
            SendOperationStep::Done => {
                proof {
                    wrote_nothing(connection.sent(), self.remaining());
                }
                return Ok(true);
            },
        };
        match sent {
            Ok(written) => {
                let full = self.record_written(written);
                proof {
                    let piece = old(self).buffer().subrange(
                        old(self).written as int,
                        old(self).written + written,
                    );
                    let before = old(self).remaining();
                    assert(before =~= piece + self.remaining());
                    assert(before.skip(piece.len() as int) =~= self.remaining());
                    assert(before.subrange(0, piece.len() as int) =~= piece);
                }
                Ok(full)
            },
            Err(e) => {
                proof {
                    wrote_nothing(connection.sent(), self.remaining());
                }
                Err(e)
            },
        }
    }

    /// Writes as much of the frame as the connection takes now. It fails
    /// if the connection does, and with its error.
    pub(crate) fn send<C: Connection>(&mut self, connection: &mut C) -> (r: Result<
        SendStatus,
        IoError,
    >)
        requires
            old(self).wf(),
        ensures
            final(self).wf(),
            final(self).message() == old(self).message(),
            final(connection).received() == old(connection).received(),
            wrote(
                old(connection).sent(),
                old(self).remaining(),
                final(connection).sent(),
                final(self).remaining(),
            ),
            match r {
                Ok(status) => status == send_status_of(final(self).message(), final(self).remaining())
                    && unharmed(*old(connection), *final(connection)),
                Err(e) => failed_with(*old(connection), *final(connection), e),
            },
    {
        let ghost sent0 = connection.sent();
        let ghost left0 = self.remaining();
        proof {
            wrote_nothing(sent0, left0);
        }
        // try send size prefix
        if self.step == SendOperationStep::Prefix {
            if self.send_buffer_and_check(connection)? {
                self.step_forward();
            } else {
                if self.written == 0 {
                    assert(self.prefix@.skip(0) =~= self.prefix@);
                    return Ok(SendStatus::Postponed(share(&self.msg)));
                } else {
                    return Ok(SendStatus::InProgress);
                }
            }
        }
        let ghost sent1 = connection.sent();
        let ghost left1 = self.remaining();
        // try send msg header
        if self.step == SendOperationStep::Header {
            let full = match self.send_buffer_and_check(connection) {
                Ok(full) => full,
                Err(e) => {
                    proof {
                        wrote_on(sent0, left0, sent1, left1, connection.sent(), self.remaining());
                    }
                    return Err(e);
                },
            };
            proof {
                wrote_on(sent0, left0, sent1, left1, connection.sent(), self.remaining());
            }
            if full {
                self.step_forward();
            } else {
                return Ok(SendStatus::InProgress);
            }
        }
        let ghost sent2 = connection.sent();
        let ghost left2 = self.remaining();
        // try send msg body
        if self.step == SendOperationStep::Body {
            let full = match self.send_buffer_and_check(connection) {
                Ok(full) => full,
                Err(e) => {
                    proof {
                        wrote_on(sent0, left0, sent2, left2, connection.sent(), self.remaining());
                    }
                    return Err(e);
                },
            };
            proof {
                wrote_on(sent0, left0, sent2, left2, connection.sent(), self.remaining());
            }
            if full {
                self.step_forward();
            } else {
                return Ok(SendStatus::InProgress);
            }
        }
        Ok(SendStatus::Completed)
    }
}

/// The part of a frame that a receive operation is reading.
#[derive(Debug, Copy, Clone, Eq, PartialEq, Structural)]
pub enum RecvOperationStep {
    Prefix,
    Payload,
    Done,
}

impl RecvOperationStep {
    pub open spec fn spec_next(self) -> RecvOperationStep {
        match self {
            RecvOperationStep::Prefix => RecvOperationStep::Payload,
            RecvOperationStep::Payload => RecvOperationStep::Done,
            RecvOperationStep::Done => RecvOperationStep::Done,
        }
    }

    pub fn next(&self) -> (n: RecvOperationStep)
        ensures
            n == self.spec_next(),
    {
        match *self {
            RecvOperationStep::Prefix => RecvOperationStep::Payload,
            RecvOperationStep::Payload => RecvOperationStep::Done,
            RecvOperationStep::Done => RecvOperationStep::Done,
        }
    }
}

/// What `after` holds behind `before`.
pub open spec fn newly(before: Seq<u8>, after: Seq<u8>) -> Seq<u8> {
    after.skip(before.len() as int)
}

/// One message on its way in: the length prefix, then a payload of that
/// length, each read as far as the connection has it.
pub struct RecvOperation {
    step: RecvOperationStep,
    read: usize,
    prefix: Vec<u8>,
    payload: Vec<u8>,
    max_size: u64,
}

impl RecvOperation {
    /// The longest payload that is accepted.
    pub closed spec fn max_size(&self) -> u64 {
        self.max_size
    }

    /// Whether the message has been handed out.
    pub closed spec fn is_done(&self) -> bool {
        self.step == RecvOperationStep::Done
    }

    pub closed spec fn wf(&self) -> bool {
        &&& self.prefix@.len() == 8
        &&& match self.step {
            RecvOperationStep::Prefix => self.read <= 8 && self.payload@.len() == 0,
            RecvOperationStep::Payload => {
                &&& self.payload@.len() == crate::wire::u64_of_be(self.prefix@)
                &&& self.read <= self.payload@.len()
                &&& self.payload@.len() <= self.max_size
            },
            RecvOperationStep::Done => true,
        }
    }

    /// The bytes of the frame that have been read, in order.
    pub closed spec fn collected(&self) -> Seq<u8> {
        match self.step {
            RecvOperationStep::Prefix => self.prefix@.subrange(0, self.read as int),
            _ => self.prefix@ + self.payload@.subrange(0, self.read as int),
        }
    }

    pub(crate) fn new(max_size: u64) -> (op: RecvOperation)
        ensures
            op.wf(),
            !op.is_done(),
            op.max_size() == max_size,
            op.collected() == Seq::<u8>::empty(),
    {
        let prefix: Vec<u8> = vec![0u8; 8];
        let op = RecvOperation {
            step: RecvOperationStep::Prefix,
            read: 0,
            prefix,
            payload: Vec::new(),
            max_size,
        };
        assert(op.collected() =~= Seq::<u8>::empty());
        op
    }

    /// Lets the connection fill `buffer` from `at` on, and says how many
    /// bytes it put there: none, if it has none now. Where no room is left,
    /// the connection is not asked. It fails if the connection does, and
    /// with its error.
    fn read_buffer<C: Connection>(connection: &mut C, buffer: &mut Vec<u8>, at: usize) -> (r:
        Result<usize, IoError>)
        requires
            at <= old(buffer)@.len(),
        ensures
            final(buffer)@.len() == old(buffer)@.len(),
            final(buffer)@.subrange(0, at as int) == old(buffer)@.subrange(0, at as int),
            final(connection).sent() == old(connection).sent(),
            at == old(buffer)@.len() ==> r is Ok && *final(connection) == *old(connection)
                && final(buffer)@ == old(buffer)@,
            match r {
                Ok(n) => {
                    &&& at + n <= final(buffer)@.len()
                    &&& final(connection).received() == old(connection).received()
                        + final(buffer)@.subrange(at as int, at + n)
                    &&& unharmed(*old(connection), *final(connection))
                },
                Err(e) => final(connection).received() == old(connection).received()
                    && failed_with(*old(connection), *final(connection), e),
            },
    {
        let remaining = buffer.len() - at;
        if remaining > 0 {
            let slice = buffer.as_mut_slice();
            let (head, tail) = slice.split_at_mut(at);
            let outcome = connection.try_read(tail);
            proof {
                assert(buffer@.subrange(0, at as int) =~= old(buffer)@.subrange(0, at as int));
                match outcome {
                    Ok(Some(n)) => {
                        assert(buffer@.subrange(at as int, at + n) =~= tail@.subrange(0, n as int));
                    },
                    _ => {
                        assert(old(connection).received() + buffer@.subrange(
                            at as int,
                            at as int,
                        ) =~= old(connection).received());
                    },
                }
            }
            match outcome {
                Ok(Some(n)) => Ok(n),
                Ok(None) => Ok(0),
                Err(e) => Err(e),
            }
        } else {
            proof {
                assert(old(connection).received() + buffer@.subrange(at as int, at as int)
                    =~= old(connection).received());
            }
            Ok(0)
        }
    }

    /// With the prefix read in full: makes room for the payload that it
    /// announces, or refuses a payload that is too long.
    fn start_payload(&mut self) -> (r: Result<(), IoError>)
        requires
            old(self).wf(),
            old(self).step == RecvOperationStep::Prefix,
            old(self).read == 8,
        ensures
            final(self).wf(),
            final(self).max_size == old(self).max_size,
            final(self).collected() == old(self).collected(),
            crate::wire::u64_of_be(old(self).prefix@) <= old(self).max_size && crate::wire::u64_of_be(
                old(self).prefix@,
            ) <= usize::MAX <==> r is Ok,
            r is Ok ==> final(self).step == RecvOperationStep::Payload && final(self).read == 0,
            r matches Err(e) ==> *final(self) == *old(self) && e.kind
                == crate::io_error::ErrorKind::InvalidData && e.message@
                == "received message is too long"@,
    {
        let len = match read_u64(self.prefix.as_slice()) {
            Some(len) => len,
            None => 0,
        };
        assert(self.prefix@.subrange(0, 8) =~= self.prefix@);
        if len > self.max_size || len > usize::MAX as u64 {
            return Err(invalid_data_io_error("received message is too long"));
        }
        self.payload = vec![0u8; len as usize];
        self.step = RecvOperationStep::Payload;
        self.read = 0;
        proof {
            assert(self.collected() =~= old(self).collected());
        }
        Ok(())
    }

    /// Reads as much of the frame as the connection has now. It fails if
    /// the connection does, with its error, and else only to refuse a frame
    /// whose length prefix, once read in full, announces too much.
    pub(crate) fn recv<C: Connection>(&mut self, connection: &mut C) -> (r: Result<
        RecvStatus,
        IoError,
    >)
        requires
            old(self).wf(),
            !old(self).is_done(),
        ensures
            final(self).wf(),
            final(self).max_size() == old(self).max_size(),
            final(connection).sent() == old(connection).sent(),
            old(connection).received().is_prefix_of(final(connection).received()),
            match r {
                Ok(RecvStatus::Completed(msg)) => {
                    &&& final(self).is_done()
                    &&& msg@.header == Seq::<u8>::empty()
                    &&& msg@.body.len() <= old(self).max_size()
                    &&& crate::wire::frame(msg@.body) == old(self).collected() + newly(
                        old(connection).received(),
                        final(connection).received(),
                    )
                },
                Ok(status) => {
                    &&& !final(self).is_done()
                    &&& final(self).collected() == old(self).collected() + newly(
                        old(connection).received(),
                        final(connection).received(),
                    )
                    &&& (status is Postponed) == (final(self).collected().len() == 0)
                },
                Err(e) => failed_with(*old(connection), *final(connection), e) || (unharmed(
                    *old(connection),
                    *final(connection),
                ) && refuses_too_long(e)),
            },
            r is Ok <==> unharmed(*old(connection), *final(connection)) && !too_long(
                old(self).collected() + newly(
                    old(connection).received(),
                    final(connection).received(),
                ),
                old(self).max_size(),
            ),
    {
        let ghost before = connection.received();
        if self.step == RecvOperationStep::Prefix {
            let n = match Self::read_buffer(connection, &mut self.prefix, self.read) {
                Ok(n) => n,
                Err(e) => {
                    assert(before.is_prefix_of(connection.received()));
                    assert(connection.faults().len() == old(connection).faults().len() + 1);
                    return Err(e);
                },
            };
            self.read = self.read + n;
            proof {
                assert(self.collected() =~= old(self).collected() + newly(
                    before,
                    connection.received(),
                ));
                assert(before.is_prefix_of(connection.received()));
            }
            if self.read == 8 {
                self.start_payload()?;
            } else if self.read == 0 {
                return Ok(RecvStatus::Postponed);
            } else {
                return Ok(RecvStatus::InProgress);
            }
        }
        let ghost midway = connection.received();
        let ghost so_far = self.collected();
        let n = match Self::read_buffer(connection, &mut self.payload, self.read) {
            Ok(n) => n,
            Err(e) => {
                assert(before.is_prefix_of(connection.received()));
                assert(connection.faults().len() == old(connection).faults().len() + 1);
                return Err(e);
            },
        };
        let total = self.payload.len();
        self.read = self.read + n;
        proof {
            assert(self.collected() =~= so_far + newly(midway, connection.received()));
            assert(self.collected() =~= old(self).collected() + newly(
                before,
                connection.received(),
            ));
            assert(before.is_prefix_of(connection.received()));
        }
        if self.read == total {
            proof {
                crate::wire::be_u64_is_onto(self.prefix@);
                assert(self.collected() =~= crate::wire::frame(self.payload@));
            }
            self.step = RecvOperationStep::Done;
            let mut body: Vec<u8> = Vec::new();
            body.append(&mut self.payload);
            Ok(RecvStatus::Completed(Message::with_body(body)))
        } else {
            Ok(RecvStatus::InProgress)
        }
    }
}

/// A pipe that has not yet exchanged greetings with its peer. Each
/// greeting goes over the connection as far as the connection takes or has
/// it, and goes on from there the next time.
pub struct HandshakePipeState<C: Connection> {
    token: Token,
    protocol_id: u16,
    protocol_peer_id: u16,
    connection: C,
    sent: bool,
    received: bool,
    /// How many bytes of the pipe's own greeting were written.
    written: usize,
    /// The bytes of the peer's greeting, as far as they were read.
    incoming: Vec<u8>,
    /// How many bytes of the peer's greeting were read.
    read: usize,
    recv_max_size: u64,
}

/// Whether `e` is the error that refuses a greeting that is not the peer's.
pub open spec fn refuses_greeting(e: IoError) -> bool {
    e.kind == ErrorKind::InvalidData && e.message@ == "received bad handshake"@
}

/// Whether what was read of a greeting is whole, and is not the greeting
/// `expected`.
pub open spec fn mismatch(read: Seq<u8>, expected: Seq<u8>) -> bool {
    read.len() >= 8 && read != expected
}

impl<C: Connection> HandshakePipeState<C> {
    /// What was read of the peer's greeting.
    spec fn collected(&self) -> Seq<u8> {
        self.incoming@.take(self.read as int)
    }

    /// The book-keeping is in order: a greeting counts as sent or received
    /// once all its eight bytes are, and one that counts as received is the
    /// greeting of the peer that this pipe's protocol talks to.
    spec fn wf(&self) -> bool {
        &&& self.written <= 8
        &&& self.read <= 8
        &&& self.incoming@.len() == 8
        &&& self.sent == (self.written == 8)
        &&& self.received == (self.read == 8)
        &&& self.received ==> self.incoming@ == crate::wire::greeting(self.protocol_peer_id)
    }

    fn new(token: Token, proto_ids: (u16, u16), connection: C, recv_max_size: u64) -> (hs:
        HandshakePipeState<C>)
        ensures
            hs.wf(),
            hs.token == token,
            hs.protocol_id == proto_ids.0,
            hs.protocol_peer_id == proto_ids.1,
            hs.connection == connection,
            !hs.sent,
            !hs.received,
            hs.written == 0,
            hs.read == 0,
            hs.recv_max_size == recv_max_size,
    {
        let (protocol_id, protocol_peer_id) = proto_ids;
        HandshakePipeState {
            token,
            protocol_id,
            protocol_peer_id,
            connection,
            sent: false,
            received: false,
            written: 0,
            incoming: vec![0u8; 8],
            read: 0,
            recv_max_size,
        }
    }

    fn open(&self, event_loop: &mut EventLoop)
        ensures
            final(event_loop)@ == old(event_loop)@.push(
                crate::transport::PollRequest::Register(
                    self.token,
                    crate::transport::all_events(),
                    PollOpt::Edge,
                ),
            ),
    {
        event_loop.register(self.token, EventSet::all(), PollOpt::Edge)
    }

    fn reopen(&self, event_loop: &mut EventLoop)
        ensures
            final(event_loop)@ == old(event_loop)@.push(
                crate::transport::PollRequest::Reregister(
                    self.token,
                    crate::transport::all_events(),
                    PollOpt::Edge,
                ),
            ),
    {
        event_loop.reregister(self.token, EventSet::all(), PollOpt::Edge)
    }

    fn close(&self, event_loop: &mut EventLoop)
        ensures
            final(event_loop)@ == old(event_loop)@.push(
                crate::transport::PollRequest::Deregister(self.token),
            ),
    {
        event_loop.deregister(self.token)
    }

    /// Whether the peer's greeting is still due and the events allow to
    /// read it.
    spec fn reads(&self, events: EventSet) -> bool {
        !self.received && events.readable
    }

    /// Whether the pipe's own greeting is still due and the events allow to
    /// write it.
    spec fn writes(&self, events: EventSet) -> bool {
        !self.sent && events.writable
    }

    /// That `after` is `before` once the greetings that were still due went
    /// on as far as the events allowed and the connection went along.
    spec fn stepped(before: Self, after: Self, events: EventSet) -> bool {
        &&& after.wf()
        &&& after.token == before.token
        &&& after.protocol_id == before.protocol_id
        &&& after.protocol_peer_id == before.protocol_peer_id
        &&& after.recv_max_size == before.recv_max_size
        &&& before.written <= after.written
        &&& !before.writes(events) ==> after.written == before.written
        &&& after.connection.sent() == before.connection.sent() + crate::wire::greeting(
            before.protocol_id,
        ).subrange(before.written as int, after.written as int)
        &&& before.connection.received().is_prefix_of(after.connection.received())
        &&& !before.reads(events) ==> after.connection.received()
            == before.connection.received()
        &&& after.collected() == before.collected() + newly(
            before.connection.received(),
            after.connection.received(),
        )
    }

    /// Reads and writes on with the greetings that are still due, as far as
    /// the events allow and the connection goes along, and says whether
    /// both are done. Where neither is due or allowed, nothing changes. It
    /// fails if the connection does, with its error, and else only to
    /// refuse a greeting that was read in full and is not the peer's; a
    /// greeting that is refused is not answered.
    fn ready(&mut self, events: EventSet) -> (r: Result<bool, IoError>)
        requires
            old(self).wf(),
        ensures
            old(self).connection.received().is_prefix_of(final(self).connection.received()),
            old(self).connection.sent().is_prefix_of(final(self).connection.sent()),
            !old(self).reads(events) && !old(self).writes(events) ==> r is Ok && *final(self)
                == *old(self),
            r is Ok <==> unharmed(old(self).connection, final(self).connection) && !(old(self).reads(events) && mismatch(
                old(self).collected() + newly(
                    old(self).connection.received(),
                    final(self).connection.received(),
                ),
                crate::wire::greeting(old(self).protocol_peer_id),
            )),
            r matches Err(e) ==> {
                ||| failed_with(old(self).connection, final(self).connection, e)
                ||| unharmed(old(self).connection, final(self).connection) && refuses_greeting(e)
            },
            r matches Ok(done) ==> done == (final(self).received && final(self).sent)
                && Self::stepped(*old(self), *final(self), events),
    {
        proof {
            assert(self.connection.received() + Seq::<u8>::empty() =~= self.connection.received());
            assert(self.connection.sent() + Seq::<u8>::empty() =~= self.connection.sent());
            assert(self.collected() + newly(
                self.connection.received(),
                self.connection.received(),
            ) =~= self.collected());
            assert(crate::wire::greeting(self.protocol_id).subrange(
                self.written as int,
                self.written as int,
            ) =~= Seq::<u8>::empty());
        }
        if !self.received && events.is_readable() {
            match self.read_handshake() {
                Ok(()) => {},
                Err(e) => {
                    return Err(e);
                },
            }
        }
        let ghost midway = self.connection;
        if !self.sent && events.is_writable() {
            match self.write_handshake() {
                Ok(()) => {},
                Err(e) => {
                    proof {
                        assert(self.connection.faults().len() == old(self).connection.faults().len()
                            + 1);
                    }
                    return Err(e);
                },
            }
        }
        Ok(self.received && self.sent)
    }

    /// Reads on with the peer's greeting, as far as the connection has it
    /// now. It fails if the connection does, with its error, and else only
    /// to refuse a greeting that is now read in full and is not that of the
    /// peer that this pipe's protocol talks to.
    fn read_handshake(&mut self) -> (r: Result<(), IoError>)
        requires
            old(self).wf(),
            !old(self).received,
        ensures
            final(self).token == old(self).token,
            final(self).protocol_id == old(self).protocol_id,
            final(self).protocol_peer_id == old(self).protocol_peer_id,
            final(self).recv_max_size == old(self).recv_max_size,
            final(self).sent == old(self).sent,
            final(self).written == old(self).written,
            final(self).connection.sent() == old(self).connection.sent(),
            old(self).connection.received().is_prefix_of(final(self).connection.received()),
            r is Ok <==> unharmed(old(self).connection, final(self).connection) && !mismatch(
                old(self).collected() + newly(
                    old(self).connection.received(),
                    final(self).connection.received(),
                ),
                crate::wire::greeting(old(self).protocol_peer_id),
            ),
            r is Ok ==> final(self).wf() && final(self).collected() == old(self).collected()
                + newly(old(self).connection.received(), final(self).connection.received()),
            r matches Err(e) ==> {
                ||| failed_with(old(self).connection, final(self).connection, e)
                ||| unharmed(old(self).connection, final(self).connection) && refuses_greeting(e)
            },
    {
        let ghost before = self.connection.received();
        let ghost so_far = self.collected();
        let n = match RecvOperation::read_buffer(&mut self.connection, &mut self.incoming, self.read) {
            Ok(n) => n,
            Err(e) => {
                proof {
                    assert(self.connection.faults().len() == old(self).connection.faults().len()
                        + 1);
                    assert(before.is_prefix_of(self.connection.received()));
                }
                return Err(e);
            },
        };
        let read = self.read + n;
        proof {
            let after = self.connection.received();
            assert(before.is_prefix_of(after));
            assert(self.incoming@.take(read as int) =~= so_far + newly(before, after));
        }
        if read == 8 {
            proof {
                assert(self.incoming@.take(8) =~= self.incoming@);
            }
            match self.check_received_handshake(self.incoming.as_slice()) {
                Ok(()) => {},
                Err(e) => {
                    return Err(e);
                },
            }
        }
        self.read = read;
        self.received = read == 8;
        Ok(())
    }

    /// Accepts a greeting iff it is that of the peer that this pipe's
    /// protocol talks to.
    fn check_received_handshake(&self, handshake: &[u8]) -> (r: Result<(), IoError>)
        ensures
            r is Ok <==> handshake@ == crate::wire::greeting(self.protocol_peer_id),
            r matches Err(e) ==> refuses_greeting(e),
    {
        let expected_handshake = make_greeting(self.protocol_peer_id);
        if same_bytes(handshake, expected_handshake.as_slice()) {
            Ok(())
        } else {
            Err(invalid_data_io_error("received bad handshake"))
        }
    }

    /// Writes on with the pipe's own greeting, as far as the connection
    /// takes it now. It fails if and only if the connection does, and with
    /// its error.
    fn write_handshake(&mut self) -> (r: Result<(), IoError>)
        requires
            old(self).wf(),
            !old(self).sent,
        ensures
            final(self).wf(),
            final(self).token == old(self).token,
            final(self).protocol_id == old(self).protocol_id,
            final(self).protocol_peer_id == old(self).protocol_peer_id,
            final(self).recv_max_size == old(self).recv_max_size,
            final(self).received == old(self).received,
            final(self).read == old(self).read,
            final(self).incoming == old(self).incoming,
            final(self).connection.received() == old(self).connection.received(),
            old(self).written <= final(self).written,
            final(self).connection.sent() == old(self).connection.sent() + crate::wire::greeting(
                old(self).protocol_id,
            ).subrange(old(self).written as int, final(self).written as int),
            r is Ok <==> unharmed(old(self).connection, final(self).connection),
            r matches Err(e) ==> final(self).written == old(self).written && failed_with(
                old(self).connection,
                final(self).connection,
                e,
            ),
    {
        // handshake is Zero, 'S', 'P', Version, Proto, Rsvd
        let handshake = make_greeting(self.protocol_id);
        let ghost before = self.connection.sent();
        let fragment = slice_subrange(handshake.as_slice(), self.written, 8);
        let written = match self.connection.try_write(fragment) {
            Ok(written) => written,
            Err(e) => {
                proof {
                    assert(self.connection.faults().len() == old(self).connection.faults().len()
                        + 1);
                    assert(before + handshake@.subrange(
                        self.written as int,
                        self.written as int,
                    ) =~= before);
                }
                return Err(e);
            },
        };
        let n = self.check_sent_handshake(written);
        proof {
            assert(fragment@.subrange(0, n as int) =~= handshake@.subrange(
                self.written as int,
                self.written + n,
            ));
            assert(before + Seq::<u8>::empty() =~= before);
        }
        self.written = self.written + n;
        self.sent = self.written == 8;
        Ok(())
    }

    /// How many bytes of the greeting went out: none, where the connection
    /// could take none.
    fn check_sent_handshake(&self, written: Option<usize>) -> (n: usize)
        ensures
            n == (match written {
                Some(n) => n,
                None => 0,
            }),
    {
        match written {
            Some(n) => n,
            None => 0,
        }
    }

    fn connection(self) -> (c: C)
        ensures
            c == self.connection,
    {
        self.connection
    }
}

/// A pipe that has exchanged greetings and carries messages.
pub struct ConnectedPipeState<C: Connection> {
    token: Token,
    connection: C,
    pending_send: Option<SendOperation>,
    pending_recv: Option<RecvOperation>,
    writable: bool,
    readable: bool,
    recv_max_size: u64,
}

impl<C: Connection> ConnectedPipeState<C> {
    /// The operations that are kept are sound, and each has got somewhere:
    /// one that got nowhere is not kept.
    spec fn wf(&self) -> bool {
        &&& self.pending_send matches Some(op) ==> {
            &&& op.wf()
            &&& 0 < op.remaining().len() < crate::wire::frame(op.message()@.payload()).len()
        }
        &&& self.pending_recv matches Some(op) ==> {
            &&& op.wf()
            &&& !op.is_done()
            &&& op.max_size() == self.recv_max_size
            &&& op.collected().len() > 0
        }
    }

    /// The message that is partly written, and what is left to write of its frame.
    spec fn outgoing(&self) -> Option<(Rc<Message>, Seq<u8>)> {
        match self.pending_send {
            Some(op) => Some((op.message(), op.remaining())),
            None => None,
        }
    }

    /// What has been read of the frame that is partly read.
    spec fn incoming(&self) -> Option<Seq<u8>> {
        match self.pending_recv {
            Some(op) => Some(op.collected()),
            None => None,
        }
    }

    fn new(token: Token, connection: C, recv_max_size: u64) -> (state: ConnectedPipeState<C>)
        ensures
            state.wf(),
            state.token == token,
            state.connection == connection,
            state.pending_send is None,
            state.pending_recv is None,
            !state.writable,
            !state.readable,
            state.recv_max_size == recv_max_size,
    {
        ConnectedPipeState {
            token,
            connection,
            pending_send: None,
            pending_recv: None,
            writable: false,
            readable: false,
            recv_max_size,
        }
    }

    fn open(&self, event_loop: &mut EventLoop)
        ensures
            final(event_loop)@ == old(event_loop)@.push(
                crate::transport::PollRequest::Reregister(
                    self.token,
                    crate::transport::all_events(),
                    PollOpt::Edge,
                ),
            ),
    {
        event_loop.reregister(self.token, EventSet::all(), PollOpt::Edge)
    }

    fn close(&self, event_loop: &mut EventLoop)
        ensures
            final(event_loop)@ == old(event_loop)@.push(
                crate::transport::PollRequest::Deregister(self.token),
            ),
    {
        event_loop.deregister(self.token)
    }

    /// Writes on with `operation`, and keeps it only if it is under way. It
    /// fails if and only if the connection does, and with its error; then
    /// nothing is kept.
    fn resume_sending(&mut self, operation: SendOperation) -> (r: Result<SendStatus, IoError>)
        requires
            operation.wf(),
            old(self).wf(),
        ensures
            final(self).token == old(self).token,
            final(self).recv_max_size == old(self).recv_max_size,
            final(self).pending_recv == old(self).pending_recv,
            final(self).readable == old(self).readable,
            final(self).connection.received() == old(self).connection.received(),
            r is Ok ==> final(self).wf(),
            match r {
                Ok(SendStatus::Completed) => {
                    &&& final(self).pending_send is None
                    &&& final(self).writable == old(self).writable
                    &&& final(self).connection.sent() == old(self).connection.sent()
                        + operation.remaining()
                },
                Ok(SendStatus::InProgress) => {
                    &&& final(self).outgoing() matches Some(o)
                    &&& o.0 == operation.message()
                    &&& 0 < o.1.len() < crate::wire::frame(o.0@.payload()).len()
                    &&& wrote(
                        old(self).connection.sent(),
                        operation.remaining(),
                        final(self).connection.sent(),
                        o.1,
                    )
                    &&& !final(self).writable
                },
                Ok(SendStatus::Postponed(msg)) => {
                    &&& msg == operation.message()
                    &&& operation.remaining() == crate::wire::frame(msg@.payload())
                    &&& final(self).pending_send is None
                    &&& !final(self).writable
                    &&& final(self).connection.sent() == old(self).connection.sent()
                },
                Err(e) => {
                    &&& final(self).pending_send is None
                    &&& !final(self).writable
                    &&& failed_with(old(self).connection, final(self).connection, e)
                },
            },
            r is Ok <==> unharmed(old(self).connection, final(self).connection),
    {
        let mut operation = operation;
        let ghost left0 = operation.remaining();
        let ghost sent0 = self.connection.sent();
        self.pending_send = None;
        let progress = match operation.send(&mut self.connection) {
            Ok(progress) => progress,
            Err(e) => {
                self.writable = false;
                proof {
                    assert(self.connection.faults().len() == old(self).connection.faults().len()
                        + 1);
                }
                return Err(e);
            },
        };
        proof {
            operation.remaining_is_bounded();
            wrote_keeps_the_bytes(sent0, left0, self.connection.sent(), operation.remaining());
        }
        match progress {
            SendStatus::Postponed(msg) => {
                proof {
                    assert(left0.len() <= crate::wire::frame(msg@.payload()).len()) by {
                        // what was left at the start is no more than a frame
                    }
                    assert(left0.skip(0) =~= left0);
                    assert(sent0 + left0.subrange(0, 0) =~= sent0);
                }
                self.writable = false;
                Ok(SendStatus::Postponed(msg))
            },
            SendStatus::Completed => {
                proof {
                    assert(left0.subrange(0, left0.len() as int) =~= left0);
                }
                Ok(SendStatus::Completed)
            },
            SendStatus::InProgress => {
                self.pending_send = Some(operation);
                self.writable = false;
                Ok(SendStatus::InProgress)
            },
        }
    }

    /// Reads on with `operation`, and keeps it only if it is under way. It
    /// fails if the connection does, with its error, and else only to
    /// refuse a frame whose length prefix, once read in full, announces too
    /// much; then nothing is kept.
    fn resume_receiving(&mut self, operation: RecvOperation) -> (r: Result<RecvStatus, IoError>)
        requires
            operation.wf(),
            !operation.is_done(),
            operation.max_size() == old(self).recv_max_size,
            old(self).wf(),
        ensures
            final(self).token == old(self).token,
            final(self).recv_max_size == old(self).recv_max_size,
            final(self).pending_send == old(self).pending_send,
            final(self).writable == old(self).writable,
            final(self).connection.sent() == old(self).connection.sent(),
            old(self).connection.received().is_prefix_of(final(self).connection.received()),
            r is Ok ==> final(self).wf(),
            match r {
                Ok(RecvStatus::Completed(msg)) => {
                    &&& final(self).pending_recv is None
                    &&& final(self).readable == old(self).readable
                    &&& msg@.header == Seq::<u8>::empty()
                    &&& msg@.body.len() <= final(self).recv_max_size
                    &&& crate::wire::frame(msg@.body) == operation.collected() + newly(
                        old(self).connection.received(),
                        final(self).connection.received(),
                    )
                },
                Ok(RecvStatus::InProgress) => {
                    &&& final(self).incoming() matches Some(got)
                    &&& got.len() > 0
                    &&& got == operation.collected() + newly(
                        old(self).connection.received(),
                        final(self).connection.received(),
                    )
                    &&& !final(self).readable
                },
                Ok(RecvStatus::Postponed) => {
                    &&& final(self).pending_recv is None
                    &&& operation.collected().len() == 0
                    &&& final(self).connection.received() == old(self).connection.received()
                    &&& !final(self).readable
                },
                Err(e) => {
                    &&& final(self).pending_recv is None
                    &&& !final(self).readable
                    &&& {
                        ||| failed_with(old(self).connection, final(self).connection, e)
                        ||| unharmed(old(self).connection, final(self).connection)
                            && refuses_too_long(e)
                    }
                },
            },
            r is Ok <==> unharmed(old(self).connection, final(self).connection) && !too_long(
                operation.collected() + newly(
                    old(self).connection.received(),
                    final(self).connection.received(),
                ),
                old(self).recv_max_size,
            ),
    {
        let mut operation = operation;
        self.pending_recv = None;
        let progress = match operation.recv(&mut self.connection) {
            Ok(progress) => progress,
            Err(e) => {
                self.readable = false;
                return Err(e);
            },
        };
        match progress {
            RecvStatus::Completed(msg) => Ok(RecvStatus::Completed(msg)),
            RecvStatus::InProgress => {
                self.pending_recv = Some(operation);
                self.readable = false;
                Ok(RecvStatus::InProgress)
            },
            RecvStatus::Postponed => {
                self.readable = false;
                proof {
                    let before = old(self).connection.received();
                    let after = self.connection.received();
                    assert(newly(before, after).len() == 0);
                    assert(after =~= before);
                }
                Ok(RecvStatus::Postponed)
            },
        }
    }

    /// Goes on with what is under way, as far as the events allow, and says
    /// whether a message went out in full and which message came in. Where
    /// nothing is under way that the events allow to go on with, only the
    /// readiness is noted. It fails if the connection does, with its error,
    /// and else only to refuse a frame whose length prefix, once read in
    /// full, announces too much.
    fn ready(&mut self, events: EventSet) -> (r: Result<(bool, Option<Message>), IoError>)
        requires
            old(self).wf(),
        ensures
            final(self).token == old(self).token,
            final(self).recv_max_size == old(self).recv_max_size,
            old(self).connection.received().is_prefix_of(final(self).connection.received()),
            !(old(self).outgoing() is Some && events.writable) && !(old(self).incoming() is Some
                && events.readable) ==> r is Ok,
            r is Ok <==> {
                &&& unharmed(old(self).connection, final(self).connection)
                &&& !(old(self).incoming() matches Some(got) && events.readable && too_long(
                    got + newly(
                        old(self).connection.received(),
                        final(self).connection.received(),
                    ),
                    old(self).recv_max_size,
                ))
            },
            r matches Err(e) ==> {
                ||| failed_with(old(self).connection, final(self).connection, e)
                ||| unharmed(old(self).connection, final(self).connection) && refuses_too_long(e)
            },
            r matches Ok((sent, received)) ==> {
                &&& final(self).wf()
                &&& if old(self).outgoing() is Some && events.writable {
                    let o = old(self).outgoing().unwrap();
                    &&& sent == (final(self).outgoing() is None)
                    &&& final(self).writable == sent
                    &&& wrote(
                        old(self).connection.sent(),
                        o.1,
                        final(self).connection.sent(),
                        match final(self).outgoing() {
                            Some(rest) => rest.1,
                            None => Seq::<u8>::empty(),
                        },
                    )
                    &&& final(self).outgoing() matches Some(rest) ==> rest.0 == o.0
                } else {
                    &&& !sent
                    &&& final(self).writable == (old(self).writable || events.writable)
                    &&& final(self).pending_send == old(self).pending_send
                    &&& final(self).connection.sent() == old(self).connection.sent()
                }
                &&& if old(self).incoming() is Some && events.readable {
                    let got = old(self).incoming().unwrap();
                    &&& final(self).readable == (received is Some)
                    &&& match received {
                        Some(msg) => {
                            &&& final(self).incoming() is None
                            &&& msg@.header == Seq::<u8>::empty()
                            &&& msg@.body.len() <= final(self).recv_max_size
                            &&& crate::wire::frame(msg@.body) == got + newly(
                                old(self).connection.received(),
                                final(self).connection.received(),
                            )
                        },
                        None => final(self).incoming() == Some(
                            got + newly(
                                old(self).connection.received(),
                                final(self).connection.received(),
                            ),
                        ),
                    }
                } else {
                    &&& received is None
                    &&& final(self).readable == (old(self).readable || events.readable)
                    &&& final(self).pending_recv == old(self).pending_recv
                    &&& final(self).connection.received() == old(self).connection.received()
                }
            },
    {
        let mut sent = false;
        if events.is_writable() {
            self.writable = true;
        }
        if events.is_readable() {
            self.readable = true;
        }
        if self.pending_send.is_some() && events.is_writable() {
            let operation = self.pending_send.take().unwrap();
            let ghost left0 = operation.remaining();
            let ghost sent0 = self.connection.sent();
            sent = match self.resume_sending(operation)? {
                SendStatus::Completed => {
                    proof {
                        assert(left0.skip(left0.len() as int) =~= Seq::<u8>::empty());
                        assert(left0.subrange(0, left0.len() as int) =~= left0);
                    }
                    true
                },
                SendStatus::InProgress => false,
                SendStatus::Postponed(_) => false,
            }
        }
        let mut received: Option<Message> = None;
        if self.pending_recv.is_some() && events.is_readable() {
            let operation = self.pending_recv.take().unwrap();
            received = match self.resume_receiving(operation)? {
                RecvStatus::Completed(msg) => Some(msg),
                RecvStatus::InProgress => None,
                RecvStatus::Postponed => None,
            }
        }
        Ok((sent, received))
    }

    /// Starts to send `msg`, in place of whatever was being sent. It fails
    /// if and only if the connection does, and with its error; then nothing
    /// is kept.
    fn send(&mut self, msg: Rc<Message>) -> (r: Result<SendStatus, IoError>)
        requires
            old(self).wf(),
        ensures
            final(self).token == old(self).token,
            final(self).recv_max_size == old(self).recv_max_size,
            final(self).pending_recv == old(self).pending_recv,
            final(self).readable == old(self).readable,
            final(self).connection.received() == old(self).connection.received(),
            r is Ok ==> final(self).wf(),
            match r {
                Ok(SendStatus::Completed) => {
                    &&& final(self).pending_send is None
                    &&& final(self).writable == old(self).writable
                    &&& final(self).connection.sent() == old(self).connection.sent()
                        + crate::wire::frame(msg@.payload())
                },
                Ok(SendStatus::InProgress) => {
                    &&& final(self).outgoing() matches Some(o)
                    &&& o.0 == msg
                    &&& 0 < o.1.len() < crate::wire::frame(msg@.payload()).len()
                    &&& wrote(
                        old(self).connection.sent(),
                        crate::wire::frame(msg@.payload()),
                        final(self).connection.sent(),
                        o.1,
                    )
                    &&& !final(self).writable
                },
                Ok(SendStatus::Postponed(back)) => {
                    &&& back == msg
                    &&& final(self).pending_send is None
                    &&& !final(self).writable
                    &&& final(self).connection.sent() == old(self).connection.sent()
                },
                Err(e) => {
                    &&& final(self).pending_send is None
                    &&& !final(self).writable
                    &&& failed_with(old(self).connection, final(self).connection, e)
                },
            },
            r is Ok <==> unharmed(old(self).connection, final(self).connection),
    {
        let operation = SendOperation::new(msg);
        self.pending_send = None;
        self.resume_sending(operation)
    }

    /// Starts to receive a message, in place of whatever was being
    /// received. It fails if the connection does, with its error, and else
    /// only to refuse a frame whose length prefix, once read in full,
    /// announces too much; then nothing is kept.
    fn recv(&mut self) -> (r: Result<RecvStatus, IoError>)
        requires
            old(self).wf(),
        ensures
            final(self).token == old(self).token,
            final(self).recv_max_size == old(self).recv_max_size,
            final(self).pending_send == old(self).pending_send,
            final(self).writable == old(self).writable,
            final(self).connection.sent() == old(self).connection.sent(),
            old(self).connection.received().is_prefix_of(final(self).connection.received()),
            r is Ok ==> final(self).wf(),
            match r {
                Ok(RecvStatus::Completed(msg)) => {
                    &&& final(self).pending_recv is None
                    &&& final(self).readable == old(self).readable
                    &&& msg@.header == Seq::<u8>::empty()
                    &&& msg@.body.len() <= final(self).recv_max_size
                    &&& crate::wire::frame(msg@.body) == newly(
                        old(self).connection.received(),
                        final(self).connection.received(),
                    )
                },
                Ok(RecvStatus::InProgress) => {
                    &&& final(self).incoming() matches Some(got)
                    &&& got.len() > 0
                    &&& got == newly(
                        old(self).connection.received(),
                        final(self).connection.received(),
                    )
                    &&& !final(self).readable
                },
                Ok(RecvStatus::Postponed) => {
                    &&& final(self).pending_recv is None
                    &&& final(self).connection.received() == old(self).connection.received()
                    &&& !final(self).readable
                },
                Err(e) => {
                    &&& final(self).pending_recv is None
                    &&& !final(self).readable
                    &&& {
                        ||| failed_with(old(self).connection, final(self).connection, e)
                        ||| unharmed(old(self).connection, final(self).connection)
                            && refuses_too_long(e)
                    }
                },
            },
            r is Ok <==> unharmed(old(self).connection, final(self).connection) && !too_long(
                newly(old(self).connection.received(), final(self).connection.received()),
                old(self).recv_max_size,
            ),
    {
        let operation = RecvOperation::new(self.recv_max_size);
        self.pending_recv = None;
        let ghost before = self.connection.received();
        let r = self.resume_receiving(operation);
        proof {
            let delta = newly(before, self.connection.received());
            assert(Seq::<u8>::empty() + delta =~= delta);
        }
        r
    }

    fn on_send_timeout(&mut self)
        requires
            old(self).wf(),
        ensures
            final(self).wf(),
            final(self).pending_send is None,
            final(self).token == old(self).token,
            final(self).connection == old(self).connection,
            final(self).pending_recv == old(self).pending_recv,
            final(self).writable == old(self).writable,
            final(self).readable == old(self).readable,
            final(self).recv_max_size == old(self).recv_max_size,
    {
        self.pending_send = None;
    }

    fn on_recv_timeout(&mut self)
        requires
            old(self).wf(),
        ensures
            final(self).wf(),
            final(self).pending_recv is None,
            final(self).token == old(self).token,
            final(self).connection == old(self).connection,
            final(self).pending_send == old(self).pending_send,
            final(self).writable == old(self).writable,
            final(self).readable == old(self).readable,
            final(self).recv_max_size == old(self).recv_max_size,
    {
        self.pending_recv = None;
    }
}

/// The longest payload that a pipe accepts unless it is told otherwise.
pub const DEFAULT_RECV_MAX_SIZE: u64 = 0x8000_0000;

/// How soon a pipe is to be served unless it is told otherwise.
pub const DEFAULT_RECV_PRIORITY: u8 = 8;

/// Where a pipe stands in its life.
#[derive(Copy, Clone, Debug, PartialEq, Eq, Structural)]
pub enum Phase {
    /// The greetings are not yet exchanged.
    Handshake,
    /// Messages can flow.
    Active,
    /// The connection is gone.
    Dead,
}

/// A pipe greets its peer and then carries whole messages over a
/// connection, each as far as the connection's readiness allows.
pub struct Pipe<C: Connection> {
    token: Token,
    addr: Option<String>,
    recv_priority: u8,
    handshake_state: Option<HandshakePipeState<C>>,
    connected_state: Option<ConnectedPipeState<C>>,
    /// The connection as it was when the pipe died, for contracts to speak
    /// of.
    wreck: Ghost<Option<C>>,
}

impl<C: Connection> Pipe<C> {
    #[verifier::type_invariant]
    spec fn inv(self) -> bool {
        &&& !(self.handshake_state is Some && self.connected_state is Some)
        &&& self.handshake_state matches Some(hs) ==> hs.wf() && hs.token == self.token
        &&& self.connected_state matches Some(cs) ==> cs.wf() && cs.token == self.token
    }

    pub closed spec fn phase(&self) -> Phase {
        if self.handshake_state is Some {
            Phase::Handshake
        } else if self.connected_state is Some {
            Phase::Active
        } else {
            Phase::Dead
        }
    }

    pub closed spec fn token(&self) -> Token {
        self.token
    }

    pub closed spec fn address(&self) -> Option<String> {
        self.addr
    }

    /// How soon the pipe is to be served among the pipes that have a
    /// message: the lower the number, the sooner.
    pub closed spec fn recv_priority(&self) -> u8 {
        self.recv_priority
    }

    /// The connection; of a pipe that is dead, the connection as it was
    /// when the pipe died.
    pub closed spec fn stream(&self) -> C {
        match self.handshake_state {
            Some(hs) => hs.connection,
            None => match self.connected_state {
                Some(cs) => cs.connection,
                None => self.wreck@.unwrap(),
            },
        }
    }

    /// How many bytes of the pipe's own greeting have gone out.
    pub closed spec fn greeting_written(&self) -> nat {
        match self.handshake_state {
            Some(hs) => hs.written as nat,
            None => 8,
        }
    }

    /// What has come in of the peer's greeting, while the handshake lasts.
    pub closed spec fn greeting_read(&self) -> Seq<u8> {
        match self.handshake_state {
            Some(hs) => hs.collected(),
            None => Seq::empty(),
        }
    }

    /// The protocol's own identifier and that of the peers that it talks
    /// to, while the handshake lasts.
    pub closed spec fn protocol_ids(&self) -> (u16, u16) {
        (
            self.handshake_state.unwrap().protocol_id,
            self.handshake_state.unwrap().protocol_peer_id,
        )
    }

    /// Whether the greeting was sent, and whether the peer's was received.
    pub closed spec fn greeted(&self) -> (bool, bool) {
        match self.handshake_state {
            Some(hs) => (hs.sent, hs.received),
            None => (true, true),
        }
    }

    /// The longest payload that the pipe accepts.
    pub closed spec fn recv_max_size(&self) -> u64 {
        match self.handshake_state {
            Some(hs) => hs.recv_max_size,
            None => self.connected_state.unwrap().recv_max_size,
        }
    }

    /// The message that is partly written, and what is left to write of its
    /// frame.
    pub closed spec fn outgoing(&self) -> Option<(Rc<Message>, Seq<u8>)> {
        match self.connected_state {
            Some(cs) => cs.outgoing(),
            None => None,
        }
    }

    /// What has been read of the frame that is partly read.
    pub closed spec fn incoming(&self) -> Option<Seq<u8>> {
        match self.connected_state {
            Some(cs) => cs.incoming(),
            None => None,
        }
    }

    /// Whether the connection was reported writable and has not refused a
    /// write since.
    pub closed spec fn writable(&self) -> bool {
        match self.connected_state {
            Some(cs) => cs.writable,
            None => false,
        }
    }

    /// Whether the connection was reported readable and has not run out of
    /// bytes since.
    pub closed spec fn readable(&self) -> bool {
        match self.connected_state {
            Some(cs) => cs.readable,
            None => false,
        }
    }

    pub fn new(token: Token, addr: Option<String>, proto_ids: (u16, u16), connection: C) -> (pipe:
        Pipe<C>)
        ensures
            pipe.phase() == Phase::Handshake,
            pipe.token() == token,
            pipe.address() == addr,
            pipe.stream() == connection,
            pipe.protocol_ids() == proto_ids,
            pipe.greeted() == (false, false),
            pipe.greeting_written() == 0,
            pipe.greeting_read() == Seq::<u8>::empty(),
            pipe.recv_max_size() == DEFAULT_RECV_MAX_SIZE,
            pipe.recv_priority() == DEFAULT_RECV_PRIORITY,
    {
        let handshake = HandshakePipeState::new(token, proto_ids, connection, DEFAULT_RECV_MAX_SIZE);
        Pipe {
            token,
            addr,
            recv_priority: DEFAULT_RECV_PRIORITY,
            handshake_state: Some(handshake),
            connected_state: None,
            wreck: Ghost(None),
        }
    }

    pub fn get_token(&self) -> (token: Token)
        ensures
            token == self.token(),
    {
        self.token
    }

    pub fn get_recv_priority(&self) -> (priority: u8)
        ensures
            priority == self.recv_priority(),
    {
        self.recv_priority
    }

    /// Sets how soon the pipe is to be served. Nothing else changes.
    pub fn set_recv_priority(&mut self, priority: u8)
        ensures
            final(self).recv_priority() == priority,
            Self::same_but_pending(*old(self), *final(self)),
            final(self).outgoing() == old(self).outgoing(),
            final(self).incoming() == old(self).incoming(),
    {
        proof {
            use_type_invariant(&*self);
        }
        self.recv_priority = priority;
    }

    /// Asks the poller to report the connection's readiness anew, at each
    /// change. Of a dead pipe nothing is asked.
    pub fn resync_readiness(&self, event_loop: &mut EventLoop)
        ensures
            final(event_loop)@ == (if self.phase() == Phase::Dead {
                old(event_loop)@
            } else {
                old(event_loop)@.push(
                    PollRequest::Reregister(
                        self.token(),
                        crate::transport::all_events(),
                        PollOpt::Edge,
                    ),
                )
            }),
    {
        proof {
            use_type_invariant(self);
        }
        match &self.handshake_state {
            Some(hs) => hs.reopen(event_loop),
            None => match &self.connected_state {
                Some(cs) => cs.open(event_loop),
                None => {},
            },
        }
    }

    /// The protocol has taken note that the pipe is open: the poller is
    /// asked to report the connection's readiness anew.
    pub fn on_open_ack(&self, event_loop: &mut EventLoop)
        ensures
            final(event_loop)@ == (if self.phase() == Phase::Dead {
                old(event_loop)@
            } else {
                old(event_loop)@.push(
                    PollRequest::Reregister(
                        self.token(),
                        crate::transport::all_events(),
                        PollOpt::Edge,
                    ),
                )
            }),
    {
        self.resync_readiness(event_loop)
    }

    /// Takes the handshake state out, if the pipe is in it.
    fn take_handshake(&mut self) -> (hs: Option<HandshakePipeState<C>>)
        ensures
            hs == old(self).handshake_state,
            final(self).handshake_state is None,
            final(self).connected_state == old(self).connected_state,
            final(self).token == old(self).token,
            final(self).addr == old(self).addr,
            final(self).recv_priority == old(self).recv_priority,
            final(self).wreck == old(self).wreck,
    {
        proof {
            use_type_invariant(&*self);
        }
        let mut taken: Option<HandshakePipeState<C>> = None;
        std::mem::swap(&mut self.handshake_state, &mut taken);
        taken
    }

    /// Takes the connected state out, if the pipe is in it.
    fn take_connected(&mut self) -> (cs: Option<ConnectedPipeState<C>>)
        ensures
            cs == old(self).connected_state,
            final(self).connected_state is None,
            final(self).handshake_state == old(self).handshake_state,
            final(self).token == old(self).token,
            final(self).addr == old(self).addr,
            final(self).recv_priority == old(self).recv_priority,
            final(self).wreck == old(self).wreck,
    {
        proof {
            use_type_invariant(&*self);
        }
        let mut taken: Option<ConnectedPipeState<C>> = None;
        std::mem::swap(&mut self.connected_state, &mut taken);
        taken
    }

    pub fn current_phase(&self) -> (p: Phase)
        ensures
            p == self.phase(),
    {
        if self.handshake_state.is_some() {
            Phase::Handshake
        } else if self.connected_state.is_some() {
            Phase::Active
        } else {
            Phase::Dead
        }
    }

    /// The connection, as long as the pipe is not dead.
    pub fn connection(&self) -> (c: Option<&C>)
        ensures
            self.phase() == Phase::Dead <==> c is None,
            c matches Some(conn) ==> *conn == self.stream(),
    {
        match &self.handshake_state {
            Some(hs) => Some(&hs.connection),
            None => match &self.connected_state {
                Some(cs) => Some(&cs.connection),
                None => None,
            },
        }
    }

    /// Sets the longest payload that the pipe accepts. A frame that is
    /// partly read keeps the limit that it was begun with.
    pub fn set_recv_max_size(&mut self, max_size: u64)
        ensures
            final(self).phase() == old(self).phase(),
            final(self).token() == old(self).token(),
            final(self).address() == old(self).address(),
            final(self).recv_priority() == old(self).recv_priority(),
            final(self).greeted() == old(self).greeted(),
            final(self).outgoing() == old(self).outgoing(),
            final(self).writable() == old(self).writable(),
            final(self).readable() == old(self).readable(),
            old(self).phase() != Phase::Dead ==> final(self).stream() == old(self).stream(),
            old(self).phase() == Phase::Handshake ==> final(self).protocol_ids() == old(self).protocol_ids() && final(self).recv_max_size() == max_size,
            old(self).phase() == Phase::Active ==> if old(self).incoming() is None {
                final(self).recv_max_size() == max_size && final(self).incoming() is None
            } else {
                *final(self) == *old(self)
            },
    {
        proof {
            use_type_invariant(&*self);
        }
        match self.take_handshake() {
            Some(mut hs) => {
                hs.recv_max_size = max_size;
                self.handshake_state = Some(hs);
            },
            None => match self.take_connected() {
                Some(mut cs) => {
                    if cs.pending_recv.is_none() {
                        cs.recv_max_size = max_size;
                    }
                    self.connected_state = Some(cs);
                },
                None => {},
            },
        }
    }

    /// Asks to be told of every event, at each change. A pipe past its
    /// handshake cannot be opened.
    pub fn open(&self, event_loop: &mut EventLoop) -> (r: Result<(), IoError>)
        ensures
            self.phase() == Phase::Handshake <==> r is Ok,
            r is Ok ==> final(event_loop)@ == old(event_loop)@.push(
                PollRequest::Register(
                    self.token(),
                    crate::transport::all_events(),
                    PollOpt::Edge,
                ),
            ),
            r is Err ==> crate::io_error::fails_with(
                r,
                ErrorKind::Other,
                "cannot open pipe after handshake step !"@,
            ) && final(event_loop)@ == old(event_loop)@,
    {
        proof {
            use_type_invariant(self);
        }
        match &self.handshake_state {
            None => Err(other_io_error("cannot open pipe after handshake step !")),
            Some(hs) => {
                hs.open(event_loop);
                Ok(())
            },
        }
    }

    /// Asks to be told of nothing any more, unless the pipe is dead already.
    pub fn close(&self, event_loop: &mut EventLoop)
        ensures
            final(event_loop)@ == (if self.phase() == Phase::Dead {
                old(event_loop)@
            } else {
                old(event_loop)@.push(PollRequest::Deregister(self.token()))
            }),
    {
        proof {
            use_type_invariant(self);
        }
        match &self.handshake_state {
            Some(hs) => hs.close(event_loop),
            None => match &self.connected_state {
                Some(cs) => cs.close(event_loop),
                None => {},
            },
        }
    }

    pub fn addr(self) -> (a: Option<String>)
        ensures
            a == self.address(),
    {
        self.addr
    }

    /// Whether a message can be handed to `send` with a chance to go out:
    /// the pipe is active, its connection was reported writable and has not
    /// refused a write since, and no message is partly written.
    pub open spec fn can_send(&self) -> bool {
        self.phase() == Phase::Active && self.writable() && self.outgoing() is None
    }

    /// Whether a message can be handed to `send` with a chance to go out.
    pub fn send_ready(&self) -> (ready: bool)
        ensures
            ready == self.can_send(),
            self.phase() == Phase::Active ==> (ready <==> self.writable() && self.outgoing()
                is None),
    {
        proof {
            use_type_invariant(self);
        }
        match &self.connected_state {
            Some(cs) => cs.writable && cs.pending_send.is_none(),
            None => false,
        }
    }

    /// Whether a message can be asked for with a chance to come in: the
    /// pipe is active, its connection was reported readable and has not run
    /// out of bytes since, and no frame is partly read.
    pub fn can_recv(&self) -> (ready: bool)
        ensures
            ready <==> self.phase() == Phase::Active && self.readable() && self.incoming() is None,
    {
        proof {
            use_type_invariant(self);
        }
        match &self.connected_state {
            Some(cs) => cs.readable && cs.pending_recv.is_none(),
            None => false,
        }
    }

    /// What a step of the handshake makes of a pipe that stays alive: each
    /// greeting that was still due has gone on as far as the events allowed
    /// and the connection went along, what has come in whole is the greeting
    /// of the peer, and the pipe is active once both greetings are whole.
    pub open spec fn handshake_step(before: Pipe<C>, after: Pipe<C>, events: EventSet) -> bool {
        let ids = before.protocol_ids();
        let writes = !before.greeted().0 && events.writable;
        let reads = !before.greeted().1 && events.readable;
        let got = before.greeting_read() + newly(
            before.stream().received(),
            after.stream().received(),
        );
        &&& before.greeting_written() <= after.greeting_written() <= 8
        &&& !writes ==> after.greeting_written() == before.greeting_written()
        &&& after.stream().sent() == before.stream().sent() + crate::wire::greeting(
            ids.0,
        ).subrange(before.greeting_written() as int, after.greeting_written() as int)
        &&& before.stream().received().is_prefix_of(after.stream().received())
        &&& !reads ==> after.stream().received() == before.stream().received()
        &&& got.len() <= 8
        &&& got.len() == 8 ==> got == crate::wire::greeting(ids.1)
        &&& unharmed(before.stream(), after.stream())
        &&& after.phase() == (if after.greeting_written() == 8 && got.len() == 8 {
            Phase::Active
        } else {
            Phase::Handshake
        })
        &&& after.greeted() == (after.greeting_written() == 8, got.len() == 8)
        &&& after.phase() == Phase::Handshake ==> after.protocol_ids() == ids
            && after.greeting_read() == got
        &&& after.recv_max_size() == before.recv_max_size()
        &&& after.outgoing() is None
        &&& after.incoming() is None
        &&& !after.writable()
        &&& !after.readable()
    }

    /// What readiness makes of an active pipe that stays alive: a message that
    /// was partly written is written on if the connection is writable, and a
    /// frame that was partly read is read on if it is readable.
    pub open spec fn active_step(
        before: Pipe<C>,
        after: Pipe<C>,
        events: EventSet,
        sent: bool,
        received: Option<Message>,
    ) -> bool {
        &&& after.phase() == Phase::Active
        &&& after.recv_max_size() == before.recv_max_size()
        &&& if before.outgoing() is Some && events.writable {
            let o = before.outgoing().unwrap();
            &&& sent == (after.outgoing() is None)
            &&& after.writable() == sent
            &&& wrote(
                before.stream().sent(),
                o.1,
                after.stream().sent(),
                match after.outgoing() {
                    Some(rest) => rest.1,
                    None => Seq::<u8>::empty(),
                },
            )
            &&& after.outgoing() matches Some(rest) ==> rest.0 == o.0 && 0 < rest.1.len()
        } else {
            &&& !sent
            &&& after.writable() == (before.writable() || events.writable)
            &&& after.outgoing() == before.outgoing()
            &&& after.stream().sent() == before.stream().sent()
        }
        &&& before.stream().received().is_prefix_of(after.stream().received())
        &&& after.readable() == (if before.incoming() is Some && events.readable {
            received is Some
        } else {
            before.readable() || events.readable
        })
        &&& if before.incoming() is Some && events.readable {
            let got = before.incoming().unwrap();
            let more = newly(before.stream().received(), after.stream().received());
            match received {
                Some(msg) => {
                    &&& after.incoming() is None
                    &&& msg@.header == Seq::<u8>::empty()
                    &&& msg@.body.len() <= after.recv_max_size()
                    &&& crate::wire::frame(msg@.body) == got + more
                },
                None => after.incoming() == Some(got + more),
            }
        } else {
            &&& received is None
            &&& after.incoming() == before.incoming()
            &&& after.stream().received() == before.stream().received()
        }
    }

    /// Whether a greeting is still due and the events allow to go on with
    /// it.
    pub open spec fn greets(&self, events: EventSet) -> bool {
        (!self.greeted().0 && events.writable) || (!self.greeted().1 && events.readable)
    }

    /// Whether an operation is under way and the events allow to go on with
    /// it.
    pub open spec fn resumes(&self, events: EventSet) -> bool {
        (self.outgoing() is Some && events.writable) || (self.incoming() is Some
            && events.readable)
    }

    /// Whether what the pipe has read, once the connection has become
    /// `after`, is refused: during the handshake a greeting that is whole
    /// and is not the peer's; afterwards a frame whose length prefix is
    /// whole and announces too much.
    pub open spec fn refused(&self, events: EventSet, after: C) -> bool {
        let more = newly(self.stream().received(), after.received());
        match self.phase() {
            Phase::Handshake => !self.greeted().1 && events.readable && mismatch(
                self.greeting_read() + more,
                crate::wire::greeting(self.protocol_ids().1),
            ),
            Phase::Active => self.incoming() matches Some(got) && events.readable && too_long(
                got + more,
                self.recv_max_size(),
            ),
            Phase::Dead => false,
        }
    }

    /// That `after` is `before` once the pipe has acted on what the poller
    /// reported, with the result `r`, where `asked0` and `asked1` are what was
    /// asked of the poller before and after.
    pub open spec fn did_ready(
        before: Pipe<C>,
        asked0: Seq<PollRequest>,
        events: EventSet,
        after: Pipe<C>,
        asked1: Seq<PollRequest>,
        r: Result<(bool, Option<Message>), IoError>,
    ) -> bool {
        &&& after.token() == before.token()
        &&& after.address() == before.address()
        &&& after.recv_priority() == before.recv_priority()
        &&& events.hup ==> crate::io_error::fails_with(
            r,
            ErrorKind::ConnectionReset,
            "event: hup"@,
        )
        &&& !events.hup && events.error ==> crate::io_error::fails_with(
            r,
            ErrorKind::ConnectionAborted,
            "event: error"@,
        )
        &&& !events.hup && !events.error && before.phase() == Phase::Dead
            ==> crate::io_error::fails_with(
            r,
            ErrorKind::Other,
            "ready notification while pipe is dead"@,
        )
        &&& r is Err ==> after.phase() == Phase::Dead && asked1 == asked0
        &&& (events.hup || events.error) && before.phase() != Phase::Dead ==> after.stream() == before.stream()
        &&& !events.hup && !events.error && before.phase() != Phase::Dead ==> {
            &&& r is Ok <==> unharmed(before.stream(), after.stream()) && !before.refused(events, after.stream())
            &&& r matches Err(e) ==> {
                ||| failed_with(before.stream(), after.stream(), e)
                ||| {
                    &&& unharmed(before.stream(), after.stream())
                    &&& if before.phase() == Phase::Handshake {
                        refuses_greeting(e)
                    } else {
                        refuses_too_long(e)
                    }
                }
            }
            &&& before.phase() == Phase::Handshake && !before.greets(events) ==> r is Ok
            &&& before.phase() == Phase::Active && !before.resumes(events) ==> r is Ok
        }
        &&& r matches Ok((sent, received)) ==> {
            &&& !events.hup && !events.error
            &&& match before.phase() {
                Phase::Handshake => {
                    &&& !sent
                    &&& received is None
                    &&& Self::handshake_step(before, after, events)
                    &&& asked1 == asked0.push(
                        PollRequest::Reregister(
                            before.token(),
                            crate::transport::all_events(),
                            PollOpt::Edge,
                        ),
                    )
                },
                Phase::Active => {
                    &&& Self::active_step(before, after, events, sent, received)
                    &&& asked1 == asked0
                },
                Phase::Dead => false,
            }
        }
    }

    /// Acts on what the poller reports of the connection. A hang-up and a
    /// poller error end the pipe before the connection is asked anything.
    /// Else the pipe goes on with the greetings, or with what is under way,
    /// as far as the events allow; it succeeds if and only if the
    /// connection does not fail and nothing that was read is refused, and
    /// so it does where nothing is to go on with. Every failure ends the
    /// pipe. After each step of the handshake the pipe asks to be told anew
    /// of every change.
    pub fn ready(&mut self, event_loop: &mut EventLoop, events: EventSet) -> (r: Result<
        (bool, Option<Message>),
        IoError,
    >)
        ensures
            Self::did_ready(
                *old(self),
                old(event_loop)@,
                events,
                *final(self),
                final(event_loop)@,
                r,
            ),
    {
        proof {
            use_type_invariant(&*self);
        }
        if events.is_hup() || events.is_error() {
            let ghost last = self.stream();
            let ghost alive = self.phase() != Phase::Dead;
            let _ = self.take_handshake();
            let _ = self.take_connected();
            proof {
                if alive {
                    self.wreck = Ghost(Some(last));
                }
            }
            if events.is_hup() {
                return Err(IoError::new(ErrorKind::ConnectionReset, "event: hup"));
            }
            return Err(IoError::new(ErrorKind::ConnectionAborted, "event: error"));
        }
        match self.take_handshake() {
            Some(mut handshake) => {
                let ghost before = handshake;
                match handshake.ready(events) {
                    Ok(done) => {
                        proof {
                            let got = before.collected() + newly(
                                before.connection.received(),
                                handshake.connection.received(),
                            );
                            assert(got == handshake.collected());
                            assert(got.len() == handshake.read);
                            if got.len() == 8 {
                                assert(handshake.incoming@.take(8) =~= handshake.incoming@);
                            }
                        }
                        if done {
                            let recv_max_size = handshake.recv_max_size;
                            let connection = handshake.connection();
                            let connected = ConnectedPipeState::new(
                                self.token,
                                connection,
                                recv_max_size,
                            );
                            connected.open(event_loop);
                            self.connected_state = Some(connected);
                        } else {
                            handshake.reopen(event_loop);
                            self.handshake_state = Some(handshake);
                        }
                        Ok((false, None))
                    },
                    Err(e) => {
                        proof {
                            self.wreck = Ghost(Some(handshake.connection));
                        }
                        Err(e)
                    },
                }
            },
            None => match self.take_connected() {
                None => Err(other_io_error("ready notification while pipe is dead")),
                Some(mut connected) => {
                    match connected.ready(events) {
                        Ok((sent, received)) => {
                            self.connected_state = Some(connected);
                            Ok((sent, received))
                        },
                        Err(e) => {
                            proof {
                                self.wreck = Ghost(Some(connected.connection));
                            }
                            Err(e)
                        },
                    }
                },
            },
        }
    }

    /// What `send` makes of an active pipe that stays alive.
    pub open spec fn active_send(
        before: Pipe<C>,
        after: Pipe<C>,
        msg: Rc<Message>,
        status: SendStatus,
    ) -> bool {
        let frame = crate::wire::frame(msg@.payload());
        &&& after.phase() == Phase::Active
        &&& after.recv_max_size() == before.recv_max_size()
        &&& after.incoming() == before.incoming()
        &&& after.readable() == before.readable()
        &&& after.stream().received() == before.stream().received()
        &&& match status {
            SendStatus::Completed => {
                &&& after.outgoing() is None
                &&& after.writable() == before.writable()
                &&& after.stream().sent() == before.stream().sent() + frame
            },
            SendStatus::InProgress => {
                &&& after.outgoing() matches Some(o)
                &&& o.0 == msg
                &&& 0 < o.1.len() < frame.len()
                &&& wrote(before.stream().sent(), frame, after.stream().sent(), o.1)
                &&& !after.writable()
            },
            SendStatus::Postponed(back) => {
                &&& back == msg
                &&& after.outgoing() is None
                &&& !after.writable()
                &&& after.stream().sent() == before.stream().sent()
            },
        }
    }

    /// That `after` is `before` once the pipe was asked to send `msg`, with
    /// the result `r`.
    pub open spec fn did_send(
        before: Pipe<C>,
        msg: Rc<Message>,
        after: Pipe<C>,
        r: Result<SendStatus, IoError>,
    ) -> bool {
        &&& after.token() == before.token()
        &&& after.address() == before.address()
        &&& after.recv_priority() == before.recv_priority()
        &&& match before.phase() {
            Phase::Handshake => r matches Ok(SendStatus::Postponed(back)) && back == msg
                && after == before,
            Phase::Active => {
                &&& r is Ok <==> unharmed(before.stream(), after.stream())
                &&& match r {
                    Ok(status) => Self::active_send(before, after, msg, status),
                    Err(e) => after.phase() == Phase::Dead && failed_with(
                        before.stream(),
                        after.stream(),
                        e,
                    ),
                }
            },
            Phase::Dead => crate::io_error::fails_with(
                r,
                ErrorKind::Other,
                "cannot send when pipe is dead"@,
            ) && after.phase() == Phase::Dead,
        }
    }

    /// Sends `msg` as far as the connection takes it now. During the
    /// handshake nothing is sent. A message that was partly written is given
    /// up for this one.
    pub fn send(&mut self, msg: Rc<Message>) -> (r: Result<SendStatus, IoError>)
        ensures
            Self::did_send(
                *old(self),
                msg,
                *final(self),
                r,
            ),
    {
        proof {
            use_type_invariant(&*self);
        }
        if self.handshake_state.is_some() {
            return Ok(SendStatus::Postponed(msg));
        }
        match self.take_connected() {
            None => Err(other_io_error("cannot send when pipe is dead")),
            Some(mut connected) => {
                match connected.send(msg) {
                    Ok(status) => {
                        self.connected_state = Some(connected);
                        Ok(status)
                    },
                    Err(e) => {
                        proof {
                            self.wreck = Ghost(Some(connected.connection));
                        }
                        Err(e)
                    },
                }
            },
        }
    }

    /// What `recv` makes of an active pipe that stays alive.
    pub open spec fn active_recv(before: Pipe<C>, after: Pipe<C>, status: RecvStatus) -> bool {
        let more = newly(before.stream().received(), after.stream().received());
        &&& after.phase() == Phase::Active
        &&& after.recv_max_size() == before.recv_max_size()
        &&& after.outgoing() == before.outgoing()
        &&& after.writable() == before.writable()
        &&& after.stream().sent() == before.stream().sent()
        &&& before.stream().received().is_prefix_of(after.stream().received())
        &&& after.readable() == (status is Completed && before.readable())
        &&& match status {
            RecvStatus::Completed(msg) => {
                &&& after.incoming() is None
                &&& msg@.header == Seq::<u8>::empty()
                &&& msg@.body.len() <= after.recv_max_size()
                &&& crate::wire::frame(msg@.body) == more
            },
            RecvStatus::InProgress => after.incoming() == Some(more) && more.len() > 0,
            RecvStatus::Postponed => after.incoming() is None && more.len() == 0,
        }
    }

    /// That `after` is `before` once the pipe was asked to receive, with the
    /// result `r`.
    pub open spec fn did_recv(
        before: Pipe<C>,
        after: Pipe<C>,
        r: Result<RecvStatus, IoError>,
    ) -> bool {
        &&& after.token() == before.token()
        &&& after.address() == before.address()
        &&& after.recv_priority() == before.recv_priority()
        &&& match before.phase() {
            Phase::Handshake => r matches Ok(RecvStatus::Postponed) && after == before,
            Phase::Active => {
                &&& r is Ok <==> unharmed(before.stream(), after.stream())
                    && !too_long(
                    newly(before.stream().received(), after.stream().received()),
                    before.recv_max_size(),
                )
                &&& match r {
                    Ok(status) => Self::active_recv(before, after, status),
                    Err(e) => {
                        &&& after.phase() == Phase::Dead
                        &&& {
                            ||| failed_with(before.stream(), after.stream(), e)
                            ||| unharmed(before.stream(), after.stream())
                                && refuses_too_long(e)
                        }
                    },
                }
            },
            Phase::Dead => crate::io_error::fails_with(
                r,
                ErrorKind::Other,
                "cannot recv when pipe is dead"@,
            ) && after.phase() == Phase::Dead,
        }
    }

    /// Receives a message as far as the connection has it now. During the
    /// handshake nothing is received. A frame that was partly read is given
    /// up.
    pub fn recv(&mut self) -> (r: Result<RecvStatus, IoError>)
        ensures
            Self::did_recv(
                *old(self),
                *final(self),
                r,
            ),
    {
        proof {
            use_type_invariant(&*self);
        }
        if self.handshake_state.is_some() {
            return Ok(RecvStatus::Postponed);
        }
        match self.take_connected() {
            None => Err(other_io_error("cannot recv when pipe is dead")),
            Some(mut connected) => {
                let ghost before = connected.connection.received();
                match connected.recv() {
                    Ok(status) => {
                        proof {
                            let more = newly(before, connected.connection.received());
                            if status is Postponed {
                                assert(more =~= Seq::<u8>::empty());
                            }
                        }
                        self.connected_state = Some(connected);
                        Ok(status)
                    },
                    Err(e) => {
                        proof {
                            self.wreck = Ghost(Some(connected.connection));
                        }
                        Err(e)
                    },
                }
            },
        }
    }

    /// What is the same of a pipe whatever is given up.
    pub open spec fn same_but_pending(before: Pipe<C>, after: Pipe<C>) -> bool {
        &&& after.phase() == before.phase()
        &&& after.token() == before.token()
        &&& after.address() == before.address()
        &&& after.greeted() == before.greeted()
        &&& after.writable() == before.writable()
        &&& after.readable() == before.readable()
        &&& before.phase() != Phase::Dead ==> after.stream() == before.stream()
            && after.recv_max_size() == before.recv_max_size()
        &&& before.phase() == Phase::Handshake ==> after.protocol_ids() == before.protocol_ids()
    }

    /// That `after` is `before` with the message that was partly written
    /// given up, if there was one.
    pub open spec fn gave_up_sending(before: Pipe<C>, after: Pipe<C>) -> bool {
        &&& Self::same_but_pending(before, after)
        &&& after.outgoing() is None
        &&& after.incoming() == before.incoming()
    }

    /// That `after` is `before` with the frame that was partly read given
    /// up, if there was one.
    pub open spec fn gave_up_receiving(before: Pipe<C>, after: Pipe<C>) -> bool {
        &&& Self::same_but_pending(before, after)
        &&& after.incoming() is None
        &&& after.outgoing() == before.outgoing()
    }

    /// Gives up the message that is partly written, if there is one.
    pub fn cancel_sending(&mut self)
        ensures
            Self::same_but_pending(*old(self), *final(self)),
            final(self).outgoing() is None,
            final(self).incoming() == old(self).incoming(),
    {
        proof {
            use_type_invariant(&*self);
        }
        match self.take_connected() {
            None => {},
            Some(mut connected) => {
                connected.on_send_timeout();
                self.connected_state = Some(connected);
            },
        }
    }

    /// Gives up the frame that is partly read, if there is one.
    pub fn cancel_receiving(&mut self)
        ensures
            Self::same_but_pending(*old(self), *final(self)),
            final(self).incoming() is None,
            final(self).outgoing() == old(self).outgoing(),
    {
        proof {
            use_type_invariant(&*self);
        }
        match self.take_connected() {
            None => {},
            Some(mut connected) => {
                connected.on_recv_timeout();
                self.connected_state = Some(connected);
            },
        }
    }

    pub fn on_send_timeout(&mut self)
        ensures
            Self::same_but_pending(*old(self), *final(self)),
            final(self).outgoing() is None,
            final(self).incoming() == old(self).incoming(),
    {
        self.cancel_sending()
    }

    pub fn on_recv_timeout(&mut self)
        ensures
            Self::same_but_pending(*old(self), *final(self)),
            final(self).incoming() is None,
            final(self).outgoing() == old(self).outgoing(),
    {
        self.cancel_receiving()
    }
}

/// A message crosses whole. When one pipe has sent a message in one go,
/// and another has received one in one go out of the very bytes that the
/// first one wrote, the message that comes out is the payload that went in:
/// nothing is lost, added or changed on the way. (That the payload fits in
/// memory holds of every message.)
pub proof fn a_message_crosses_whole<C: Connection, D: Connection>(
    sender: (Pipe<C>, Pipe<C>),
    msg: Rc<Message>,
    receiver: (Pipe<D>, Pipe<D>),
    got: Message,
)
    requires
        msg@.payload().len() <= usize::MAX,
        Pipe::active_send(sender.0, sender.1, msg, SendStatus::Completed),
        Pipe::active_recv(receiver.0, receiver.1, RecvStatus::Completed(got)),
        newly(receiver.0.stream().received(), receiver.1.stream().received()) == newly(
            sender.0.stream().sent(),
            sender.1.stream().sent(),
        ),
    ensures
        got@.header == Seq::<u8>::empty(),
        got@.body == msg@.payload(),
{
    let written = newly(sender.0.stream().sent(), sender.1.stream().sent());
    assert(written =~= crate::wire::frame(msg@.payload()));
    crate::wire::frame_is_injective(msg@.payload(), got@.body);
}

} // verus!
