use std::rc::Rc;

use scaproust::io_error::{ErrorKind, IoError};
use scaproust::message::Message;
use scaproust::pipe::{
    Phase, Pipe, RecvOperationStep, RecvStatus, SendOperationStep, SendStatus,
    DEFAULT_RECV_MAX_SIZE, DEFAULT_RECV_PRIORITY,
};
use scaproust::transport::{Connection, EventLoop, EventSet, PollOpt, PollRequest, Token};

/// A connection that follows a script: each write takes as many bytes as
/// the next entry of `writes` allows (all, where the script has run out), and
/// each read hands out as many bytes of `inbound` as the next entry of
/// `reads` allows.
struct Scripted {
    written: Vec<u8>,
    writes: Vec<Result<Option<usize>, ErrorKind>>,
    inbound: Vec<u8>,
    reads: Vec<Result<Option<usize>, ErrorKind>>,
}

impl Scripted {
    fn new(inbound: Vec<u8>) -> Scripted {
        Scripted { written: Vec::new(), writes: Vec::new(), inbound, reads: Vec::new() }
    }
}

impl Connection for Scripted {
    fn try_read(&mut self, buf: &mut [u8]) -> Result<Option<usize>, IoError> {
        let allowed = if self.reads.is_empty() { Ok(Some(usize::MAX)) } else { self.reads.remove(0) };
        match allowed {
            Err(kind) => Err(IoError::new(kind, "scripted read failure")),
            Ok(None) => Ok(None),
            Ok(Some(quota)) => {
                let n = buf.len().min(self.inbound.len()).min(quota);
                if n == 0 {
                    return Ok(None);
                }
                buf[..n].copy_from_slice(&self.inbound[..n]);
                self.inbound.drain(..n);
                Ok(Some(n))
            }
        }
    }

    fn try_write(&mut self, buf: &[u8]) -> Result<Option<usize>, IoError> {
        let allowed =
            if self.writes.is_empty() { Ok(Some(usize::MAX)) } else { self.writes.remove(0) };
        match allowed {
            Err(kind) => Err(IoError::new(kind, "scripted write failure")),
            Ok(None) => Ok(None),
            Ok(Some(quota)) => {
                let n = buf.len().min(quota);
                self.written.extend_from_slice(&buf[..n]);
                Ok(Some(n))
            }
        }
    }
}

fn pair_greeting() -> Vec<u8> {
    vec![0, 83, 80, 0, 0, 16, 0, 0]
}

fn abc() -> Rc<Message> {
    Rc::new(Message::with_body(vec![65, 66, 67]))
}

/// A pipe past its handshake, whose connection holds `inbound` and has
/// written nothing but the greeting, which is not counted.
fn active_pipe(inbound: Vec<u8>) -> Pipe<Scripted> {
    let mut all = pair_greeting();
    all.extend_from_slice(&inbound);
    let conn = Scripted::new(all);
    let mut pipe = Pipe::new(Token(7), None, (16, 16), conn);
    let mut el = EventLoop::new();
    pipe.open(&mut el).unwrap();
    pipe.ready(&mut el, EventSet::all_but_failures()).unwrap();
    assert_eq!(pipe.current_phase(), Phase::Active);
    pipe
}

fn written_after_greeting(pipe: &Pipe<Scripted>) -> Vec<u8> {
    pipe.connection().unwrap().written[8..].to_vec()
}

fn active_pipe_with(
    inbound: Vec<u8>,
    writes: Vec<Result<Option<usize>, ErrorKind>>,
    reads: Vec<Result<Option<usize>, ErrorKind>>,
) -> Pipe<Scripted> {
    let mut all = pair_greeting();
    all.extend_from_slice(&inbound);
    let mut conn = Scripted::new(all);
    conn.writes.push(Ok(Some(8)));
    conn.writes.extend(writes);
    conn.reads.push(Ok(Some(8)));
    conn.reads.extend(reads);
    let mut pipe = Pipe::new(Token(7), None, (16, 16), conn);
    let mut el = EventLoop::new();
    pipe.ready(&mut el, EventSet::all_but_failures()).unwrap();
    assert_eq!(pipe.current_phase(), Phase::Active);
    pipe
}

#[test]
fn a_new_pipe_is_in_handshake() {
    let pipe = Pipe::new(Token(3), Some("tcp://127.0.0.1:5454".to_string()), (16, 16), Scripted::new(vec![]));
    assert_eq!(pipe.current_phase(), Phase::Handshake);
    assert_eq!(pipe.get_token(), Token(3));
    assert_eq!(pipe.get_recv_priority(), DEFAULT_RECV_PRIORITY);
    assert!(!pipe.send_ready());
    assert!(!pipe.can_recv());
    assert_eq!(pipe.addr(), Some("tcp://127.0.0.1:5454".to_string()));
}

#[test]
fn defaults_are_as_documented() {
    assert_eq!(DEFAULT_RECV_MAX_SIZE, 1u64 << 31);
    assert_eq!(DEFAULT_RECV_PRIORITY, 8);
}

#[test]
fn open_registers_for_every_change() {
    let pipe = Pipe::new(Token(3), None, (16, 16), Scripted::new(vec![]));
    let mut el = EventLoop::new();
    pipe.open(&mut el).unwrap();
    assert_eq!(
        el.take_requests(),
        vec![PollRequest::Register(Token(3), EventSet::all(), PollOpt::Edge)]
    );
}

#[test]
fn open_after_the_handshake_fails() {
    let pipe = active_pipe(vec![]);
    let mut el = EventLoop::new();
    let err = pipe.open(&mut el).unwrap_err();
    assert_eq!(err.kind(), ErrorKind::Other);
    assert_eq!(err.message(), "cannot open pipe after handshake step !");
    assert!(el.take_requests().is_empty());
}

#[test]
fn handshake_writes_the_greeting_and_activates() {
    let conn = Scripted::new(pair_greeting());
    let mut pipe = Pipe::new(Token(3), None, (16, 16), conn);
    let mut el = EventLoop::new();
    pipe.open(&mut el).unwrap();
    let (sent, received) = pipe.ready(&mut el, EventSet::all_but_failures()).unwrap();
    assert!(!sent);
    assert!(received.is_none());
    assert_eq!(pipe.current_phase(), Phase::Active);
    assert_eq!(pipe.connection().unwrap().written, vec![0, 83, 80, 0, 0, 16, 0, 0]);
    assert_eq!(
        el.take_requests(),
        vec![
            PollRequest::Register(Token(3), EventSet::all(), PollOpt::Edge),
            PollRequest::Reregister(Token(3), EventSet::all(), PollOpt::Edge),
        ]
    );
}

#[test]
fn handshake_announces_its_own_id_and_expects_the_peers() {
    // a requester (0x30) talks to a replier (0x31)
    let conn = Scripted::new(vec![0, 83, 80, 0, 0, 0x31, 0, 0]);
    let mut pipe = Pipe::new(Token(3), None, (0x30, 0x31), conn);
    let mut el = EventLoop::new();
    pipe.ready(&mut el, EventSet::all_but_failures()).unwrap();
    assert_eq!(pipe.current_phase(), Phase::Active);
    assert_eq!(pipe.connection().unwrap().written, vec![0, 83, 80, 0, 0, 0x30, 0, 0]);
}

#[test]
fn handshake_goes_step_by_step() {
    let conn = Scripted::new(pair_greeting());
    let mut pipe = Pipe::new(Token(3), None, (16, 16), conn);
    let mut el = EventLoop::new();
    // writable only: the greeting goes out, the pipe asks to be told again
    pipe.ready(&mut el, EventSet::writable()).unwrap();
    assert_eq!(pipe.current_phase(), Phase::Handshake);
    assert_eq!(pipe.connection().unwrap().written.len(), 8);
    assert_eq!(
        el.take_requests(),
        vec![PollRequest::Reregister(Token(3), EventSet::all(), PollOpt::Edge)]
    );
    // writable again: nothing more is written
    pipe.ready(&mut el, EventSet::writable()).unwrap();
    assert_eq!(pipe.current_phase(), Phase::Handshake);
    assert_eq!(pipe.connection().unwrap().written.len(), 8);
    el.take_requests();
    // readable: the peer's greeting comes in, the pipe is active
    pipe.ready(&mut el, EventSet::readable()).unwrap();
    assert_eq!(pipe.current_phase(), Phase::Active);
    assert_eq!(
        el.take_requests(),
        vec![PollRequest::Reregister(Token(3), EventSet::all(), PollOpt::Edge)]
    );
}

#[test]
fn a_bad_greeting_ends_the_pipe_with_invalid_data() {
    for bad in [
        vec![1, 83, 80, 0, 0, 16, 0, 0],
        vec![0, 83, 80, 1, 0, 16, 0, 0],
        vec![0, 83, 80, 0, 0, 17, 0, 0],
        vec![0, 83, 80, 0, 1, 16, 0, 0],
        vec![0, 83, 80, 0, 0, 16, 1, 0],
        vec![0, 83, 80, 0, 0, 16, 0, 1],
    ] {
        let mut pipe = Pipe::new(Token(3), None, (16, 16), Scripted::new(bad));
        let mut el = EventLoop::new();
        let err = pipe.ready(&mut el, EventSet::readable()).unwrap_err();
        assert_eq!(err.kind(), ErrorKind::InvalidData);
        assert_eq!(err.message(), "received bad handshake");
        assert_eq!(pipe.current_phase(), Phase::Dead);
        assert!(el.take_requests().is_empty());
    }
}

#[test]
fn a_greeting_that_comes_in_part_is_read_on_later() {
    // six bytes come first, then nothing for a while, then the rest in two pieces
    let mut conn = Scripted::new(pair_greeting());
    conn.reads = vec![Ok(Some(6)), Ok(None), Ok(Some(1)), Ok(Some(1))];
    let mut pipe = Pipe::new(Token(3), None, (16, 16), conn);
    let mut el = EventLoop::new();
    assert!(matches!(pipe.ready(&mut el, EventSet::all_but_failures()), Ok((false, None))));
    assert_eq!(pipe.current_phase(), Phase::Handshake);
    assert_eq!(pipe.connection().unwrap().inbound, vec![0, 0]);
    assert!(pipe.ready(&mut el, EventSet::readable()).is_ok());
    assert_eq!(pipe.current_phase(), Phase::Handshake);
    assert!(pipe.ready(&mut el, EventSet::readable()).is_ok());
    assert_eq!(pipe.current_phase(), Phase::Handshake);
    assert!(pipe.ready(&mut el, EventSet::readable()).is_ok());
    assert_eq!(pipe.current_phase(), Phase::Active);
    assert_eq!(pipe.connection().unwrap().written, pair_greeting());
}

#[test]
fn a_greeting_that_comes_in_part_and_goes_wrong_ends_the_pipe() {
    let mut conn = Scripted::new(vec![0, 83, 80, 0, 0, 16, 0, 1, 9, 9]);
    conn.reads = vec![Ok(Some(6))];
    let mut pipe = Pipe::new(Token(3), None, (16, 16), conn);
    let mut el = EventLoop::new();
    assert!(pipe.ready(&mut el, EventSet::readable()).is_ok());
    assert_eq!(pipe.current_phase(), Phase::Handshake);
    let err = pipe.ready(&mut el, EventSet::readable()).unwrap_err();
    assert_eq!(err.kind(), ErrorKind::InvalidData);
    assert_eq!(err.message(), "received bad handshake");
    assert_eq!(pipe.current_phase(), Phase::Dead);
}

#[test]
fn a_readable_report_with_nothing_to_read_leaves_the_handshake_as_it_is() {
    let mut pipe = Pipe::new(Token(3), None, (16, 16), Scripted::new(vec![]));
    let mut el = EventLoop::new();
    assert!(matches!(pipe.ready(&mut el, EventSet::readable()), Ok((false, None))));
    assert_eq!(pipe.current_phase(), Phase::Handshake);
}

#[test]
fn a_greeting_that_goes_out_in_part_goes_on_later() {
    let mut conn = Scripted::new(pair_greeting());
    conn.writes.push(Ok(Some(3)));
    conn.writes.push(Ok(None));
    conn.writes.push(Ok(Some(4)));
    let mut pipe = Pipe::new(Token(3), None, (16, 16), conn);
    let mut el = EventLoop::new();
    // would-block stays inside the pipe: the report is dealt with, the pipe lives
    assert!(matches!(pipe.ready(&mut el, EventSet::writable()), Ok((false, None))));
    assert_eq!(pipe.current_phase(), Phase::Handshake);
    assert_eq!(pipe.connection().unwrap().written, vec![0, 83, 80]);
    assert!(pipe.ready(&mut el, EventSet::writable()).is_ok());
    assert_eq!(pipe.connection().unwrap().written, vec![0, 83, 80]);
    assert!(pipe.ready(&mut el, EventSet::writable()).is_ok());
    assert_eq!(pipe.connection().unwrap().written, vec![0, 83, 80, 0, 0, 16, 0]);
    assert!(pipe.ready(&mut el, EventSet::all_but_failures()).is_ok());
    assert_eq!(pipe.connection().unwrap().written, pair_greeting());
    assert_eq!(pipe.current_phase(), Phase::Active);
}

#[test]
fn a_greeting_that_does_not_go_out_is_tried_again() {
    let mut conn = Scripted::new(pair_greeting());
    conn.writes.push(Ok(None));
    let mut pipe = Pipe::new(Token(3), None, (16, 16), conn);
    let mut el = EventLoop::new();
    assert!(matches!(pipe.ready(&mut el, EventSet::writable()), Ok((false, None))));
    assert_eq!(pipe.current_phase(), Phase::Handshake);
    assert!(pipe.connection().unwrap().written.is_empty());
    assert_eq!(
        el.take_requests(),
        vec![PollRequest::Reregister(Token(3), EventSet::all(), PollOpt::Edge)]
    );
    assert!(pipe.ready(&mut el, EventSet::writable()).is_ok());
    assert_eq!(pipe.connection().unwrap().written, pair_greeting());
}

#[test]
fn a_failure_of_the_connection_during_the_handshake_ends_the_pipe() {
    let mut conn = Scripted::new(pair_greeting());
    conn.reads.push(Err(ErrorKind::Other));
    let mut pipe = Pipe::new(Token(3), None, (16, 16), conn);
    let mut el = EventLoop::new();
    let err = pipe.ready(&mut el, EventSet::all_but_failures()).unwrap_err();
    assert_eq!(err.kind(), ErrorKind::Other);
    assert_eq!(err.message(), "scripted read failure");
    assert_eq!(pipe.current_phase(), Phase::Dead);
    assert!(pipe.connection().is_none());
}

#[test]
fn send_during_the_handshake_is_postponed() {
    let mut pipe = Pipe::new(Token(3), None, (16, 16), Scripted::new(vec![]));
    let msg = abc();
    match pipe.send(msg.clone()).unwrap() {
        SendStatus::Postponed(back) => assert!(Rc::ptr_eq(&back, &msg)),
        _ => panic!("nothing can be sent during the handshake"),
    }
    assert_eq!(pipe.current_phase(), Phase::Handshake);
    assert!(pipe.connection().unwrap().written.is_empty());
}

#[test]
fn recv_during_the_handshake_is_postponed() {
    let mut pipe = Pipe::new(Token(3), None, (16, 16), Scripted::new(pair_greeting()));
    assert!(matches!(pipe.recv().unwrap(), RecvStatus::Postponed));
    assert_eq!(pipe.current_phase(), Phase::Handshake);
    assert_eq!(pipe.connection().unwrap().inbound.len(), 8);
}

#[test]
fn send_writes_prefix_then_payload() {
    let mut pipe = active_pipe(vec![]);
    assert!(matches!(pipe.send(abc()).unwrap(), SendStatus::Completed));
    assert_eq!(written_after_greeting(&pipe), vec![0, 0, 0, 0, 0, 0, 0, 3, 65, 66, 67]);
}

#[test]
fn send_writes_the_header_between_prefix_and_body() {
    let mut pipe = active_pipe(vec![]);
    let msg = Rc::new(Message::with_header_and_body(vec![0x80, 0, 0, 1], vec![65, 66, 67]));
    assert!(matches!(pipe.send(msg).unwrap(), SendStatus::Completed));
    assert_eq!(
        written_after_greeting(&pipe),
        vec![0, 0, 0, 0, 0, 0, 0, 7, 0x80, 0, 0, 1, 65, 66, 67]
    );
}

#[test]
fn send_of_the_empty_message_writes_the_prefix() {
    let mut pipe = active_pipe(vec![]);
    assert!(matches!(pipe.send(Rc::new(Message::new())).unwrap(), SendStatus::Completed));
    assert_eq!(written_after_greeting(&pipe), vec![0, 0, 0, 0, 0, 0, 0, 0]);
}

#[test]
fn send_that_writes_nothing_is_postponed_and_gives_the_message_back() {
    let mut pipe = active_pipe_with(vec![], vec![Ok(None)], vec![]);
    let msg = abc();
    match pipe.send(msg.clone()).unwrap() {
        SendStatus::Postponed(back) => assert!(Rc::ptr_eq(&back, &msg)),
        _ => panic!("the connection took nothing"),
    }
    assert!(written_after_greeting(&pipe).is_empty());
    assert!(!pipe.send_ready());
}

#[test]
fn send_that_writes_a_part_is_in_progress_and_goes_on_when_writable() {
    // five bytes of the prefix, then nothing; then the rest
    let mut pipe = active_pipe_with(vec![], vec![Ok(Some(5))], vec![]);
    assert!(matches!(pipe.send(abc()).unwrap(), SendStatus::InProgress));
    assert_eq!(written_after_greeting(&pipe), vec![0, 0, 0, 0, 0]);
    assert!(!pipe.send_ready());
    let mut el = EventLoop::new();
    // readable only: the message stays where it is
    let (sent, _) = pipe.ready(&mut el, EventSet::readable()).unwrap();
    assert!(!sent);
    assert_eq!(written_after_greeting(&pipe), vec![0, 0, 0, 0, 0]);
    // writable: the rest goes out
    let (sent, received) = pipe.ready(&mut el, EventSet::writable()).unwrap();
    assert!(sent);
    assert!(received.is_none());
    assert_eq!(written_after_greeting(&pipe), vec![0, 0, 0, 0, 0, 0, 0, 3, 65, 66, 67]);
    assert!(pipe.send_ready());
    assert!(el.take_requests().is_empty());
}

#[test]
fn send_goes_on_through_prefix_header_and_body() {
    // prefix whole, header in part; then header and a part of the body; then the rest
    let mut pipe =
        active_pipe_with(vec![], vec![Ok(Some(8)), Ok(Some(1)), Ok(Some(1)), Ok(Some(2))], vec![]);
    let msg = Rc::new(Message::with_header_and_body(vec![1, 2], vec![65, 66, 67]));
    assert!(matches!(pipe.send(msg).unwrap(), SendStatus::InProgress));
    assert_eq!(written_after_greeting(&pipe), vec![0, 0, 0, 0, 0, 0, 0, 5, 1]);
    let mut el = EventLoop::new();
    let (sent, _) = pipe.ready(&mut el, EventSet::writable()).unwrap();
    assert!(!sent);
    assert_eq!(written_after_greeting(&pipe), vec![0, 0, 0, 0, 0, 0, 0, 5, 1, 2, 65, 66]);
    let (sent, _) = pipe.ready(&mut el, EventSet::writable()).unwrap();
    assert!(sent);
    assert_eq!(written_after_greeting(&pipe), vec![0, 0, 0, 0, 0, 0, 0, 5, 1, 2, 65, 66, 67]);
}

#[test]
fn a_failure_of_the_connection_while_sending_ends_the_pipe() {
    let mut pipe = active_pipe_with(vec![], vec![Err(ErrorKind::ConnectionReset)], vec![]);
    let err = pipe.send(abc()).unwrap_err();
    assert_eq!(err.kind(), ErrorKind::ConnectionReset);
    assert_eq!(pipe.current_phase(), Phase::Dead);
    let again = pipe.send(abc()).unwrap_err();
    assert_eq!(again.kind(), ErrorKind::Other);
    assert_eq!(again.message(), "cannot send when pipe is dead");
}

#[test]
fn cancel_sending_gives_up_the_message_that_is_partly_written() {
    let mut pipe = active_pipe_with(vec![], vec![Ok(Some(5))], vec![]);
    assert!(matches!(pipe.send(abc()).unwrap(), SendStatus::InProgress));
    pipe.cancel_sending();
    let mut el = EventLoop::new();
    let (sent, _) = pipe.ready(&mut el, EventSet::writable()).unwrap();
    assert!(!sent);
    assert_eq!(written_after_greeting(&pipe), vec![0, 0, 0, 0, 0]);
    assert!(pipe.send_ready());
}

#[test]
fn on_send_timeout_gives_up_the_message_that_is_partly_written() {
    let mut pipe = active_pipe_with(vec![], vec![Ok(Some(8)), Ok(Some(1))], vec![]);
    assert!(matches!(pipe.send(abc()).unwrap(), SendStatus::InProgress));
    pipe.on_send_timeout();
    let mut el = EventLoop::new();
    let (sent, _) = pipe.ready(&mut el, EventSet::writable()).unwrap();
    assert!(!sent);
    assert_eq!(written_after_greeting(&pipe).len(), 9);
}

#[test]
fn recv_reads_a_frame() {
    let mut pipe = active_pipe(vec![0, 0, 0, 0, 0, 0, 0, 3, 65, 66, 67]);
    match pipe.recv().unwrap() {
        RecvStatus::Completed(msg) => {
            assert!(msg.get_header().is_empty());
            assert_eq!(msg.to_buffer(), vec![65, 66, 67]);
        }
        _ => panic!("a message should have come in"),
    }
}

#[test]
fn recv_reads_one_frame_at_a_time() {
    let mut pipe = active_pipe(vec![0, 0, 0, 0, 0, 0, 0, 1, 65, 0, 0, 0, 0, 0, 0, 0, 2, 66, 67]);
    match pipe.recv().unwrap() {
        RecvStatus::Completed(msg) => assert_eq!(msg.to_buffer(), vec![65]),
        _ => panic!("a message should have come in"),
    }
    match pipe.recv().unwrap() {
        RecvStatus::Completed(msg) => assert_eq!(msg.to_buffer(), vec![66, 67]),
        _ => panic!("a second message should have come in"),
    }
    assert!(matches!(pipe.recv().unwrap(), RecvStatus::Postponed));
}

#[test]
fn recv_of_an_empty_frame_gives_the_empty_message() {
    let mut pipe = active_pipe(vec![0, 0, 0, 0, 0, 0, 0, 0]);
    match pipe.recv().unwrap() {
        RecvStatus::Completed(msg) => assert_eq!(msg.len(), 0),
        _ => panic!("the empty message should have come in"),
    }
}

#[test]
fn recv_with_nothing_to_read_is_postponed() {
    let mut pipe = active_pipe(vec![]);
    assert!(matches!(pipe.recv().unwrap(), RecvStatus::Postponed));
    assert!(!pipe.can_recv());
}

#[test]
fn recv_that_reads_a_part_is_in_progress_and_goes_on_when_readable() {
    let mut pipe = active_pipe_with(
        vec![0, 0, 0, 0, 0, 0, 0, 3, 65, 66, 67],
        vec![],
        vec![Ok(Some(5)), Ok(Some(3)), Ok(Some(2)), Ok(Some(1))],
    );
    assert!(matches!(pipe.recv().unwrap(), RecvStatus::InProgress));
    let mut el = EventLoop::new();
    // writable only: the frame stays where it is
    let (_, received) = pipe.ready(&mut el, EventSet::writable()).unwrap();
    assert!(received.is_none());
    // readable: the prefix is whole, the payload begins
    let (_, received) = pipe.ready(&mut el, EventSet::readable()).unwrap();
    assert!(received.is_none());
    // readable: the payload is whole
    let (sent, received) = pipe.ready(&mut el, EventSet::readable()).unwrap();
    assert!(!sent);
    assert_eq!(received.unwrap().to_buffer(), vec![65, 66, 67]);
}

#[test]
fn recv_refuses_a_frame_longer_than_the_limit() {
    let mut pipe = Pipe::new(Token(7), None, (16, 16), Scripted::new({
        let mut all = pair_greeting();
        all.extend_from_slice(&[0, 0, 0, 0, 0, 0, 0, 4, 1, 2, 3, 4]);
        all
    }));
    pipe.set_recv_max_size(3);
    let mut el = EventLoop::new();
    pipe.ready(&mut el, EventSet::all_but_failures()).unwrap();
    let err = pipe.recv().unwrap_err();
    assert_eq!(err.kind(), ErrorKind::InvalidData);
    assert_eq!(err.message(), "received message is too long");
    assert_eq!(pipe.current_phase(), Phase::Dead);
}

#[test]
fn recv_accepts_a_frame_as_long_as_the_limit() {
    let mut pipe = Pipe::new(Token(7), None, (16, 16), Scripted::new({
        let mut all = pair_greeting();
        all.extend_from_slice(&[0, 0, 0, 0, 0, 0, 0, 4, 1, 2, 3, 4]);
        all
    }));
    pipe.set_recv_max_size(4);
    let mut el = EventLoop::new();
    pipe.ready(&mut el, EventSet::all_but_failures()).unwrap();
    match pipe.recv().unwrap() {
        RecvStatus::Completed(msg) => assert_eq!(msg.to_buffer(), vec![1, 2, 3, 4]),
        _ => panic!("a message should have come in"),
    }
}

#[test]
fn recv_refuses_a_length_beyond_the_default_limit() {
    // 2^31 + 1 bytes are announced
    let mut pipe = active_pipe(vec![0, 0, 0, 0, 0x80, 0, 0, 1]);
    let err = pipe.recv().unwrap_err();
    assert_eq!(err.kind(), ErrorKind::InvalidData);
}

#[test]
fn a_failure_of_the_connection_while_receiving_ends_the_pipe() {
    let mut pipe = active_pipe_with(vec![1, 2, 3], vec![], vec![Err(ErrorKind::ConnectionAborted)]);
    let err = pipe.recv().unwrap_err();
    assert_eq!(err.kind(), ErrorKind::ConnectionAborted);
    assert_eq!(pipe.current_phase(), Phase::Dead);
    let again = pipe.recv().unwrap_err();
    assert_eq!(again.kind(), ErrorKind::Other);
    assert_eq!(again.message(), "cannot recv when pipe is dead");
}

#[test]
fn cancel_receiving_gives_up_the_frame_that_is_partly_read() {
    let mut pipe = active_pipe_with(
        vec![0, 0, 0, 0, 0, 0, 0, 3, 65, 66, 67],
        vec![],
        vec![Ok(Some(5))],
    );
    assert!(matches!(pipe.recv().unwrap(), RecvStatus::InProgress));
    pipe.cancel_receiving();
    let mut el = EventLoop::new();
    let (_, received) = pipe.ready(&mut el, EventSet::readable()).unwrap();
    assert!(received.is_none());
    assert_eq!(pipe.connection().unwrap().inbound.len(), 6);
}

#[test]
fn hang_up_is_connection_reset() {
    let mut pipe = active_pipe(vec![]);
    let mut el = EventLoop::new();
    let err = pipe.ready(&mut el, EventSet::hup()).unwrap_err();
    assert_eq!(err.kind(), ErrorKind::ConnectionReset);
    assert_eq!(err.message(), "event: hup");
    assert_eq!(pipe.current_phase(), Phase::Dead);
}

#[test]
fn hang_up_comes_before_everything_else() {
    let mut pipe = Pipe::new(Token(3), None, (16, 16), Scripted::new(pair_greeting()));
    let mut el = EventLoop::new();
    let err = pipe.ready(&mut el, EventSet::all()).unwrap_err();
    assert_eq!(err.kind(), ErrorKind::ConnectionReset);
}

#[test]
fn poller_error_is_connection_aborted() {
    let mut pipe = active_pipe(vec![]);
    let mut el = EventLoop::new();
    let err = pipe.ready(&mut el, EventSet::error().union(EventSet::readable())).unwrap_err();
    assert_eq!(err.kind(), ErrorKind::ConnectionAborted);
    assert_eq!(err.message(), "event: error");
    assert_eq!(pipe.current_phase(), Phase::Dead);
}

#[test]
fn a_dead_pipe_refuses_readiness() {
    let mut pipe = active_pipe(vec![]);
    let mut el = EventLoop::new();
    pipe.ready(&mut el, EventSet::hup()).unwrap_err();
    let err = pipe.ready(&mut el, EventSet::readable()).unwrap_err();
    assert_eq!(err.kind(), ErrorKind::Other);
    assert_eq!(err.message(), "ready notification while pipe is dead");
}

#[test]
fn close_deregisters_unless_the_pipe_is_dead() {
    let mut el = EventLoop::new();
    let handshaking = Pipe::new(Token(3), None, (16, 16), Scripted::new(vec![]));
    handshaking.close(&mut el);
    assert_eq!(el.take_requests(), vec![PollRequest::Deregister(Token(3))]);
    let mut active = active_pipe(vec![]);
    active.close(&mut el);
    assert_eq!(el.take_requests(), vec![PollRequest::Deregister(Token(7))]);
    active.ready(&mut el, EventSet::hup()).unwrap_err();
    active.close(&mut el);
    assert!(el.take_requests().is_empty());
}

#[test]
fn send_ready_follows_writability_and_what_is_under_way() {
    // after the handshake no writable report was seen by the active pipe
    let mut pipe = active_pipe_with(vec![], vec![Ok(Some(4)), Ok(None)], vec![]);
    assert!(!pipe.send_ready());
    let mut el = EventLoop::new();
    pipe.ready(&mut el, EventSet::writable()).unwrap();
    assert!(pipe.send_ready());
    // a part goes out: a message is under way
    assert!(matches!(pipe.send(abc()).unwrap(), SendStatus::InProgress));
    assert!(!pipe.send_ready());
    // writable, but the connection takes nothing: still under way
    let (sent, _) = pipe.ready(&mut el, EventSet::writable()).unwrap();
    assert!(!sent);
    assert!(!pipe.send_ready());
    // writable, and the rest goes out
    let (sent, _) = pipe.ready(&mut el, EventSet::writable()).unwrap();
    assert!(sent);
    assert!(pipe.send_ready());
    // a message that goes out at once leaves the pipe ready
    assert!(matches!(pipe.send(abc()).unwrap(), SendStatus::Completed));
    assert!(pipe.send_ready());
}

#[test]
fn can_recv_follows_readability_and_what_is_under_way() {
    let mut pipe = active_pipe_with(
        vec![0, 0, 0, 0, 0, 0, 0, 1, 65, 0, 0, 0, 0, 0, 0, 0, 1, 66],
        vec![],
        vec![],
    );
    assert!(!pipe.can_recv());
    let mut el = EventLoop::new();
    pipe.ready(&mut el, EventSet::readable()).unwrap();
    assert!(pipe.can_recv());
    assert!(matches!(pipe.recv().unwrap(), RecvStatus::Completed(_)));
    assert!(pipe.can_recv());
    assert!(matches!(pipe.recv().unwrap(), RecvStatus::Completed(_)));
    assert!(matches!(pipe.recv().unwrap(), RecvStatus::Postponed));
    assert!(!pipe.can_recv());
}

#[test]
fn resync_readiness_asks_the_poller_anew() {
    let mut el = EventLoop::new();
    let handshaking = Pipe::new(Token(3), None, (16, 16), Scripted::new(vec![]));
    handshaking.resync_readiness(&mut el);
    assert_eq!(
        el.take_requests(),
        vec![PollRequest::Reregister(Token(3), EventSet::all(), PollOpt::Edge)]
    );
    let mut active = active_pipe(vec![]);
    active.on_open_ack(&mut el);
    assert_eq!(
        el.take_requests(),
        vec![PollRequest::Reregister(Token(7), EventSet::all(), PollOpt::Edge)]
    );
    active.ready(&mut el, EventSet::hup()).unwrap_err();
    active.resync_readiness(&mut el);
    assert!(el.take_requests().is_empty());
}

#[test]
fn recv_priority_can_be_set() {
    let mut pipe = active_pipe(vec![]);
    pipe.set_recv_priority(1);
    assert_eq!(pipe.get_recv_priority(), 1);
    pipe.set_recv_priority(16);
    assert_eq!(pipe.get_recv_priority(), 16);
    assert_eq!(pipe.current_phase(), Phase::Active);
}

#[test]
fn the_steps_of_a_send_follow_each_other() {
    assert_eq!(SendOperationStep::Prefix.next(), SendOperationStep::Header);
    assert_eq!(SendOperationStep::Header.next(), SendOperationStep::Body);
    assert_eq!(SendOperationStep::Body.next(), SendOperationStep::Done);
    assert_eq!(SendOperationStep::Done.next(), SendOperationStep::Done);
}

#[test]
fn the_steps_of_a_receive_follow_each_other() {
    assert_eq!(RecvOperationStep::Prefix.next(), RecvOperationStep::Payload);
    assert_eq!(RecvOperationStep::Payload.next(), RecvOperationStep::Done);
    assert_eq!(RecvOperationStep::Done.next(), RecvOperationStep::Done);
}

#[test]
fn what_one_pipe_sends_another_receives() {
    for body in [
        vec![],
        vec![0u8],
        vec![65, 66, 67],
        (0..=255u8).collect::<Vec<u8>>(),
        vec![7u8; 100_000],
    ] {
        let mut sender = active_pipe(vec![]);
        let msg = Rc::new(Message::with_body(body.clone()));
        assert!(matches!(sender.send(msg).unwrap(), SendStatus::Completed));
        let wire = written_after_greeting(&sender);
        let mut receiver = active_pipe(wire);
        match receiver.recv().unwrap() {
            RecvStatus::Completed(got) => assert_eq!(got.to_buffer(), body),
            _ => panic!("the message should have come in"),
        }
    }
}

#[test]
fn what_one_pipe_sends_in_pieces_another_receives_in_pieces() {
    let body: Vec<u8> = (0..200u8).collect();
    let mut sender = active_pipe_with(
        vec![],
        vec![Ok(Some(3)), Ok(Some(7)), Ok(Some(50)), Ok(None), Ok(Some(1))],
        vec![],
    );
    let msg = Rc::new(Message::with_body(body.clone()));
    let mut el = EventLoop::new();
    let mut status = sender.send(msg).unwrap();
    let mut rounds = 0;
    while !matches!(status, SendStatus::Completed) {
        assert!(matches!(status, SendStatus::InProgress));
        let (sent, _) = sender.ready(&mut el, EventSet::writable()).unwrap();
        if sent {
            status = SendStatus::Completed;
        }
        rounds += 1;
        assert!(rounds < 20);
    }
    let wire = written_after_greeting(&sender);
    assert_eq!(wire.len(), 208);
    let mut receiver = active_pipe_with(
        wire,
        vec![],
        vec![Ok(Some(2)), Ok(Some(6)), Ok(Some(100)), Ok(None), Ok(Some(99)), Ok(Some(1))],
    );
    let mut got = None;
    match receiver.recv().unwrap() {
        RecvStatus::Completed(m) => got = Some(m),
        RecvStatus::InProgress => {}
        RecvStatus::Postponed => panic!("bytes were there"),
    }
    let mut rounds = 0;
    while got.is_none() {
        let (_, received) = receiver.ready(&mut el, EventSet::readable()).unwrap();
        got = received;
        rounds += 1;
        assert!(rounds < 20);
    }
    assert_eq!(got.unwrap().to_buffer(), body);
}
