use std::cell::RefCell;
use std::collections::VecDeque;
use std::rc::Rc;

use scaproust::context::Scheduled;
use scaproust::event_loop_msg::SocketEvt;
use scaproust::io_error::{ErrorKind, IoError};
use scaproust::message::Message;
use scaproust::pipe::{Phase, Pipe, RecvStatus};
use scaproust::protocol::policy::pipes::{clear_timeout, Pipes};
use scaproust::protocol::policy::with_fair_queue::{Intake, WithFairQueue};
use scaproust::transport::{Connection, EventLoop, EventSet, PollOpt, PollRequest, Token};

type Bytes = Rc<RefCell<VecDeque<u8>>>;

struct End {
    outgoing: Bytes,
    incoming: Bytes,
}

fn link() -> (End, End) {
    let a_to_b: Bytes = Rc::new(RefCell::new(VecDeque::new()));
    let b_to_a: Bytes = Rc::new(RefCell::new(VecDeque::new()));
    (
        End { outgoing: a_to_b.clone(), incoming: b_to_a.clone() },
        End { outgoing: b_to_a, incoming: a_to_b },
    )
}

impl Connection for End {
    fn try_read(&mut self, buf: &mut [u8]) -> Result<Option<usize>, IoError> {
        let mut incoming = self.incoming.borrow_mut();
        let n = buf.len().min(incoming.len());
        if n == 0 {
            return Ok(None);
        }
        for slot in buf.iter_mut().take(n) {
            *slot = incoming.pop_front().unwrap();
        }
        Ok(Some(n))
    }

    fn try_write(&mut self, buf: &[u8]) -> Result<Option<usize>, IoError> {
        self.outgoing.borrow_mut().extend(buf.iter().copied());
        Ok(Some(buf.len()))
    }
}

const PULL: u16 = 0x51;
const PUSH: u16 = 0x50;

/// A pipe of a pull socket and the pipe of the push socket that it is
/// connected to, both past their handshake.
fn connected(pull: usize, push: usize) -> (Pipe<End>, Pipe<End>) {
    let (a, b) = link();
    let mut p = Pipe::new(Token(pull), None, (PULL, PUSH), a);
    let mut q = Pipe::new(Token(push), None, (PUSH, PULL), b);
    let mut el = EventLoop::new();
    p.ready(&mut el, EventSet::writable()).unwrap();
    q.ready(&mut el, EventSet::all_but_failures()).unwrap();
    p.ready(&mut el, EventSet::readable()).unwrap();
    assert_eq!(p.current_phase(), Phase::Active);
    assert_eq!(q.current_phase(), Phase::Active);
    (p, q)
}

fn push(q: &mut Pipe<End>, body: Vec<u8>) {
    q.send(Rc::new(Message::with_body(body))).unwrap();
}

#[test]
fn a_pipe_enters_the_pipes_and_the_queue() {
    let mut intake: Intake<End> = Intake::new();
    let (p1, _q1) = connected(1, 11);
    intake.add_pipe(Token(1), p1).unwrap();
    assert_eq!(intake.get_pipes().len(), 1);
    assert_eq!(intake.get_fair_queue().len(), 1);
    // it is not served before it is open and readable
    assert!(intake.get_active_pipe().is_none());
    assert!(!intake.can_recv());
    assert!(intake.recv().is_none());
}

#[test]
fn a_second_pipe_under_one_token_is_refused_by_the_queue() {
    let mut intake: Intake<End> = Intake::new();
    let (p1, _q1) = connected(1, 11);
    let (p2, _q2) = connected(2, 12);
    intake.add_pipe(Token(1), p1).unwrap();
    let err = intake.add_pipe(Token(1), p2).unwrap_err();
    assert_eq!(err.kind(), ErrorKind::InvalidData);
    assert_eq!(err.message(), "A pipe has already been added with that token");
    assert_eq!(intake.get_pipes().len(), 1);
    assert_eq!(intake.get_fair_queue().len(), 1);
    // the new pipe has taken the place of the other
    assert_eq!(intake.remove_pipe(Token(1)).unwrap().get_token(), Token(2));
    assert_eq!(intake.get_fair_queue().len(), 0);
}

#[test]
fn messages_are_received_from_the_pipes_in_turn() {
    let mut intake: Intake<End> = Intake::new();
    let mut el = EventLoop::new();
    let mut pushers = Vec::new();
    for t in 1..=3usize {
        let (p, mut q) = connected(t, 10 + t);
        for round in 0..2u8 {
            push(&mut q, vec![t as u8, round]);
        }
        pushers.push(q);
        intake.add_pipe(Token(t), p).unwrap();
        intake.on_pipe_opened(&mut el, Token(t));
        assert!(intake.ready(&mut el, Token(t), EventSet::readable()).unwrap().is_ok());
    }
    el.take_requests();
    let mut from = Vec::new();
    for _ in 0..6 {
        assert!(intake.can_recv());
        match intake.recv_from() {
            Some((token, Ok(RecvStatus::Completed(msg)))) => {
                from.push(token.0);
                intake.on_recv_done(&mut el, msg, Some(Scheduled(1)));
            }
            other => panic!("a message should have come in, not {:?}", other),
        }
    }
    assert_eq!(from, vec![1, 2, 3, 1, 2, 3]);
    let bodies: Vec<Vec<u8>> = intake
        .take_events()
        .into_iter()
        .map(|e| match e {
            SocketEvt::MsgRecv(msg) => msg.to_buffer(),
            other => panic!("unexpected event {:?}", other),
        })
        .collect();
    assert_eq!(
        bodies,
        vec![vec![1, 0], vec![2, 0], vec![3, 0], vec![1, 1], vec![2, 1], vec![3, 1]]
    );
    // each message done: the pipe's readiness is asked anew, the deadline cleared
    let asked = el.take_requests();
    assert_eq!(asked.len(), 12);
    assert_eq!(asked[0], PollRequest::Reregister(Token(1), EventSet::all(), PollOpt::Edge));
    assert_eq!(asked[1], PollRequest::ClearTimeout(Scheduled(1)));
    assert_eq!(asked[2], PollRequest::Reregister(Token(2), EventSet::all(), PollOpt::Edge));
}

#[test]
fn a_pipe_that_is_not_readable_is_passed_over() {
    let mut intake: Intake<End> = Intake::new();
    let mut el = EventLoop::new();
    let (p1, _q1) = connected(1, 11);
    let (p2, mut q2) = connected(2, 12);
    push(&mut q2, vec![2]);
    intake.add_pipe(Token(1), p1).unwrap();
    intake.add_pipe(Token(2), p2).unwrap();
    intake.on_pipe_opened(&mut el, Token(1));
    intake.on_pipe_opened(&mut el, Token(2));
    let _ = intake.ready(&mut el, Token(1), EventSet::writable());
    let _ = intake.ready(&mut el, Token(2), EventSet::readable());
    assert_eq!(intake.get_active_pipe().unwrap().get_token(), Token(2));
    match intake.recv_from() {
        Some((Token(2), Ok(RecvStatus::Completed(msg)))) => assert_eq!(msg.to_buffer(), vec![2]),
        other => panic!("a message should have come in, not {:?}", other),
    }
}

#[test]
fn a_receive_that_times_out_is_reported_and_the_cursor_goes_on() {
    let mut intake: Intake<End> = Intake::new();
    let mut el = EventLoop::new();
    for t in 1..=2usize {
        let (p, _q) = connected(t, 10 + t);
        intake.add_pipe(Token(t), p).unwrap();
        intake.on_pipe_opened(&mut el, Token(t));
        let _ = intake.ready(&mut el, Token(t), EventSet::readable());
    }
    assert_eq!(intake.get_fair_queue().get(), Some(Token(1)));
    intake.on_recv_timeout();
    assert_eq!(intake.get_fair_queue().get(), Some(Token(2)));
    match intake.take_events().as_slice() {
        [SocketEvt::MsgNotRecv(err)] => {
            assert_eq!(err.kind(), ErrorKind::TimedOut);
            assert_eq!(err.message(), "recv timeout reached");
        }
        other => panic!("unexpected events {:?}", other),
    }
}

#[test]
fn a_pipe_that_leaves_leaves_the_queue_too() {
    let mut intake: Intake<End> = Intake::new();
    let mut el = EventLoop::new();
    for t in 1..=2usize {
        let (p, _q) = connected(t, 10 + t);
        intake.add_pipe(Token(t), p).unwrap();
        intake.on_pipe_opened(&mut el, Token(t));
        let _ = intake.ready(&mut el, Token(t), EventSet::readable());
    }
    assert_eq!(intake.remove_pipe(Token(1)).unwrap().get_token(), Token(1));
    assert!(intake.remove_pipe(Token(1)).is_none());
    assert_eq!(intake.get_fair_queue().get(), Some(Token(2)));
    assert_eq!(intake.get_pipes().len(), 1);
}

#[test]
fn opening_a_pipe_registers_it_during_its_handshake_only() {
    let mut intake: Intake<End> = Intake::new();
    let mut el = EventLoop::new();
    let (a, _b) = link();
    intake.add_pipe(Token(1), Pipe::new(Token(1), None, (PULL, PUSH), a)).unwrap();
    let (p2, _q2) = connected(2, 12);
    intake.add_pipe(Token(2), p2).unwrap();
    intake.open_pipe(&mut el, Token(1));
    intake.open_pipe(&mut el, Token(2));
    intake.open_pipe(&mut el, Token(3));
    assert_eq!(
        el.take_requests(),
        vec![PollRequest::Register(Token(1), EventSet::all(), PollOpt::Edge)]
    );
}

#[test]
fn a_late_message_shows_its_pipe_again() {
    let mut intake: Intake<End> = Intake::new();
    let mut el = EventLoop::new();
    let (p1, _q1) = connected(1, 11);
    intake.add_pipe(Token(1), p1).unwrap();
    let _ = intake.ready(&mut el, Token(1), EventSet::readable());
    assert_eq!(intake.get_fair_queue().get(), None);
    intake.on_recv_done_late(&mut el, Token(1));
    assert_eq!(intake.get_fair_queue().get(), Some(Token(1)));
    assert_eq!(
        el.take_requests(),
        vec![PollRequest::Reregister(Token(1), EventSet::all(), PollOpt::Edge)]
    );
}

#[test]
fn the_pipes_are_kept_under_their_tokens() {
    let mut pipes: Pipes<End> = Pipes::new();
    let (p1, _q1) = connected(1, 11);
    let (p2, _q2) = connected(2, 12);
    let (p3, _q3) = connected(3, 13);
    assert!(pipes.insert(Token(1), p1).is_none());
    assert!(pipes.insert(Token(2), p2).is_none());
    assert_eq!(pipes.len(), 2);
    assert_eq!(pipes.find(&Token(2)), Some(1));
    assert_eq!(pipes.find(&Token(5)), None);
    assert_eq!(pipes.get(&Token(1)).unwrap().get_token(), Token(1));
    assert!(pipes.get(&Token(5)).is_none());
    // a pipe under a known token takes the place of the other
    assert_eq!(pipes.insert(Token(1), p3).unwrap().get_token(), Token(1));
    assert_eq!(pipes.get(&Token(1)).unwrap().get_token(), Token(3));
    pipes.at_mut(1).set_recv_priority(2);
    assert_eq!(pipes.get(&Token(2)).unwrap().get_recv_priority(), 2);
    assert_eq!(pipes.remove(&Token(1)).unwrap().get_token(), Token(3));
    assert!(pipes.remove(&Token(1)).is_none());
    assert_eq!(pipes.len(), 1);
}

#[test]
fn clear_timeout_clears_a_deadline_that_was_set() {
    let mut el = EventLoop::new();
    clear_timeout(&mut el, None);
    assert!(el.take_requests().is_empty());
    clear_timeout(&mut el, Some(Scheduled(3)));
    assert_eq!(el.take_requests(), vec![PollRequest::ClearTimeout(Scheduled(3))]);
}
