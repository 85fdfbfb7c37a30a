use std::cell::RefCell;
use std::collections::VecDeque;
use std::rc::Rc;

use scaproust::context::Scheduled;
use scaproust::event_loop_msg::SocketEvt;
use scaproust::io_error::{ErrorKind, IoError};
use scaproust::message::Message;
use scaproust::pipe::{Phase, Pipe};
use scaproust::protocol::bus::{Bus, Tally};
use scaproust::transport::{Connection, EventLoop, EventSet, PollRequest, Token};

type Bytes = Rc<RefCell<VecDeque<u8>>>;

/// One end of a connection in memory. `quota` bounds what one write takes;
/// a broken end fails every read and write.
struct End {
    outgoing: Bytes,
    incoming: Bytes,
    quota: Rc<RefCell<usize>>,
    broken: Rc<RefCell<bool>>,
}

fn link() -> (End, End) {
    let a_to_b: Bytes = Rc::new(RefCell::new(VecDeque::new()));
    let b_to_a: Bytes = Rc::new(RefCell::new(VecDeque::new()));
    let a = End {
        outgoing: a_to_b.clone(),
        incoming: b_to_a.clone(),
        quota: Rc::new(RefCell::new(usize::MAX)),
        broken: Rc::new(RefCell::new(false)),
    };
    let b = End {
        outgoing: b_to_a,
        incoming: a_to_b,
        quota: Rc::new(RefCell::new(usize::MAX)),
        broken: Rc::new(RefCell::new(false)),
    };
    (a, b)
}

impl Connection for End {
    fn try_read(&mut self, buf: &mut [u8]) -> Result<Option<usize>, IoError> {
        if *self.broken.borrow() {
            return Err(IoError::new(ErrorKind::ConnectionReset, "broken"));
        }
        let mut incoming = self.incoming.borrow_mut();
        let n = buf.len().min(incoming.len());
        if n == 0 {
            return Ok(None);
        }
        for slot in buf.iter_mut().take(n) {
            *slot = incoming.pop_front().unwrap();
        }
        Ok(Some(n))
    }

    fn try_write(&mut self, buf: &[u8]) -> Result<Option<usize>, IoError> {
        if *self.broken.borrow() {
            return Err(IoError::new(ErrorKind::ConnectionReset, "broken"));
        }
        let n = buf.len().min(*self.quota.borrow());
        if n == 0 {
            return Ok(None);
        }
        self.outgoing.borrow_mut().extend(buf[..n].iter().copied());
        Ok(Some(n))
    }
}

const BUS: u16 = 0x70;

/// Two pipes of bus sockets, connected, past their handshake.
fn connected(left: usize, right: usize) -> (Pipe<End>, Pipe<End>) {
    let (a, b) = link();
    let mut p = Pipe::new(Token(left), None, (BUS, BUS), a);
    let mut q = Pipe::new(Token(right), None, (BUS, BUS), b);
    let mut el = EventLoop::new();
    p.ready(&mut el, EventSet::writable()).unwrap();
    q.ready(&mut el, EventSet::all_but_failures()).unwrap();
    p.ready(&mut el, EventSet::readable()).unwrap();
    assert_eq!(p.current_phase(), Phase::Active);
    assert_eq!(q.current_phase(), Phase::Active);
    (p, q)
}

fn abc() -> Message {
    Message::with_body(vec![65, 66, 67])
}

fn bodies(events: Vec<SocketEvt>) -> Vec<Vec<u8>> {
    events
        .into_iter()
        .map(|e| match e {
            SocketEvt::MsgRecv(msg) => msg.to_buffer(),
            other => panic!("unexpected event {:?}", other),
        })
        .collect()
}

#[test]
fn test_bus() {
    // the server is bound and two clients are connected to it
    let (server_1, client_1) = connected(1, 11);
    let (server_2, client_2) = connected(2, 12);
    let mut server: Bus<End> = Bus::new();
    let mut client1: Bus<End> = Bus::new();
    let mut client2: Bus<End> = Bus::new();
    server.add_pipe(Token(1), server_1);
    server.add_pipe(Token(2), server_2);
    client1.add_pipe(Token(11), client_1);
    client2.add_pipe(Token(12), client_2);
    let mut el = EventLoop::new();

    let sent = vec![65, 66, 67];
    server.send(&mut el, Message::with_body(sent), None);
    assert!(matches!(server.take_events().as_slice(), [SocketEvt::MsgSent]));

    client1.recv(&mut el, None);
    let received1 = bodies(client1.take_events());
    assert_eq!(vec![vec![65, 66, 67]], received1);

    client2.recv(&mut el, None);
    let received2 = bodies(client2.take_events());
    assert_eq!(vec![vec![65, 66, 67]], received2);
}

#[test]
fn what_a_bus_sends_goes_to_every_pipe_and_is_sent_once_all_have_it() {
    let (p1, mut q1) = connected(1, 11);
    let (p2, mut q2) = connected(2, 12);
    let (p3, mut q3) = connected(3, 13);
    let mut bus: Bus<End> = Bus::new();
    bus.add_pipe(Token(1), p1);
    bus.add_pipe(Token(2), p2);
    bus.add_pipe(Token(3), p3);
    let mut el = EventLoop::new();
    bus.send(&mut el, abc(), Some(Scheduled(5)));
    assert!(matches!(bus.take_events().as_slice(), [SocketEvt::MsgSent]));
    assert_eq!(el.take_requests(), vec![PollRequest::ClearTimeout(Scheduled(5))]);
    for q in [&mut q1, &mut q2, &mut q3] {
        match q.recv().unwrap() {
            scaproust::pipe::RecvStatus::Completed(msg) => {
                assert_eq!(msg.to_buffer(), vec![65, 66, 67])
            }
            other => panic!("the message should have come in, not {:?}", other),
        }
    }
}

#[test]
fn a_bus_without_pipes_is_not_connected() {
    let mut bus: Bus<End> = Bus::new();
    let mut el = EventLoop::new();
    bus.send(&mut el, abc(), Some(Scheduled(1)));
    match bus.take_events().as_slice() {
        [SocketEvt::MsgNotSent(err)] => {
            assert_eq!(err.kind(), ErrorKind::NotConnected);
            assert_eq!(err.message(), "no connected endpoint");
        }
        other => panic!("unexpected events {:?}", other),
    }
    assert_eq!(el.take_requests(), vec![PollRequest::ClearTimeout(Scheduled(1))]);
}

#[test]
fn a_bus_whose_pipes_all_fail_is_not_connected() {
    let (p1, _q1) = connected(1, 11);
    *p1.connection().unwrap().broken.borrow_mut() = true;
    let mut bus: Bus<End> = Bus::new();
    bus.add_pipe(Token(1), p1);
    let mut el = EventLoop::new();
    bus.send(&mut el, abc(), Some(Scheduled(9)));
    match bus.take_events().as_slice() {
        [SocketEvt::MsgNotSent(err)] => {
            assert_eq!(err.kind(), ErrorKind::NotConnected);
            assert_eq!(err.message(), "no connected endpoint");
        }
        other => panic!("unexpected events {:?}", other),
    }
    assert_eq!(el.take_requests(), vec![PollRequest::ClearTimeout(Scheduled(9))]);
}

#[test]
fn a_bus_waits_for_a_pipe_in_handshake() {
    let (a, _b) = link();
    let handshaking = Pipe::new(Token(1), None, (BUS, BUS), a);
    let mut bus: Bus<End> = Bus::new();
    bus.add_pipe(Token(1), handshaking);
    let mut el = EventLoop::new();
    bus.send(&mut el, abc(), Some(Scheduled(9)));
    assert!(bus.take_events().is_empty());
    assert!(el.take_requests().is_empty());
}

#[test]
fn a_send_that_is_kept_goes_out_when_the_pipe_is_ready() {
    let (a, b) = link();
    let p = Pipe::new(Token(1), None, (BUS, BUS), a);
    let mut q = Pipe::new(Token(11), None, (BUS, BUS), b);
    let mut bus: Bus<End> = Bus::new();
    bus.add_pipe(Token(1), p);
    let mut el = EventLoop::new();
    // the pipe is in handshake: the message is kept
    bus.send(&mut el, abc(), Some(Scheduled(9)));
    assert!(bus.take_events().is_empty());
    // the handshake goes through
    bus.ready(&mut el, Token(1), EventSet::writable()).unwrap();
    q.ready(&mut el, EventSet::all_but_failures()).unwrap();
    bus.ready(&mut el, Token(1), EventSet::readable()).unwrap();
    assert!(matches!(bus.take_events().as_slice(), [SocketEvt::MsgSent]));
    assert!(el.take_requests().contains(&PollRequest::ClearTimeout(Scheduled(9))));
    match q.recv().unwrap() {
        scaproust::pipe::RecvStatus::Completed(msg) => assert_eq!(msg.to_buffer(), vec![65, 66, 67]),
        other => panic!("the message should have come in, not {:?}", other),
    }
}

#[test]
fn a_send_that_times_out_is_reported_and_given_up() {
    let (a, _b) = link();
    let handshaking = Pipe::new(Token(1), None, (BUS, BUS), a);
    let mut bus: Bus<End> = Bus::new();
    bus.add_pipe(Token(1), handshaking);
    let mut el = EventLoop::new();
    bus.send(&mut el, abc(), Some(Scheduled(9)));
    bus.on_send_timeout(&mut el);
    match bus.take_events().as_slice() {
        [SocketEvt::MsgNotSent(err)] => {
            assert_eq!(err.kind(), ErrorKind::TimedOut);
            assert_eq!(err.message(), "send timeout reached");
        }
        other => panic!("unexpected events {:?}", other),
    }
    assert_eq!(el.take_requests(), vec![PollRequest::ClearTimeout(Scheduled(9))]);
    // a second deadline finds nothing to clear
    bus.on_send_timeout(&mut el);
    assert!(el.take_requests().is_empty());
}

#[test]
fn a_bus_receives_from_the_first_pipe_that_has_a_message() {
    let (p1, _q1) = connected(1, 11);
    let (p2, mut q2) = connected(2, 12);
    let mut bus: Bus<End> = Bus::new();
    bus.add_pipe(Token(1), p1);
    bus.add_pipe(Token(2), p2);
    q2.send(Rc::new(Message::with_body(vec![1, 2, 3, 4]))).unwrap();
    let mut el = EventLoop::new();
    bus.recv(&mut el, Some(Scheduled(3)));
    assert_eq!(bodies(bus.take_events()), vec![vec![1, 2, 3, 4]]);
    assert_eq!(el.take_requests(), vec![PollRequest::ClearTimeout(Scheduled(3))]);
}

#[test]
fn a_bus_without_pipes_cannot_receive() {
    let mut bus: Bus<End> = Bus::new();
    let mut el = EventLoop::new();
    bus.recv(&mut el, Some(Scheduled(3)));
    match bus.take_events().as_slice() {
        [SocketEvt::MsgNotRecv(err)] => {
            assert_eq!(err.kind(), ErrorKind::NotConnected);
            assert_eq!(err.message(), "no connected endpoint");
        }
        other => panic!("unexpected events {:?}", other),
    }
    assert_eq!(el.take_requests(), vec![PollRequest::ClearTimeout(Scheduled(3))]);
}

#[test]
fn a_receive_waits_and_is_served_when_a_message_arrives() {
    let (p1, mut q1) = connected(1, 11);
    let mut bus: Bus<End> = Bus::new();
    bus.add_pipe(Token(1), p1);
    let mut el = EventLoop::new();
    bus.recv(&mut el, Some(Scheduled(3)));
    assert!(bus.take_events().is_empty());
    q1.send(Rc::new(abc())).unwrap();
    bus.ready(&mut el, Token(1), EventSet::readable()).unwrap();
    assert_eq!(bodies(bus.take_events()), vec![vec![65, 66, 67]]);
    assert_eq!(el.take_requests(), vec![PollRequest::ClearTimeout(Scheduled(3))]);
}

#[test]
fn a_receive_that_times_out_is_reported() {
    let (p1, _q1) = connected(1, 11);
    let mut bus: Bus<End> = Bus::new();
    bus.add_pipe(Token(1), p1);
    let mut el = EventLoop::new();
    bus.recv(&mut el, Some(Scheduled(3)));
    bus.on_recv_timeout(&mut el);
    match bus.take_events().as_slice() {
        [SocketEvt::MsgNotRecv(err)] => {
            assert_eq!(err.kind(), ErrorKind::TimedOut);
            assert_eq!(err.message(), "recv timeout reached");
        }
        other => panic!("unexpected events {:?}", other),
    }
    assert_eq!(el.take_requests(), vec![PollRequest::ClearTimeout(Scheduled(3))]);
}

#[test]
fn readiness_of_an_unknown_pipe_changes_nothing() {
    let mut bus: Bus<End> = Bus::new();
    let mut el = EventLoop::new();
    bus.ready(&mut el, Token(42), EventSet::all_but_failures()).unwrap();
    assert!(bus.take_events().is_empty());
    assert!(el.take_requests().is_empty());
}

#[test]
fn readiness_fails_when_the_pipe_hangs_up() {
    let (p1, _q1) = connected(1, 11);
    let mut bus: Bus<End> = Bus::new();
    bus.add_pipe(Token(1), p1);
    let mut el = EventLoop::new();
    let err = bus.ready(&mut el, Token(1), EventSet::hup()).unwrap_err();
    assert_eq!(err.kind(), ErrorKind::ConnectionReset);
}

#[test]
fn a_pipe_that_is_removed_comes_back() {
    let (p1, _q1) = connected(1, 11);
    let mut bus: Bus<End> = Bus::new();
    bus.add_pipe(Token(1), p1);
    assert!(bus.remove_pipe(Token(2)).is_none());
    let back = bus.remove_pipe(Token(1)).unwrap();
    assert_eq!(back.get_token(), Token(1));
    assert!(bus.remove_pipe(Token(1)).is_none());
}

#[test]
fn a_pipe_under_a_known_token_takes_the_place_of_the_other() {
    let (p1, _q1) = connected(1, 11);
    let (p2, _q2) = connected(2, 12);
    let mut bus: Bus<End> = Bus::new();
    bus.add_pipe(Token(1), p1);
    bus.add_pipe(Token(1), p2);
    let back = bus.remove_pipe(Token(1)).unwrap();
    assert_eq!(back.get_token(), Token(2));
    assert!(bus.remove_pipe(Token(1)).is_none());
}

#[test]
fn the_bus_protocol_talks_to_itself() {
    let bus: Bus<End> = Bus::new();
    assert_eq!(bus.id(), 0x70);
    assert_eq!(bus.peer_id(), 0x70);
}

#[test]
fn conclude_send_follows_the_tally() {
    let (p1, _q1) = connected(1, 11);
    let (p2, _q2) = connected(2, 12);
    let mut bus: Bus<End> = Bus::new();
    bus.add_pipe(Token(1), p1);
    bus.add_pipe(Token(2), p2);
    let mut el = EventLoop::new();
    // one of two has it, the other is at it: the send goes on
    bus.conclude_send(&mut el, Tally { sent: 1, sending: 1, pending: 0 });
    assert!(bus.take_events().is_empty());
    // one of two has it, the other keeps it for later: the send goes on
    bus.conclude_send(&mut el, Tally { sent: 1, sending: 0, pending: 1 });
    assert!(bus.take_events().is_empty());
    // both have it
    bus.conclude_send(&mut el, Tally { sent: 2, sending: 0, pending: 0 });
    assert!(matches!(bus.take_events().as_slice(), [SocketEvt::MsgSent]));
    // one has it, the other failed
    bus.conclude_send(&mut el, Tally { sent: 1, sending: 0, pending: 0 });
    match bus.take_events().as_slice() {
        [SocketEvt::MsgNotSent(err)] => assert_eq!(err.kind(), ErrorKind::NotConnected),
        other => panic!("unexpected events {:?}", other),
    }
}

#[test]
fn conclude_recv_follows_what_the_pipes_gave() {
    let mut bus: Bus<End> = Bus::new();
    let mut el = EventLoop::new();
    // nothing came in, but a pipe is left to wait for
    bus.conclude_recv(&mut el, None, false, true);
    assert!(bus.take_events().is_empty());
    // a part came in
    bus.conclude_recv(&mut el, None, true, false);
    assert!(bus.take_events().is_empty());
    // nothing came in, and no pipe is left to wait for
    bus.conclude_recv(&mut el, None, false, false);
    match bus.take_events().as_slice() {
        [SocketEvt::MsgNotRecv(err)] => assert_eq!(err.kind(), ErrorKind::NotConnected),
        other => panic!("unexpected events {:?}", other),
    }
    // a message came in
    bus.conclude_recv(&mut el, Some(abc()), false, true);
    assert_eq!(bodies(bus.take_events()), vec![vec![65, 66, 67]]);
}

#[test]
fn conclude_ready_tells_of_what_came_in() {
    let mut bus: Bus<End> = Bus::new();
    let mut el = EventLoop::new();
    bus.conclude_ready(&mut el, false, false, Some(abc()), false);
    assert_eq!(bodies(bus.take_events()), vec![vec![65, 66, 67]]);
    // a message went out, but no pipe has a part in a send
    bus.conclude_ready(&mut el, true, false, None, false);
    assert!(bus.take_events().is_empty());
}

#[test]
fn pipes_that_all_have_messages_are_received_from_in_turn() {
    let mut bus: Bus<End> = Bus::new();
    let mut peers = Vec::new();
    for t in 1..=3usize {
        let (p, mut q) = connected(t, 10 + t);
        for round in 0..3u8 {
            q.send(Rc::new(Message::with_body(vec![t as u8, round]))).unwrap();
        }
        peers.push(q);
        bus.add_pipe(Token(t), p);
    }
    let mut el = EventLoop::new();
    for _ in 0..9 {
        bus.recv(&mut el, None);
    }
    assert_eq!(
        bodies(bus.take_events()),
        vec![
            vec![1, 0],
            vec![2, 0],
            vec![3, 0],
            vec![1, 1],
            vec![2, 1],
            vec![3, 1],
            vec![1, 2],
            vec![2, 2],
            vec![3, 2],
        ]
    );
}

#[test]
fn a_pipe_without_a_message_is_passed_over_and_the_turn_goes_on() {
    let mut bus: Bus<End> = Bus::new();
    let (p1, mut q1) = connected(1, 11);
    let (p2, _q2) = connected(2, 12);
    let (p3, mut q3) = connected(3, 13);
    bus.add_pipe(Token(1), p1);
    bus.add_pipe(Token(2), p2);
    bus.add_pipe(Token(3), p3);
    for round in 0..2u8 {
        q1.send(Rc::new(Message::with_body(vec![1, round]))).unwrap();
        q3.send(Rc::new(Message::with_body(vec![3, round]))).unwrap();
    }
    let mut el = EventLoop::new();
    for _ in 0..4 {
        bus.recv(&mut el, None);
    }
    assert_eq!(
        bodies(bus.take_events()),
        vec![vec![1, 0], vec![3, 0], vec![1, 1], vec![3, 1]]
    );
}

#[test]
fn the_turn_stays_with_its_pipe_when_another_leaves() {
    let mut bus: Bus<End> = Bus::new();
    let mut peers = Vec::new();
    for t in 1..=3usize {
        let (p, mut q) = connected(t, 10 + t);
        for round in 0..2u8 {
            q.send(Rc::new(Message::with_body(vec![t as u8, round]))).unwrap();
        }
        peers.push(q);
        bus.add_pipe(Token(t), p);
    }
    let mut el = EventLoop::new();
    bus.recv(&mut el, None);
    bus.recv(&mut el, None);
    // it is the third pipe's turn; the first leaves
    assert!(bus.remove_pipe(Token(1)).is_some());
    bus.recv(&mut el, None);
    bus.recv(&mut el, None);
    assert_eq!(
        bodies(bus.take_events()),
        vec![vec![1, 0], vec![2, 0], vec![3, 0], vec![2, 1]]
    );
}
