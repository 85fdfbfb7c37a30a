use std::cell::RefCell;
use std::collections::VecDeque;
use std::rc::Rc;

use scaproust::context::{Effect, Event, Recorder, Scheduled};
use scaproust::endpoint;
use scaproust::id::EndpointId;
use scaproust::io_error::{ErrorKind, IoError};
use scaproust::message::Message;
use scaproust::pipe::{Phase, Pipe, RecvStatus, SendStatus};
use scaproust::proto::pair::{Pair, State};
use scaproust::socket::{Protocol, Reply};
use scaproust::transport::{Connection, EventLoop, EventSet, Token};

type Bytes = Rc<RefCell<VecDeque<u8>>>;

struct End {
    outgoing: Bytes,
    incoming: Bytes,
}

fn link() -> (End, End) {
    let a_to_b: Bytes = Rc::new(RefCell::new(VecDeque::new()));
    let b_to_a: Bytes = Rc::new(RefCell::new(VecDeque::new()));
    (
        End { outgoing: a_to_b.clone(), incoming: b_to_a.clone() },
        End { outgoing: b_to_a, incoming: a_to_b },
    )
}

impl Connection for End {
    fn try_read(&mut self, buf: &mut [u8]) -> Result<Option<usize>, IoError> {
        let mut incoming = self.incoming.borrow_mut();
        let n = buf.len().min(incoming.len());
        if n == 0 {
            return Ok(None);
        }
        for slot in buf.iter_mut().take(n) {
            *slot = incoming.pop_front().unwrap();
        }
        Ok(Some(n))
    }

    fn try_write(&mut self, buf: &[u8]) -> Result<Option<usize>, IoError> {
        self.outgoing.borrow_mut().extend(buf.iter().copied());
        Ok(Some(buf.len()))
    }
}

/// A pair socket with its one pipe, and what carries out the orders that
/// the protocol gives.
struct Node {
    pair: Pair,
    pipe: Pipe<End>,
    eid: EndpointId,
    ctx: Recorder,
}

impl Node {
    fn new(eid: usize, url: &str, end: End) -> Node {
        Node {
            pair: Pair::new(),
            pipe: Pipe::new(Token(eid), Some(url.to_string()), (16, 16), end),
            eid: EndpointId(eid),
            ctx: Recorder::new(),
        }
    }

    fn attach(&mut self, url: &str) {
        let handle = endpoint::Pipe::new(self.eid, Some(url.to_string()));
        self.pair.add_pipe(&mut self.ctx, self.eid, handle);
    }

    /// Carries out what the protocol has ordered, until it orders nothing.
    fn pump(&mut self) {
        loop {
            let effects = self.ctx.take();
            if effects.is_empty() {
                return;
            }
            for effect in effects {
                match effect {
                    Effect::Send(eid, msg) => {
                        if let SendStatus::Completed = self.pipe.send(msg).unwrap() {
                            self.pair.on_send_ack(&mut self.ctx, eid);
                        }
                    }
                    Effect::Recv(eid) => {
                        if let RecvStatus::Completed(msg) = self.pipe.recv().unwrap() {
                            self.pair.on_recv_ack(&mut self.ctx, eid, msg);
                        }
                    }
                    _ => {}
                }
            }
        }
    }

    fn send(&mut self, buffer: Vec<u8>) -> Result<(), IoError> {
        self.pair.send(&mut self.ctx, Message::with_body(buffer), None);
        self.pump();
        match self.pair.take_replies().pop() {
            Some(Reply::Send) => Ok(()),
            Some(Reply::Failed(e)) => Err(e),
            other => panic!("unexpected reply {:?}", other),
        }
    }

    fn recv(&mut self) -> Result<Vec<u8>, IoError> {
        self.pair.recv(&mut self.ctx, None);
        self.pump();
        match self.pair.take_replies().pop() {
            Some(Reply::Recv(msg)) => Ok(msg.to_buffer()),
            Some(Reply::Failed(e)) => Err(e),
            other => panic!("unexpected reply {:?}", other),
        }
    }
}

/// Two pair sockets, the first bound to `url` and the second connected to
/// it, with the handshake done and each told that its pipe is ready.
fn bound_and_connected(url: &str) -> (Node, Node) {
    let (a, b) = link();
    let mut bound = Node::new(1, url, a);
    let mut connected = Node::new(2, url, b);
    let mut el = EventLoop::new();
    connected.pipe.ready(&mut el, EventSet::writable()).unwrap();
    bound.pipe.ready(&mut el, EventSet::all_but_failures()).unwrap();
    connected.pipe.ready(&mut el, EventSet::readable()).unwrap();
    assert_eq!(bound.pipe.current_phase(), Phase::Active);
    assert_eq!(connected.pipe.current_phase(), Phase::Active);
    bound.attach(url);
    connected.attach(url);
    for node in [&mut bound, &mut connected] {
        let eid = node.eid;
        node.pair.on_send_ready(&mut node.ctx, eid);
        node.pair.on_recv_ready(&mut node.ctx, eid);
        node.ctx.take();
    }
    (bound, connected)
}

#[test]
fn test_pair_connected_to_bound() {
    let (mut bound, mut connected) = bound_and_connected("tcp://127.0.0.1:5460");

    let sent = vec![65, 66, 67];
    connected.send(sent).unwrap();
    let received = bound.recv().unwrap();

    assert_eq!(vec![65, 66, 67], received)
}

#[test]
fn test_pair_bound_to_connected() {
    let (mut bound, mut connected) = bound_and_connected("tcp://127.0.0.1:5461");

    let sent = vec![65, 66, 67];
    bound.send(sent).unwrap();
    let received = connected.recv().unwrap();

    assert_eq!(vec![65, 66, 67], received)
}

#[test]
fn a_pipe_that_has_left_leaves_no_readiness_behind() {
    let mut pair = Pair::new();
    let mut ctx = Recorder::new();
    pair.add_pipe(&mut ctx, EndpointId(1), handle(1));
    pair.on_send_ready(&mut ctx, EndpointId(1));
    pair.on_recv_ready(&mut ctx, EndpointId(1));
    ctx.take();
    assert_eq!(pair.remove_pipe(&mut ctx, EndpointId(1)).unwrap().id(), EndpointId(1));
    // The next pipe has not said that it can send or that it has a message.
    pair.add_pipe(&mut ctx, EndpointId(2), handle(2));
    pair.send(&mut ctx, abc(), None);
    assert!(ctx.take().is_empty());
    assert!(pair.take_replies().is_empty());
    pair.on_send_ready(&mut ctx, EndpointId(2));
    assert!(matches!(ctx.take().as_slice(), [Effect::Send(EndpointId(2), _)]));
    pair.on_send_ack(&mut ctx, EndpointId(2));
    pair.take_replies();
    pair.recv(&mut ctx, None);
    assert!(ctx.take().is_empty());
    pair.on_recv_ready(&mut ctx, EndpointId(2));
    assert!(matches!(ctx.take().as_slice(), [Effect::Recv(EndpointId(2))]));
    // Closing clears the readiness too.
    let mut pair = Pair::new();
    pair.add_pipe(&mut ctx, EndpointId(1), handle(1));
    pair.on_send_ready(&mut ctx, EndpointId(1));
    pair.close(&mut ctx);
    ctx.take();
    pair.add_pipe(&mut ctx, EndpointId(3), handle(3));
    pair.send(&mut ctx, abc(), None);
    assert!(ctx.take().is_empty());
}

#[test]
fn test_ipc() {
    let address = "ipc:///tmp/test_ipc.ipc";
    match scaproust::url::parse(address.as_bytes()) {
        Ok(scaproust::url::Url::Ipc { path }) => assert_eq!(path, b"/tmp/test_ipc.ipc".to_vec()),
        other => panic!("unexpected address {:?}", other),
    }
    let (mut bound, mut connected) = bound_and_connected(address);

    connected.send(vec![65, 66, 67]).unwrap();
    let received = bound.recv().unwrap();
    assert_eq!(vec![65, 66, 67], received);

    bound.send(vec![67, 66, 65]).unwrap();
    let received = connected.recv().unwrap();
    assert_eq!(vec![67, 66, 65], received);
}

#[test]
fn what_a_pair_sends_its_peer_receives_whatever_the_bytes() {
    let (mut bound, mut connected) = bound_and_connected("tcp://127.0.0.1:5460");
    for body in [vec![], vec![0u8; 1], (0..=255u8).collect::<Vec<u8>>(), vec![9u8; 70_000]] {
        let eid = connected.eid;
        connected.pair.on_send_ready(&mut connected.ctx, eid);
        connected.send(body.clone()).unwrap();
        let eid = bound.eid;
        bound.pair.on_recv_ready(&mut bound.ctx, eid);
        bound.ctx.take();
        assert_eq!(bound.recv().unwrap(), body);
    }
}

fn handle(eid: usize) -> endpoint::Pipe {
    endpoint::Pipe::new(EndpointId(eid), None)
}

fn abc() -> Message {
    Message::with_body(vec![65, 66, 67])
}

fn only_reply(pair: &mut Pair) -> Reply {
    let mut replies = pair.take_replies();
    assert_eq!(replies.len(), 1);
    replies.pop().unwrap()
}

#[test]
fn the_pair_protocol_talks_to_itself() {
    let pair = Pair::new();
    assert_eq!(pair.id(), 0x10);
    assert_eq!(pair.peer_id(), 0x10);
}

#[test]
fn the_states_have_names() {
    let msg = Rc::new(abc());
    assert_eq!(State::Idle.name(), "Idle");
    assert_eq!(State::Sending(EndpointId(1), msg.clone(), None).name(), "Sending");
    assert_eq!(State::SendOnHold(msg, None).name(), "SendOnHold");
    assert_eq!(State::Receiving(EndpointId(1), None).name(), "Receiving");
    assert_eq!(State::RecvOnHold(None).name(), "RecvOnHold");
}

#[test]
fn a_send_without_a_ready_pipe_is_put_on_hold_and_goes_out_when_the_pipe_is_ready() {
    let mut pair = Pair::new();
    let mut ctx = Recorder::new();
    pair.add_pipe(&mut ctx, EndpointId(4), handle(4));
    pair.send(&mut ctx, abc(), Some(Scheduled(7)));
    assert!(ctx.take().is_empty());
    assert!(pair.take_replies().is_empty());
    // another pipe says that it is ready: nothing happens
    pair.on_send_ready(&mut ctx, EndpointId(5));
    assert!(ctx.take().is_empty());
    // the pair's pipe says so: the message goes to it
    pair.on_send_ready(&mut ctx, EndpointId(4));
    match ctx.take().as_slice() {
        [Effect::Send(eid, msg)] => {
            assert_eq!(*eid, EndpointId(4));
            assert_eq!(msg.get_body(), &[65, 66, 67]);
        }
        other => panic!("unexpected orders {:?}", other),
    }
    // the pipe has sent it: the user is answered, the deadline is cleared
    pair.on_send_ack(&mut ctx, EndpointId(4));
    assert!(matches!(only_reply(&mut pair), Reply::Send));
    assert!(matches!(ctx.take().as_slice(), [Effect::Cancel(Scheduled(7))]));
}

#[test]
fn a_send_with_a_ready_pipe_goes_out_at_once() {
    let mut pair = Pair::new();
    let mut ctx = Recorder::new();
    pair.add_pipe(&mut ctx, EndpointId(4), handle(4));
    pair.on_send_ready(&mut ctx, EndpointId(4));
    pair.send(&mut ctx, abc(), None);
    assert!(matches!(ctx.take().as_slice(), [Effect::Send(EndpointId(4), _)]));
    // an acknowledgement from another pipe is not for this send
    pair.on_send_ack(&mut ctx, EndpointId(5));
    assert!(pair.take_replies().is_empty());
    pair.on_send_ack(&mut ctx, EndpointId(4));
    assert!(matches!(only_reply(&mut pair), Reply::Send));
    // no deadline was set: none is cleared
    assert!(ctx.take().is_empty());
    // the pipe is not taken to be ready any more
    pair.send(&mut ctx, abc(), None);
    assert!(ctx.take().is_empty());
}

#[test]
fn an_acknowledgement_without_a_send_changes_nothing() {
    let mut pair = Pair::new();
    let mut ctx = Recorder::new();
    pair.add_pipe(&mut ctx, EndpointId(4), handle(4));
    pair.on_send_ack(&mut ctx, EndpointId(4));
    pair.on_recv_ack(&mut ctx, EndpointId(4), abc());
    assert!(pair.take_replies().is_empty());
    assert!(ctx.take().is_empty());
}

#[test]
fn a_send_that_times_out_is_answered_with_timed_out() {
    let mut pair = Pair::new();
    let mut ctx = Recorder::new();
    pair.send(&mut ctx, abc(), Some(Scheduled(7)));
    pair.on_send_timeout(&mut ctx);
    match only_reply(&mut pair) {
        Reply::Failed(err) => {
            assert_eq!(err.kind(), ErrorKind::TimedOut);
            assert_eq!(err.message(), "Send timed out");
        }
        other => panic!("unexpected reply {:?}", other),
    }
    // the send is given up: a ready pipe gets nothing
    pair.add_pipe(&mut ctx, EndpointId(4), handle(4));
    pair.on_send_ready(&mut ctx, EndpointId(4));
    assert!(ctx.take().is_empty());
}

#[test]
fn a_receive_without_a_message_is_put_on_hold_and_goes_on_when_one_is_there() {
    let mut pair = Pair::new();
    let mut ctx = Recorder::new();
    pair.add_pipe(&mut ctx, EndpointId(4), handle(4));
    pair.recv(&mut ctx, Some(Scheduled(8)));
    assert!(ctx.take().is_empty());
    pair.on_recv_ready(&mut ctx, EndpointId(4));
    assert!(matches!(ctx.take().as_slice(), [Effect::Recv(EndpointId(4))]));
    pair.on_recv_ack(&mut ctx, EndpointId(4), abc());
    match only_reply(&mut pair) {
        Reply::Recv(msg) => assert_eq!(msg.to_buffer(), vec![65, 66, 67]),
        other => panic!("unexpected reply {:?}", other),
    }
    assert!(matches!(ctx.take().as_slice(), [Effect::Cancel(Scheduled(8))]));
}

#[test]
fn a_message_that_is_there_while_nobody_receives_is_announced() {
    let mut pair = Pair::new();
    let mut ctx = Recorder::new();
    pair.add_pipe(&mut ctx, EndpointId(4), handle(4));
    pair.on_recv_ready(&mut ctx, EndpointId(4));
    assert!(matches!(ctx.take().as_slice(), [Effect::Raise(Event::CanRecv)]));
    // the receive that follows asks the pipe at once
    pair.recv(&mut ctx, None);
    assert!(matches!(ctx.take().as_slice(), [Effect::Recv(EndpointId(4))]));
}

#[test]
fn a_receive_that_times_out_is_answered_with_timed_out() {
    let mut pair = Pair::new();
    let mut ctx = Recorder::new();
    pair.recv(&mut ctx, Some(Scheduled(8)));
    pair.on_recv_timeout(&mut ctx);
    match only_reply(&mut pair) {
        Reply::Failed(err) => {
            assert_eq!(err.kind(), ErrorKind::TimedOut);
            assert_eq!(err.message(), "Recv timed out");
        }
        other => panic!("unexpected reply {:?}", other),
    }
}

#[test]
fn a_pair_holds_one_pipe_and_closes_a_second() {
    let mut pair = Pair::new();
    let mut ctx = Recorder::new();
    pair.add_pipe(&mut ctx, EndpointId(4), handle(4));
    assert!(ctx.take().is_empty());
    pair.add_pipe(&mut ctx, EndpointId(5), handle(5));
    assert!(matches!(ctx.take().as_slice(), [Effect::Close(EndpointId(5), true)]));
    assert!(pair.remove_pipe(&mut ctx, EndpointId(5)).is_none());
    assert_eq!(pair.remove_pipe(&mut ctx, EndpointId(4)).unwrap().id(), EndpointId(4));
}

#[test]
fn a_pipe_that_leaves_while_it_sends_puts_the_send_on_hold() {
    let mut pair = Pair::new();
    let mut ctx = Recorder::new();
    pair.add_pipe(&mut ctx, EndpointId(4), handle(4));
    pair.on_send_ready(&mut ctx, EndpointId(4));
    pair.send(&mut ctx, abc(), Some(Scheduled(7)));
    ctx.take();
    assert!(pair.remove_pipe(&mut ctx, EndpointId(4)).is_some());
    // the acknowledgement of the pipe that left is for nobody
    pair.on_send_ack(&mut ctx, EndpointId(4));
    assert!(pair.take_replies().is_empty());
    // a new pipe that is ready gets the message
    pair.add_pipe(&mut ctx, EndpointId(6), handle(6));
    pair.on_send_ready(&mut ctx, EndpointId(6));
    assert!(matches!(ctx.take().as_slice(), [Effect::Send(EndpointId(6), _)]));
    pair.on_send_ack(&mut ctx, EndpointId(6));
    assert!(matches!(only_reply(&mut pair), Reply::Send));
}

#[test]
fn a_pipe_that_leaves_while_it_receives_puts_the_receive_on_hold() {
    let mut pair = Pair::new();
    let mut ctx = Recorder::new();
    pair.add_pipe(&mut ctx, EndpointId(4), handle(4));
    pair.on_recv_ready(&mut ctx, EndpointId(4));
    pair.recv(&mut ctx, None);
    ctx.take();
    assert!(pair.remove_pipe(&mut ctx, EndpointId(4)).is_some());
    pair.add_pipe(&mut ctx, EndpointId(6), handle(6));
    pair.on_recv_ready(&mut ctx, EndpointId(6));
    assert!(matches!(ctx.take().as_slice(), [Effect::Recv(EndpointId(6))]));
}

#[test]
fn closing_twice_closes_the_pipe_once() {
    let mut pair = Pair::new();
    let mut ctx = Recorder::new();
    pair.add_pipe(&mut ctx, EndpointId(4), handle(4));
    pair.close(&mut ctx);
    assert!(matches!(ctx.take().as_slice(), [Effect::Close(EndpointId(4), true)]));
    pair.close(&mut ctx);
    assert!(ctx.take().is_empty());
    pair.close(&mut ctx);
    assert!(ctx.take().is_empty());
}
