use std::cell::RefCell;
use std::collections::VecDeque;
use std::rc::Rc;

use scaproust::context::{Effect, Event, Recorder, Scheduled};
use scaproust::endpoint;
use scaproust::id::EndpointId;
use scaproust::io_error::{ErrorKind, IoError};
use scaproust::message::Message;
use scaproust::pipe::{Phase, Pipe, RecvStatus, SendStatus};
use scaproust::proto::publ::Pub;
use scaproust::proto::sub::Sub;
use scaproust::socket::{Protocol, Reply};
use scaproust::transport::{Connection, EventLoop, EventSet, Token};

type Stream = Rc<RefCell<VecDeque<u8>>>;

struct Cable {
    outgoing: Stream,
    incoming: Stream,
}

fn cables() -> (Cable, Cable) {
    let a_to_b: Stream = Rc::new(RefCell::new(VecDeque::new()));
    let b_to_a: Stream = Rc::new(RefCell::new(VecDeque::new()));
    (
        Cable { outgoing: a_to_b.clone(), incoming: b_to_a.clone() },
        Cable { outgoing: b_to_a, incoming: a_to_b },
    )
}

impl Connection for Cable {
    fn try_read(&mut self, buf: &mut [u8]) -> Result<Option<usize>, IoError> {
        let mut incoming = self.incoming.borrow_mut();
        let n = buf.len().min(incoming.len());
        if n == 0 {
            return Ok(None);
        }
        for slot in buf.iter_mut().take(n) {
            *slot = incoming.pop_front().unwrap();
        }
        Ok(Some(n))
    }

    fn try_write(&mut self, buf: &[u8]) -> Result<Option<usize>, IoError> {
        self.outgoing.borrow_mut().extend(buf.iter().copied());
        Ok(Some(buf.len()))
    }
}

/// What the protocols have in common for the tests.
trait Station: Protocol {
    fn replies(&mut self) -> Vec<Reply>;
}

impl Station for Pub {
    fn replies(&mut self) -> Vec<Reply> {
        self.take_replies()
    }
}

impl Station for Sub {
    fn replies(&mut self) -> Vec<Reply> {
        self.take_replies()
    }
}


/// A socket with its pipes, and what carries out the orders that the
/// protocol gives.
struct Post<P: Station> {
    socket: P,
    pipes: Vec<Pipe<Cable>>,
    ctx: Recorder,
}

impl<P: Station> Post<P> {
    fn new(socket: P) -> Post<P> {
        Post { socket, pipes: Vec::new(), ctx: Recorder::new() }
    }

    fn pipe(&mut self, eid: EndpointId) -> &mut Pipe<Cable> {
        self.pipes.iter_mut().find(|pipe| pipe.get_token() == Token(eid.0)).unwrap()
    }

    /// Carries out what the protocol has ordered, until it orders nothing.
    fn pump(&mut self) {
        loop {
            let effects = self.ctx.take();
            if effects.is_empty() {
                return;
            }
            for effect in effects {
                match effect {
                    Effect::Send(eid, msg) => {
                        if let SendStatus::Completed = self.pipe(eid).send(msg).unwrap() {
                            self.socket.on_send_ack(&mut self.ctx, eid);
                            self.socket.on_send_ready(&mut self.ctx, eid);
                        }
                    }
                    Effect::Recv(eid) => {
                        if let RecvStatus::Completed(msg) = self.pipe(eid).recv().unwrap() {
                            self.socket.on_recv_ack(&mut self.ctx, eid, msg);
                            // The pipe says so if it has more.
                            if !self.pipe(eid).connection().unwrap().incoming.borrow().is_empty() {
                                self.socket.on_recv_ready(&mut self.ctx, eid);
                            }
                        }
                    }
                    _ => {}
                }
            }
        }
    }

    /// Tells the protocol of each pipe that has something.
    fn notice(&mut self) {
        for i in 0..self.pipes.len() {
            if !self.pipes[i].connection().unwrap().incoming.borrow().is_empty() {
                let eid = EndpointId(self.pipes[i].get_token().0);
                self.socket.on_recv_ready(&mut self.ctx, eid);
            }
        }
        self.pump();
    }

    fn send(&mut self, buffer: Vec<u8>) -> Result<(), IoError> {
        self.socket.send(&mut self.ctx, Message::with_body(buffer), None);
        self.pump();
        match self.socket.replies().pop() {
            Some(Reply::Send) => Ok(()),
            Some(Reply::Failed(e)) => Err(e),
            other => panic!("unexpected reply {:?}", other),
        }
    }

    fn recv(&mut self) -> Result<Vec<u8>, IoError> {
        self.socket.recv(&mut self.ctx, None);
        self.pump();
        self.notice();
        match self.socket.replies().pop() {
            Some(Reply::Recv(msg)) => Ok(msg.to_buffer()),
            Some(Reply::Failed(e)) => Err(e),
            other => panic!("unexpected reply {:?}", other),
        }
    }
}

/// Connects the two sockets by a pipe each, named `a` and `b`, over one
/// stream, and does the handshake.
fn join<P: Station, Q: Station>(first: &mut Post<P>, a: usize, second: &mut Post<Q>, b: usize, url: &str) {
    let (x, y) = cables();
    let ids = (first.socket.id(), first.socket.peer_id());
    let mut p = Pipe::new(Token(a), Some(url.to_string()), ids, x);
    let ids = (second.socket.id(), second.socket.peer_id());
    let mut q = Pipe::new(Token(b), Some(url.to_string()), ids, y);
    let mut el = EventLoop::new();
    q.ready(&mut el, EventSet::writable()).unwrap();
    p.ready(&mut el, EventSet::all_but_failures()).unwrap();
    q.ready(&mut el, EventSet::readable()).unwrap();
    assert_eq!(p.current_phase(), Phase::Active);
    assert_eq!(q.current_phase(), Phase::Active);
    first.pipes.push(p);
    second.pipes.push(q);
    first.socket.add_pipe(&mut first.ctx, EndpointId(a), endpoint::Pipe::new(EndpointId(a), None));
    first.socket.on_send_ready(&mut first.ctx, EndpointId(a));
    first.ctx.take();
    second.socket.add_pipe(&mut second.ctx, EndpointId(b), endpoint::Pipe::new(EndpointId(b), None));
    second.socket.on_send_ready(&mut second.ctx, EndpointId(b));
    second.ctx.take();
}

#[test]
fn test_pub_sub() {
    let mut server = Post::new(Pub::new());
    let mut client = Post::new(Sub::new());
    client.socket.subscribe(Vec::new());
    join(&mut server, 1, &mut client, 2, "tcp://127.0.0.1:5463");

    let sent = vec![65, 66, 67];
    server.send(sent).unwrap();
    let received = client.recv().unwrap();

    assert_eq!(vec![65, 66, 67], received);
}

#[test]
fn every_subscriber_gets_what_is_published() {
    let mut server = Post::new(Pub::new());
    let mut first = Post::new(Sub::new());
    let mut second = Post::new(Sub::new());
    first.socket.subscribe(vec![65]);
    second.socket.subscribe(vec![65, 66]);
    join(&mut server, 1, &mut first, 10, "tcp://127.0.0.1:5463");
    join(&mut server, 2, &mut second, 20, "tcp://127.0.0.1:5463");
    server.send(vec![65, 66, 67]).unwrap();
    server.send(vec![65, 1]).unwrap();
    server.send(vec![65, 66]).unwrap();
    assert_eq!(first.recv().unwrap(), vec![65, 66, 67]);
    assert_eq!(first.recv().unwrap(), vec![65, 1]);
    assert_eq!(first.recv().unwrap(), vec![65, 66]);
    // The second one wants what begins with both bytes only.
    assert_eq!(second.recv().unwrap(), vec![65, 66, 67]);
    assert_eq!(second.recv().unwrap(), vec![65, 66]);
}

fn handle(eid: usize) -> endpoint::Pipe {
    endpoint::Pipe::new(EndpointId(eid), None)
}

fn abc() -> Message {
    Message::with_body(vec![65, 66, 67])
}

fn failure(reply: Option<Reply>) -> (ErrorKind, String) {
    match reply {
        Some(Reply::Failed(e)) => (e.kind(), e.message().to_string()),
        other => panic!("unexpected reply {:?}", other),
    }
}

#[test]
fn the_publish_protocol_talks_to_subscribe() {
    let publisher = Pub::new();
    assert_eq!(publisher.id(), 0x20);
    assert_eq!(publisher.peer_id(), 0x21);
    let sub = Sub::new();
    assert_eq!(sub.id(), 0x21);
    assert_eq!(sub.peer_id(), 0x20);
    assert_eq!(scaproust::proto::sub::State::Idle.name(), "Idle");
    assert_eq!(scaproust::proto::sub::State::Receiving(EndpointId(1), None).name(), "Receiving");
    assert_eq!(scaproust::proto::sub::State::RecvOnHold(None).name(), "RecvOnHold");
}

#[test]
fn a_message_is_published_over_every_pipe_that_can_send() {
    let mut publisher = Pub::new();
    let mut ctx = Recorder::new();
    for eid in 1..=3 {
        publisher.add_pipe(&mut ctx, EndpointId(eid), handle(eid));
    }
    publisher.on_send_ready(&mut ctx, EndpointId(3));
    publisher.on_send_ready(&mut ctx, EndpointId(1));
    publisher.on_send_ready(&mut ctx, EndpointId(9));
    assert!(ctx.take().is_empty());
    publisher.send(&mut ctx, abc(), Some(Scheduled(7)));
    match ctx.take().as_slice() {
        [Effect::Send(EndpointId(1), a), Effect::Send(EndpointId(3), b), Effect::Cancel(Scheduled(7))] => {
            assert_eq!(a.get_body(), &[65, 66, 67]);
            assert!(Rc::ptr_eq(a, b));
        }
        other => panic!("unexpected orders {:?}", other),
    }
    assert!(matches!(publisher.take_replies().as_slice(), [Reply::Send]));
    // No pipe has said that it can send again: the message goes nowhere.
    publisher.send(&mut ctx, abc(), None);
    assert!(ctx.take().is_empty());
    assert!(matches!(publisher.take_replies().as_slice(), [Reply::Send]));
    publisher.on_send_ack(&mut ctx, EndpointId(1));
    publisher.on_send_ready(&mut ctx, EndpointId(1));
    publisher.on_send_timeout(&mut ctx);
    assert!(publisher.take_replies().is_empty());
    publisher.send(&mut ctx, abc(), None);
    assert!(matches!(ctx.take().as_slice(), [Effect::Send(EndpointId(1), _)]));
}

#[test]
fn a_publisher_without_a_pipe_is_not_connected() {
    let mut publisher = Pub::new();
    let mut ctx = Recorder::new();
    publisher.send(&mut ctx, abc(), Some(Scheduled(7)));
    assert_eq!(
        failure(publisher.take_replies().pop()),
        (ErrorKind::NotConnected, "no connected endpoint".to_string())
    );
    assert!(matches!(ctx.take().as_slice(), [Effect::Cancel(Scheduled(7))]));
}

#[test]
fn a_publisher_does_not_receive() {
    let mut publisher = Pub::new();
    let mut ctx = Recorder::new();
    publisher.add_pipe(&mut ctx, EndpointId(1), handle(1));
    publisher.recv(&mut ctx, Some(Scheduled(8)));
    assert_eq!(
        failure(publisher.take_replies().pop()),
        (ErrorKind::InvalidInput, "a pub socket cannot receive".to_string())
    );
    assert!(matches!(ctx.take().as_slice(), [Effect::Cancel(Scheduled(8))]));
    publisher.on_recv_ready(&mut ctx, EndpointId(1));
    publisher.on_recv_ack(&mut ctx, EndpointId(1), abc());
    publisher.on_recv_timeout(&mut ctx);
    assert!(ctx.take().is_empty());
    assert!(publisher.take_replies().is_empty());
}

#[test]
fn a_publisher_lets_pipes_go_and_closes_the_rest() {
    let mut publisher = Pub::new();
    let mut ctx = Recorder::new();
    for eid in 1..=3 {
        publisher.add_pipe(&mut ctx, EndpointId(eid), handle(eid));
        publisher.on_send_ready(&mut ctx, EndpointId(eid));
    }
    publisher.add_pipe(&mut ctx, EndpointId(2), handle(7));
    assert!(matches!(ctx.take().as_slice(), [Effect::Close(EndpointId(7), true)]));
    assert_eq!(publisher.remove_pipe(&mut ctx, EndpointId(2)).unwrap().id(), EndpointId(2));
    assert!(publisher.remove_pipe(&mut ctx, EndpointId(2)).is_none());
    publisher.send(&mut ctx, abc(), None);
    assert!(matches!(
        ctx.take().as_slice(),
        [Effect::Send(EndpointId(1), _), Effect::Send(EndpointId(3), _)]
    ));
    publisher.close(&mut ctx);
    assert!(matches!(
        ctx.take().as_slice(),
        [Effect::Close(EndpointId(1), true), Effect::Close(EndpointId(3), true)]
    ));
    publisher.close(&mut ctx);
    assert!(ctx.take().is_empty());
}

/// A subscriber with the pipes 1 to `n`, each of which has a message.
fn sub_with(n: usize) -> (Sub, Recorder) {
    let mut sub = Sub::new();
    let mut ctx = Recorder::new();
    for eid in 1..=n {
        sub.add_pipe(&mut ctx, EndpointId(eid), handle(eid));
        sub.on_recv_ready(&mut ctx, EndpointId(eid));
    }
    ctx.take();
    (sub, ctx)
}

/// Gives the subscriber, which is receiving from the pipe 1, the message,
/// and says whether the user got it.
fn offered(sub: &mut Sub, ctx: &mut Recorder, body: &[u8]) -> bool {
    sub.on_recv_ack(ctx, EndpointId(1), Message::with_body(body.to_vec()));
    match sub.take_replies().as_slice() {
        [] => {
            // The message was dropped: the pipe is asked again when it has more.
            sub.on_recv_ready(ctx, EndpointId(1));
            assert!(matches!(ctx.take().as_slice(), [Effect::Recv(EndpointId(1))]));
            false
        }
        [Reply::Recv(msg)] => {
            assert_eq!(msg.get_body(), body);
            sub.on_recv_ready(ctx, EndpointId(1));
            ctx.take();
            sub.recv(ctx, None);
            assert!(matches!(ctx.take().as_slice(), [Effect::Recv(EndpointId(1))]));
            true
        }
        other => panic!("unexpected replies {:?}", other),
    }
}

#[test]
fn a_subscriber_is_given_what_begins_with_a_subscription() {
    let (mut sub, mut ctx) = sub_with(1);
    sub.recv(&mut ctx, None);
    assert!(matches!(ctx.take().as_slice(), [Effect::Recv(EndpointId(1))]));
    // Without a subscription nothing is wanted.
    assert!(!offered(&mut sub, &mut ctx, &[65, 66, 67]));
    assert!(!offered(&mut sub, &mut ctx, &[]));
    sub.subscribe(vec![65, 66]);
    sub.subscribe(vec![7]);
    assert!(offered(&mut sub, &mut ctx, &[65, 66, 67]));
    assert!(offered(&mut sub, &mut ctx, &[65, 66]));
    assert!(offered(&mut sub, &mut ctx, &[7, 0]));
    assert!(!offered(&mut sub, &mut ctx, &[65]));
    assert!(!offered(&mut sub, &mut ctx, &[65, 67, 66]));
    assert!(!offered(&mut sub, &mut ctx, &[66, 65, 66]));
    assert!(!offered(&mut sub, &mut ctx, &[]));
    sub.unsubscribe(&[65, 66]);
    assert!(!offered(&mut sub, &mut ctx, &[65, 66, 67]));
    assert!(offered(&mut sub, &mut ctx, &[7]));
    // Nothing is subscribed to under this name: nothing changes.
    sub.unsubscribe(&[9]);
    assert!(offered(&mut sub, &mut ctx, &[7]));
    // The empty beginning is the beginning of every message.
    sub.subscribe(Vec::new());
    assert!(offered(&mut sub, &mut ctx, &[65]));
    assert!(offered(&mut sub, &mut ctx, &[]));
}

#[test]
fn a_subscription_made_twice_is_taken_back_twice() {
    let (mut sub, mut ctx) = sub_with(1);
    sub.recv(&mut ctx, None);
    ctx.take();
    sub.subscribe(vec![1]);
    sub.subscribe(vec![1]);
    sub.unsubscribe(&[1]);
    assert!(offered(&mut sub, &mut ctx, &[1, 2]));
    sub.unsubscribe(&[1]);
    assert!(!offered(&mut sub, &mut ctx, &[1, 2]));
}

#[test]
fn a_subscriber_without_a_pipe_is_not_connected() {
    let mut sub = Sub::new();
    let mut ctx = Recorder::new();
    sub.recv(&mut ctx, Some(Scheduled(8)));
    assert_eq!(
        failure(sub.take_replies().pop()),
        (ErrorKind::NotConnected, "no connected endpoint".to_string())
    );
    assert!(matches!(ctx.take().as_slice(), [Effect::Cancel(Scheduled(8))]));
}

#[test]
fn a_subscriber_asks_its_pipes_in_turn_and_times_out() {
    let (mut sub, mut ctx) = sub_with(2);
    sub.subscribe(Vec::new());
    sub.recv(&mut ctx, None);
    assert!(matches!(ctx.take().as_slice(), [Effect::Recv(EndpointId(1))]));
    sub.on_recv_ack(&mut ctx, EndpointId(1), abc());
    assert!(matches!(sub.take_replies().as_slice(), [Reply::Recv(_)]));
    sub.recv(&mut ctx, None);
    assert!(matches!(ctx.take().as_slice(), [Effect::Recv(EndpointId(2))]));
    sub.on_recv_ack(&mut ctx, EndpointId(2), abc());
    sub.take_replies();
    sub.recv(&mut ctx, Some(Scheduled(8)));
    assert!(ctx.take().is_empty());
    sub.on_recv_timeout(&mut ctx);
    assert_eq!(
        failure(sub.take_replies().pop()),
        (ErrorKind::TimedOut, "Recv timed out".to_string())
    );
    sub.on_recv_ready(&mut ctx, EndpointId(2));
    assert!(matches!(ctx.take().as_slice(), [Effect::Raise(Event::CanRecv)]));
}

#[test]
fn a_subscriber_does_not_send() {
    let (mut sub, mut ctx) = sub_with(1);
    sub.send(&mut ctx, abc(), Some(Scheduled(7)));
    assert_eq!(
        failure(sub.take_replies().pop()),
        (ErrorKind::InvalidInput, "a sub socket cannot send".to_string())
    );
    assert!(matches!(ctx.take().as_slice(), [Effect::Cancel(Scheduled(7))]));
    sub.on_send_ready(&mut ctx, EndpointId(1));
    sub.on_send_ack(&mut ctx, EndpointId(1));
    sub.on_send_timeout(&mut ctx);
    assert!(ctx.take().is_empty());
    assert!(sub.remove_pipe(&mut ctx, EndpointId(1)).is_some());
    sub.close(&mut ctx);
    assert!(ctx.take().is_empty());
}
