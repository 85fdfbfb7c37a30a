use std::cell::RefCell;
use std::collections::VecDeque;
use std::rc::Rc;
use std::time::Duration;

use scaproust::context::{Effect, Event, Recorder, Schedulable, Scheduled, Scheduler};
use scaproust::endpoint;
use scaproust::id::EndpointId;
use scaproust::io_error::{ErrorKind, IoError};
use scaproust::message::Message;
use scaproust::pipe::{Phase, Pipe, RecvStatus, SendStatus};
use scaproust::proto::pull::Pull;
use scaproust::proto::push::Push;
use scaproust::socket::{Protocol, Reply};
use scaproust::transport::{Connection, EventLoop, EventSet, Token};

type Bytes = Rc<RefCell<VecDeque<u8>>>;

/// One end of a byte stream in memory. The stream takes `room` bytes that
/// nobody has read, and no more.
struct End {
    outgoing: Bytes,
    incoming: Bytes,
    room: usize,
}

fn link(room: usize) -> (End, End) {
    let a_to_b: Bytes = Rc::new(RefCell::new(VecDeque::new()));
    let b_to_a: Bytes = Rc::new(RefCell::new(VecDeque::new()));
    (
        End { outgoing: a_to_b.clone(), incoming: b_to_a.clone(), room },
        End { outgoing: b_to_a, incoming: a_to_b, room },
    )
}

impl Connection for End {
    fn try_read(&mut self, buf: &mut [u8]) -> Result<Option<usize>, IoError> {
        let mut incoming = self.incoming.borrow_mut();
        let n = buf.len().min(incoming.len());
        if n == 0 {
            return Ok(None);
        }
        for slot in buf.iter_mut().take(n) {
            *slot = incoming.pop_front().unwrap();
        }
        Ok(Some(n))
    }

    fn try_write(&mut self, buf: &[u8]) -> Result<Option<usize>, IoError> {
        let mut outgoing = self.outgoing.borrow_mut();
        let n = buf.len().min(self.room - outgoing.len());
        if n == 0 && !buf.is_empty() {
            return Ok(None);
        }
        outgoing.extend(buf[..n].iter().copied());
        Ok(Some(n))
    }
}

/// What the two protocols have in common for the tests.
trait Socket: Protocol {
    fn replies(&mut self) -> Vec<Reply>;
}

impl Socket for Push {
    fn replies(&mut self) -> Vec<Reply> {
        self.take_replies()
    }
}

impl Socket for Pull {
    fn replies(&mut self) -> Vec<Reply> {
        self.take_replies()
    }
}

/// A socket with one pipe, and what carries out the orders that the
/// protocol gives.
struct Node<P: Socket> {
    socket: P,
    pipe: Pipe<End>,
    eid: EndpointId,
    ctx: Recorder,
}

impl<P: Socket> Node<P> {
    fn new(socket: P, eid: usize, url: &str, end: End) -> Node<P> {
        let ids = (socket.id(), socket.peer_id());
        Node {
            socket,
            pipe: Pipe::new(Token(eid), Some(url.to_string()), ids, end),
            eid: EndpointId(eid),
            ctx: Recorder::new(),
        }
    }

    fn attach(&mut self, url: &str) {
        let handle = endpoint::Pipe::new(self.eid, Some(url.to_string()));
        self.socket.add_pipe(&mut self.ctx, self.eid, handle);
    }

    /// Carries out what the protocol has ordered, until it orders nothing.
    fn pump(&mut self) {
        loop {
            let effects = self.ctx.take();
            if effects.is_empty() {
                return;
            }
            for effect in effects {
                match effect {
                    Effect::Send(eid, msg) => {
                        if let SendStatus::Completed = self.pipe.send(msg).unwrap() {
                            self.socket.on_send_ack(&mut self.ctx, eid);
                        }
                    }
                    Effect::Recv(eid) => {
                        if let RecvStatus::Completed(msg) = self.pipe.recv().unwrap() {
                            self.socket.on_recv_ack(&mut self.ctx, eid, msg);
                        }
                    }
                    _ => {}
                }
            }
        }
    }

    /// The answer to the user's call, if the protocol has given one.
    fn answer(&mut self) -> Option<Result<Option<Vec<u8>>, IoError>> {
        match self.socket.replies().pop() {
            Some(Reply::Send) => Some(Ok(None)),
            Some(Reply::Recv(msg)) => Some(Ok(Some(msg.to_buffer()))),
            Some(Reply::Failed(e)) => Some(Err(e)),
            None => None,
            other => panic!("unexpected reply {:?}", other),
        }
    }

    /// Sends as the user does: with a deadline if `timeout` is set, which
    /// passes if the protocol has not answered when its orders are carried
    /// out.
    fn send(&mut self, buffer: Vec<u8>, timeout: Option<Duration>) -> Result<(), IoError> {
        let deadline =
            timeout.map(|delay| self.ctx.schedule(Schedulable::SendTimeout, delay).unwrap());
        self.socket.send(&mut self.ctx, Message::with_body(buffer), deadline);
        self.pump();
        if let Some(answer) = self.answer() {
            return answer.map(|_| ());
        }
        assert!(deadline.is_some(), "the send would never end");
        self.socket.on_send_timeout(&mut self.ctx);
        self.pipe.cancel_sending();
        self.answer().unwrap().map(|_| ())
    }

    fn recv(&mut self, timeout: Option<Duration>) -> Result<Vec<u8>, IoError> {
        let deadline =
            timeout.map(|delay| self.ctx.schedule(Schedulable::RecvTimeout, delay).unwrap());
        self.socket.recv(&mut self.ctx, deadline);
        self.pump();
        if let Some(answer) = self.answer() {
            return answer.map(|body| body.unwrap());
        }
        assert!(deadline.is_some(), "the receive would never end");
        self.socket.on_recv_timeout(&mut self.ctx);
        self.pipe.cancel_receiving();
        self.answer().unwrap().map(|body| body.unwrap())
    }
}

/// A pull socket and a push socket on the two ends of one stream, the
/// handshake done, and each told what its pipe is ready for.
fn pipeline(url: &str, room: usize, pull_accepts: bool) -> (Node<Pull>, Node<Push>) {
    let (a, b) = link(room);
    let (mut pull, mut push) = if pull_accepts {
        (Node::new(Pull::new(), 1, url, a), Node::new(Push::new(), 2, url, b))
    } else {
        (Node::new(Pull::new(), 2, url, a), Node::new(Push::new(), 1, url, b))
    };
    let mut el = EventLoop::new();
    push.pipe.ready(&mut el, EventSet::writable()).unwrap();
    pull.pipe.ready(&mut el, EventSet::all_but_failures()).unwrap();
    push.pipe.ready(&mut el, EventSet::readable()).unwrap();
    assert_eq!(pull.pipe.current_phase(), Phase::Active);
    assert_eq!(push.pipe.current_phase(), Phase::Active);
    pull.attach(url);
    push.attach(url);
    let eid = push.eid;
    push.socket.on_send_ready(&mut push.ctx, eid);
    push.ctx.take();
    (pull, push)
}

/// Tells the pull socket that its pipe has something, if it has.
fn notice(pull: &mut Node<Pull>) {
    if !pull.pipe.connection().unwrap().incoming.borrow().is_empty() {
        let eid = pull.eid;
        pull.socket.on_recv_ready(&mut pull.ctx, eid);
        pull.ctx.take();
    }
}

#[test]
fn test_pipeline_connected_to_bound() {
    let (mut pull, mut push) = pipeline("tcp://127.0.0.1:5454", 1 << 16, true);

    let sent = vec![65, 66, 67];
    push.send(sent, None).unwrap();
    notice(&mut pull);
    let received = pull.recv(None).unwrap();

    assert_eq!(vec![65, 66, 67], received)
}

#[test]
fn test_pipeline_bound_to_connected() {
    let (mut pull, mut push) = pipeline("tcp://127.0.0.1:5455", 1 << 16, false);

    let sent = vec![65, 66, 67];
    push.send(sent, None).unwrap();
    notice(&mut pull);
    let received = pull.recv(None).unwrap();

    assert_eq!(vec![65, 66, 67], received)
}

#[test]
fn test_send_while_not_connected() {
    let (_, b) = link(1 << 16);
    let mut push = Node::new(Push::new(), 1, "tcp://127.0.0.1:5456", b);

    let err = push.send(vec![65, 66, 67], None).unwrap_err();

    assert_eq!(ErrorKind::NotConnected, err.kind());
}

#[test]
fn test_send_timeout() {
    let (_pull, mut push) = pipeline("tcp://127.0.0.1:5457", 1 << 16, true);
    let timeout = Duration::from_millis(50);

    let err = push.send(vec![0; 5 * 1024 * 1024], Some(timeout)).unwrap_err();

    assert_eq!(ErrorKind::TimedOut, err.kind());
}

#[test]
fn test_recv_while_not_connected() {
    let (a, _) = link(1 << 16);
    let mut pull = Node::new(Pull::new(), 1, "tcp://127.0.0.1:5458", a);

    let err = pull.recv(None).unwrap_err();

    assert_eq!(ErrorKind::NotConnected, err.kind());
}

#[test]
fn test_recv_timeout() {
    let (mut pull, _push) = pipeline("tcp://127.0.0.1:5459", 1 << 16, true);
    let timeout = Duration::from_millis(50);

    let err = pull.recv(Some(timeout)).unwrap_err();

    assert_eq!(ErrorKind::TimedOut, err.kind());
}

#[test]
fn a_send_over_a_full_stream_is_answered_once_when_its_deadline_passes() {
    let (_pull, mut push) = pipeline("tcp://127.0.0.1:5457", 64, true);
    let err = push.send(vec![7; 1000], Some(Duration::from_millis(50))).unwrap_err();
    assert_eq!(err.kind(), ErrorKind::TimedOut);
    assert_eq!(err.message(), "Send timed out");
    assert!(push.socket.replies().is_empty());
}

fn handle(eid: usize) -> endpoint::Pipe {
    endpoint::Pipe::new(EndpointId(eid), None)
}

fn abc() -> Message {
    Message::with_body(vec![65, 66, 67])
}

fn failure(reply: Option<Reply>) -> (ErrorKind, String) {
    match reply {
        Some(Reply::Failed(e)) => (e.kind(), e.message().to_string()),
        other => panic!("unexpected reply {:?}", other),
    }
}

/// A push socket with the pipes 1 to `n`, each of which has said that it
/// can send.
fn push_with(n: usize) -> (Push, Recorder) {
    let mut push = Push::new();
    let mut ctx = Recorder::new();
    for eid in 1..=n {
        push.add_pipe(&mut ctx, EndpointId(eid), handle(eid));
        push.on_send_ready(&mut ctx, EndpointId(eid));
    }
    assert!(ctx.take().is_empty());
    (push, ctx)
}

/// Sends one message, and says which pipe was given it.
fn sent_to(push: &mut Push, ctx: &mut Recorder) -> usize {
    push.send(ctx, abc(), None);
    match ctx.take().as_slice() {
        [Effect::Send(eid, msg)] => {
            assert_eq!(msg.get_body(), &[65, 66, 67]);
            eid.0
        }
        other => panic!("unexpected orders {:?}", other),
    }
}

#[test]
fn the_push_protocol_talks_to_pull() {
    let push = Push::new();
    assert_eq!(push.id(), 0x50);
    assert_eq!(push.peer_id(), 0x51);
    let pull = Pull::new();
    assert_eq!(pull.id(), 0x51);
    assert_eq!(pull.peer_id(), 0x50);
}

#[test]
fn the_push_and_pull_states_have_names() {
    let msg = Rc::new(abc());
    assert_eq!(scaproust::proto::push::State::Idle.name(), "Idle");
    assert_eq!(
        scaproust::proto::push::State::Sending(EndpointId(1), msg.clone(), None).name(),
        "Sending"
    );
    assert_eq!(scaproust::proto::push::State::SendOnHold(msg, None).name(), "SendOnHold");
    assert_eq!(scaproust::proto::pull::State::Idle.name(), "Idle");
    assert_eq!(scaproust::proto::pull::State::Receiving(EndpointId(1), None).name(), "Receiving");
    assert_eq!(scaproust::proto::pull::State::RecvOnHold(None).name(), "RecvOnHold");
}

#[test]
fn a_push_without_a_pipe_refuses_and_clears_the_deadline() {
    let mut push = Push::new();
    let mut ctx = Recorder::new();
    push.send(&mut ctx, abc(), Some(Scheduled(7)));
    assert_eq!(
        failure(push.take_replies().pop()),
        (ErrorKind::NotConnected, "no connected endpoint".to_string())
    );
    assert!(matches!(ctx.take().as_slice(), [Effect::Cancel(Scheduled(7))]));
}

#[test]
fn a_push_gives_its_messages_to_the_pipes_in_turn() {
    let (mut push, mut ctx) = push_with(3);
    let mut got = [0usize; 4];
    let mut order = Vec::new();
    for _ in 0..7 {
        let eid = sent_to(&mut push, &mut ctx);
        order.push(eid);
        got[eid] += 1;
        push.on_send_ack(&mut ctx, EndpointId(eid));
        assert!(matches!(push.take_replies().as_slice(), [Reply::Send]));
        push.on_send_ready(&mut ctx, EndpointId(eid));
        assert!(ctx.take().is_empty());
    }
    assert_eq!(order, vec![1, 2, 3, 1, 2, 3, 1]);
    assert_eq!(&got[1..], &[3, 2, 2]);
}

#[test]
fn a_push_serves_the_lower_priority_number_first() {
    let mut push = Push::new();
    let mut ctx = Recorder::new();
    push.add_pipe(&mut ctx, EndpointId(1), endpoint::Pipe::with_priorities(EndpointId(1), None, 9, 8));
    push.add_pipe(&mut ctx, EndpointId(2), endpoint::Pipe::with_priorities(EndpointId(2), None, 3, 8));
    push.on_send_ready(&mut ctx, EndpointId(1));
    push.on_send_ready(&mut ctx, EndpointId(2));
    assert_eq!(sent_to(&mut push, &mut ctx), 2);
    push.on_send_ack(&mut ctx, EndpointId(2));
    // The better pipe is busy: the other is given the next message.
    assert_eq!(sent_to(&mut push, &mut ctx), 1);
    push.on_send_ack(&mut ctx, EndpointId(1));
    push.on_send_ready(&mut ctx, EndpointId(1));
    push.on_send_ready(&mut ctx, EndpointId(2));
    assert_eq!(sent_to(&mut push, &mut ctx), 2);
}

#[test]
fn a_push_holds_the_message_until_a_pipe_can_send() {
    let mut push = Push::new();
    let mut ctx = Recorder::new();
    push.add_pipe(&mut ctx, EndpointId(1), handle(1));
    push.send(&mut ctx, abc(), Some(Scheduled(7)));
    assert!(ctx.take().is_empty());
    assert!(push.take_replies().is_empty());
    push.on_send_ready(&mut ctx, EndpointId(1));
    assert!(matches!(ctx.take().as_slice(), [Effect::Send(EndpointId(1), _)]));
    push.on_send_ack(&mut ctx, EndpointId(1));
    assert!(matches!(push.take_replies().as_slice(), [Reply::Send]));
    assert!(matches!(ctx.take().as_slice(), [Effect::Cancel(Scheduled(7))]));
}

#[test]
fn a_push_heeds_only_the_pipe_that_has_the_message() {
    let (mut push, mut ctx) = push_with(2);
    assert_eq!(sent_to(&mut push, &mut ctx), 1);
    push.on_send_ack(&mut ctx, EndpointId(2));
    assert!(push.take_replies().is_empty());
    push.on_send_ack(&mut ctx, EndpointId(1));
    assert!(matches!(push.take_replies().as_slice(), [Reply::Send]));
    push.on_send_ack(&mut ctx, EndpointId(1));
    assert!(push.take_replies().is_empty());
}

#[test]
fn a_push_whose_pipe_leaves_gives_the_message_to_the_next_that_can_send() {
    let (mut push, mut ctx) = push_with(1);
    assert_eq!(sent_to(&mut push, &mut ctx), 1);
    let removed = push.remove_pipe(&mut ctx, EndpointId(1));
    assert_eq!(removed.unwrap().id(), EndpointId(1));
    assert!(push.remove_pipe(&mut ctx, EndpointId(1)).is_none());
    push.add_pipe(&mut ctx, EndpointId(2), handle(2));
    assert!(ctx.take().is_empty());
    push.on_send_ready(&mut ctx, EndpointId(2));
    assert!(matches!(ctx.take().as_slice(), [Effect::Send(EndpointId(2), _)]));
    push.on_send_ack(&mut ctx, EndpointId(2));
    assert!(matches!(push.take_replies().as_slice(), [Reply::Send]));
}

#[test]
fn a_push_times_out() {
    let mut push = Push::new();
    let mut ctx = Recorder::new();
    push.add_pipe(&mut ctx, EndpointId(1), handle(1));
    push.send(&mut ctx, abc(), Some(Scheduled(7)));
    push.on_send_timeout(&mut ctx);
    assert_eq!(
        failure(push.take_replies().pop()),
        (ErrorKind::TimedOut, "Send timed out".to_string())
    );
    assert!(ctx.take().is_empty());
    // The message is no longer on hold.
    push.on_send_ready(&mut ctx, EndpointId(1));
    assert!(ctx.take().is_empty());
}

#[test]
fn a_push_does_not_receive() {
    let (mut push, mut ctx) = push_with(1);
    push.recv(&mut ctx, Some(Scheduled(8)));
    assert_eq!(
        failure(push.take_replies().pop()),
        (ErrorKind::InvalidInput, "a push socket cannot receive".to_string())
    );
    assert!(matches!(ctx.take().as_slice(), [Effect::Cancel(Scheduled(8))]));
    push.on_recv_ready(&mut ctx, EndpointId(1));
    push.on_recv_ack(&mut ctx, EndpointId(1), abc());
    push.on_recv_timeout(&mut ctx);
    assert!(push.take_replies().is_empty());
    assert!(ctx.take().is_empty());
    assert_eq!(sent_to(&mut push, &mut ctx), 1);
}

#[test]
fn a_second_pipe_of_one_name_is_closed() {
    let mut push = Push::new();
    let mut pull = Pull::new();
    let mut ctx = Recorder::new();
    push.add_pipe(&mut ctx, EndpointId(1), handle(1));
    pull.add_pipe(&mut ctx, EndpointId(1), handle(1));
    assert!(ctx.take().is_empty());
    push.add_pipe(&mut ctx, EndpointId(1), handle(5));
    assert!(matches!(ctx.take().as_slice(), [Effect::Close(EndpointId(5), true)]));
    pull.add_pipe(&mut ctx, EndpointId(1), handle(6));
    assert!(matches!(ctx.take().as_slice(), [Effect::Close(EndpointId(6), true)]));
}

#[test]
fn closing_closes_every_pipe_and_then_nothing() {
    let (mut push, mut ctx) = push_with(3);
    push.close(&mut ctx);
    assert!(matches!(
        ctx.take().as_slice(),
        [
            Effect::Close(EndpointId(1), true),
            Effect::Close(EndpointId(2), true),
            Effect::Close(EndpointId(3), true)
        ]
    ));
    push.close(&mut ctx);
    assert!(ctx.take().is_empty());
    push.send(&mut ctx, abc(), None);
    assert_eq!(failure(push.take_replies().pop()).0, ErrorKind::NotConnected);

    let (mut pull, mut ctx) = pull_with(2);
    pull.close(&mut ctx);
    assert!(matches!(
        ctx.take().as_slice(),
        [Effect::Close(EndpointId(1), true), Effect::Close(EndpointId(2), true)]
    ));
    pull.close(&mut ctx);
    assert!(ctx.take().is_empty());
}

/// A pull socket with the pipes 1 to `n`, each of which has said that it
/// has a message.
fn pull_with(n: usize) -> (Pull, Recorder) {
    let mut pull = Pull::new();
    let mut ctx = Recorder::new();
    for eid in 1..=n {
        pull.add_pipe(&mut ctx, EndpointId(eid), handle(eid));
        pull.on_recv_ready(&mut ctx, EndpointId(eid));
    }
    ctx.take();
    (pull, ctx)
}

/// Receives, and says which pipe was asked.
fn asked_of(pull: &mut Pull, ctx: &mut Recorder) -> usize {
    pull.recv(ctx, None);
    match ctx.take().as_slice() {
        [Effect::Recv(eid)] => eid.0,
        other => panic!("unexpected orders {:?}", other),
    }
}

#[test]
fn a_pull_without_a_pipe_refuses_and_clears_the_deadline() {
    let mut pull = Pull::new();
    let mut ctx = Recorder::new();
    pull.recv(&mut ctx, Some(Scheduled(8)));
    assert_eq!(
        failure(pull.take_replies().pop()),
        (ErrorKind::NotConnected, "no connected endpoint".to_string())
    );
    assert!(matches!(ctx.take().as_slice(), [Effect::Cancel(Scheduled(8))]));
}

#[test]
fn a_pull_asks_its_pipes_in_turn() {
    let (mut pull, mut ctx) = pull_with(3);
    let mut gave = [0usize; 4];
    let mut order = Vec::new();
    for round in 0..6u8 {
        let eid = asked_of(&mut pull, &mut ctx);
        order.push(eid);
        gave[eid] += 1;
        pull.on_recv_ack(&mut ctx, EndpointId(eid), Message::with_body(vec![round]));
        match pull.take_replies().as_slice() {
            [Reply::Recv(msg)] => assert_eq!(msg.get_body(), &[round]),
            other => panic!("unexpected replies {:?}", other),
        }
        pull.on_recv_ready(&mut ctx, EndpointId(eid));
        assert!(matches!(ctx.take().as_slice(), [Effect::Raise(Event::CanRecv)]));
    }
    assert_eq!(order, vec![1, 2, 3, 1, 2, 3]);
    assert_eq!(&gave[1..], &[2, 2, 2]);
}

#[test]
fn a_pull_waits_for_a_pipe_that_has_a_message() {
    let mut pull = Pull::new();
    let mut ctx = Recorder::new();
    pull.add_pipe(&mut ctx, EndpointId(1), handle(1));
    pull.recv(&mut ctx, Some(Scheduled(8)));
    assert!(ctx.take().is_empty());
    assert!(pull.take_replies().is_empty());
    pull.on_recv_ready(&mut ctx, EndpointId(1));
    assert!(matches!(ctx.take().as_slice(), [Effect::Recv(EndpointId(1))]));
    pull.on_recv_ack(&mut ctx, EndpointId(1), abc());
    match pull.take_replies().as_slice() {
        [Reply::Recv(msg)] => assert_eq!(msg.get_body(), &[65, 66, 67]),
        other => panic!("unexpected replies {:?}", other),
    }
    assert!(matches!(ctx.take().as_slice(), [Effect::Cancel(Scheduled(8))]));
}

#[test]
fn a_pull_drops_what_it_did_not_ask_for() {
    let (mut pull, mut ctx) = pull_with(2);
    pull.on_recv_ack(&mut ctx, EndpointId(1), abc());
    assert!(pull.take_replies().is_empty());
    assert_eq!(asked_of(&mut pull, &mut ctx), 1);
    pull.on_recv_ack(&mut ctx, EndpointId(2), abc());
    assert!(pull.take_replies().is_empty());
    pull.on_recv_ack(&mut ctx, EndpointId(1), abc());
    assert!(matches!(pull.take_replies().as_slice(), [Reply::Recv(_)]));
}

#[test]
fn a_pull_whose_pipe_leaves_asks_the_next_that_has_a_message() {
    let (mut pull, mut ctx) = pull_with(1);
    assert_eq!(asked_of(&mut pull, &mut ctx), 1);
    assert!(pull.remove_pipe(&mut ctx, EndpointId(1)).is_some());
    pull.add_pipe(&mut ctx, EndpointId(2), handle(2));
    pull.on_recv_ready(&mut ctx, EndpointId(2));
    assert!(matches!(ctx.take().as_slice(), [Effect::Recv(EndpointId(2))]));
}

#[test]
fn a_pull_times_out() {
    let (mut pull, mut ctx) = pull_with(1);
    assert_eq!(asked_of(&mut pull, &mut ctx), 1);
    pull.on_recv_timeout(&mut ctx);
    assert_eq!(
        failure(pull.take_replies().pop()),
        (ErrorKind::TimedOut, "Recv timed out".to_string())
    );
    assert!(ctx.take().is_empty());
    // What comes late is dropped.
    pull.on_recv_ack(&mut ctx, EndpointId(1), abc());
    assert!(pull.take_replies().is_empty());
}

#[test]
fn a_pull_does_not_send() {
    let (mut pull, mut ctx) = pull_with(1);
    pull.send(&mut ctx, abc(), Some(Scheduled(7)));
    assert_eq!(
        failure(pull.take_replies().pop()),
        (ErrorKind::InvalidInput, "a pull socket cannot send".to_string())
    );
    assert!(matches!(ctx.take().as_slice(), [Effect::Cancel(Scheduled(7))]));
    pull.on_send_ready(&mut ctx, EndpointId(1));
    pull.on_send_ack(&mut ctx, EndpointId(1));
    pull.on_send_timeout(&mut ctx);
    assert!(pull.take_replies().is_empty());
    assert!(ctx.take().is_empty());
    assert_eq!(asked_of(&mut pull, &mut ctx), 1);
}

#[test]
fn a_pull_serves_the_lower_priority_number_first() {
    let mut pull = Pull::new();
    let mut ctx = Recorder::new();
    pull.add_pipe(&mut ctx, EndpointId(1), endpoint::Pipe::with_priorities(EndpointId(1), None, 8, 9));
    pull.add_pipe(&mut ctx, EndpointId(2), endpoint::Pipe::with_priorities(EndpointId(2), None, 8, 3));
    pull.on_recv_ready(&mut ctx, EndpointId(1));
    pull.on_recv_ready(&mut ctx, EndpointId(2));
    ctx.take();
    assert_eq!(asked_of(&mut pull, &mut ctx), 2);
}
