use std::cell::RefCell;
use std::collections::VecDeque;
use std::rc::Rc;
use std::time::Duration;

use scaproust::context::{Effect, Event, Recorder, Schedulable, Scheduled};
use scaproust::endpoint;
use scaproust::id::EndpointId;
use scaproust::io_error::{ErrorKind, IoError};
use scaproust::message::Message;
use scaproust::pipe::{Phase, Pipe, RecvStatus, SendStatus};
use scaproust::proto::rep::{split_request, Rep};
use scaproust::proto::req::Req;
use scaproust::socket::{Protocol, Reply};
use scaproust::transport::{Connection, EventLoop, EventSet, Token};

type Stream = Rc<RefCell<VecDeque<u8>>>;

struct Wire {
    outgoing: Stream,
    incoming: Stream,
}

fn wires() -> (Wire, Wire) {
    let a_to_b: Stream = Rc::new(RefCell::new(VecDeque::new()));
    let b_to_a: Stream = Rc::new(RefCell::new(VecDeque::new()));
    (
        Wire { outgoing: a_to_b.clone(), incoming: b_to_a.clone() },
        Wire { outgoing: b_to_a, incoming: a_to_b },
    )
}

impl Connection for Wire {
    fn try_read(&mut self, buf: &mut [u8]) -> Result<Option<usize>, IoError> {
        let mut incoming = self.incoming.borrow_mut();
        let n = buf.len().min(incoming.len());
        if n == 0 {
            return Ok(None);
        }
        for slot in buf.iter_mut().take(n) {
            *slot = incoming.pop_front().unwrap();
        }
        Ok(Some(n))
    }

    fn try_write(&mut self, buf: &[u8]) -> Result<Option<usize>, IoError> {
        self.outgoing.borrow_mut().extend(buf.iter().copied());
        Ok(Some(buf.len()))
    }
}

/// What the two protocols have in common for the tests.
trait Party: Protocol {
    fn replies(&mut self) -> Vec<Reply>;
}

impl Party for Req {
    fn replies(&mut self) -> Vec<Reply> {
        self.take_replies()
    }
}

impl Party for Rep {
    fn replies(&mut self) -> Vec<Reply> {
        self.take_replies()
    }
}

/// A socket with one pipe, and what carries out the orders that the
/// protocol gives.
struct Peer<P: Party> {
    socket: P,
    pipe: Pipe<Wire>,
    eid: EndpointId,
    ctx: Recorder,
}

impl<P: Party> Peer<P> {
    fn new(socket: P, eid: usize, url: &str, wire: Wire) -> Peer<P> {
        let ids = (socket.id(), socket.peer_id());
        Peer {
            socket,
            pipe: Pipe::new(Token(eid), Some(url.to_string()), ids, wire),
            eid: EndpointId(eid),
            ctx: Recorder::new(),
        }
    }

    fn attach(&mut self, url: &str) {
        let handle = endpoint::Pipe::new(self.eid, Some(url.to_string()));
        self.socket.add_pipe(&mut self.ctx, self.eid, handle);
        self.socket.on_send_ready(&mut self.ctx, self.eid);
        self.ctx.take();
    }

    /// Carries out what the protocol has ordered, until it orders nothing.
    fn pump(&mut self) {
        loop {
            let effects = self.ctx.take();
            if effects.is_empty() {
                return;
            }
            for effect in effects {
                match effect {
                    Effect::Send(eid, msg) => {
                        if let SendStatus::Completed = self.pipe.send(msg).unwrap() {
                            self.socket.on_send_ack(&mut self.ctx, eid);
                            self.socket.on_send_ready(&mut self.ctx, eid);
                        }
                    }
                    Effect::Recv(eid) => {
                        if let RecvStatus::Completed(msg) = self.pipe.recv().unwrap() {
                            self.socket.on_recv_ack(&mut self.ctx, eid, msg);
                        }
                    }
                    _ => {}
                }
            }
        }
    }

    /// Tells the protocol that its pipe has something, if it has.
    fn notice(&mut self) {
        if !self.pipe.connection().unwrap().incoming.borrow().is_empty() {
            self.socket.on_recv_ready(&mut self.ctx, self.eid);
            self.ctx.take();
        }
    }

    fn send(&mut self, buffer: Vec<u8>) -> Result<(), IoError> {
        self.socket.send(&mut self.ctx, Message::with_body(buffer), None);
        self.pump();
        match self.socket.replies().pop() {
            Some(Reply::Send) => Ok(()),
            Some(Reply::Failed(e)) => Err(e),
            other => panic!("unexpected reply {:?}", other),
        }
    }

    fn recv(&mut self) -> Result<Vec<u8>, IoError> {
        self.notice();
        self.socket.recv(&mut self.ctx, None);
        self.pump();
        match self.socket.replies().pop() {
            Some(Reply::Recv(msg)) => Ok(msg.to_buffer()),
            Some(Reply::Failed(e)) => Err(e),
            other => panic!("unexpected reply {:?}", other),
        }
    }
}

fn minute() -> Duration {
    Duration::from_secs(60)
}

/// A reply socket bound to `url` and a request socket connected to it, the
/// handshake done.
fn server_and_client(url: &str) -> (Peer<Rep>, Peer<Req>) {
    let (a, b) = wires();
    let mut server = Peer::new(Rep::new(), 1, url, a);
    let mut client = Peer::new(Req::new(minute()), 2, url, b);
    let mut el = EventLoop::new();
    client.pipe.ready(&mut el, EventSet::writable()).unwrap();
    server.pipe.ready(&mut el, EventSet::all_but_failures()).unwrap();
    client.pipe.ready(&mut el, EventSet::readable()).unwrap();
    assert_eq!(server.pipe.current_phase(), Phase::Active);
    assert_eq!(client.pipe.current_phase(), Phase::Active);
    server.attach(url);
    client.attach(url);
    (server, client)
}

#[test]
fn test_req_rep() {
    let (mut server, mut client) = server_and_client("tcp://127.0.0.1:5462");

    let client_request = vec![65, 66, 67];
    client.send(client_request).unwrap();

    let server_request = server.recv().unwrap();
    assert_eq!(vec![65, 66, 67], server_request);

    let server_reply = vec![67, 66, 65];
    server.send(server_reply).unwrap();

    let client_reply = client.recv().unwrap();

    assert_eq!(vec![67, 66, 65], client_reply);
}

#[test]
fn test_send_reply_before_send_request() {
    let (a, _) = wires();
    let mut server = Peer::new(Rep::new(), 1, "tcp://127.0.0.1:5466", a);

    server.send(vec![67, 66, 65]).unwrap_err();
}

#[test]
fn test_recv_reply_before_send_request() {
    let (_server, mut client) = server_and_client("tcp://127.0.0.1:5467");

    let err = client.recv().unwrap_err();
    assert_eq!(ErrorKind::InvalidInput, err.kind());
}

#[test]
fn a_second_request_gets_its_own_reply() {
    let (mut server, mut client) = server_and_client("tcp://127.0.0.1:5462");
    for round in 0..3u8 {
        client.send(vec![round, 1]).unwrap();
        assert_eq!(server.recv().unwrap(), vec![round, 1]);
        server.send(vec![round, 2]).unwrap();
        assert_eq!(client.recv().unwrap(), vec![round, 2]);
    }
}

fn handle(eid: usize) -> endpoint::Pipe {
    endpoint::Pipe::new(EndpointId(eid), None)
}

fn abc() -> Message {
    Message::with_body(vec![65, 66, 67])
}

fn failure(reply: Option<Reply>) -> (ErrorKind, String) {
    match reply {
        Some(Reply::Failed(e)) => (e.kind(), e.message().to_string()),
        other => panic!("unexpected reply {:?}", other),
    }
}

/// A request socket with the pipes 1 to `n`, each of which can send.
fn req_with(n: usize) -> (Req, Recorder) {
    let mut req = Req::new(minute());
    let mut ctx = Recorder::new();
    for eid in 1..=n {
        req.add_pipe(&mut ctx, EndpointId(eid), handle(eid));
        req.on_send_ready(&mut ctx, EndpointId(eid));
    }
    assert!(ctx.take().is_empty());
    (req, ctx)
}

/// Sends a request, and gives the pipe that it went to and its bytes.
fn request(req: &mut Req, ctx: &mut Recorder, body: Vec<u8>) -> (usize, Vec<u8>, Vec<u8>) {
    req.send(ctx, Message::with_body(body), None);
    match ctx.take().as_slice() {
        [Effect::Send(eid, msg)] => (eid.0, msg.get_header().to_vec(), msg.get_body().to_vec()),
        other => panic!("unexpected orders {:?}", other),
    }
}

#[test]
fn the_request_protocol_talks_to_reply() {
    let req = Req::new(minute());
    assert_eq!(req.id(), 0x30);
    assert_eq!(req.peer_id(), 0x31);
    let rep = Rep::new();
    assert_eq!(rep.id(), 0x31);
    assert_eq!(rep.peer_id(), 0x30);
}

#[test]
fn the_request_and_reply_states_have_names() {
    let msg = Rc::new(abc());
    assert_eq!(scaproust::proto::req::State::Idle.name(), "Idle");
    assert_eq!(
        scaproust::proto::req::State::Sending(EndpointId(1), msg.clone(), None).name(),
        "Sending"
    );
    assert_eq!(scaproust::proto::req::State::SendOnHold(msg.clone(), None).name(), "SendOnHold");
    assert_eq!(scaproust::proto::req::State::Receiving(EndpointId(1), None).name(), "Receiving");
    assert_eq!(scaproust::proto::req::State::RecvOnHold(None).name(), "RecvOnHold");
    assert_eq!(scaproust::proto::rep::State::Idle.name(), "Idle");
    assert_eq!(scaproust::proto::rep::State::Receiving(EndpointId(1), None).name(), "Receiving");
    assert_eq!(scaproust::proto::rep::State::RecvOnHold(None).name(), "RecvOnHold");
    assert_eq!(scaproust::proto::rep::State::Active(EndpointId(1)).name(), "Active");
    assert_eq!(scaproust::proto::rep::State::Sending(EndpointId(1), msg, None).name(), "Sending");
}

#[test]
fn a_request_carries_its_number_with_the_top_bit_set() {
    let (mut req, mut ctx) = req_with(1);
    let (to, header, body) = request(&mut req, &mut ctx, vec![65, 66, 67]);
    assert_eq!(to, 1);
    assert_eq!(header, vec![0x80, 0, 0, 0]);
    assert_eq!(body, vec![65, 66, 67]);
    req.on_send_ack(&mut ctx, EndpointId(1));
    req.on_send_ready(&mut ctx, EndpointId(1));
    ctx.take();
    // The request before is given up: its timer is cleared.
    req.send(&mut ctx, Message::with_body(vec![1]), None);
    match ctx.take().as_slice() {
        [Effect::Cancel(_), Effect::Send(EndpointId(1), msg)] => {
            assert_eq!(msg.get_header(), &[0x80, 0, 0, 1]);
            assert_eq!(msg.get_body(), &[1]);
        }
        other => panic!("unexpected orders {:?}", other),
    }
}

#[test]
fn a_request_without_a_pipe_is_refused() {
    let mut req = Req::new(minute());
    let mut ctx = Recorder::new();
    req.send(&mut ctx, abc(), Some(Scheduled(7)));
    assert_eq!(
        failure(req.take_replies().pop()),
        (ErrorKind::NotConnected, "no connected endpoint".to_string())
    );
    assert!(matches!(ctx.take().as_slice(), [Effect::Cancel(Scheduled(7))]));
    // No request waits for a reply.
    req.recv(&mut ctx, None);
    assert_eq!(
        failure(req.take_replies().pop()),
        (ErrorKind::InvalidInput, "Can't recv: no pending request".to_string())
    );
}

#[test]
fn a_request_that_was_sent_is_sent_again_when_its_timer_runs_down() {
    let (mut req, mut ctx) = req_with(2);
    let (to, header, body) = request(&mut req, &mut ctx, vec![9]);
    assert_eq!(to, 1);
    req.on_send_ack(&mut ctx, EndpointId(1));
    assert!(matches!(req.take_replies().as_slice(), [Reply::Send]));
    let timer = match ctx.take().as_slice() {
        [Effect::Schedule(Schedulable::ReqResend, delay, timer)] => {
            assert_eq!(*delay, minute());
            *timer
        }
        other => panic!("unexpected orders {:?}", other),
    };
    // Another timer changes nothing.
    req.on_timer_tick(&mut ctx, Schedulable::SendTimeout);
    assert!(ctx.take().is_empty());
    // The other pipe is given the request this time, and a new timer is set.
    req.on_timer_tick(&mut ctx, Schedulable::ReqResend);
    let again = match ctx.take().as_slice() {
        [Effect::Send(EndpointId(2), msg), Effect::Schedule(Schedulable::ReqResend, _, again)] => {
            assert_eq!(msg.get_header(), header.as_slice());
            assert_eq!(msg.get_body(), body.as_slice());
            *again
        }
        other => panic!("unexpected orders {:?}", other),
    };
    assert_ne!(timer, again);
    assert!(req.take_replies().is_empty());
    // The reply clears the timer that is set.
    req.on_recv_ready(&mut ctx, EndpointId(2));
    ctx.take();
    req.recv(&mut ctx, Some(Scheduled(100)));
    assert!(matches!(ctx.take().as_slice(), [Effect::Recv(EndpointId(2))]));
    req.on_recv_ack(&mut ctx, EndpointId(2), Message::with_body(vec![0x80, 0, 0, 0, 4, 5]));
    match req.take_replies().as_slice() {
        [Reply::Recv(msg)] => assert_eq!(msg.get_body(), &[4, 5]),
        other => panic!("unexpected replies {:?}", other),
    }
    match ctx.take().as_slice() {
        [Effect::Cancel(Scheduled(100)), Effect::Cancel(cleared)] => assert_eq!(*cleared, again),
        other => panic!("unexpected orders {:?}", other),
    }
    // Nothing is left to send again.
    req.on_timer_tick(&mut ctx, Schedulable::ReqResend);
    assert!(ctx.take().is_empty());
}

#[test]
fn a_new_interval_holds_for_the_next_timer() {
    let (mut req, mut ctx) = req_with(1);
    req.set_resend_interval(Duration::from_millis(250));
    request(&mut req, &mut ctx, vec![9]);
    req.on_send_ack(&mut ctx, EndpointId(1));
    match ctx.take().as_slice() {
        [Effect::Schedule(Schedulable::ReqResend, delay, _)] => {
            assert_eq!(*delay, Duration::from_millis(250))
        }
        other => panic!("unexpected orders {:?}", other),
    }
}

#[test]
fn a_reply_to_another_request_is_dropped() {
    let (mut req, mut ctx) = req_with(1);
    request(&mut req, &mut ctx, vec![9]);
    req.on_send_ack(&mut ctx, EndpointId(1));
    req.take_replies();
    req.on_recv_ready(&mut ctx, EndpointId(1));
    ctx.take();
    req.recv(&mut ctx, None);
    assert!(matches!(ctx.take().as_slice(), [Effect::Recv(EndpointId(1))]));
    // The number is another's; then the message is too short to hold one.
    req.on_recv_ack(&mut ctx, EndpointId(1), Message::with_body(vec![0x80, 0, 0, 7, 1]));
    assert!(req.take_replies().is_empty());
    assert!(ctx.take().is_empty());
    req.on_recv_ready(&mut ctx, EndpointId(1));
    assert!(matches!(ctx.take().as_slice(), [Effect::Recv(EndpointId(1))]));
    req.on_recv_ack(&mut ctx, EndpointId(1), Message::with_body(vec![0x80, 0, 0]));
    assert!(req.take_replies().is_empty());
    req.on_recv_ready(&mut ctx, EndpointId(1));
    assert!(matches!(ctx.take().as_slice(), [Effect::Recv(EndpointId(1))]));
    req.on_recv_ack(&mut ctx, EndpointId(1), Message::with_body(vec![0x80, 0, 0, 0]));
    match req.take_replies().as_slice() {
        [Reply::Recv(msg)] => assert!(msg.get_body().is_empty()),
        other => panic!("unexpected replies {:?}", other),
    }
}

#[test]
fn a_new_request_gives_the_one_before_up() {
    let (mut req, mut ctx) = req_with(1);
    request(&mut req, &mut ctx, vec![1]);
    req.on_send_ack(&mut ctx, EndpointId(1));
    req.on_send_ready(&mut ctx, EndpointId(1));
    let timer = match ctx.take().as_slice() {
        [Effect::Schedule(_, _, timer)] => *timer,
        other => panic!("unexpected orders {:?}", other),
    };
    req.send(&mut ctx, Message::with_body(vec![2]), None);
    match ctx.take().as_slice() {
        [Effect::Cancel(cleared), Effect::Send(EndpointId(1), msg)] => {
            assert_eq!(*cleared, timer);
            assert_eq!(msg.get_header(), &[0x80, 0, 0, 1]);
        }
        other => panic!("unexpected orders {:?}", other),
    }
}

#[test]
fn a_request_waits_for_a_pipe_that_can_send_and_times_out() {
    let mut req = Req::new(minute());
    let mut ctx = Recorder::new();
    req.add_pipe(&mut ctx, EndpointId(1), handle(1));
    req.send(&mut ctx, abc(), Some(Scheduled(7)));
    assert!(ctx.take().is_empty());
    req.on_send_timeout(&mut ctx);
    assert_eq!(
        failure(req.take_replies().pop()),
        (ErrorKind::TimedOut, "Send timed out".to_string())
    );
    req.on_send_ready(&mut ctx, EndpointId(1));
    assert!(ctx.take().is_empty());
    // The request was given up with the send.
    req.recv(&mut ctx, None);
    assert_eq!(failure(req.take_replies().pop()).0, ErrorKind::InvalidInput);

    req.send(&mut ctx, abc(), None);
    assert!(matches!(ctx.take().as_slice(), [Effect::Send(EndpointId(1), _)]));
}

#[test]
fn a_request_on_hold_goes_out_when_a_pipe_can_send() {
    let mut req = Req::new(minute());
    let mut ctx = Recorder::new();
    req.add_pipe(&mut ctx, EndpointId(1), handle(1));
    req.send(&mut ctx, abc(), None);
    assert!(ctx.take().is_empty());
    req.on_send_ready(&mut ctx, EndpointId(1));
    assert!(matches!(ctx.take().as_slice(), [Effect::Send(EndpointId(1), _)]));
    // While the user is sending, the timer sends nothing again.
    req.on_timer_tick(&mut ctx, Schedulable::ReqResend);
    assert!(ctx.take().is_empty());
    assert!(req.remove_pipe(&mut ctx, EndpointId(1)).is_some());
    req.add_pipe(&mut ctx, EndpointId(2), handle(2));
    req.on_send_ready(&mut ctx, EndpointId(2));
    assert!(matches!(ctx.take().as_slice(), [Effect::Send(EndpointId(2), _)]));
    req.on_send_ack(&mut ctx, EndpointId(2));
    assert!(matches!(req.take_replies().as_slice(), [Reply::Send]));
}

#[test]
fn a_receive_of_a_reply_times_out_and_the_request_still_waits() {
    let (mut req, mut ctx) = req_with(1);
    request(&mut req, &mut ctx, vec![1]);
    req.on_send_ack(&mut ctx, EndpointId(1));
    req.take_replies();
    ctx.take();
    req.recv(&mut ctx, Some(Scheduled(8)));
    assert!(ctx.take().is_empty());
    req.on_recv_timeout(&mut ctx);
    assert_eq!(
        failure(req.take_replies().pop()),
        (ErrorKind::TimedOut, "Recv timed out".to_string())
    );
    req.recv(&mut ctx, None);
    req.on_recv_ready(&mut ctx, EndpointId(1));
    assert!(matches!(ctx.take().as_slice(), [Effect::Recv(EndpointId(1))]));
}

#[test]
fn closing_a_request_socket_closes_its_pipes_and_clears_its_timer() {
    let (mut req, mut ctx) = req_with(2);
    request(&mut req, &mut ctx, vec![1]);
    req.on_send_ack(&mut ctx, EndpointId(1));
    let timer = match ctx.take().as_slice() {
        [Effect::Schedule(_, _, timer)] => *timer,
        other => panic!("unexpected orders {:?}", other),
    };
    req.close(&mut ctx);
    match ctx.take().as_slice() {
        [Effect::Close(EndpointId(1), true), Effect::Close(EndpointId(2), true), Effect::Cancel(cleared)] => {
            assert_eq!(*cleared, timer)
        }
        other => panic!("unexpected orders {:?}", other),
    }
    req.close(&mut ctx);
    assert!(ctx.take().is_empty());
}

/// A reply socket with the pipes 1 to `n`, each of which has a message.
fn rep_with(n: usize) -> (Rep, Recorder) {
    let mut rep = Rep::new();
    let mut ctx = Recorder::new();
    for eid in 1..=n {
        rep.add_pipe(&mut ctx, EndpointId(eid), handle(eid));
        rep.on_recv_ready(&mut ctx, EndpointId(eid));
    }
    ctx.take();
    (rep, ctx)
}

/// Receives the request with the bytes `payload` from the pipe whose turn
/// it is, and says which pipe that was.
fn serve(rep: &mut Rep, ctx: &mut Recorder, payload: Vec<u8>) -> usize {
    rep.recv(ctx, None);
    let from = match ctx.take().as_slice() {
        [Effect::Recv(eid)] => *eid,
        other => panic!("unexpected orders {:?}", other),
    };
    rep.on_recv_ack(ctx, from, Message::with_body(payload));
    from.0
}

#[test]
fn a_request_is_parted_into_routing_header_and_message() {
    assert_eq!(
        split_request(vec![0x80, 0, 0, 1, 65, 66]),
        Some((vec![0x80, 0, 0, 1], vec![65, 66]))
    );
    assert_eq!(
        split_request(vec![0, 0, 0, 9, 0x7f, 1, 2, 3, 0xff, 0, 0, 1, 65]),
        Some((vec![0, 0, 0, 9, 0x7f, 1, 2, 3, 0xff, 0, 0, 1], vec![65]))
    );
    assert_eq!(split_request(vec![0x80, 0, 0, 1]), Some((vec![0x80, 0, 0, 1], vec![])));
    assert_eq!(split_request(vec![]), None);
    assert_eq!(split_request(vec![0x80, 0, 0]), None);
    assert_eq!(split_request(vec![0, 0, 0, 1, 0x80, 0]), None);
    assert_eq!(split_request(vec![0, 0x80, 0, 0, 1, 2, 3, 4]), None);
}

#[test]
fn a_reply_carries_the_routing_header_of_its_request() {
    let (mut rep, mut ctx) = rep_with(2);
    assert_eq!(serve(&mut rep, &mut ctx, vec![0, 0, 0, 9, 0x80, 0, 0, 5, 65, 66]), 1);
    match rep.take_replies().as_slice() {
        [Reply::Recv(msg)] => {
            assert!(msg.get_header().is_empty());
            assert_eq!(msg.get_body(), &[65, 66]);
        }
        other => panic!("unexpected replies {:?}", other),
    }
    rep.send(&mut ctx, Message::with_body(vec![67]), Some(Scheduled(7)));
    match ctx.take().as_slice() {
        [Effect::Send(EndpointId(1), msg)] => {
            assert_eq!(msg.get_header(), &[0, 0, 0, 9, 0x80, 0, 0, 5]);
            assert_eq!(msg.get_body(), &[67]);
        }
        other => panic!("unexpected orders {:?}", other),
    }
    rep.on_send_ack(&mut ctx, EndpointId(2));
    assert!(rep.take_replies().is_empty());
    rep.on_send_ack(&mut ctx, EndpointId(1));
    assert!(matches!(rep.take_replies().as_slice(), [Reply::Send]));
    assert!(matches!(ctx.take().as_slice(), [Effect::Cancel(Scheduled(7))]));
    // The request is answered: there is none to answer now.
    rep.send(&mut ctx, abc(), None);
    assert_eq!(
        failure(rep.take_replies().pop()),
        (ErrorKind::InvalidInput, "Can't send: no pending request".to_string())
    );
}

#[test]
fn a_reply_before_a_request_changes_nothing() {
    let (mut rep, mut ctx) = rep_with(1);
    rep.send(&mut ctx, abc(), Some(Scheduled(7)));
    assert_eq!(failure(rep.take_replies().pop()).0, ErrorKind::InvalidInput);
    assert!(matches!(ctx.take().as_slice(), [Effect::Cancel(Scheduled(7))]));
    assert_eq!(serve(&mut rep, &mut ctx, vec![0x80, 0, 0, 1, 1]), 1);
    assert!(matches!(rep.take_replies().as_slice(), [Reply::Recv(_)]));
}

#[test]
fn a_request_whose_routing_header_does_not_end_is_dropped() {
    let (mut rep, mut ctx) = rep_with(2);
    assert_eq!(serve(&mut rep, &mut ctx, vec![0, 0, 0, 1, 65]), 1);
    assert!(rep.take_replies().is_empty());
    // The next pipe was asked at once.
    assert!(matches!(ctx.take().as_slice(), [Effect::Recv(EndpointId(2))]));
    rep.on_recv_ack(&mut ctx, EndpointId(2), Message::with_body(vec![0x80, 0, 0, 1, 65]));
    match rep.take_replies().as_slice() {
        [Reply::Recv(msg)] => assert_eq!(msg.get_body(), &[65]),
        other => panic!("unexpected replies {:?}", other),
    }
}

#[test]
fn a_reply_socket_serves_its_pipes_in_turn() {
    let (mut rep, mut ctx) = rep_with(3);
    let mut order = Vec::new();
    for _ in 0..6 {
        let from = serve(&mut rep, &mut ctx, vec![0x80, 0, 0, 1]);
        order.push(from);
        rep.take_replies();
        rep.on_recv_ready(&mut ctx, EndpointId(from));
        assert!(matches!(ctx.take().as_slice(), [Effect::Raise(Event::CanRecv)]));
    }
    assert_eq!(order, vec![1, 2, 3, 1, 2, 3]);
}

#[test]
fn a_reply_socket_without_a_pipe_is_not_connected() {
    let mut rep = Rep::new();
    let mut ctx = Recorder::new();
    rep.recv(&mut ctx, Some(Scheduled(8)));
    assert_eq!(
        failure(rep.take_replies().pop()),
        (ErrorKind::NotConnected, "no connected endpoint".to_string())
    );
    assert!(matches!(ctx.take().as_slice(), [Effect::Cancel(Scheduled(8))]));
}

#[test]
fn a_receive_on_hold_goes_on_and_times_out() {
    let mut rep = Rep::new();
    let mut ctx = Recorder::new();
    rep.add_pipe(&mut ctx, EndpointId(1), handle(1));
    rep.recv(&mut ctx, None);
    assert!(ctx.take().is_empty());
    rep.on_recv_ready(&mut ctx, EndpointId(1));
    assert!(matches!(ctx.take().as_slice(), [Effect::Recv(EndpointId(1))]));
    rep.on_recv_timeout(&mut ctx);
    assert_eq!(
        failure(rep.take_replies().pop()),
        (ErrorKind::TimedOut, "Recv timed out".to_string())
    );
    // What comes late is dropped.
    rep.on_recv_ack(&mut ctx, EndpointId(1), Message::with_body(vec![0x80, 0, 0, 1]));
    assert!(rep.take_replies().is_empty());
}

#[test]
fn a_request_whose_pipe_has_left_cannot_be_answered() {
    let (mut rep, mut ctx) = rep_with(2);
    assert_eq!(serve(&mut rep, &mut ctx, vec![0x80, 0, 0, 1, 1]), 1);
    rep.take_replies();
    assert!(rep.remove_pipe(&mut ctx, EndpointId(2)).is_some());
    assert!(rep.remove_pipe(&mut ctx, EndpointId(1)).is_some());
    assert!(rep.remove_pipe(&mut ctx, EndpointId(1)).is_none());
    rep.send(&mut ctx, abc(), None);
    assert_eq!(failure(rep.take_replies().pop()).0, ErrorKind::InvalidInput);
    assert!(ctx.take().is_empty());
}

#[test]
fn a_reply_whose_pipe_leaves_is_answered_with_an_error() {
    let (mut rep, mut ctx) = rep_with(1);
    assert_eq!(serve(&mut rep, &mut ctx, vec![0x80, 0, 0, 1, 1]), 1);
    rep.take_replies();
    rep.send(&mut ctx, abc(), Some(Scheduled(7)));
    assert!(matches!(ctx.take().as_slice(), [Effect::Send(EndpointId(1), _)]));
    assert!(rep.remove_pipe(&mut ctx, EndpointId(1)).is_some());
    assert_eq!(
        failure(rep.take_replies().pop()),
        (ErrorKind::NotConnected, "the pipe of the request is gone".to_string())
    );
    assert!(matches!(ctx.take().as_slice(), [Effect::Cancel(Scheduled(7))]));
}

#[test]
fn a_reply_times_out_and_its_request_is_given_up() {
    let (mut rep, mut ctx) = rep_with(1);
    assert_eq!(serve(&mut rep, &mut ctx, vec![0x80, 0, 0, 1, 1]), 1);
    rep.take_replies();
    rep.send(&mut ctx, abc(), Some(Scheduled(7)));
    ctx.take();
    rep.on_send_timeout(&mut ctx);
    assert_eq!(
        failure(rep.take_replies().pop()),
        (ErrorKind::TimedOut, "Send timed out".to_string())
    );
    rep.send(&mut ctx, abc(), None);
    assert_eq!(failure(rep.take_replies().pop()).0, ErrorKind::InvalidInput);
}

#[test]
fn a_reply_socket_ignores_timers_and_readiness_to_send() {
    let (mut rep, mut ctx) = rep_with(1);
    rep.on_timer_tick(&mut ctx, Schedulable::ReqResend);
    rep.on_send_ready(&mut ctx, EndpointId(1));
    assert!(ctx.take().is_empty());
    assert!(rep.take_replies().is_empty());
    rep.close(&mut ctx);
    assert!(matches!(ctx.take().as_slice(), [Effect::Close(EndpointId(1), true)]));
}
