use std::cell::RefCell;
use std::collections::VecDeque;
use std::rc::Rc;

use std::time::Duration;

use scaproust::context::{Effect, Recorder, Schedulable, Scheduled};
use scaproust::endpoint;
use scaproust::id::EndpointId;
use scaproust::io_error::{ErrorKind, IoError};
use scaproust::message::Message;
use scaproust::pipe::{Phase, Pipe, RecvStatus, SendStatus};
use scaproust::proto::respondent::Respondent;
use scaproust::proto::surveyor::Surveyor;
use scaproust::socket::{Protocol, Reply};
use scaproust::transport::{Connection, EventLoop, EventSet, Token};

type Stream = Rc<RefCell<VecDeque<u8>>>;

struct Line {
    outgoing: Stream,
    incoming: Stream,
}

fn lines() -> (Line, Line) {
    let a_to_b: Stream = Rc::new(RefCell::new(VecDeque::new()));
    let b_to_a: Stream = Rc::new(RefCell::new(VecDeque::new()));
    (
        Line { outgoing: a_to_b.clone(), incoming: b_to_a.clone() },
        Line { outgoing: b_to_a, incoming: a_to_b },
    )
}

impl Connection for Line {
    fn try_read(&mut self, buf: &mut [u8]) -> Result<Option<usize>, IoError> {
        let mut incoming = self.incoming.borrow_mut();
        let n = buf.len().min(incoming.len());
        if n == 0 {
            return Ok(None);
        }
        for slot in buf.iter_mut().take(n) {
            *slot = incoming.pop_front().unwrap();
        }
        Ok(Some(n))
    }

    fn try_write(&mut self, buf: &[u8]) -> Result<Option<usize>, IoError> {
        self.outgoing.borrow_mut().extend(buf.iter().copied());
        Ok(Some(buf.len()))
    }
}

/// What the protocols have in common for the tests.
trait Member: Protocol {
    fn replies(&mut self) -> Vec<Reply>;
}

impl Member for Surveyor {
    fn replies(&mut self) -> Vec<Reply> {
        self.take_replies()
    }
}

impl Member for Respondent {
    fn replies(&mut self) -> Vec<Reply> {
        self.take_replies()
    }
}


/// A socket with its pipes, and what carries out the orders that the
/// protocol gives.
struct Desk<P: Member> {
    socket: P,
    pipes: Vec<Pipe<Line>>,
    ctx: Recorder,
}

impl<P: Member> Desk<P> {
    fn new(socket: P) -> Desk<P> {
        Desk { socket, pipes: Vec::new(), ctx: Recorder::new() }
    }

    fn pipe(&mut self, eid: EndpointId) -> &mut Pipe<Line> {
        self.pipes.iter_mut().find(|pipe| pipe.get_token() == Token(eid.0)).unwrap()
    }

    /// Carries out what the protocol has ordered, until it orders nothing.
    fn pump(&mut self) {
        loop {
            let effects = self.ctx.take();
            if effects.is_empty() {
                return;
            }
            for effect in effects {
                match effect {
                    Effect::Send(eid, msg) => {
                        if let SendStatus::Completed = self.pipe(eid).send(msg).unwrap() {
                            self.socket.on_send_ack(&mut self.ctx, eid);
                            self.socket.on_send_ready(&mut self.ctx, eid);
                        }
                    }
                    Effect::Recv(eid) => {
                        if let RecvStatus::Completed(msg) = self.pipe(eid).recv().unwrap() {
                            self.socket.on_recv_ack(&mut self.ctx, eid, msg);
                            // The pipe says so if it has more.
                            if !self.pipe(eid).connection().unwrap().incoming.borrow().is_empty() {
                                self.socket.on_recv_ready(&mut self.ctx, eid);
                            }
                        }
                    }
                    _ => {}
                }
            }
        }
    }

    /// Tells the protocol of each pipe that has something.
    fn notice(&mut self) {
        for i in 0..self.pipes.len() {
            if !self.pipes[i].connection().unwrap().incoming.borrow().is_empty() {
                let eid = EndpointId(self.pipes[i].get_token().0);
                self.socket.on_recv_ready(&mut self.ctx, eid);
            }
        }
        self.pump();
    }

    fn send(&mut self, buffer: Vec<u8>) -> Result<(), IoError> {
        self.socket.send(&mut self.ctx, Message::with_body(buffer), None);
        self.pump();
        match self.socket.replies().pop() {
            Some(Reply::Send) => Ok(()),
            Some(Reply::Failed(e)) => Err(e),
            other => panic!("unexpected reply {:?}", other),
        }
    }

    fn recv(&mut self) -> Result<Vec<u8>, IoError> {
        self.socket.recv(&mut self.ctx, None);
        self.pump();
        self.notice();
        match self.socket.replies().pop() {
            Some(Reply::Recv(msg)) => Ok(msg.to_buffer()),
            Some(Reply::Failed(e)) => Err(e),
            other => panic!("unexpected reply {:?}", other),
        }
    }
}

/// Connects the two sockets by a pipe each, named `a` and `b`, over one
/// stream, and does the handshake.
fn attach<P: Member, Q: Member>(first: &mut Desk<P>, a: usize, second: &mut Desk<Q>, b: usize, url: &str) {
    let (x, y) = lines();
    let ids = (first.socket.id(), first.socket.peer_id());
    let mut p = Pipe::new(Token(a), Some(url.to_string()), ids, x);
    let ids = (second.socket.id(), second.socket.peer_id());
    let mut q = Pipe::new(Token(b), Some(url.to_string()), ids, y);
    let mut el = EventLoop::new();
    q.ready(&mut el, EventSet::writable()).unwrap();
    p.ready(&mut el, EventSet::all_but_failures()).unwrap();
    q.ready(&mut el, EventSet::readable()).unwrap();
    assert_eq!(p.current_phase(), Phase::Active);
    assert_eq!(q.current_phase(), Phase::Active);
    first.pipes.push(p);
    second.pipes.push(q);
    first.socket.add_pipe(&mut first.ctx, EndpointId(a), endpoint::Pipe::new(EndpointId(a), None));
    first.socket.on_send_ready(&mut first.ctx, EndpointId(a));
    first.ctx.take();
    second.socket.add_pipe(&mut second.ctx, EndpointId(b), endpoint::Pipe::new(EndpointId(b), None));
    second.socket.on_send_ready(&mut second.ctx, EndpointId(b));
    second.ctx.take();
}

fn second() -> Duration {
    Duration::from_secs(1)
}

#[test]
fn test_survey() {
    let mut server = Desk::new(Surveyor::new(second()));
    let mut client1 = Desk::new(Respondent::new());
    let mut client2 = Desk::new(Respondent::new());
    attach(&mut server, 1, &mut client1, 10, "tcp://127.0.0.1:5465");
    attach(&mut server, 2, &mut client2, 20, "tcp://127.0.0.1:5465");

    let server_survey = vec![65, 66, 67];
    server.send(server_survey).unwrap();

    let client1_survey = client1.recv().unwrap();
    assert_eq!(vec![65, 66, 67], client1_survey);

    let client2_survey = client2.recv().unwrap();
    assert_eq!(vec![65, 66, 67], client2_survey);

    client1.send(vec![65, 66, 65]).unwrap();
    let server_resp1 = server.recv().unwrap();
    assert_eq!(vec![65, 66, 65], server_resp1);

    client2.send(vec![67, 66, 67]).unwrap();
    let server_resp2 = server.recv().unwrap();
    assert_eq!(vec![67, 66, 67], server_resp2);
}

fn handle(eid: usize) -> endpoint::Pipe {
    endpoint::Pipe::new(EndpointId(eid), None)
}

fn abc() -> Message {
    Message::with_body(vec![65, 66, 67])
}

fn failure(reply: Option<Reply>) -> (ErrorKind, String) {
    match reply {
        Some(Reply::Failed(e)) => (e.kind(), e.message().to_string()),
        other => panic!("unexpected reply {:?}", other),
    }
}

/// A surveyor with the pipes 1 to `n`, each of which can send.
fn surveyor_with(n: usize) -> (Surveyor, Recorder) {
    let mut surveyor = Surveyor::new(second());
    let mut ctx = Recorder::new();
    for eid in 1..=n {
        surveyor.add_pipe(&mut ctx, EndpointId(eid), handle(eid));
        surveyor.on_send_ready(&mut ctx, EndpointId(eid));
    }
    assert!(ctx.take().is_empty());
    (surveyor, ctx)
}

#[test]
fn the_survey_protocols_talk_to_each_other() {
    let surveyor = Surveyor::new(second());
    assert_eq!(surveyor.id(), 0x62);
    assert_eq!(surveyor.peer_id(), 0x63);
    let respondent = Respondent::new();
    assert_eq!(respondent.id(), 0x63);
    assert_eq!(respondent.peer_id(), 0x62);
    assert_eq!(scaproust::proto::surveyor::State::Idle.name(), "Idle");
    assert_eq!(
        scaproust::proto::surveyor::State::Receiving(EndpointId(1), None).name(),
        "Receiving"
    );
    assert_eq!(scaproust::proto::surveyor::State::RecvOnHold(None).name(), "RecvOnHold");
}

#[test]
fn a_survey_goes_to_every_pipe_with_its_number_and_a_timer_is_set() {
    let (mut surveyor, mut ctx) = surveyor_with(2);
    surveyor.send(&mut ctx, abc(), Some(Scheduled(70)));
    let timer = match ctx.take().as_slice() {
        [Effect::Send(EndpointId(1), a), Effect::Send(EndpointId(2), b), Effect::Schedule(Schedulable::SurveyCancel, delay, timer), Effect::Cancel(Scheduled(70))] =>
        {
            assert_eq!(a.get_header(), &[0x80, 0, 0, 0]);
            assert_eq!(a.get_body(), &[65, 66, 67]);
            assert_eq!(b.get_header(), &[0x80, 0, 0, 0]);
            assert_eq!(*delay, second());
            *timer
        }
        other => panic!("unexpected orders {:?}", other),
    };
    assert!(matches!(surveyor.take_replies().as_slice(), [Reply::Send]));
    // The next survey ends this one: its timer is cleared. No pipe has said
    // that it can send again, so the survey goes nowhere.
    surveyor.set_survey_deadline(Duration::from_millis(20));
    surveyor.send(&mut ctx, abc(), None);
    match ctx.take().as_slice() {
        [Effect::Cancel(cleared), Effect::Schedule(Schedulable::SurveyCancel, delay, _)] => {
            assert_eq!(*cleared, timer);
            assert_eq!(*delay, Duration::from_millis(20));
        }
        other => panic!("unexpected orders {:?}", other),
    }
    surveyor.take_replies();
    surveyor.on_send_ready(&mut ctx, EndpointId(2));
    surveyor.send(&mut ctx, abc(), None);
    match ctx.take().as_slice() {
        [Effect::Cancel(_), Effect::Send(EndpointId(2), msg), Effect::Schedule(_, _, _)] => {
            assert_eq!(msg.get_header(), &[0x80, 0, 0, 2])
        }
        other => panic!("unexpected orders {:?}", other),
    }
}

#[test]
fn a_surveyor_is_given_the_responses_to_its_survey_only() {
    let (mut surveyor, mut ctx) = surveyor_with(2);
    surveyor.send(&mut ctx, abc(), None);
    ctx.take();
    surveyor.take_replies();
    surveyor.on_recv_ready(&mut ctx, EndpointId(1));
    surveyor.on_recv_ready(&mut ctx, EndpointId(2));
    ctx.take();
    surveyor.recv(&mut ctx, Some(Scheduled(8)));
    assert!(matches!(ctx.take().as_slice(), [Effect::Recv(EndpointId(1))]));
    // A response to another survey is dropped, and the next pipe is asked.
    surveyor.on_recv_ack(&mut ctx, EndpointId(1), Message::with_body(vec![0x80, 0, 0, 9, 1]));
    assert!(surveyor.take_replies().is_empty());
    assert!(matches!(ctx.take().as_slice(), [Effect::Recv(EndpointId(2))]));
    surveyor.on_recv_ack(&mut ctx, EndpointId(1), Message::with_body(vec![0x80, 0, 0, 0, 1]));
    assert!(surveyor.take_replies().is_empty());
    surveyor.on_recv_ack(&mut ctx, EndpointId(2), Message::with_body(vec![0x80, 0, 0, 0, 2, 3]));
    match surveyor.take_replies().as_slice() {
        [Reply::Recv(msg)] => assert_eq!(msg.get_body(), &[2, 3]),
        other => panic!("unexpected replies {:?}", other),
    }
    assert!(matches!(ctx.take().as_slice(), [Effect::Cancel(Scheduled(8))]));
}

#[test]
fn a_survey_that_ran_out_of_time_takes_no_more_responses() {
    let (mut surveyor, mut ctx) = surveyor_with(1);
    // No survey was made yet.
    surveyor.recv(&mut ctx, None);
    assert_eq!(
        failure(surveyor.take_replies().pop()),
        (ErrorKind::InvalidInput, "Can't recv: no pending survey".to_string())
    );
    surveyor.send(&mut ctx, abc(), None);
    ctx.take();
    surveyor.take_replies();
    // Another timer changes nothing.
    surveyor.on_timer_tick(&mut ctx, Schedulable::ReqResend);
    surveyor.recv(&mut ctx, Some(Scheduled(8)));
    assert!(ctx.take().is_empty());
    assert!(surveyor.take_replies().is_empty());
    // The user who is receiving is told when the survey is over.
    surveyor.on_timer_tick(&mut ctx, Schedulable::SurveyCancel);
    assert_eq!(
        failure(surveyor.take_replies().pop()),
        (ErrorKind::TimedOut, "survey timed out".to_string())
    );
    assert!(matches!(ctx.take().as_slice(), [Effect::Cancel(Scheduled(8))]));
    // So is the user who receives later.
    surveyor.on_recv_ready(&mut ctx, EndpointId(1));
    ctx.take();
    surveyor.recv(&mut ctx, None);
    assert_eq!(failure(surveyor.take_replies().pop()).0, ErrorKind::TimedOut);
    assert!(ctx.take().is_empty());
    surveyor.on_timer_tick(&mut ctx, Schedulable::SurveyCancel);
    assert!(surveyor.take_replies().is_empty());
    // A new survey takes responses again.
    surveyor.on_send_ready(&mut ctx, EndpointId(1));
    surveyor.send(&mut ctx, abc(), None);
    ctx.take();
    surveyor.take_replies();
    surveyor.recv(&mut ctx, None);
    assert!(matches!(ctx.take().as_slice(), [Effect::Recv(EndpointId(1))]));
}

#[test]
fn a_surveyor_without_a_pipe_is_not_connected() {
    let mut surveyor = Surveyor::new(second());
    let mut ctx = Recorder::new();
    surveyor.send(&mut ctx, abc(), Some(Scheduled(7)));
    assert_eq!(
        failure(surveyor.take_replies().pop()),
        (ErrorKind::NotConnected, "no connected endpoint".to_string())
    );
    assert!(matches!(ctx.take().as_slice(), [Effect::Cancel(Scheduled(7))]));
    surveyor.recv(&mut ctx, None);
    assert_eq!(failure(surveyor.take_replies().pop()).0, ErrorKind::InvalidInput);
}

#[test]
fn a_receive_of_a_response_waits_for_a_pipe_and_times_out() {
    let (mut surveyor, mut ctx) = surveyor_with(1);
    surveyor.send(&mut ctx, abc(), None);
    ctx.take();
    surveyor.take_replies();
    surveyor.recv(&mut ctx, Some(Scheduled(8)));
    assert!(ctx.take().is_empty());
    surveyor.on_recv_ready(&mut ctx, EndpointId(1));
    assert!(matches!(ctx.take().as_slice(), [Effect::Recv(EndpointId(1))]));
    assert_eq!(surveyor.remove_pipe(&mut ctx, EndpointId(1)).unwrap().id(), EndpointId(1));
    surveyor.on_recv_timeout(&mut ctx);
    assert_eq!(
        failure(surveyor.take_replies().pop()),
        (ErrorKind::TimedOut, "Recv timed out".to_string())
    );
    surveyor.on_send_ack(&mut ctx, EndpointId(1));
    surveyor.on_send_timeout(&mut ctx);
    assert!(surveyor.take_replies().is_empty());
    assert!(ctx.take().is_empty());
}

#[test]
fn closing_a_surveyor_closes_its_pipes_and_ends_its_survey() {
    let (mut surveyor, mut ctx) = surveyor_with(2);
    surveyor.add_pipe(&mut ctx, EndpointId(2), handle(9));
    assert!(matches!(ctx.take().as_slice(), [Effect::Close(EndpointId(9), true)]));
    surveyor.send(&mut ctx, abc(), None);
    let timer = match ctx.take().as_slice() {
        [_, _, Effect::Schedule(_, _, timer)] => *timer,
        other => panic!("unexpected orders {:?}", other),
    };
    surveyor.close(&mut ctx);
    match ctx.take().as_slice() {
        [Effect::Close(EndpointId(1), true), Effect::Close(EndpointId(2), true), Effect::Cancel(cleared)] => {
            assert_eq!(*cleared, timer)
        }
        other => panic!("unexpected orders {:?}", other),
    }
    surveyor.close(&mut ctx);
    assert!(ctx.take().is_empty());
}

#[test]
fn a_respondent_answers_the_survey_that_it_was_given() {
    let mut respondent = Respondent::new();
    let mut ctx = Recorder::new();
    respondent.add_pipe(&mut ctx, EndpointId(1), handle(1));
    respondent.send(&mut ctx, abc(), None);
    assert_eq!(failure(respondent.take_replies().pop()).0, ErrorKind::InvalidInput);
    respondent.on_recv_ready(&mut ctx, EndpointId(1));
    respondent.on_send_ready(&mut ctx, EndpointId(1));
    respondent.on_timer_tick(&mut ctx, Schedulable::SurveyCancel);
    ctx.take();
    respondent.recv(&mut ctx, None);
    assert!(matches!(ctx.take().as_slice(), [Effect::Recv(EndpointId(1))]));
    respondent.on_recv_ack(&mut ctx, EndpointId(1), Message::with_body(vec![0x80, 0, 0, 4, 65]));
    match respondent.take_replies().as_slice() {
        [Reply::Recv(msg)] => assert_eq!(msg.get_body(), &[65]),
        other => panic!("unexpected replies {:?}", other),
    }
    respondent.send(&mut ctx, Message::with_body(vec![66]), None);
    match ctx.take().as_slice() {
        [Effect::Send(EndpointId(1), msg)] => {
            assert_eq!(msg.get_header(), &[0x80, 0, 0, 4]);
            assert_eq!(msg.get_body(), &[66]);
        }
        other => panic!("unexpected orders {:?}", other),
    }
    respondent.on_send_ack(&mut ctx, EndpointId(1));
    assert!(matches!(respondent.take_replies().as_slice(), [Reply::Send]));
    respondent.recv(&mut ctx, None);
    respondent.on_recv_timeout(&mut ctx);
    assert_eq!(failure(respondent.take_replies().pop()).0, ErrorKind::TimedOut);
    respondent.send(&mut ctx, abc(), None);
    respondent.on_send_timeout(&mut ctx);
    respondent.take_replies();
    assert!(respondent.remove_pipe(&mut ctx, EndpointId(1)).is_some());
    respondent.add_pipe(&mut ctx, EndpointId(2), handle(2));
    ctx.take();
    respondent.close(&mut ctx);
    assert!(matches!(ctx.take().as_slice(), [Effect::Close(EndpointId(2), true)]));
}
