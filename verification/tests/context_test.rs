use std::rc::Rc;
use std::time::Duration;

use scaproust::acceptor::Acceptor;
use scaproust::context::{
    Context, Effect, EndpointDesc, EndpointSpec, Event, Network, Recorder, Schedulable, Scheduled,
    Scheduler,
};
use scaproust::endpoint::Pipe;
use scaproust::global::SocketType;
use scaproust::id::{EndpointId, SocketId};
use scaproust::io_error::{ErrorKind, IoError};
use scaproust::message::Message;
use scaproust::protocol::with_backtrace::{Backtrace, WithBacktrace};
use scaproust::socket::ConfigOption;
use scaproust::transport::{Connection, EventLoop, EventSet, Listener, PollOpt, PollRequest, Token};

#[test]
fn a_recorder_keeps_what_is_asked_in_order() {
    let mut ctx = Recorder::new();
    ctx.open(EndpointId(1), true);
    ctx.send(EndpointId(1), Rc::new(Message::with_body(vec![1])));
    ctx.recv(EndpointId(2));
    ctx.raise(Event::CanSend);
    ctx.cancel(Scheduled(3));
    ctx.close(EndpointId(1), false);
    let effects = ctx.take();
    assert!(matches!(
        effects.as_slice(),
        [
            Effect::Open(EndpointId(1), true),
            Effect::Send(EndpointId(1), _),
            Effect::Recv(EndpointId(2)),
            Effect::Raise(Event::CanSend),
            Effect::Cancel(Scheduled(3)),
            Effect::Close(EndpointId(1), false),
        ]
    ));
    assert!(ctx.take().is_empty());
}

#[test]
fn a_recorder_names_the_tasks_in_turn() {
    let mut ctx = Recorder::new();
    let first = ctx.schedule(Schedulable::SendTimeout, Duration::from_millis(50)).unwrap();
    let second = ctx.schedule(Schedulable::ReqResend, Duration::from_millis(100)).unwrap();
    assert_eq!(first, Scheduled(0));
    assert_eq!(second, Scheduled(1));
    match ctx.take().as_slice() {
        [Effect::Schedule(Schedulable::SendTimeout, d1, Scheduled(0)), Effect::Schedule(Schedulable::ReqResend, d2, Scheduled(1))] =>
        {
            assert_eq!(*d1, Duration::from_millis(50));
            assert_eq!(*d2, Duration::from_millis(100));
        }
        other => panic!("unexpected orders {:?}", other),
    }
    // the names go on after the orders were taken out
    let third = ctx
        .schedule(
            Schedulable::Reconnect(EndpointSpec {
                url: "tcp://127.0.0.1:5454".to_string(),
                desc: EndpointDesc {
                    send_priority: 8,
                    recv_priority: 8,
                    tcp_no_delay: false,
                    recv_max_size: 1024,
                },
            }),
            Duration::from_millis(1),
        )
        .unwrap();
    assert_eq!(third, Scheduled(2));
}

#[test]
fn a_handle_is_a_number() {
    let handle = Scheduled::from(17usize);
    assert_eq!(handle, Scheduled(17));
    assert_eq!(handle.value(), 17);
    let back: usize = handle.into();
    assert_eq!(back, 17);
}

#[test]
fn a_pipe_handle_passes_orders_on_under_its_own_name() {
    let mut ctx = Recorder::new();
    let pipe = Pipe::new(EndpointId(6), Some("ipc:///tmp/test_ipc.ipc".to_string()));
    assert_eq!(pipe.id(), EndpointId(6));
    assert_eq!(pipe.url(), &Some("ipc:///tmp/test_ipc.ipc".to_string()));
    pipe.open(&mut ctx);
    pipe.send(&mut ctx, Rc::new(Message::new()));
    pipe.recv(&mut ctx);
    pipe.close(&mut ctx);
    assert!(matches!(
        ctx.take().as_slice(),
        [
            Effect::Open(EndpointId(6), true),
            Effect::Send(EndpointId(6), _),
            Effect::Recv(EndpointId(6)),
            Effect::Close(EndpointId(6), true),
        ]
    ));
}

#[test]
fn the_protocols_have_their_ids_and_their_peers() {
    let table = [
        (SocketType::Pair, 0x10, SocketType::Pair),
        (SocketType::Pub, 0x20, SocketType::Sub),
        (SocketType::Sub, 0x21, SocketType::Pub),
        (SocketType::Req, 0x30, SocketType::Rep),
        (SocketType::Rep, 0x31, SocketType::Req),
        (SocketType::Push, 0x50, SocketType::Pull),
        (SocketType::Pull, 0x51, SocketType::Push),
        (SocketType::Surveyor, 0x62, SocketType::Respondent),
        (SocketType::Respondent, 0x63, SocketType::Surveyor),
        (SocketType::Bus, 0x70, SocketType::Bus),
    ];
    for (socket_type, id, peer) in table {
        assert_eq!(socket_type.id(), id);
        assert_eq!(socket_type.peer(), peer);
        assert_eq!(socket_type.peer().peer(), socket_type);
    }
}

#[test]
fn names_and_tokens_are_numbers() {
    assert_eq!(SocketId(3).value(), 3);
    assert_eq!(EndpointId(4).value(), 4);
    assert_eq!(EndpointId::of_token(Token(9)), EndpointId(9));
    assert_eq!(EndpointId(9).token(), Token(9));
}

#[test]
fn a_message_has_header_and_body() {
    let empty = Message::new();
    assert_eq!(empty.len(), 0);
    let body_only = Message::with_body(vec![1, 2, 3]);
    assert_eq!(body_only.len(), 3);
    assert!(body_only.get_header().is_empty());
    assert_eq!(body_only.get_body(), &[1, 2, 3]);
    let both = Message::with_header_and_body(vec![0x80, 0, 0, 1], vec![1, 2, 3]);
    assert_eq!(both.len(), 7);
    assert_eq!(both.get_header(), &[0x80, 0, 0, 1]);
    assert_eq!(both.get_body(), &[1, 2, 3]);
    let (header, body) = both.explode();
    assert_eq!(header, vec![0x80, 0, 0, 1]);
    assert_eq!(body, vec![1, 2, 3]);
    assert_eq!(body_only.to_buffer(), vec![1, 2, 3]);
}

#[test]
fn a_backtrace_is_set_and_cleared() {
    let mut kept = Backtrace::new();
    assert!(kept.backtrace().is_empty());
    kept.set_backtrace(&[0x80, 0, 0, 1, 0x80, 0, 0, 2]);
    assert_eq!(kept.backtrace(), &[0x80, 0, 0, 1, 0x80, 0, 0, 2]);
    kept.set_backtrace(&[7]);
    assert_eq!(kept.backtrace(), &[7]);
    assert_eq!(kept.get_backtrace(), &vec![7]);
    kept.clear_backtrace();
    assert!(kept.backtrace().is_empty());
}

#[test]
fn event_sets_are_made_and_joined() {
    let all = EventSet::all();
    assert!(all.is_readable() && all.is_writable() && all.is_error() && all.is_hup());
    let none = EventSet::none();
    assert!(!none.is_readable() && !none.is_writable() && !none.is_error() && !none.is_hup());
    assert!(EventSet::readable().is_readable() && !EventSet::readable().is_writable());
    assert!(EventSet::writable().is_writable() && !EventSet::writable().is_readable());
    assert!(EventSet::error().is_error() && !EventSet::error().is_hup());
    assert!(EventSet::hup().is_hup() && !EventSet::hup().is_error());
    let both = EventSet::readable().union(EventSet::hup());
    assert!(both.is_readable() && both.is_hup() && !both.is_writable() && !both.is_error());
    assert_eq!(EventSet::readable().union(EventSet::writable()), EventSet::all_but_failures());
}

#[test]
fn the_event_loop_keeps_what_is_asked_in_order() {
    let mut el = EventLoop::new();
    el.register(Token(1), EventSet::all(), PollOpt::OneShot);
    el.reregister(Token(1), EventSet::readable(), PollOpt::Edge);
    el.clear_timeout(Scheduled(4));
    el.deregister(Token(1));
    el.shutdown();
    assert_eq!(
        el.take_requests(),
        vec![
            PollRequest::Register(Token(1), EventSet::all(), PollOpt::OneShot),
            PollRequest::Reregister(Token(1), EventSet::readable(), PollOpt::Edge),
            PollRequest::ClearTimeout(Scheduled(4)),
            PollRequest::Deregister(Token(1)),
            PollRequest::Shutdown,
        ]
    );
    assert!(el.take_requests().is_empty());
}

struct NoConnection;

impl Connection for NoConnection {
    fn try_read(&mut self, _: &mut [u8]) -> Result<Option<usize>, IoError> {
        Ok(None)
    }

    fn try_write(&mut self, _: &[u8]) -> Result<Option<usize>, IoError> {
        Ok(None)
    }
}

struct Backlog {
    waiting: usize,
    asked: usize,
}

impl Listener for Backlog {
    type Conn = NoConnection;

    fn accept(&mut self) -> Result<Vec<NoConnection>, IoError> {
        self.asked += 1;
        let n = self.waiting;
        self.waiting = 0;
        Ok((0..n).map(|_| NoConnection).collect())
    }
}

#[test]
fn an_acceptor_takes_in_what_waits_when_it_is_readable() {
    let mut acceptor =
        Acceptor::new(Token(2), "tcp://127.0.0.1:5454".to_string(), Backlog { waiting: 3, asked: 0 });
    let mut el = EventLoop::new();
    acceptor.open(&mut el);
    assert_eq!(
        el.take_requests(),
        vec![PollRequest::Register(
            Token(2),
            EventSet::error().union(EventSet::readable()),
            PollOpt::Edge
        )]
    );
    assert_eq!(acceptor.ready(&mut el, EventSet::readable()).unwrap().len(), 3);
    assert_eq!(acceptor.ready(&mut el, EventSet::readable()).unwrap().len(), 0);
    acceptor.close(&mut el);
    assert_eq!(el.take_requests(), vec![PollRequest::Deregister(Token(2))]);
    assert_eq!(acceptor.addr(), "tcp://127.0.0.1:5454");
}

#[test]
fn an_acceptor_that_is_not_readable_fails_and_asks_nothing_of_the_listener() {
    let mut acceptor =
        Acceptor::new(Token(2), "tcp://127.0.0.1:5454".to_string(), Backlog { waiting: 3, asked: 0 });
    let mut el = EventLoop::new();
    let err = match acceptor.ready(&mut el, EventSet::writable()) {
        Err(err) => err,
        Ok(_) => panic!("the listener was not readable"),
    };
    assert_eq!(err.kind(), ErrorKind::Other);
    assert_eq!(err.message(), "tcp listener ready but not readable");
    assert!(el.take_requests().is_empty());
    // what waited still waits
    assert_eq!(acceptor.ready(&mut el, EventSet::readable()).unwrap().len(), 3);
}

#[test]
fn a_priority_is_a_number_from_1_to_16() {
    for p in 1..=16u8 {
        assert!(ConfigOption::SendPriority(p).check().is_ok());
        assert!(ConfigOption::RecvPriority(p).check().is_ok());
    }
    for p in [0u8, 17, 255] {
        let err = ConfigOption::SendPriority(p).check().unwrap_err();
        assert_eq!(err.kind(), ErrorKind::InvalidInput);
        assert_eq!(err.message(), "a priority is a number from 1 to 16");
        assert!(ConfigOption::RecvPriority(p).check().is_err());
    }
    assert!(ConfigOption::SendTimeout(Duration::from_millis(50)).check().is_ok());
    assert!(ConfigOption::Subscribe(vec![]).check().is_ok());
}
