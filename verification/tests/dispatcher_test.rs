use std::rc::Rc;

use scaproust::context::{EndpointDesc, EndpointSpec, Event, Schedulable};
use scaproust::device;
use scaproust::id::{DeviceId, EndpointId, SocketId};
use scaproust::io_error::{ErrorKind, IoError};
use scaproust::message::Message;
use scaproust::reactor::adapter::EndpointCollection;
use scaproust::reactor::bus::EventLoopBus;
use scaproust::reactor::dispatcher::{
    arrange, source, Action, Dispatcher, Handled, SocketCall, Source, BUS_TOKEN, CHANNEL_TOKEN,
    TIMER_CAPACITY, TIMER_SLOTS, TIMER_TICK_MS, TIMER_TOKEN,
};
use scaproust::reactor::signal::{
    AcceptorCommand, AcceptorEvent, PipeCommand, PipeEvent, Request, Signal, Task,
};
use scaproust::session;
use scaproust::socket;
use scaproust::transport::{EventSet, Token};

type TestDispatcher = Dispatcher<&'static str, &'static str, &'static str>;
type Ctor = fn() -> &'static str;

fn a_socket() -> &'static str {
    "socket"
}

fn with_sockets(n: usize) -> TestDispatcher {
    let mut dispatcher = TestDispatcher::new();
    let requests: Vec<Request<Ctor>> = (0..n)
        .map(|_| Request::Session(session::Request::CreateSocket(a_socket as Ctor)))
        .collect();
    assert!(dispatcher.process_channel(requests).is_empty());
    dispatcher
}

fn spec(url: &str) -> EndpointSpec {
    EndpointSpec {
        url: url.to_string(),
        desc: EndpointDesc { send_priority: 8, recv_priority: 8, tcp_no_delay: false, recv_max_size: 1024 },
    }
}

#[test]
fn the_reserved_tokens_are_next_to_the_greatest_number() {
    assert_eq!(CHANNEL_TOKEN, usize::MAX - 1);
    assert_eq!(BUS_TOKEN, usize::MAX - 2);
    assert_eq!(TIMER_TOKEN, usize::MAX - 3);
}

#[test]
fn the_timer_ticks_every_25_ms_on_1024_slots_for_8192_deadlines() {
    assert_eq!(TIMER_TICK_MS, 25);
    assert_eq!(TIMER_SLOTS, 1024);
    assert_eq!(TIMER_CAPACITY, 8192);
}

#[test]
fn a_token_names_its_source() {
    assert_eq!(source(Token(usize::MAX - 1)), Source::Channel);
    assert_eq!(source(Token(usize::MAX - 2)), Source::Bus);
    assert_eq!(source(Token(usize::MAX - 3)), Source::Timer);
    assert_eq!(source(Token(0)), Source::Io(EndpointId(0)));
    assert_eq!(source(Token(usize::MAX - 4)), Source::Io(EndpointId(usize::MAX - 4)));
    assert_eq!(source(Token(usize::MAX)), Source::Io(EndpointId(usize::MAX)));
}

#[test]
fn reports_are_arranged_channel_first_then_endpoints_then_bus_then_timer() {
    let r = EventSet::readable();
    let w = EventSet::writable();
    let reports = vec![
        (Token(TIMER_TOKEN), r),
        (Token(5), r),
        (Token(BUS_TOKEN), r),
        (Token(2), w),
        (Token(CHANNEL_TOKEN), r),
        (Token(5), w),
    ];
    assert_eq!(
        arrange(reports),
        vec![
            (Token(CHANNEL_TOKEN), r),
            (Token(5), r),
            (Token(2), w),
            (Token(5), w),
            (Token(BUS_TOKEN), r),
            (Token(TIMER_TOKEN), r),
        ]
    );
    assert!(arrange(vec![]).is_empty());
}

#[test]
fn handle_leaves_the_channel_and_the_timer_to_their_owner() {
    let mut dispatcher = with_sockets(1);
    assert!(matches!(dispatcher.handle(Token(CHANNEL_TOKEN), EventSet::readable()), Handled::Channel));
    assert!(matches!(dispatcher.handle(Token(TIMER_TOKEN), EventSet::readable()), Handled::Timer));
}

#[test]
fn handle_sends_readiness_to_the_endpoint_that_goes_by_the_token() {
    let mut dispatcher = with_sockets(1);
    let pipe = dispatcher.get_endpoints_mut().insert_pipe(SocketId(0), "pipe").unwrap();
    let acceptor = dispatcher.get_endpoints_mut().insert_acceptor(SocketId(0), "acceptor").unwrap();
    assert_eq!(pipe, EndpointId(0));
    assert_eq!(acceptor, EndpointId(1));
    match dispatcher.handle(Token(0), EventSet::readable()) {
        Handled::Done(actions) => assert!(matches!(
            actions.as_slice(),
            [Action::PipeReady(EndpointId(0), e)] if *e == EventSet::readable()
        )),
        other => panic!("unexpected {:?}", other),
    }
    match dispatcher.handle(Token(1), EventSet::all()) {
        Handled::Done(actions) => assert!(matches!(
            actions.as_slice(),
            [Action::AcceptorReady(EndpointId(1), e)] if *e == EventSet::all()
        )),
        other => panic!("unexpected {:?}", other),
    }
    match dispatcher.handle(Token(2), EventSet::all()) {
        Handled::Done(actions) => assert!(actions.is_empty()),
        other => panic!("unexpected {:?}", other),
    }
}

#[test]
fn a_request_to_create_a_socket_adds_it_and_the_user_is_told() {
    let mut dispatcher = with_sockets(2);
    assert!(dispatcher.get_sockets().has_socket(SocketId(0)));
    assert!(dispatcher.get_sockets().has_socket(SocketId(1)));
    assert!(!dispatcher.get_sockets().has_socket(SocketId(2)));
    let replies = dispatcher.get_sockets_mut().take_replies();
    assert!(matches!(
        replies.as_slice(),
        [session::Reply::SocketCreated(SocketId(0)), session::Reply::SocketCreated(SocketId(1))]
    ));
}

#[test]
fn requests_to_a_socket_become_calls_on_it() {
    let mut dispatcher = with_sockets(1);
    let requests: Vec<Request<Ctor>> = vec![
        Request::Socket(SocketId(0), socket::Request::Connect("tcp://127.0.0.1:5454".to_string())),
        Request::Socket(SocketId(0), socket::Request::Bind("tcp://127.0.0.1:5455".to_string())),
        Request::Socket(SocketId(0), socket::Request::Send(Message::with_body(vec![65, 66, 67]))),
        Request::Socket(SocketId(0), socket::Request::Recv),
        Request::Socket(SocketId(0), socket::Request::SetOption(socket::ConfigOption::SendPriority(3))),
        Request::Socket(SocketId(0), socket::Request::Close),
        // to a socket that is not there: nothing
        Request::Socket(SocketId(9), socket::Request::Recv),
        Request::Device(DeviceId(4), device::Request::Check),
        Request::Session(session::Request::CreateDevice(SocketId(0), SocketId(9))),
        Request::Session(session::Request::Shutdown),
    ];
    let actions = dispatcher.process_channel(requests);
    match actions.as_slice() {
        [Action::Socket(SocketId(0), SocketCall::Connect(connect)), Action::Socket(SocketId(0), SocketCall::Bind(bind)), Action::Socket(SocketId(0), SocketCall::Send(msg)), Action::Socket(SocketId(0), SocketCall::Recv), Action::Socket(SocketId(0), SocketCall::SetOption(socket::ConfigOption::SendPriority(3))), Action::Socket(SocketId(0), SocketCall::Close), Action::CheckDevice(DeviceId(4)), Action::Socket(SocketId(0), SocketCall::OnDevicePlugged), Action::AddDevice(SocketId(0), SocketId(9)), Action::Shutdown] =>
        {
            assert_eq!(connect, "tcp://127.0.0.1:5454");
            assert_eq!(bind, "tcp://127.0.0.1:5455");
            assert_eq!(msg.get_body(), &[65, 66, 67]);
        }
        other => panic!("unexpected actions {:?}", other),
    }
}

#[test]
fn tasks_of_the_timer_become_calls_on_their_socket() {
    let dispatcher = with_sockets(1);
    let tasks = vec![
        Task::Socket(SocketId(0), Schedulable::Reconnect(spec("tcp://a"))),
        Task::Socket(SocketId(0), Schedulable::Rebind(spec("tcp://b"))),
        Task::Socket(SocketId(0), Schedulable::SendTimeout),
        Task::Socket(SocketId(0), Schedulable::RecvTimeout),
        Task::Socket(SocketId(0), Schedulable::ReqResend),
        Task::Socket(SocketId(0), Schedulable::SurveyCancel),
        Task::Socket(SocketId(3), Schedulable::SendTimeout),
    ];
    let actions = dispatcher.process_timer(tasks);
    match actions.as_slice() {
        [Action::Socket(SocketId(0), SocketCall::Reconnect(a)), Action::Socket(SocketId(0), SocketCall::Rebind(b)), Action::Socket(SocketId(0), SocketCall::OnSendTimeout), Action::Socket(SocketId(0), SocketCall::OnRecvTimeout), Action::Socket(SocketId(0), SocketCall::OnTimerTick(Schedulable::ReqResend)), Action::Socket(SocketId(0), SocketCall::OnTimerTick(Schedulable::SurveyCancel))] =>
        {
            assert_eq!(a.url, "tcp://a");
            assert_eq!(b.url, "tcp://b");
        }
        other => panic!("unexpected actions {:?}", other),
    }
}

#[test]
fn signals_are_dealt_with_in_the_order_in_which_they_were_sent() {
    let mut dispatcher = with_sockets(1);
    let pipe = dispatcher.get_endpoints_mut().insert_pipe(SocketId(0), "pipe").unwrap();
    let acceptor = dispatcher.get_endpoints_mut().insert_acceptor(SocketId(0), "acceptor").unwrap();
    let sid = SocketId(0);
    dispatcher.signal(Signal::PipeCmd(sid, pipe, PipeCommand::Open));
    dispatcher.signal(Signal::PipeCmd(sid, EndpointId(77), PipeCommand::Recv));
    dispatcher.signal(Signal::AcceptorCmd(sid, acceptor, AcceptorCommand::Open));
    dispatcher.signal(Signal::AcceptorCmd(sid, pipe, AcceptorCommand::Close));
    dispatcher.signal(Signal::PipeEvt(sid, pipe, PipeEvent::Opened));
    dispatcher.signal(Signal::PipeEvt(sid, pipe, PipeEvent::CanSend));
    dispatcher.signal(Signal::PipeEvt(sid, pipe, PipeEvent::Sent));
    dispatcher.signal(Signal::PipeEvt(sid, pipe, PipeEvent::CanRecv));
    dispatcher.signal(Signal::PipeEvt(sid, pipe, PipeEvent::Received(Message::with_body(vec![1]))));
    dispatcher.signal(Signal::PipeEvt(
        sid,
        pipe,
        PipeEvent::Error(IoError::new(ErrorKind::ConnectionReset, "event: hup")),
    ));
    dispatcher.signal(Signal::PipeEvt(SocketId(5), pipe, PipeEvent::Sent));
    dispatcher.signal(Signal::AcceptorEvt(
        sid,
        acceptor,
        AcceptorEvent::Error(IoError::new(ErrorKind::Other, "x")),
    ));
    dispatcher.signal(Signal::AcceptorEvt(sid, acceptor, AcceptorEvent::Opened));
    dispatcher.signal(Signal::SocketEvt(sid, Event::CanRecv));
    dispatcher.signal(Signal::SocketEvt(sid, Event::CanSend));
    let actions = match dispatcher.handle(Token(BUS_TOKEN), EventSet::readable()) {
        Handled::Done(actions) => actions,
        other => panic!("unexpected {:?}", other),
    };
    match actions.as_slice() {
        [Action::Pipe(EndpointId(0), PipeCommand::Open), Action::Acceptor(EndpointId(1), AcceptorCommand::Open), Action::Socket(SocketId(0), SocketCall::OnPipeOpened(EndpointId(0))), Action::Socket(SocketId(0), SocketCall::OnSendReady(EndpointId(0))), Action::Socket(SocketId(0), SocketCall::OnSendAck(EndpointId(0))), Action::Socket(SocketId(0), SocketCall::OnRecvReady(EndpointId(0))), Action::Socket(SocketId(0), SocketCall::OnRecvAck(EndpointId(0), msg)), Action::Socket(SocketId(0), SocketCall::OnPipeError(EndpointId(0), err)), Action::Socket(SocketId(0), SocketCall::OnAcceptorError(EndpointId(1), _)), Action::DeviceCanRecv(SocketId(0))] =>
        {
            assert_eq!(msg.get_body(), &[1]);
            assert_eq!(err.kind(), ErrorKind::ConnectionReset);
        }
        other => panic!("unexpected actions {:?}", other),
    }
    // the bus is empty now
    assert!(dispatcher.process_bus().is_empty());
}

#[test]
fn accepted_connections_become_pipes_with_fresh_names() {
    let mut dispatcher = with_sockets(1);
    let acceptor = dispatcher.get_endpoints_mut().insert_acceptor(SocketId(0), "acceptor").unwrap();
    dispatcher.signal(Signal::AcceptorEvt(
        SocketId(0),
        acceptor,
        AcceptorEvent::Accepted(vec!["first", "second", "third"]),
    ));
    let actions = dispatcher.process_bus();
    assert!(matches!(
        actions.as_slice(),
        [
            Action::Socket(SocketId(0), SocketCall::OnPipeAccepted(EndpointId(0), EndpointId(1))),
            Action::Socket(SocketId(0), SocketCall::OnPipeAccepted(EndpointId(0), EndpointId(2))),
            Action::Socket(SocketId(0), SocketCall::OnPipeAccepted(EndpointId(0), EndpointId(3))),
        ]
    ));
    for eid in 1..=3 {
        assert!(dispatcher.get_endpoints().has_pipe(EndpointId(eid)));
    }
    let mut seen = Vec::new();
    dispatcher.get_endpoints_mut().do_on_pipe_mut(EndpointId(2), |p: &mut &'static str| seen.push(*p));
    assert_eq!(seen, vec!["second"]);
}

#[test]
fn a_pipe_that_is_closed_leaves_the_endpoints() {
    let mut dispatcher = with_sockets(1);
    let pipe = dispatcher.get_endpoints_mut().insert_pipe(SocketId(0), "pipe").unwrap();
    dispatcher.signal(Signal::PipeEvt(SocketId(0), pipe, PipeEvent::Closed));
    dispatcher.signal(Signal::PipeCmd(SocketId(0), pipe, PipeCommand::Send(Rc::new(Message::new()))));
    assert!(dispatcher.process_bus().is_empty());
    assert!(!dispatcher.get_endpoints().has_pipe(pipe));
}

#[test]
fn a_socket_that_is_closed_leaves_the_session_and_a_second_close_finds_nothing() {
    let mut dispatcher = with_sockets(1);
    let close: Vec<Request<Ctor>> = vec![Request::Socket(SocketId(0), socket::Request::Close)];
    assert!(matches!(
        dispatcher.process_channel(close).as_slice(),
        [Action::Socket(SocketId(0), SocketCall::Close)]
    ));
    // the socket says that it is closed
    dispatcher.signal(Signal::SocketEvt(SocketId(0), Event::Closed));
    assert!(dispatcher.process_bus().is_empty());
    assert!(!dispatcher.get_sockets().has_socket(SocketId(0)));
    // the second close is for nobody
    let close: Vec<Request<Ctor>> = vec![Request::Socket(SocketId(0), socket::Request::Close)];
    assert!(dispatcher.process_channel(close).is_empty());
}

#[test]
fn endpoints_get_increasing_names() {
    let mut endpoints: EndpointCollection<u8, u8> = EndpointCollection::new();
    let mut last = None;
    for round in 0..20u8 {
        let id = if round % 3 == 0 {
            endpoints.insert_acceptor(SocketId(0), round).unwrap()
        } else {
            endpoints.insert_pipe(SocketId(0), round).unwrap()
        };
        if let Some(before) = last {
            assert!(id.value() > before);
        }
        last = Some(id.value());
        if round % 3 == 1 {
            assert_eq!(endpoints.remove_pipe(id), Some(round));
            assert_eq!(endpoints.remove_pipe(id), None);
        }
    }
}

#[test]
fn the_bus_is_first_in_first_out() {
    let mut bus: EventLoopBus<u32> = EventLoopBus::new();
    assert_eq!(bus.recv(), None);
    bus.send(1);
    bus.send(2);
    bus.send(3);
    assert_eq!(bus.len(), 3);
    assert_eq!(bus.recv(), Some(1));
    bus.send(4);
    assert_eq!(bus.take_all(), vec![2, 3, 4]);
    assert_eq!(bus.len(), 0);
    assert_eq!(bus.recv(), None);
}
