use scaproust::id::SocketId;
use scaproust::io_error::ErrorKind;
use scaproust::sequence::Sequence;
use scaproust::session::{Reply, Session};

#[test]
fn a_sequence_counts_up_from_zero() {
    let mut seq = Sequence::new();
    assert_eq!(seq.next(), Some(0));
    assert_eq!(seq.next(), Some(1));
    assert_eq!(seq.next(), Some(2));
}

#[test]
fn the_numbers_of_a_sequence_increase() {
    let mut seq = Sequence::new();
    let mut last = seq.next().unwrap();
    for _ in 0..1000 {
        let next = seq.next().unwrap();
        assert!(next > last);
        last = next;
    }
}

#[test]
fn sockets_get_increasing_names_and_the_user_is_told() {
    let mut session: Session<&'static str> = Session::new();
    session.add_socket(|| "first");
    session.add_socket(|| "second");
    session.add_socket(|| "third");
    let replies = session.take_replies();
    assert_eq!(replies.len(), 3);
    let mut last = None;
    for reply in replies {
        match reply {
            Reply::SocketCreated(id) => {
                if let Some(before) = last {
                    assert!(id.value() > before);
                }
                last = Some(id.value());
            }
            other => panic!("unexpected reply {:?}", other),
        }
    }
    assert_eq!(last, Some(2));
    assert!(session.take_replies().is_empty());
}

#[test]
fn a_name_is_not_given_twice_even_after_a_socket_has_left() {
    let mut session: Session<u32> = Session::new();
    session.add_socket(|| 10);
    session.add_socket(|| 11);
    assert_eq!(session.remove_socket(SocketId(1)), Some(11));
    session.add_socket(|| 12);
    match session.take_replies().pop() {
        Some(Reply::SocketCreated(id)) => assert_eq!(id, SocketId(2)),
        other => panic!("unexpected reply {:?}", other),
    }
    assert!(!session.has_socket(SocketId(1)));
    assert!(session.has_socket(SocketId(2)));
}

#[test]
fn do_on_socket_reaches_the_socket_that_is_named() {
    let mut session: Session<Vec<u8>> = Session::new();
    session.add_socket(|| vec![1]);
    session.add_socket(|| vec![2]);
    let mut seen = Vec::new();
    session.do_on_socket(SocketId(1), |s: &Vec<u8>| seen.push(s.clone()));
    assert_eq!(seen, vec![vec![2]]);
    session.do_on_socket_mut(SocketId(0), |s: &mut Vec<u8>| s.push(9));
    let mut seen = Vec::new();
    session.do_on_socket(SocketId(0), |s: &Vec<u8>| seen.push(s.clone()));
    session.do_on_socket(SocketId(1), |s: &Vec<u8>| seen.push(s.clone()));
    assert_eq!(seen, vec![vec![1, 9], vec![2]]);
}

#[test]
fn do_on_a_socket_that_is_not_there_does_nothing() {
    let mut session: Session<u32> = Session::new();
    session.add_socket(|| 1);
    let mut calls = 0;
    session.do_on_socket(SocketId(7), |_: &u32| calls += 1);
    session.do_on_socket_mut(SocketId(7), |_: &mut u32| calls += 1);
    assert_eq!(calls, 0);
}

#[test]
fn a_socket_that_is_closed_twice_is_removed_once() {
    let mut session: Session<u32> = Session::new();
    session.add_socket(|| 5);
    assert_eq!(session.remove_socket(SocketId(0)), Some(5));
    assert_eq!(session.remove_socket(SocketId(0)), None);
    let mut calls = 0;
    session.do_on_socket_mut(SocketId(0), |_: &mut u32| calls += 1);
    assert_eq!(calls, 0);
}

#[test]
fn no_socket_error_kind_is_other_when_names_run_out() {
    // the names cannot be used up in a test; the error's kind is fixed
    assert_eq!(scaproust::io_error::other_io_error("no socket id left").kind(), ErrorKind::Other);
}
