use scaproust::facade::received;
use scaproust::io_error::{
    from_notify_error, from_timer_error, invalid_data_io_error, invalid_input_io_error,
    other_io_error, timedout_io_error, would_block_io_error, ErrorKind, IoError, NotifyError,
    TimerError,
};

#[test]
fn other_io_error_is_of_kind_other() {
    let e = other_io_error("evt channel closed");
    assert_eq!(e.kind(), ErrorKind::Other);
    assert_eq!(e.message(), "evt channel closed");
}

#[test]
fn invalid_data_io_error_is_of_kind_invalid_data() {
    let e = invalid_data_io_error("received bad handshake");
    assert_eq!(e.kind(), ErrorKind::InvalidData);
    assert_eq!(e.message(), "received bad handshake");
}

#[test]
fn would_block_io_error_is_of_kind_would_block() {
    let e = would_block_io_error("failed to send handshake");
    assert_eq!(e.kind(), ErrorKind::WouldBlock);
    assert_eq!(e.message(), "failed to send handshake");
}

#[test]
fn invalid_input_io_error_is_of_kind_invalid_input() {
    let e = invalid_input_io_error("bad url");
    assert_eq!(e.kind(), ErrorKind::InvalidInput);
    assert_eq!(e.message(), "bad url");
}

#[test]
fn timedout_io_error_is_of_kind_timed_out() {
    let e = timedout_io_error("Send timed out");
    assert_eq!(e.kind(), ErrorKind::TimedOut);
    assert_eq!(e.message(), "Send timed out");
}

#[test]
fn every_kind_can_be_made() {
    for kind in [
        ErrorKind::NotConnected,
        ErrorKind::InvalidInput,
        ErrorKind::InvalidData,
        ErrorKind::TimedOut,
        ErrorKind::ConnectionReset,
        ErrorKind::ConnectionAborted,
        ErrorKind::WouldBlock,
        ErrorKind::Other,
    ] {
        let e = IoError::new(kind, "x");
        assert_eq!(e.kind(), kind);
        let copy = e.duplicate();
        assert_eq!(copy.kind(), kind);
        assert_eq!(copy.message(), "x");
    }
}

#[test]
fn notify_error_of_the_channel_passes_through() {
    let inner = IoError::new(ErrorKind::ConnectionReset, "gone");
    let e = from_notify_error::<u8>(NotifyError::Io(inner));
    assert_eq!(e.kind(), ErrorKind::ConnectionReset);
    assert_eq!(e.message(), "gone");
}

#[test]
fn notify_error_full_and_closed_are_other() {
    let full = from_notify_error(NotifyError::Full(5u8));
    assert_eq!(full.kind(), ErrorKind::Other);
    assert_eq!(full.message(), "channel full");
    let closed = from_notify_error(NotifyError::Closed(Some(5u8)));
    assert_eq!(closed.kind(), ErrorKind::Other);
    assert_eq!(closed.message(), "channel closed");
    let lost = from_notify_error::<u8>(NotifyError::Closed(None));
    assert_eq!(lost.kind(), ErrorKind::Other);
    assert_eq!(lost.message(), "channel closed");
}

#[test]
fn timer_error_is_other_with_the_timers_words() {
    let e = from_timer_error(TimerError { description: "too many timer entries".to_string() });
    assert_eq!(e.kind(), ErrorKind::Other);
    assert_eq!(e.message(), "too many timer entries");
}

#[test]
fn received_passes_a_value_and_reports_a_closed_channel() {
    assert_eq!(received(Some(7u32)).unwrap(), 7);
    let e = received::<u32>(None).unwrap_err();
    assert_eq!(e.kind(), ErrorKind::Other);
    assert_eq!(e.message(), "evt channel closed");
}
