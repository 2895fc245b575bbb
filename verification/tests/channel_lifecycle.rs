use agent_query::channel::Channel;
use agent_query::codec::encode_frame;
use agent_query::errors::{IoDetail, QueryError};

#[test]
fn send_on_never_connected_channel_fails_without_io() {
    let mut chan = Channel::unconnected();
    let r = chan.send(&b"payload".to_vec());
    assert!(matches!(r, Err(QueryError::NotConnected)));
    assert!(chan.written().is_empty());
}

#[test]
fn receive_on_never_connected_channel_fails() {
    let mut chan = Channel::unconnected();
    let r = chan.receive();
    assert!(matches!(r, Err(QueryError::NotConnected)));
}

#[test]
fn send_on_closed_channel_fails_without_io() {
    let mut chan = Channel::connect(Vec::new());
    chan.close();
    let r = chan.send(&b"payload".to_vec());
    assert!(matches!(r, Err(QueryError::NotConnected)));
    assert!(chan.written().is_empty());
}

#[test]
fn receive_on_closed_channel_fails() {
    let mut chan = Channel::connect(encode_frame(&b"ok".to_vec()));
    chan.close();
    let r = chan.receive();
    assert!(matches!(r, Err(QueryError::NotConnected)));
}

#[test]
fn close_is_idempotent() {
    let mut chan = Channel::connect(Vec::new());
    chan.close();
    chan.close();
    assert!(!chan.connected());
}

#[test]
fn send_writes_the_whole_frame() {
    let mut chan = Channel::connect(Vec::new());
    let r = chan.send(&b"abc".to_vec());
    assert!(r.is_ok());
    assert_eq!(chan.written(), &vec![3u8, 0, 0, 0, 97, 98, 99]);
}

#[test]
fn receive_returns_the_framed_payload() {
    let mut chan = Channel::connect(encode_frame(&b"ok {}".to_vec()));
    let r = chan.receive();
    assert_eq!(r.unwrap(), b"ok {}".to_vec());
}

#[test]
fn receive_fails_on_short_header() {
    let mut chan = Channel::connect(vec![9u8, 0]);
    let r = chan.receive();
    assert!(matches!(r, Err(QueryError::Io(IoDetail::ClosedEarly))));
}

#[test]
fn receive_fails_on_short_payload_never_truncates() {
    // The header promises nine bytes; the peer closes after three.
    let mut chan = Channel::connect(vec![9u8, 0, 0, 0, 1, 2, 3]);
    let r = chan.receive();
    assert!(matches!(r, Err(QueryError::Io(IoDetail::ClosedEarly))));
}
