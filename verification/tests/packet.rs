use p2p_test::packet::recv_item;
use p2p_test::{recv_message_from, LogResult, RecvMessageError, SocketAddr};
use std::cell::RefCell;

const ADDR: SocketAddr = SocketAddr::V4 { ip: 0x7f00_0001, port: 4000 };

fn sum(bytes: &[u8]) -> Result<u32, String> {
    if bytes.contains(&0) {
        Err("zero".to_string())
    } else {
        Ok(bytes.iter().map(|b| *b as u32).sum())
    }
}

#[test]
fn message_is_parsed_from_the_received_bytes_alone() {
    let buf = [1u8, 2, 3, 0, 0];
    let message = recv_message_from(Ok((3, ADDR)), &buf, sum);
    assert_eq!(message.unwrap(), Some((6, ADDR)));
    let whole = recv_message_from(Ok((5, ADDR)), &buf, |bytes| Ok::<usize, String>(bytes.len()));
    assert_eq!(whole.unwrap(), Some((5, ADDR)));
}

#[test]
fn rest_of_the_buffer_has_no_influence() {
    for rest in [[0u8, 0], [9, 9], [0, 255]] {
        let buf = [4u8, 5, rest[0], rest[1]];
        assert_eq!(recv_message_from(Ok((2, ADDR)), &buf, sum).unwrap(), Some((9, ADDR)));
    }
}

#[test]
fn what_was_sent_is_received() {
    let sent = 0x0102_0304u32;
    let mut buf = [0xffu8; 16];
    buf[..4].copy_from_slice(&sent.to_le_bytes());
    let read = |bytes: &[u8]| {
        let bytes: [u8; 4] = bytes.try_into().map_err(|_| "size".to_string())?;
        Ok(u32::from_le_bytes(bytes))
    };
    assert_eq!(recv_message_from(Ok((4, ADDR)), &buf, read).unwrap(), Some((sent, ADDR)));
}

#[test]
fn empty_datagram_holds_no_message() {
    let message = recv_message_from(Ok((0, ADDR)), &[1, 2], |_| Ok::<u8, String>(1));
    assert_eq!(message.unwrap(), None);
}

#[test]
fn invalid_datagram_is_an_error() {
    let error = recv_message_from(Ok((2, ADDR)), &[1, 0], sum).unwrap_err();
    assert!(matches!(&error, RecvMessageError::Check(text) if text == "zero"));
    assert_eq!(error.message(), "while deserialize packet: zero");
}

#[test]
fn socket_error_is_passed_on() {
    let failure = std::io::Error::new(std::io::ErrorKind::Other, "broken");
    let error = recv_message_from(Err(failure), &[1], sum).unwrap_err();
    assert!(matches!(&error, RecvMessageError::Io(_)));
    assert_eq!(error.message(), "while reading data from socket: broken");
}

#[test]
fn stream_skips_empty_datagrams_only() {
    assert!(recv_item::<u8>(Ok(None)).is_none());
    assert_eq!(recv_item(Ok(Some((8u8, ADDR)))).unwrap().unwrap(), (8, ADDR));
    let error = RecvMessageError::Check("bad".to_string());
    assert!(matches!(
        recv_item::<u8>(Err(error)),
        Some(Err(RecvMessageError::Check(text))) if text == "bad"
    ));
}

#[test]
fn errors_are_reported_and_results_passed_through() {
    let seen: RefCell<Vec<String>> = RefCell::new(Vec::new());
    let ok: Result<u8, String> = Ok(3);
    assert_eq!(ok.log_error(|e| seen.borrow_mut().push(e.clone())), Ok(3));
    assert!(seen.borrow().is_empty());
    let err: Result<u8, String> = Err("down".to_string());
    let passed = err.log_error(|e| seen.borrow_mut().push(e.clone()));
    assert_eq!(passed, Err("down".to_string()));
    assert_eq!(*seen.borrow(), vec!["down".to_string()]);
}
