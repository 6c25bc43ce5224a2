use yal::requests::PendingRequests;
use yal::socket::{
    parse_receive_mode, send_payload, sent_count, AllReader, ByteCountReader, LineReader, LineStep, ModeArg, ReceiveMode,
    SendData, SocketError,
};

#[test]
fn receive_modes() {
    assert_eq!(parse_receive_mode(ModeArg::Text("*l".to_string())), Ok(ReceiveMode::Line));
    assert_eq!(parse_receive_mode(ModeArg::Text("*a".to_string())), Ok(ReceiveMode::All));
    assert_eq!(parse_receive_mode(ModeArg::Integer(5)), Ok(ReceiveMode::Bytes(5)));
    assert_eq!(parse_receive_mode(ModeArg::Count(3)), Ok(ReceiveMode::Bytes(3)));
    assert_eq!(parse_receive_mode(ModeArg::Integer(0)), Err(SocketError::BadMode));
    assert_eq!(parse_receive_mode(ModeArg::Other), Err(SocketError::BadMode));
    let e = parse_receive_mode(ModeArg::Text("*n".to_string())).unwrap_err();
    assert_eq!(e.message(), "receive: expected \"*l\", \"*a\", or a byte count number");
    assert_eq!(SocketError::BadMode.message(), "receive: bad mode");
}

#[test]
fn lines() {
    let mut r = LineReader::new();
    for b in b"hi\r" {
        assert_eq!(r.push(Some(*b)), LineStep::More);
    }
    assert_eq!(r.push(Some(b'\n')), LineStep::Done);
    assert_eq!(r.finish(), b"hi".to_vec());

    let mut r = LineReader::new();
    assert_eq!(r.push(Some(b'a')), LineStep::More);
    assert_eq!(r.push(Some(b'\n')), LineStep::Done);
    assert_eq!(r.finish(), b"a".to_vec());

    let mut r = LineReader::new();
    assert_eq!(r.push(Some(b'x')), LineStep::More);
    assert_eq!(r.push(None), LineStep::Done);
    assert_eq!(r.finish(), b"x".to_vec());
}

#[test]
fn long_lines_and_large_reads() {
    let mut r = LineReader::new();
    let mut step = LineStep::More;
    let mut n = 0usize;
    while step == LineStep::More {
        step = r.push(Some(b'x'));
        n += 1;
    }
    assert_eq!(step, LineStep::TooLong);
    assert_eq!(n, 8 * 1024 * 1024 + 1);
    assert_eq!(SocketError::LineTooLong.message(), "line too long");

    let mut a = AllReader::new();
    let chunk = vec![7u8; 4096];
    for _ in 0..4096 {
        assert_eq!(a.push_chunk(&chunk), Ok(()));
    }
    assert_eq!(a.push_chunk(&[1]), Err(SocketError::TooLarge));
    assert_eq!(a.finish().len(), 16 * 1024 * 1024);
}

#[test]
fn pending_requests_are_answered_once() {
    let mut p: PendingRequests<u32> = PendingRequests::new();
    p.register("a".to_string(), 1);
    p.register("b".to_string(), 2);
    assert_eq!(p.len(), 2);
    assert_eq!(p.answer("a"), Ok(1));
    assert_eq!(p.answer("a"), Err("No responder found for id a".to_string()));
    assert_eq!(p.len(), 1);
    assert_eq!(p.answer("b"), Ok(2));
}

#[test]
fn byte_counts_stop_at_the_count() {
    let mut r = ByteCountReader::new(5);
    assert_eq!(r.remaining(), 5);
    assert!(!r.is_done());
    assert!(!r.push(b"he"));
    assert_eq!(r.remaining(), 3);
    assert!(r.push(b"llo"));
    assert_eq!(r.finish(), b"hello".to_vec());
}

#[test]
fn byte_counts_stop_when_the_peer_closes() {
    let mut r = ByteCountReader::new(10);
    assert!(!r.push(b"abc"));
    assert!(r.push(b""));
    assert!(r.is_done());
    assert_eq!(r.finish(), b"abc".to_vec());
    let mut e = ByteCountReader::new(4);
    assert!(e.push(&[]));
    assert!(e.finish().is_empty());
}

#[test]
fn send_takes_strings_and_byte_tables() {
    assert_eq!(send_payload(SendData::Text(b"ping".to_vec())), Ok(b"ping".to_vec()));
    assert_eq!(send_payload(SendData::ByteTable(vec![1, 2, 3])), Ok(vec![1, 2, 3]));
    let e = send_payload(SendData::Other).unwrap_err();
    assert_eq!(e, SocketError::BadSendData);
    assert_eq!(e.message(), "send: expected string or byte-array table");
    assert_eq!(sent_count(b"ping"), 4);
    assert_eq!(sent_count(&[]), 0);
}
