use chess_net::framing::{
    FrameError, JsonTcpStream, ReadOutcome, Scan, frame, scan, seal, HEADER_LEN, MAX_PAYLOAD,
};

fn sample() -> Vec<u8> {
    b"{\"Move\":{\"start_x\":4,\"start_y\":1,\"end_x\":4,\"end_y\":3}}".to_vec()
}

#[test]
fn frame_is_length_then_payload() {
    let payload = b"{\"a\":1}".to_vec();
    let framed = frame(&payload).unwrap();
    assert_eq!(&framed[..4], &[0u8, 0, 0, 7]);
    assert_eq!(&framed[4..], &payload[..]);
    assert_eq!(framed.len(), HEADER_LEN + payload.len());
}

#[test]
fn frame_header_is_big_endian() {
    let mut payload = vec![b' '; 70000];
    payload[0] = b'1';
    let framed = frame(&payload).unwrap();
    assert_eq!(&framed[..4], &[0u8, 1, 17, 112]);
    assert_eq!(framed.len(), 70004);
}

#[test]
fn frame_refuses_what_is_no_json() {
    assert_eq!(frame(b"{\"a\":"), Err(FrameError::Malformed));
    assert_eq!(frame(b""), Err(FrameError::Malformed));
    assert_eq!(frame(b"{} {}"), Err(FrameError::Malformed));
}

#[test]
fn frame_refuses_too_large() {
    let payload = vec![b' '; MAX_PAYLOAD + 1];
    assert_eq!(frame(&payload), Err(FrameError::TooLarge));
    let mut largest = vec![b' '; MAX_PAYLOAD];
    largest[0] = b'7';
    assert!(frame(&largest).is_ok());
}

#[test]
fn seal_follows_the_verdict_given() {
    assert_eq!(seal(b"xyz", true), Ok(vec![0, 0, 0, 3, b'x', b'y', b'z']));
    assert_eq!(seal(b"xyz", false), Err(FrameError::Malformed));
    assert_eq!(seal(b"", true), Ok(vec![0, 0, 0, 0]));
    assert_eq!(seal(&vec![0u8; MAX_PAYLOAD + 1], true), Err(FrameError::TooLarge));
}

#[test]
fn scan_tells_what_is_there() {
    assert_eq!(scan(&vec![]), Scan::Incomplete);
    assert_eq!(scan(&vec![0, 0, 0]), Scan::Incomplete);
    assert_eq!(scan(&vec![0, 0, 0, 0]), Scan::Complete { payload_len: 0 });
    assert_eq!(scan(&vec![0, 0, 0, 2, b'1']), Scan::Incomplete);
    assert_eq!(scan(&vec![0, 0, 0, 2, b'1', b'2']), Scan::Complete { payload_len: 2 });
    assert_eq!(scan(&vec![0, 0, 0, 2, b'1', b'2', 9, 9]), Scan::Complete { payload_len: 2 });
    assert_eq!(scan(&vec![0, 0, 1, 2]), Scan::Incomplete);
    assert_eq!(scan(&vec![0, 16, 0, 0]), Scan::Incomplete);
    assert_eq!(scan(&vec![0, 16, 0, 1]), Scan::TooLarge);
    assert_eq!(scan(&vec![255, 255, 255, 255]), Scan::TooLarge);
}

#[test]
fn fresh_stream_is_pending() {
    let mut stream = JsonTcpStream::new();
    assert_eq!(stream.read(), ReadOutcome::Pending);
    stream.feed(&[]);
    assert_eq!(stream.read(), ReadOutcome::Pending);
}

#[test]
fn whole_frame_is_read_once() {
    let payload = sample();
    let mut stream = JsonTcpStream::new();
    stream.feed(&frame(&payload).unwrap());
    assert_eq!(stream.read(), ReadOutcome::Message(payload));
    assert_eq!(stream.read(), ReadOutcome::Pending);
}

#[test]
fn partial_delivery_at_every_cut() {
    let payload = sample();
    let framed = frame(&payload).unwrap();
    for cut in 0..=framed.len() {
        let mut stream = JsonTcpStream::new();
        stream.feed(&framed[..cut]);
        let first = stream.read();
        stream.feed(&framed[cut..]);
        let second = stream.read();
        if cut < framed.len() {
            assert_eq!(first, ReadOutcome::Pending);
            assert_eq!(second, ReadOutcome::Message(payload.clone()));
        } else {
            assert_eq!(first, ReadOutcome::Message(payload.clone()));
            assert_eq!(second, ReadOutcome::Pending);
        }
        assert_eq!(stream.read(), ReadOutcome::Pending);
    }
}

#[test]
fn byte_by_byte_delivery() {
    let payload = sample();
    let framed = frame(&payload).unwrap();
    let mut stream = JsonTcpStream::new();
    let mut messages = 0;
    for (i, byte) in framed.iter().enumerate() {
        stream.feed(&[*byte]);
        match stream.read() {
            ReadOutcome::Pending => assert!(i + 1 < framed.len()),
            ReadOutcome::Message(bytes) => {
                assert_eq!(i + 1, framed.len());
                assert_eq!(bytes, payload);
                messages += 1;
            }
            other => panic!("unexpected {:?}", other),
        }
    }
    assert_eq!(messages, 1);
}

#[test]
fn two_frames_in_one_piece_come_out_in_order() {
    let first = b"{\"n\":1}".to_vec();
    let second = b"[2]".to_vec();
    let mut bytes = frame(&first).unwrap();
    bytes.extend(frame(&second).unwrap());
    let mut stream = JsonTcpStream::new();
    stream.feed(&bytes);
    assert_eq!(stream.read(), ReadOutcome::Message(first));
    assert_eq!(stream.read(), ReadOutcome::Message(second));
    assert_eq!(stream.read(), ReadOutcome::Pending);
}

#[test]
fn malformed_payload_breaks_the_stream() {
    let mut stream = JsonTcpStream::new();
    stream.feed(&[0, 0, 0, 3, b'{', b'"', b'a']);
    assert_eq!(stream.read(), ReadOutcome::Error(FrameError::Malformed));
    stream.feed(&frame(b"{}").unwrap());
    assert_eq!(stream.read(), ReadOutcome::Error(FrameError::Malformed));
}

#[test]
fn incomplete_json_in_incomplete_frame_is_pending() {
    let mut stream = JsonTcpStream::new();
    stream.feed(&[0, 0, 0, 7, b'{', b'"', b'a']);
    assert_eq!(stream.read(), ReadOutcome::Pending);
    stream.feed(b"\":1}");
    assert_eq!(stream.read(), ReadOutcome::Message(b"{\"a\":1}".to_vec()));
}

#[test]
fn oversized_header_breaks_the_stream() {
    let mut stream = JsonTcpStream::new();
    stream.feed(&[0, 16, 0, 1]);
    assert_eq!(stream.read(), ReadOutcome::Error(FrameError::TooLarge));
    assert_eq!(stream.read(), ReadOutcome::Error(FrameError::TooLarge));
}

#[test]
fn closed_is_not_pending() {
    let mut stream = JsonTcpStream::new();
    assert_eq!(stream.read(), ReadOutcome::Pending);
    stream.close();
    assert_eq!(stream.read(), ReadOutcome::Closed);
    stream.feed(&frame(b"{}").unwrap());
    assert_eq!(stream.read(), ReadOutcome::Closed);
}

#[test]
fn message_before_close_is_still_read() {
    let mut stream = JsonTcpStream::new();
    stream.feed(&frame(b"true").unwrap());
    stream.feed(&[0, 0]);
    stream.close();
    assert_eq!(stream.read(), ReadOutcome::Message(b"true".to_vec()));
    assert_eq!(stream.read(), ReadOutcome::Closed);
}

#[test]
fn settle_hands_out_by_the_verdict_given() {
    let mut stream = JsonTcpStream::new();
    stream.feed(&[0, 0, 0, 2, b'4', b'2', 7]);
    assert_eq!(stream.settle(2, true), ReadOutcome::Message(b"42".to_vec()));
    assert_eq!(stream.read(), ReadOutcome::Pending);
    let mut other = JsonTcpStream::new();
    other.feed(&[0, 0, 0, 2, b'4', b'2', 7]);
    assert_eq!(other.settle(2, false), ReadOutcome::Error(FrameError::Malformed));
    assert_eq!(other.read(), ReadOutcome::Error(FrameError::Malformed));
}
