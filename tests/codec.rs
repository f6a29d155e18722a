use sine_chat::codec::Codec;
use sine_chat::message::{ClientMessage, Handshake, Ping};
use sine_chat::payload::{Error, RawPayload};
use sine_chat::reader::{Either, MatchOutcome, Reader};

fn frame(type_code: u8, content: &[u8]) -> Vec<u8> {
    let mut out = Vec::new();
    Codec::new().encode(&RawPayload::new(type_code, content.to_vec()), &mut out);
    out
}

#[test]
fn encode_writes_header_then_payload() {
    let bytes = frame(0x01, b"abc");
    assert_eq!(bytes, vec![0x01, 0, 0, 0, 3, b'a', b'b', b'c']);
}

#[test]
fn encode_length_is_big_endian() {
    let content = vec![7u8; 0x0102];
    let bytes = frame(0x02, &content);
    assert_eq!(&bytes[..5], &[0x02, 0x00, 0x00, 0x01, 0x02]);
    assert_eq!(bytes.len(), 5 + 0x0102);
}

#[test]
fn round_trip_single_frame() {
    let mut buf = frame(0xFF, b"{\"x\":1}");
    buf.extend_from_slice(&[9, 9]);
    let mut codec = Codec::new();
    let raw = codec.decode(&mut buf).expect("whole frame");
    assert_eq!(raw.type_code, 0xFF);
    assert_eq!(raw.content, b"{\"x\":1}".to_vec());
    assert_eq!(buf, vec![9, 9]);
}

#[test]
fn round_trip_empty_payload() {
    let mut buf = frame(0x00, b"");
    assert_eq!(buf, vec![0, 0, 0, 0, 0]);
    let mut codec = Codec::new();
    let raw = codec.decode(&mut buf).expect("whole frame");
    assert_eq!(raw.type_code, 0x00);
    assert!(raw.content.is_empty());
    assert!(buf.is_empty());
}

#[test]
fn round_trip_split_at_every_point() {
    let whole = frame(0x01, b"hello world");
    for k in 0..whole.len() {
        let mut codec = Codec::new();
        let mut buf = whole[..k].to_vec();
        assert!(codec.decode(&mut buf).is_none());
        buf.extend_from_slice(&whole[k..]);
        let raw = codec.decode(&mut buf).expect("whole frame");
        assert_eq!(raw.type_code, 0x01);
        assert_eq!(raw.content, b"hello world".to_vec());
        assert!(buf.is_empty());
    }
}

#[test]
fn round_trip_byte_by_byte_many_frames() {
    let mut stream = frame(0x00, b"one");
    stream.extend(frame(0xFF, b""));
    stream.extend(frame(0x01, b"three"));
    let mut reader = Reader::new();
    let mut got = Vec::new();
    for b in stream {
        reader.feed(&[b]);
        while let Some(raw) = reader.read_raw() {
            got.push((raw.type_code, raw.content));
        }
    }
    assert_eq!(
        got,
        vec![(0x00, b"one".to_vec()), (0xFF, Vec::new()), (0x01, b"three".to_vec())]
    );
}

#[test]
fn read_reports_type_mismatch() {
    let mut reader = Reader::new();
    reader.feed(&frame(0x01, b"x"));
    match reader.read::<Handshake>() {
        Some(Err(Error::TypeMismatch(code))) => assert_eq!(code, 0x01),
        _ => panic!("expected a type mismatch"),
    }
    assert!(reader.read_raw().is_none());
}

#[test]
fn read_if_match_type_keeps_other_frame() {
    let mut reader = Reader::new();
    reader.feed(&frame(0xFF, b""));
    assert!(matches!(reader.read_if_match_type::<ClientMessage>(), MatchOutcome::Buffered));
    match reader.read::<Ping>() {
        Some(Ok(raw)) => assert_eq!(raw.type_code, 0xFF),
        _ => panic!("expected the buffered ping"),
    }
    assert!(matches!(reader.read_if_match_type::<ClientMessage>(), MatchOutcome::Incomplete));
}

#[test]
fn read_either_classifies_without_loss() {
    let mut reader = Reader::new();
    reader.feed(&frame(0x01, b"m1"));
    reader.feed(&frame(0xFF, b""));
    reader.feed(&frame(0x01, b"m2"));
    reader.feed(&frame(0x02, b"r"));
    let mut kinds = Vec::new();
    while let Some(r) = reader.read_either::<ClientMessage, Ping>() {
        kinds.push(match r {
            Ok(Either::Left(raw)) => format!("L{}", String::from_utf8(raw.content).unwrap()),
            Ok(Either::Right(_)) => "R".to_string(),
            Err(Error::TypeMismatch(c)) => format!("E{}", c),
            Err(_) => "?".to_string(),
        });
    }
    assert_eq!(kinds, vec!["Lm1", "R", "Lm2", "E2"]);
}

#[test]
fn read_either_waits_for_whole_frame() {
    let whole = frame(0x01, b"abc");
    let mut reader = Reader::new();
    reader.feed(&whole[..6]);
    assert!(reader.read_either::<ClientMessage, Ping>().is_none());
    reader.feed(&whole[6..]);
    assert!(matches!(reader.read_either::<ClientMessage, Ping>(), Some(Ok(Either::Left(_)))));
}

#[test]
fn decode_leaves_following_frames_in_buffer() {
    let second = frame(0xFF, b"");
    let mut buf = frame(0x00, b"ab");
    buf.extend_from_slice(&second);
    buf.extend_from_slice(&[1, 2]);
    let mut codec = Codec::new();
    let raw = codec.decode(&mut buf).expect("first frame");
    assert_eq!((raw.type_code, raw.content), (0x00, b"ab".to_vec()));
    let mut expected = second.clone();
    expected.extend_from_slice(&[1, 2]);
    assert_eq!(buf, expected);
    let raw = codec.decode(&mut buf).expect("second frame");
    assert_eq!(raw.type_code, 0xFF);
    assert_eq!(buf, vec![1, 2]);
}

#[test]
fn decode_short_header_consumes_nothing() {
    let mut buf = vec![0x01, 0, 0, 0];
    let mut codec = Codec::new();
    assert!(codec.decode(&mut buf).is_none());
    assert_eq!(buf, vec![0x01, 0, 0, 0]);
    buf.push(2);
    assert!(codec.decode(&mut buf).is_none());
    buf.extend_from_slice(b"xy");
    let raw = codec.decode(&mut buf).expect("whole frame");
    assert_eq!(raw.content, b"xy".to_vec());
    assert!(buf.is_empty());
}

#[test]
fn decode_in_three_chunks() {
    let whole = frame(0x02, b"payload");
    let mut codec = Codec::new();
    let mut buf = Vec::new();
    buf.extend_from_slice(&whole[..2]);
    assert!(codec.decode(&mut buf).is_none());
    buf.extend_from_slice(&whole[2..8]);
    assert!(codec.decode(&mut buf).is_none());
    buf.extend_from_slice(&whole[8..]);
    let raw = codec.decode(&mut buf).expect("whole frame");
    assert_eq!((raw.type_code, raw.content), (0x02, b"payload".to_vec()));
    assert!(buf.is_empty());
}
