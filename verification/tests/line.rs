use xt_gateway::conn::line::{
    decode_text, encode_line, encode_text, read_xml, read_xt, EnvFault, LineBuffer, ParseFault,
    ReadError,
};
use xt_gateway::pkt::xml;
use xt_gateway::pkt::xt::{XTError, XTPacket};

fn drain(buffer: &mut LineBuffer) -> Vec<Vec<u8>> {
    let mut out = Vec::new();
    while let Some(frame) = buffer.next_frame() {
        out.push(frame);
    }
    out
}

#[test]
fn frame_round_trip() {
    for payload in [&b"A"[..], b"%xt%s%u#sp%1%395%384%", &[1u8, 2, 255, 254, 7]] {
        let mut buffer = LineBuffer::new();
        buffer.feed(&encode_line(payload));
        assert_eq!(buffer.next_frame(), Some(payload.to_vec()));
        assert_eq!(buffer.next_frame(), None);
        assert_eq!(buffer.close(), Ok(()));
    }
}

#[test]
fn encoded_line_ends_with_one_terminator() {
    assert_eq!(encode_line(b"AB"), vec![b'A', b'B', 0]);
    assert_eq!(encode_line(b""), vec![0]);
    assert_eq!(encode_text("é"), vec![0xc3, 0xa9, 0]);
}

#[test]
fn multi_frame_in_one_read() {
    let mut buffer = LineBuffer::new();
    buffer.feed(b"A\0B\0");
    assert_eq!(buffer.next_frame(), Some(b"A".to_vec()));
    assert_eq!(buffer.next_frame(), Some(b"B".to_vec()));
    assert_eq!(buffer.next_frame(), None);
}

#[test]
fn empty_frame_suppression() {
    let mut buffer = LineBuffer::new();
    buffer.feed(b"A\0\0B\0");
    assert_eq!(buffer.next_frame(), Some(b"A".to_vec()));
    assert_eq!(buffer.next_frame(), Some(b"B".to_vec()));
    assert_eq!(buffer.next_frame(), None);
    assert_eq!(buffer.close(), Ok(()));
}

#[test]
fn only_empty_frames_give_no_message() {
    let mut buffer = LineBuffer::new();
    buffer.feed(b"\0\0\0");
    assert_eq!(buffer.next_frame(), None);
    assert_eq!(buffer.close(), Ok(()));
}

#[test]
fn partial_frame_waits_for_its_terminator() {
    let mut buffer = LineBuffer::new();
    buffer.feed(b"AB");
    assert_eq!(buffer.next_frame(), None);
    buffer.feed(b"C\0D");
    assert_eq!(buffer.next_frame(), Some(b"ABC".to_vec()));
    assert_eq!(buffer.next_frame(), None);
    buffer.feed(b"\0");
    assert_eq!(buffer.next_frame(), Some(b"D".to_vec()));
    assert_eq!(buffer.close(), Ok(()));
}

#[test]
fn how_the_bytes_are_cut_does_not_matter() {
    let wire = b"one\0\0two\0three\0tail";
    let mut whole = LineBuffer::new();
    whole.feed(wire);
    let expected = drain(&mut whole);
    assert_eq!(expected, vec![b"one".to_vec(), b"two".to_vec(), b"three".to_vec()]);
    for cut in 0..=wire.len() {
        let mut buffer = LineBuffer::new();
        buffer.feed(&wire[..cut]);
        buffer.feed(&wire[cut..]);
        assert_eq!(drain(&mut buffer), expected);
        assert_eq!(buffer.close(), Err(ReadError::EnvError(EnvFault::ClosedMidFrame)));
    }
    let mut bytewise = LineBuffer::new();
    for b in wire.iter() {
        bytewise.feed(&[*b]);
    }
    assert_eq!(drain(&mut bytewise), expected);
}

#[test]
fn queued_frames_survive_later_reads() {
    let mut buffer = LineBuffer::new();
    buffer.feed(b"A\0B\0");
    assert_eq!(buffer.next_frame(), Some(b"A".to_vec()));
    buffer.feed(b"C\0");
    assert_eq!(buffer.next_frame(), Some(b"B".to_vec()));
    assert_eq!(buffer.next_frame(), Some(b"C".to_vec()));
    assert_eq!(buffer.next_frame(), None);
}

#[test]
fn close_inside_a_frame_is_a_fault() {
    let mut buffer = LineBuffer::new();
    assert_eq!(buffer.close(), Ok(()));
    buffer.feed(b"A\0B");
    assert_eq!(buffer.close(), Err(ReadError::EnvError(EnvFault::ClosedMidFrame)));
    assert_eq!(buffer.next_frame(), Some(b"A".to_vec()));
    assert_eq!(buffer.close(), Err(ReadError::EnvError(EnvFault::ClosedMidFrame)));
}

#[test]
fn text_of_a_frame() {
    assert_eq!(decode_text(b"hello".to_vec()), Ok("hello".to_owned()));
    assert_eq!(decode_text("日本語".as_bytes().to_vec()), Ok("日本語".to_owned()));
    assert_eq!(decode_text(Vec::new()), Ok(String::new()));
    assert_eq!(
        decode_text(vec![b'a', 0xff, b'b']),
        Err(ReadError::ParseError(ParseFault::Encoding))
    );
    assert_eq!(decode_text(vec![0xc3]), Err(ReadError::ParseError(ParseFault::Encoding)));
    // A surrogate, an overlong form and a value past the last code point.
    assert_eq!(
        decode_text(vec![0xed, 0xa0, 0x80]),
        Err(ReadError::ParseError(ParseFault::Encoding))
    );
    assert_eq!(decode_text(vec![0xc0, 0x80]), Err(ReadError::ParseError(ParseFault::Encoding)));
    assert_eq!(
        decode_text(vec![0xf4, 0x90, 0x80, 0x80]),
        Err(ReadError::ParseError(ParseFault::Encoding))
    );
    assert_eq!(decode_text(vec![0xf4, 0x8f, 0xbf, 0xbf]), Ok("\u{10ffff}".to_owned()));
}

#[test]
fn text_round_trip_through_a_frame() {
    let mut buffer = LineBuffer::new();
    buffer.feed(&encode_text("%xt%s%m#sm%1%héllo%"));
    let frame = buffer.next_frame().expect("a frame");
    assert_eq!(decode_text(frame), Ok("%xt%s%m#sm%1%héllo%".to_owned()));
}

#[test]
fn frame_read_as_xt_message() {
    assert_eq!(
        read_xt(b"%xt%s%u#sp%1%395%384%".to_vec()),
        Ok(XTPacket {
            handler_id: Some("s".to_owned()),
            packet_id: "u#sp".to_owned(),
            internal_id: 1,
            data: vec!["395".to_owned(), "384".to_owned()],
        })
    );
    assert_eq!(
        read_xt(b"%xt%s%u#sp%x%".to_vec()),
        Err(ReadError::ParseError(ParseFault::Xt(XTError::BadInternalId)))
    );
    assert_eq!(read_xt(vec![b'%', 0x80, b'%']), Err(ReadError::ParseError(ParseFault::Encoding)));
}

#[test]
fn frame_read_as_handshake_message() {
    assert_eq!(
        read_xml(b"<msg t='sys'><body action='rndK' r='-1'></body></msg>".to_vec()),
        Ok(xml::client::Packet::RandomKey)
    );
    assert_eq!(read_xml(b"<policy-file-request/>".to_vec()), Err(ReadError::ParseError(ParseFault::Xml)));
    assert_eq!(read_xml(vec![0xff]), Err(ReadError::ParseError(ParseFault::Encoding)));
}
