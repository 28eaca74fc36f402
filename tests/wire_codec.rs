use chatnode::wire::{
    parse_raw, to_raw, ChatHeader, ChatType, DecodeError, Envelope, FrameReader, Peer, SockAddr,
};

fn v4(a: u8, b: u8, c: u8, d: u8, port: u16) -> SockAddr {
    SockAddr { ip: vec![a, b, c, d], port }
}

fn round_trip(header: ChatHeader, payload: Option<Vec<u8>>) {
    let bytes = to_raw(&header, payload.as_deref());
    let expected = Envelope { header, payload };
    let (decoded, used) = parse_raw(&bytes).expect("decodes");
    assert_eq!(used, bytes.len());
    assert_eq!(decoded, expected);
}

#[test]
fn round_trip_every_kind() {
    round_trip(ChatHeader::from_msg(), Some(b"hello there".to_vec()));
    round_trip(ChatHeader::from_msg(), None);
    round_trip(ChatHeader::from_msg(), Some(Vec::new()));
    round_trip(ChatHeader::from_name(), Some(b"alice".to_vec()));
    round_trip(ChatHeader::from_name(), None);
    round_trip(ChatHeader::from_port(6001), None);
    round_trip(ChatHeader::from_port(0), Some(vec![1, 2, 3]));
    round_trip(ChatHeader::from_rebalance(v4(10, 0, 0, 7, 40000), 6002), None);
    round_trip(ChatHeader::from_failover(v4(127, 0, 0, 1, 6003), 6003), Some(vec![9]));
    let v6 = SockAddr { ip: (0u8..16).collect(), port: 65535 };
    round_trip(ChatHeader::from(ChatType::FAILOVER, Peer::new(Some(v6), 1)), None);
}

#[test]
fn port_envelope_bytes_are_exact() {
    let bytes = to_raw(&ChatHeader::from_port(5000), None);
    assert_eq!(bytes, vec![1, 1, 0, 0x13, 0x88, 0]);
}

#[test]
fn regular_envelope_bytes_are_exact() {
    let bytes = to_raw(&ChatHeader::from_msg(), Some(b"hi"));
    assert_eq!(bytes, vec![0, 0, 1, 0, 0, 0, 0, 0, 0, 0, 2, b'h', b'i']);
}

#[test]
fn failover_envelope_bytes_are_exact() {
    let bytes = to_raw(&ChatHeader::from_failover(v4(127, 0, 0, 1, 258), 6003), None);
    assert_eq!(bytes, vec![3, 1, 4, 127, 0, 0, 1, 1, 2, 0x17, 0x73, 0]);
}

#[test]
fn decode_reports_short_input() {
    assert_eq!(parse_raw(&[]), Err(DecodeError::Incomplete));
    let bytes = to_raw(&ChatHeader::from_msg(), Some(b"hello"));
    for cut in 0..bytes.len() {
        assert_eq!(parse_raw(&bytes[..cut]), Err(DecodeError::Incomplete), "cut at {}", cut);
    }
}

#[test]
fn decode_rejects_malformed_input() {
    // unknown kind
    assert_eq!(parse_raw(&[9, 0, 0]), Err(DecodeError::Malformed));
    // bad peer flag
    assert_eq!(parse_raw(&[0, 2, 0]), Err(DecodeError::Malformed));
    // address of a length that no IP address has
    assert_eq!(parse_raw(&[1, 1, 5, 0, 0, 0, 0, 0, 0, 0, 0, 0, 0]), Err(DecodeError::Malformed));
    // a chat message that carries a peer
    assert_eq!(parse_raw(&[0, 1, 0, 0, 1, 0]), Err(DecodeError::Malformed));
    // a PORT envelope without a peer
    assert_eq!(parse_raw(&[1, 0, 0]), Err(DecodeError::Malformed));
    // a FAILOVER envelope whose peer has no address
    assert_eq!(parse_raw(&[3, 1, 0, 0, 1, 0]), Err(DecodeError::Malformed));
    // bad payload flag
    assert_eq!(parse_raw(&[4, 0, 7]), Err(DecodeError::Malformed));
}

#[test]
fn decode_leaves_trailing_bytes() {
    let mut bytes = to_raw(&ChatHeader::from_port(7), None);
    let first = bytes.len();
    bytes.extend_from_slice(&to_raw(&ChatHeader::from_msg(), Some(b"x")));
    let (env, used) = parse_raw(&bytes).unwrap();
    assert_eq!(used, first);
    assert_eq!(env.header, ChatHeader::from_port(7));
    let (env2, used2) = parse_raw(&bytes[used..]).unwrap();
    assert_eq!(used + used2, bytes.len());
    assert_eq!(env2.payload, Some(b"x".to_vec()));
}

#[test]
fn frame_reader_joins_and_splits_reads() {
    let a = to_raw(&ChatHeader::from_msg(), Some(b"first"));
    let b = to_raw(&ChatHeader::from_name(), Some(b"second"));
    let mut stream = a.clone();
    stream.extend_from_slice(&b);
    let mut reader = FrameReader::new();
    // the first read ends in the middle of the first envelope
    reader.push(&stream[..3]);
    assert!(reader.next_envelope().is_none());
    // the second read holds the rest of both
    reader.push(&stream[3..]);
    let e1 = reader.next_envelope().unwrap().unwrap();
    assert_eq!(e1.payload, Some(b"first".to_vec()));
    let e2 = reader.next_envelope().unwrap().unwrap();
    assert_eq!(e2.header.chat_t, ChatType::NAME);
    assert_eq!(e2.payload, Some(b"second".to_vec()));
    assert!(reader.next_envelope().is_none());
}

#[test]
fn frame_reader_drops_malformed_bytes() {
    let mut reader = FrameReader::new();
    reader.push(&[42, 1, 2, 3]);
    assert_eq!(reader.next_envelope(), Some(Err(DecodeError::Malformed)));
    assert!(reader.next_envelope().is_none());
    reader.push(&to_raw(&ChatHeader::from_port(9), None));
    let e = reader.next_envelope().unwrap().unwrap();
    assert_eq!(e.header, ChatHeader::from_port(9));
}
