use dsnfs::packet::{decode, encode, parse_header, FrameError, Packet, PacketType};

#[test]
fn round_trip_data() {
    let payload = [10u8, 20, 30];
    let p = Packet::new(PacketType::Data, &payload);
    let (q, used) = decode(p.as_bytes()).unwrap();
    assert_eq!(used, p.as_bytes().len());
    assert_eq!(q.get_type(), PacketType::Data);
    assert_eq!(q.get_data_slice(), &payload[..]);
}

#[test]
fn round_trip_data_end() {
    let payload = [0u8; 88];
    let p = Packet::new(PacketType::DataEnd, &payload);
    let (q, used) = decode(p.as_bytes()).unwrap();
    assert_eq!(used, 3 + 88);
    assert_eq!(q.get_type(), PacketType::DataEnd);
    assert_eq!(q.get_data_slice(), &payload[..]);
}

#[test]
fn round_trip_name() {
    let payload = b"a.txt";
    let p = Packet::new(PacketType::Name, payload);
    let (q, _) = decode(p.as_bytes()).unwrap();
    assert_eq!(q.get_type(), PacketType::Name);
    assert_eq!(q.get_data_slice(), &payload[..]);
}

#[test]
fn round_trip_terminate_empty_payload() {
    let p = Packet::new(PacketType::Terminate, &[]);
    let (q, used) = decode(p.as_bytes()).unwrap();
    assert_eq!(used, 3);
    assert_eq!(q.get_type(), PacketType::Terminate);
    assert_eq!(q.get_data_length(), 0);
    assert_eq!(q.get_data_slice(), &[] as &[u8]);
}

#[test]
fn header_layout_is_tag_then_big_endian_length() {
    let p = Packet::new(PacketType::Name, b"abc");
    assert_eq!(p.as_bytes(), &[3u8, 0, 3, b'a', b'b', b'c'][..]);
    let q = Packet::new(PacketType::Data, &[7u8; 258]);
    assert_eq!(q.as_bytes()[0], 1);
    assert_eq!(q.as_bytes()[1], 1);
    assert_eq!(q.as_bytes()[2], 2);
    assert_eq!(q.get_data_length(), 258);
}

#[test]
fn encode_rejects_oversized_payload() {
    let payload = vec![0u8; 65536];
    assert_eq!(encode(PacketType::Data, &payload).unwrap_err(), FrameError::PayloadTooLarge);
}

#[test]
fn encode_accepts_maximal_payload() {
    let payload = vec![9u8; 65535];
    let p = encode(PacketType::Data, &payload).unwrap();
    assert_eq!(p.as_bytes()[1], 0xff);
    assert_eq!(p.as_bytes()[2], 0xff);
    assert_eq!(p.get_data_length(), 65535);
}

#[test]
fn decode_rejects_unknown_tag() {
    assert_eq!(decode(&[9, 0, 0]).unwrap_err(), FrameError::UnknownFrameKind);
    assert_eq!(decode(&[0]).unwrap_err(), FrameError::UnknownFrameKind);
}

#[test]
fn decode_rejects_short_reads() {
    assert_eq!(decode(&[]).unwrap_err(), FrameError::TruncatedFrame);
    assert_eq!(decode(&[1]).unwrap_err(), FrameError::TruncatedFrame);
    assert_eq!(decode(&[1, 0]).unwrap_err(), FrameError::TruncatedFrame);
    assert_eq!(decode(&[1, 0, 5, 1, 2]).unwrap_err(), FrameError::TruncatedFrame);
}

#[test]
fn decode_consumes_exactly_one_frame() {
    let mut bytes = Packet::new(PacketType::Name, b"x").as_bytes().to_vec();
    bytes.extend_from_slice(&[4, 0, 1, 0]);
    let (p, used) = decode(&bytes).unwrap();
    assert_eq!(used, 4);
    assert_eq!(p.get_type(), PacketType::Name);
    let (q, used2) = decode(&bytes[used..]).unwrap();
    assert_eq!(used2, 4);
    assert_eq!(q.get_type(), PacketType::Terminate);
}

#[test]
fn parse_header_reads_kind_and_big_endian_length() {
    assert_eq!(parse_header(1, 1, 2).unwrap(), (PacketType::Data, 258));
    assert_eq!(parse_header(4, 0, 0).unwrap(), (PacketType::Terminate, 0));
    assert_eq!(parse_header(2, 0xff, 0xff).unwrap(), (PacketType::DataEnd, 65535));
    assert_eq!(parse_header(0, 0, 1).unwrap_err(), FrameError::UnknownFrameKind);
    assert_eq!(parse_header(5, 0, 1).unwrap_err(), FrameError::UnknownFrameKind);
}

#[test]
fn from_u8_names_every_tag() {
    assert_eq!(PacketType::from_u8(1), PacketType::Data);
    assert_eq!(PacketType::from_u8(2), PacketType::DataEnd);
    assert_eq!(PacketType::from_u8(3), PacketType::Name);
    assert_eq!(PacketType::from_u8(4), PacketType::Terminate);
}

#[test]
fn to_u8_inverts_from_u8() {
    for tag in 1u8..=4 {
        assert_eq!(PacketType::from_u8(tag).to_u8(), tag);
    }
}
