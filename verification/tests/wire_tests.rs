use reliable_transport::wire::create_packet;
use reliable_transport::wire::parse_ack;

#[test]
fn small_packet_layout() {
    let p = create_packet(1, 3, b'A');
    assert_eq!(p, vec![0, 0, 0, 1, 0, 3, b'A', b'A', b'A']);
}

#[test]
fn full_packet_layout() {
    let p = create_packet(0x01020304, 1200, b'x');
    assert_eq!(p.len(), 6 + 1200);
    // 1200 = 0x04b0, big-endian
    assert_eq!(&p[..6], &[1, 2, 3, 4, 0x04, 0xb0]);
    assert!(p[6..].iter().all(|&b| b == b'x'));
}

#[test]
fn empty_payload_packet() {
    let p = create_packet(7, 0, b'Z');
    assert_eq!(p, vec![0, 0, 0, 7, 0, 0]);
}

#[test]
fn short_ack_is_rejected() {
    assert_eq!(parse_ack(&[]), None);
    assert_eq!(parse_ack(&[1]), None);
    assert_eq!(parse_ack(&[1, 2, 3, 4]), None);
}

#[test]
fn ack_fields_are_big_endian() {
    assert_eq!(parse_ack(&[0, 0, 0, 5, 42]), Some((5, 42)));
    assert_eq!(parse_ack(&[1, 2, 3, 4, 9]), Some((0x01020304, 9)));
    assert_eq!(parse_ack(&[0xff, 0xff, 0xff, 0xff, 0]), Some((u32::MAX, 0)));
}

#[test]
fn ack_ignores_trailing_bytes() {
    assert_eq!(parse_ack(&[0, 0, 1, 0, 7, 99, 99]), Some((256, 7)));
}
