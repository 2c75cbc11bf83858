use reliable_transport::filter::TunAction;
use reliable_transport::filter::classify_tun_payload;
use reliable_transport::filter::decrypt;
use reliable_transport::filter::encrypt;
use reliable_transport::filter::you_shall_not_pass;

#[test]
fn finds_pattern_ignoring_case() {
    assert!(you_shall_not_pass(b"taylor", b"xxTaYlOrxx"));
    assert!(you_shall_not_pass(b"TAYLOR", b"..taylor.."));
    assert!(you_shall_not_pass(b"elvis", b"elvis"));
}

#[test]
fn absent_pattern_does_not_match() {
    assert!(!you_shall_not_pass(b"taylor", b"nothing here"));
    assert!(!you_shall_not_pass(b"taylor", b"taylo"));
    assert!(!you_shall_not_pass(b"taylor", b""));
}

#[test]
fn pattern_matches_at_either_end() {
    assert!(you_shall_not_pass(b"ab", b"abxx"));
    assert!(you_shall_not_pass(b"ab", b"xxab"));
    assert!(!you_shall_not_pass(b"ab", b"axbx"));
}

#[test]
fn drop_pattern_wins_over_duplicate() {
    let payload = b"elvis and taylor together";
    assert_eq!(classify_tun_payload(payload, b"taylor", b"elvis"), TunAction::Drop);
}

#[test]
fn duplicate_pattern_alone_duplicates() {
    assert_eq!(classify_tun_payload(b"only Elvis sings", b"taylor", b"elvis"), TunAction::Duplicate);
}

#[test]
fn plain_payload_is_forwarded() {
    assert_eq!(classify_tun_payload(b"just a packet", b"taylor", b"elvis"), TunAction::Forward);
}

#[test]
fn encrypt_shifts_bytes_up_with_wraparound() {
    let mut buf = vec![0x00, 0x41, 0xfc, 0xfd, 0xff];
    encrypt(&mut buf);
    assert_eq!(buf, vec![0x03, 0x44, 0xff, 0x00, 0x02]);
}

#[test]
fn decrypt_shifts_bytes_down_with_wraparound() {
    let mut buf = vec![0x03, 0x44, 0xff, 0x00, 0x02];
    decrypt(&mut buf);
    assert_eq!(buf, vec![0x00, 0x41, 0xfc, 0xfd, 0xff]);
}

#[test]
fn cipher_round_trips_every_byte() {
    let original: Vec<u8> = (0..=255).collect();
    let mut buf = original.clone();
    encrypt(&mut buf);
    decrypt(&mut buf);
    assert_eq!(buf, original);
}
