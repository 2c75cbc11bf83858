use reliable_transport::engine::TransmissionState;

#[test]
fn initial_burst_packetizes_exactly() {
    // 3000 bytes of 'A' with a window of at least 3: exactly three
    // segments, sequences 1..=3, payload lengths 1200, 1200 and 600.
    let mut st = TransmissionState::new(3000, b'A', 0);
    st.cc.on_ack();
    assert!(st.cc.window() >= 3);
    let out = st.send_new_segments(0);
    assert_eq!(out.len(), 3);
    assert_eq!(&out[0][..6], &[0, 0, 0, 1, 0x04, 0xb0]);
    assert_eq!(&out[1][..6], &[0, 0, 0, 2, 0x04, 0xb0]);
    assert_eq!(&out[2][..6], &[0, 0, 0, 3, 0x02, 0x58]);
    assert_eq!(out[0].len(), 1206);
    assert_eq!(out[1].len(), 1206);
    assert_eq!(out[2].len(), 606);
    for p in &out {
        assert!(p[6..].iter().all(|&b| b == b'A'));
    }
    assert_eq!(st.transmitted, 3000);
    assert_eq!(st.next_seq, 4);
    assert_eq!(st.unacked_count(), 3);
    assert!(!st.is_complete());
}

#[test]
fn send_stops_at_the_window() {
    let mut st = TransmissionState::new(100000, b'Q', 0);
    let out = st.send_new_segments(0);
    // initial window is 2
    assert_eq!(out.len(), 2);
    assert_eq!(st.transmitted, 2400);
    // nothing more until an acknowledgment makes room
    let again = st.send_new_segments(5);
    assert!(again.is_empty());
}

#[test]
fn cumulative_ack_frees_the_window() {
    let mut st = TransmissionState::new(100000, b'Q', 0);
    let _ = st.send_new_segments(0);
    // one acknowledgment covering both outstanding segments
    let retx = st.handle_ack(2, 3, 40);
    assert!(retx.is_none());
    assert_eq!(st.last_acked_seq, 2);
    assert_eq!(st.checknum, 3);
    assert_eq!(st.unacked_count(), 0);
    // the controller grew once per covered segment: 2.0 -> 3.0 -> 4.0
    assert_eq!(st.cc.cwnd, 4096);
    let out = st.send_new_segments(50);
    assert_eq!(out.len(), 4);
    assert_eq!(&out[0][..4], &[0, 0, 0, 3]);
}

#[test]
fn three_duplicate_acks_fire_one_fast_retransmit() {
    let mut st = TransmissionState::new(3000, b'A', 0);
    st.cc.on_ack();
    let _ = st.send_new_segments(0);
    assert_eq!(st.cc.cwnd, 3072);

    // two duplicates of the current cumulative position: counted only
    assert!(st.handle_ack(0, 7, 10).is_none());
    assert_eq!(st.dup_acks, 1);
    assert!(st.handle_ack(0, 7, 20).is_none());
    assert_eq!(st.dup_acks, 2);
    assert_eq!(st.cc.cwnd, 3072);

    // the third one: exactly one fast retransmit of segment last+1
    let p = st.handle_ack(0, 7, 30).expect("third duplicate must retransmit");
    assert_eq!(&p[..6], &[0, 0, 0, 1, 0x04, 0xb0]);
    assert_eq!(st.dup_acks, 0);
    assert_eq!(st.cc.cwnd, 1536);
    assert_eq!(st.cc.ssthresh, 1536);
    assert_eq!(st.table[0].retry_count, 1);
    assert_eq!(st.table[0].sent_at_ms, 30);
    // duplicates never store the check value
    assert_eq!(st.checknum, 0);
}

#[test]
fn fresh_segment_feeds_rtt_sample() {
    // A segment with retry count zero acknowledged after 120 ms seeds the
    // estimator and yields the documented timeout.
    let mut st = TransmissionState::new(2400, b'A', 0);
    let _ = st.send_new_segments(0);
    let retx = st.handle_ack(1, 9, 120);
    assert!(retx.is_none());
    assert_eq!(st.rtt.srtt, 960);
    assert_eq!(st.rtt.rttvar, 480);
    assert_eq!(st.rtt.rto_ms, 360);
    assert_eq!(st.last_acked_seq, 1);
    assert_eq!(st.checknum, 9);
    assert_eq!(st.unacked_count(), 1);
}

#[test]
fn retried_segment_contributes_no_sample() {
    let mut st = TransmissionState::new(1200, b'B', 0);
    let _ = st.send_new_segments(0);

    // the retransmission timer expires: timeout, backoff, one resend
    let p = st.on_receive_timeout(1001).expect("expired timer must retransmit");
    assert_eq!(&p[..6], &[0, 0, 0, 1, 0x04, 0xb0]);
    assert_eq!(st.rtt.rto_ms, 2000);
    assert_eq!(st.cc.cwnd, 1024);
    assert_eq!(st.cc.ssthresh, 1024);
    assert_eq!(st.table[0].retry_count, 1);
    assert_eq!(st.table[0].sent_at_ms, 1001);

    // its eventual acknowledgment must not update the estimator
    let retx = st.handle_ack(1, 4, 1200);
    assert!(retx.is_none());
    assert_eq!(st.rtt.srtt, 0);
    assert_eq!(st.rtt.rto_ms, 2000);
    assert!(st.is_complete());
    assert_eq!(st.checknum, 4);
}

#[test]
fn young_segment_is_not_retransmitted() {
    let mut st = TransmissionState::new(1200, b'B', 0);
    let _ = st.send_new_segments(0);
    // age 500 ms does not exceed the initial 1000 ms timeout
    assert!(st.on_receive_timeout(500).is_none());
    assert_eq!(st.table[0].retry_count, 0);
    assert_eq!(st.rtt.rto_ms, 1000);
    assert_eq!(st.cc.cwnd, 2048);
}

#[test]
fn global_deadline_is_three_minutes() {
    let st = TransmissionState::new(5000, b'C', 0);
    assert!(!st.deadline_exceeded(180000));
    assert!(st.deadline_exceeded(180001));
    let st2 = TransmissionState::new(5000, b'C', 1000);
    assert!(!st2.deadline_exceeded(181000));
    assert!(st2.deadline_exceeded(181001));
    // the engine never reports completion while bytes are outstanding
    assert!(!st2.is_complete());
}

#[test]
fn short_ack_datagram_changes_nothing() {
    let mut st = TransmissionState::new(2400, b'A', 0);
    let _ = st.send_new_segments(0);
    let cwnd = st.cc.cwnd;
    let rto = st.rtt.rto_ms;

    let retx = st.on_datagram(&[0, 0, 0], 50);
    assert!(retx.is_none());
    assert_eq!(st.last_acked_seq, 0);
    assert_eq!(st.dup_acks, 0);
    assert_eq!(st.checknum, 0);
    assert_eq!(st.unacked_count(), 2);
    assert_eq!(st.cc.cwnd, cwnd);
    assert_eq!(st.rtt.rto_ms, rto);
    assert_eq!(st.table[0].sent_at_ms, 0);

    // the next loop iteration proceeds unaffected: a real ack still lands
    let retx2 = st.on_datagram(&[0, 0, 0, 1, 5], 60);
    assert!(retx2.is_none());
    assert_eq!(st.last_acked_seq, 1);
    assert_eq!(st.checknum, 5);
}

#[test]
fn stale_ack_changes_nothing() {
    let mut st = TransmissionState::new(2400, b'A', 0);
    let _ = st.send_new_segments(0);
    let _ = st.handle_ack(1, 5, 30);
    let cwnd = st.cc.cwnd;
    let rto = st.rtt.rto_ms;

    let retx = st.handle_ack(0, 77, 70);
    assert!(retx.is_none());
    assert_eq!(st.last_acked_seq, 1);
    assert_eq!(st.checknum, 5);
    assert_eq!(st.dup_acks, 0);
    assert_eq!(st.unacked_count(), 1);
    assert_eq!(st.cc.cwnd, cwnd);
    assert_eq!(st.rtt.rto_ms, rto);
}

#[test]
fn unallocated_ack_changes_nothing() {
    let mut st = TransmissionState::new(2400, b'A', 0);
    let _ = st.send_new_segments(0);
    let cwnd = st.cc.cwnd;

    // next_seq is 3: an ack naming 100 was never sent, so it is ignored
    let retx = st.handle_ack(100, 88, 80);
    assert!(retx.is_none());
    assert_eq!(st.last_acked_seq, 0);
    assert_eq!(st.checknum, 0);
    assert_eq!(st.unacked_count(), 2);
    assert_eq!(st.cc.cwnd, cwnd);
}

#[test]
fn proactive_retransmits_follow_small_advances() {
    let mut st = TransmissionState::new(6000, b'A', 0);
    st.cc.on_ack();
    st.cc.on_ack();
    st.cc.on_ack();
    let out = st.send_new_segments(0);
    assert_eq!(out.len(), 5);

    assert_eq!(st.get_proactive_retransmits(1), vec![1, 2]);
    assert_eq!(st.get_proactive_retransmits(2), vec![1, 2, 3, 4]);
    assert_eq!(st.get_proactive_retransmits(3), vec![1, 2, 3, 4, 5]);
    assert_eq!(st.get_proactive_retransmits(0), Vec::<u32>::new());
    assert_eq!(st.get_proactive_retransmits(4), Vec::<u32>::new());

    let _ = st.handle_ack(2, 1, 10);
    assert_eq!(st.get_proactive_retransmits(2), vec![3, 4, 5]);
}

#[test]
fn proactive_resend_refreshes_without_counting_a_retry() {
    let mut st = TransmissionState::new(6000, b'A', 0);
    st.cc.on_ack();
    st.cc.on_ack();
    st.cc.on_ack();
    let _ = st.send_new_segments(0);

    let p = st.datagram_for_resend(3, 99).expect("outstanding segment must resend");
    assert_eq!(&p[..6], &[0, 0, 0, 3, 0x04, 0xb0]);
    assert_eq!(st.table[2].sent_at_ms, 99);
    assert_eq!(st.table[2].retry_count, 0);

    // acknowledged or never-sent sequences resend nothing
    assert!(st.datagram_for_resend(0, 99).is_none());
    assert!(st.datagram_for_resend(6, 99).is_none());
}

#[test]
fn completion_returns_the_last_check_value() {
    let mut st = TransmissionState::new(1200, b'Z', 0);
    let out = st.send_new_segments(0);
    assert_eq!(out.len(), 1);
    assert!(!st.is_complete());
    let retx = st.on_datagram(&[0, 0, 0, 1, 200], 30);
    assert!(retx.is_none());
    assert!(st.is_complete());
    assert_eq!(st.checknum, 200);
}

#[test]
fn zero_byte_transfer_is_complete_at_once() {
    let mut st = TransmissionState::new(0, b'A', 0);
    let out = st.send_new_segments(0);
    assert!(out.is_empty());
    assert!(st.is_complete());
}
