//! The send-side transmission engine: packetization, the
//! unacknowledged-segment table, acknowledgment handling with duplicate-ack
//! counting, retransmission-timer evaluation, and the completion and
//! deadline tests.
//!
//! Every step is a plain function from state, clock reading and event to new
//! state and the datagrams to put on the wire, so a thin front end can drive
//! the loop: emit what `send_new_segments` hands back, wait briefly for one
//! datagram, feed it to `on_datagram` or report the lapse to
//! `on_receive_timeout`, and stop on `is_complete` or on the deadline.
//!
//! Segments are acknowledged cumulatively and allocated in sequence order,
//! so the table always holds exactly the contiguous run of sequence numbers
//! above `last_acked_seq` and below `next_seq`, oldest first.

use vstd::prelude::*;

use crate::congestion::CongestionControl;
use crate::congestion::controller_after_acks;
use crate::congestion::controller_after_fast_retransmit;
use crate::congestion::controller_after_timeout;
use crate::congestion::spec_window;
use crate::rtt::RttEstimator;
use crate::rtt::estimator_after_backoff;
use crate::rtt::estimator_after_sample;
use crate::wire::ACK_SIZE;
use crate::wire::MAX_PAYLOAD;
use crate::wire::be32_value;
use crate::wire::create_packet;
use crate::wire::packet_bytes;
use crate::wire::parse_ack;

verus! {

/// The transfer fails fatally once this much wall-clock time has elapsed
/// since it started, in milliseconds.
pub const GLOBAL_TIMEOUT_MS: u64 = 180000;

/// Largest accepted clock reading, in milliseconds: a machine limit that
/// keeps every age and sample computation inside a `u64`.  It equals the
/// largest round-trip sample the estimator accepts.
pub const MAX_CLOCK_MS: u64 = 0x00FF_FFFF_FFFF_FFFF;

/// Largest accepted transfer size, in bytes: keeps every sequence number a
/// `u32`, since each allocated sequence number carries at least one byte.
pub const MAX_TOTAL_BYTES: usize = 0xFFFF0000;

/// Duplicate cumulative acknowledgments that trigger a fast retransmit.
pub const DUP_ACK_LIMIT: u32 = 3;

/// Payload length of the next segment when `sent` of `total` bytes have
/// been handed to the wire: whatever remains, at most `MAX_PAYLOAD`.
pub open spec fn chunk_len(total: int, sent: int) -> int {
    if total - sent < MAX_PAYLOAD as int {
        total - sent
    } else {
        MAX_PAYLOAD as int
    }
}

/// Bytes handed to the wire after emitting `k` further segments from `sent`
/// of `total`: every emitted segment is full except a final short one.
pub open spec fn transmitted_after(total: int, sent: int, k: int) -> int {
    if sent + MAX_PAYLOAD as int * k <= total {
        sent + MAX_PAYLOAD as int * k
    } else {
        total
    }
}

/// A retry count raised by one, saturating at its largest value.
pub open spec fn bumped_retry(r: u32) -> u32 {
    if r == u32::MAX {
        r
    } else {
        (r + 1) as u32
    }
}

/// The round-trip sample a segment yields when acknowledged at clock
/// reading `now_ms`, in milliseconds; zero if the clock reads earlier than
/// the send time.
pub open spec fn rtt_sample_ms(seg: Segment, now_ms: u64) -> int {
    if now_ms >= seg.sent_at_ms {
        now_ms - seg.sent_at_ms
    } else {
        0
    }
}

/// One sent-but-unacknowledged segment, owned by the table until a
/// cumulative acknowledgment covers it.
pub struct Segment {
    /// Sequence number, 1-based, never reused.
    pub seq: u32,
    /// Payload carried by the segment, at most `MAX_PAYLOAD` bytes.
    pub payload: Vec<u8>,
    /// Clock reading at the most recent (re)transmission, in milliseconds.
    pub sent_at_ms: u64,
    /// How many times the segment has been retransmitted.
    pub retry_count: u32,
}

/// All the state of one transfer.
pub struct TransmissionState {
    /// How many bytes the whole transfer must carry.
    pub total_bytes: usize,
    /// The byte every payload repeats.
    pub fill_byte: u8,
    /// Clock reading when the transfer started, in milliseconds.
    pub start_ms: u64,
    /// Bytes handed to the wire so far, acknowledged or not.
    pub transmitted: usize,
    /// Next sequence number to allocate.
    pub next_seq: u32,
    /// Highest cumulatively acknowledged sequence number, 0 before any.
    pub last_acked_seq: u32,
    /// Check value carried by the most recent acknowledgment that made
    /// progress; handed to the caller on completion.
    pub checknum: u8,
    /// Duplicate cumulative acknowledgments seen since the last progress.
    pub dup_acks: u32,
    /// Congestion-window state.
    pub cc: CongestionControl,
    /// Round-trip-time and timeout state.
    pub rtt: RttEstimator,
    /// The sent-but-unacknowledged segments, oldest first.
    pub table: Vec<Segment>,
}

/// One table entry is well formed: a non-empty payload of at most
/// `MAX_PAYLOAD` copies of the fill byte, sent at a valid clock reading.
pub open spec fn segment_wf(seg: Segment, fill: u8) -> bool {
    &&& 1 <= seg.payload@.len() <= MAX_PAYLOAD
    &&& seg.sent_at_ms <= MAX_CLOCK_MS
    &&& forall|j: int| 0 <= j < seg.payload@.len() ==> seg.payload@[j] == fill
}

impl TransmissionState {
    /// The engine invariant.  Alongside plain bounds it pins the shape of
    /// the segment table: it holds exactly the sequence numbers strictly
    /// between `last_acked_seq` and `next_seq`, in order — so no key at or
    /// below `last_acked_seq` ever exists in it.
    pub open spec fn wf(self) -> bool {
        &&& self.cc.wf()
        &&& self.rtt.wf()
        &&& self.total_bytes <= MAX_TOTAL_BYTES
        &&& self.transmitted <= self.total_bytes
        &&& 1 <= self.next_seq
        &&& self.last_acked_seq < self.next_seq
        &&& self.next_seq <= self.transmitted + 1
        &&& self.dup_acks < DUP_ACK_LIMIT
        &&& self.start_ms <= MAX_CLOCK_MS
        &&& self.table@.len() == self.next_seq - self.last_acked_seq - 1
        &&& forall|i: int|
            0 <= i < self.table@.len() ==> (#[trigger] self.table@[i]).seq == self.last_acked_seq
                + 1 + i
        &&& forall|i: int|
            0 <= i < self.table@.len() ==> segment_wf(#[trigger] self.table@[i], self.fill_byte)
    }

    /// Fresh state for one transfer: nothing sent, sequence numbers start
    /// at one, controller and estimator in their initial states.
    pub fn new(total_bytes: usize, fill_byte: u8, start_ms: u64) -> (r: Self)
        requires
            total_bytes <= MAX_TOTAL_BYTES,
            start_ms <= MAX_CLOCK_MS,
        ensures
            r.wf(),
            r.total_bytes == total_bytes,
            r.fill_byte == fill_byte,
            r.start_ms == start_ms,
            r.transmitted == 0,
            r.next_seq == 1,
            r.last_acked_seq == 0,
            r.checknum == 0,
            r.dup_acks == 0,
            r.cc == (CongestionControl {
                cwnd: crate::congestion::INITIAL_CWND,
                ssthresh: crate::congestion::INITIAL_SSTHRESH,
            }),
            r.rtt == (RttEstimator { srtt: 0, rttvar: 0, rto_ms: crate::rtt::INITIAL_RTO_MS }),
            r.table@.len() == 0,
    {
        TransmissionState {
            total_bytes,
            fill_byte,
            start_ms,
            transmitted: 0,
            next_seq: 1,
            last_acked_seq: 0,
            checknum: 0,
            dup_acks: 0,
            cc: CongestionControl::new(),
            rtt: RttEstimator::new(),
            table: Vec::new(),
        }
    }

    /// The transfer is done: every byte was handed to the wire and every
    /// segment was acknowledged.
    pub fn is_complete(&self) -> (r: bool)
        ensures
            r == (self.transmitted == self.total_bytes && self.table@.len() == 0),
    {
        self.transmitted == self.total_bytes && self.table.len() == 0
    }

    /// The global deadline has passed: more wall-clock time than
    /// `GLOBAL_TIMEOUT_MS` has elapsed since the transfer started.
    pub fn deadline_exceeded(&self, now_ms: u64) -> (r: bool)
        ensures
            r == (now_ms > self.start_ms + GLOBAL_TIMEOUT_MS),
    {
        now_ms > self.start_ms && now_ms - self.start_ms > GLOBAL_TIMEOUT_MS
    }

    /// How many segments are still unacknowledged: the context a fatal
    /// deadline report carries.
    pub fn unacked_count(&self) -> (r: usize)
        ensures
            r == self.table@.len(),
    {
        self.table.len()
    }

    /// Send phase of one loop iteration: while bytes remain and the table
    /// holds fewer segments than the congestion window allows, build the
    /// next segment — `chunk_len` bytes of the fill byte under the next
    /// sequence number — record it in the table with retry count zero, and
    /// hand the datagram back for the wire.
    pub fn send_new_segments(&mut self, now_ms: u64) -> (out: Vec<Vec<u8>>)
        requires
            old(self).wf(),
            now_ms <= MAX_CLOCK_MS,
        ensures
            final(self).wf(),
            final(self).cc == old(self).cc,
            final(self).rtt == old(self).rtt,
            final(self).last_acked_seq == old(self).last_acked_seq,
            final(self).checknum == old(self).checknum,
            final(self).dup_acks == old(self).dup_acks,
            final(self).total_bytes == old(self).total_bytes,
            final(self).fill_byte == old(self).fill_byte,
            final(self).start_ms == old(self).start_ms,
            final(self).next_seq == old(self).next_seq + out@.len(),
            final(self).table@.len() == old(self).table@.len() + out@.len(),
            forall|i: int|
                0 <= i < old(self).table@.len() ==> final(self).table@[i] == old(self).table@[i],
            forall|i: int|
                old(self).table@.len() <= i < final(self).table@.len() ==> {
                    let seg = #[trigger] final(self).table@[i];
                    let j = i - old(self).table@.len();
                    &&& seg.seq == old(self).next_seq + j
                    &&& seg.sent_at_ms == now_ms
                    &&& seg.retry_count == 0
                    &&& seg.payload@ == Seq::new(
                        chunk_len(
                            old(self).total_bytes as int,
                            old(self).transmitted + MAX_PAYLOAD * j,
                        ) as nat,
                        |q: int| old(self).fill_byte,
                    )
                },
            forall|j: int|
                0 <= j < out@.len() ==> (#[trigger] out@[j])@ == packet_bytes(
                    (old(self).next_seq + j) as u32,
                    chunk_len(old(self).total_bytes as int, old(self).transmitted + MAX_PAYLOAD * j),
                    old(self).fill_byte,
                ),
            final(self).transmitted == transmitted_after(
                old(self).total_bytes as int,
                old(self).transmitted as int,
                out@.len() as int,
            ),
            // every emission was allowed by the window and by the bytes remaining
            out@.len() > 0 ==> old(self).table@.len() + out@.len() - 1 < spec_window(old(self).cc)
                && old(self).transmitted + MAX_PAYLOAD * (out@.len() - 1) < old(self).total_bytes,
            // and the phase only stops when full or out of bytes
            final(self).transmitted == old(self).total_bytes || final(self).table@.len()
                >= spec_window(old(self).cc),
    {
        let ghost pre = *self;
        let window = self.cc.window();
        let mut out: Vec<Vec<u8>> = Vec::new();
        while self.transmitted < self.total_bytes && self.table.len() < window
            invariant
                self.wf(),
                pre.wf(),
                now_ms <= MAX_CLOCK_MS,
                window == spec_window(pre.cc),
                self.cc == pre.cc,
                self.rtt == pre.rtt,
                self.last_acked_seq == pre.last_acked_seq,
                self.checknum == pre.checknum,
                self.dup_acks == pre.dup_acks,
                self.total_bytes == pre.total_bytes,
                self.fill_byte == pre.fill_byte,
                self.start_ms == pre.start_ms,
                self.next_seq == pre.next_seq + out@.len(),
                self.table@.len() == pre.table@.len() + out@.len(),
                forall|i: int| 0 <= i < pre.table@.len() ==> self.table@[i] == pre.table@[i],
                forall|i: int|
                    pre.table@.len() <= i < self.table@.len() ==> {
                        let seg = #[trigger] self.table@[i];
                        let j = i - pre.table@.len();
                        &&& seg.seq == pre.next_seq + j
                        &&& seg.sent_at_ms == now_ms
                        &&& seg.retry_count == 0
                        &&& seg.payload@ == Seq::new(
                            chunk_len(
                                pre.total_bytes as int,
                                pre.transmitted + MAX_PAYLOAD * j,
                            ) as nat,
                            |q: int| pre.fill_byte,
                        )
                    },
                forall|j: int|
                    0 <= j < out@.len() ==> (#[trigger] out@[j])@ == packet_bytes(
                        (pre.next_seq + j) as u32,
                        chunk_len(pre.total_bytes as int, pre.transmitted + MAX_PAYLOAD * j),
                        pre.fill_byte,
                    ),
                self.transmitted == transmitted_after(
                    pre.total_bytes as int,
                    pre.transmitted as int,
                    out@.len() as int,
                ),
                out@.len() > 0 ==> pre.table@.len() + out@.len() - 1 < spec_window(pre.cc)
                    && pre.transmitted + MAX_PAYLOAD * (out@.len() - 1) < pre.total_bytes,
            decreases self.total_bytes - self.transmitted,
        {
            let remaining = self.total_bytes - self.transmitted;
            let payload_size = if remaining < MAX_PAYLOAD {
                remaining
            } else {
                MAX_PAYLOAD
            };
            let packet = create_packet(self.next_seq, payload_size, self.fill_byte);
            let mut payload: Vec<u8> = Vec::with_capacity(payload_size);
            let mut b: usize = 0;
            while b < payload_size
                invariant
                    b <= payload_size,
                    payload@.len() == b,
                    forall|q: int| 0 <= q < b ==> payload@[q] == self.fill_byte,
                decreases payload_size - b,
            {
                payload.push(self.fill_byte);
                b += 1;
            }
            let seg = Segment {
                seq: self.next_seq,
                payload,
                sent_at_ms: now_ms,
                retry_count: 0,
            };
            self.table.push(seg);
            out.push(packet);
            self.transmitted = self.transmitted + payload_size;
            self.next_seq = self.next_seq + 1;
            proof {
                let k = out@.len() as int;
                assert(self.table@[pre.table@.len() + k - 1].payload@ =~= Seq::new(
                    chunk_len(pre.total_bytes as int, pre.transmitted + MAX_PAYLOAD * (k - 1)) as nat,
                    |q: int| pre.fill_byte,
                ));
            }
        }
        out
    }

    /// Receive phase, one acknowledgment: applies `ack_transition` to the
    /// state and hands back the datagram to retransmit at once, if the
    /// third duplicate in a row just asked for one.
    pub fn handle_ack(&mut self, acked_seq: u32, checknum: u8, now_ms: u64) -> (retx: Option<
        Vec<u8>,
    >)
        requires
            old(self).wf(),
            now_ms <= MAX_CLOCK_MS,
        ensures
            final(self).wf(),
            ack_transition(*old(self), acked_seq, checknum, now_ms, *final(self), retx),
    {
        let ghost pre = *self;
        if acked_seq > self.last_acked_seq && acked_seq < self.next_seq {
            // The newly covered run is non-empty, so the oldest outstanding
            // segment is the oldest just-acked one: sample it, unless a
            // retransmission made its round-trip time ambiguous.
            let first_sent = self.table[0].sent_at_ms;
            let first_retry = self.table[0].retry_count;
            if first_retry == 0 {
                let sample = if now_ms >= first_sent {
                    now_ms - first_sent
                } else {
                    0
                };
                self.rtt.update(sample);
            }
            let k = acked_seq - self.last_acked_seq;
            let mut removed: u32 = 0;
            while removed < k
                invariant
                    removed <= k,
                    k == acked_seq - pre.last_acked_seq,
                    pre.last_acked_seq < acked_seq < pre.next_seq,
                    pre.wf(),
                    self.table@ == pre.table@.skip(removed as int),
                    self.cc == controller_after_acks(pre.cc, removed as nat),
                    self.cc.wf(),
                    self.rtt == (if pre.table@[0].retry_count == 0 {
                        estimator_after_sample(pre.rtt, rtt_sample_ms(pre.table@[0], now_ms))
                    } else {
                        pre.rtt
                    }),
                    self.rtt.wf(),
                    self.total_bytes == pre.total_bytes,
                    self.fill_byte == pre.fill_byte,
                    self.start_ms == pre.start_ms,
                    self.transmitted == pre.transmitted,
                    self.next_seq == pre.next_seq,
                    self.last_acked_seq == pre.last_acked_seq,
                    self.checknum == pre.checknum,
                    self.dup_acks == pre.dup_acks,
                decreases k - removed,
            {
                let _ = self.table.remove(0);
                self.cc.on_ack();
                removed += 1;
                proof {
                    assert(self.table@ =~= pre.table@.skip(removed as int));
                }
            }
            self.last_acked_seq = acked_seq;
            self.checknum = checknum;
            self.dup_acks = 0;
            None
        } else if acked_seq == self.last_acked_seq {
            if self.dup_acks + 1 < DUP_ACK_LIMIT {
                self.dup_acks = self.dup_acks + 1;
                None
            } else {
                self.cc.on_fast_retransmit();
                self.dup_acks = 0;
                if self.table.len() > 0 {
                    let seq0 = self.table[0].seq;
                    let plen = self.table[0].payload.len();
                    let packet = create_packet(seq0, plen, self.fill_byte);
                    self.table[0].sent_at_ms = now_ms;
                    let rc = self.table[0].retry_count;
                    self.table[0].retry_count = if rc == u32::MAX {
                        rc
                    } else {
                        rc + 1
                    };
                    proof {
                        assert(self.table@ =~= pre.table@.update(
                            0,
                            (Segment {
                                seq: pre.table@[0].seq,
                                payload: pre.table@[0].payload,
                                sent_at_ms: now_ms,
                                retry_count: bumped_retry(pre.table@[0].retry_count),
                            }),
                        ));
                    }
                    Some(packet)
                } else {
                    None
                }
            }
        } else {
            None
        }
    }

    /// Receive phase, one datagram off the wire: a datagram shorter than a
    /// well-formed acknowledgment is discarded with no state change at all;
    /// otherwise the acknowledgment it carries is processed.
    pub fn on_datagram(&mut self, ack_buf: &[u8], now_ms: u64) -> (retx: Option<Vec<u8>>)
        requires
            old(self).wf(),
            now_ms <= MAX_CLOCK_MS,
        ensures
            final(self).wf(),
            ack_buf@.len() < ACK_SIZE ==> *final(self) == *old(self) && retx is None,
            ack_buf@.len() >= ACK_SIZE ==> ack_transition(
                *old(self),
                be32_value(ack_buf@[0], ack_buf@[1], ack_buf@[2], ack_buf@[3]) as u32,
                ack_buf@[4],
                now_ms,
                *final(self),
                retx,
            ),
    {
        match parse_ack(ack_buf) {
            Some((acked_seq, checknum)) => self.handle_ack(acked_seq, checknum, now_ms),
            None => None,
        }
    }

    /// Retransmission-timer evaluation after a receive attempt lapsed with
    /// no datagram: applies `timeout_transition`, retransmitting at most
    /// the single oldest outstanding segment per tick.
    pub fn on_receive_timeout(&mut self, now_ms: u64) -> (retx: Option<Vec<u8>>)
        requires
            old(self).wf(),
            now_ms <= MAX_CLOCK_MS,
        ensures
            final(self).wf(),
            timeout_transition(*old(self), now_ms, *final(self), retx),
    {
        let ghost pre = *self;
        if self.table.len() > 0 {
            let sent = self.table[0].sent_at_ms;
            let age = if now_ms >= sent {
                now_ms - sent
            } else {
                0
            };
            if age > self.rtt.rto_ms {
                self.cc.on_timeout();
                self.rtt.backoff();
                let seq0 = self.table[0].seq;
                let plen = self.table[0].payload.len();
                let packet = create_packet(seq0, plen, self.fill_byte);
                self.table[0].sent_at_ms = now_ms;
                let rc = self.table[0].retry_count;
                self.table[0].retry_count = if rc == u32::MAX {
                    rc
                } else {
                    rc + 1
                };
                proof {
                    assert(self.table@ =~= pre.table@.update(
                        0,
                        (Segment {
                            seq: pre.table@[0].seq,
                            payload: pre.table@[0].payload,
                            sent_at_ms: now_ms,
                            retry_count: bumped_retry(pre.table@[0].retry_count),
                        }),
                    ));
                }
                Some(packet)
            } else {
                None
            }
        } else {
            None
        }
    }

    /// The sequence numbers to resend proactively after an acknowledgment
    /// advanced by only a small amount: the next few consecutive
    /// outstanding segments, twice the advance and at most five, to help a
    /// receiver that drains only one contiguous run per arriving segment.
    pub fn get_proactive_retransmits(&self, ack_advance: u32) -> (r: Vec<u32>)
        requires
            self.wf(),
        ensures
            r@.len() == proactive_count(ack_advance as int, self.table@.len() as int),
            forall|j: int| 0 <= j < r@.len() ==> (#[trigger] r@[j]) == self.last_acked_seq + 1 + j,
    {
        if ack_advance >= 1 && ack_advance <= 3 && self.table.len() > 0 {
            let m: usize = if 2 * ack_advance < 5 {
                (2 * ack_advance) as usize
            } else {
                5
            };
            let count = if m < self.table.len() {
                m
            } else {
                self.table.len()
            };
            let mut r: Vec<u32> = Vec::new();
            let mut j: usize = 0;
            while j < count
                invariant
                    self.wf(),
                    j <= count,
                    count <= self.table@.len(),
                    r@.len() == j,
                    forall|q: int|
                        0 <= q < r@.len() ==> (#[trigger] r@[q]) == self.last_acked_seq + 1 + q,
                decreases count - j,
            {
                r.push(self.last_acked_seq + 1 + (j as u32));
                j += 1;
            }
            r
        } else {
            Vec::new()
        }
    }

    /// Rebuilds the datagram of one outstanding segment and re-stamps its
    /// send time, leaving its retry count alone: a proactive resend is not
    /// a timeout-driven retransmission.  A sequence number outside the
    /// table changes nothing.
    pub fn datagram_for_resend(&mut self, seq: u32, now_ms: u64) -> (r: Option<Vec<u8>>)
        requires
            old(self).wf(),
            now_ms <= MAX_CLOCK_MS,
        ensures
            final(self).wf(),
            if old(self).last_acked_seq < seq < old(self).next_seq {
                let i = seq - old(self).last_acked_seq - 1;
                &&& final(self).table@ == old(self).table@.update(
                    i as int,
                    (Segment {
                        seq,
                        payload: old(self).table@[i as int].payload,
                        sent_at_ms: now_ms,
                        retry_count: old(self).table@[i as int].retry_count,
                    }),
                )
                &&& (r matches Some(v) && v@ == packet_bytes(
                    seq,
                    old(self).table@[i as int].payload@.len() as int,
                    old(self).fill_byte,
                ))
                &&& final(self).cc == old(self).cc
                &&& final(self).rtt == old(self).rtt
                &&& final(self).transmitted == old(self).transmitted
                &&& final(self).next_seq == old(self).next_seq
                &&& final(self).last_acked_seq == old(self).last_acked_seq
                &&& final(self).checknum == old(self).checknum
                &&& final(self).dup_acks == old(self).dup_acks
                &&& final(self).total_bytes == old(self).total_bytes
                &&& final(self).fill_byte == old(self).fill_byte
                &&& final(self).start_ms == old(self).start_ms
            } else {
                &&& *final(self) == *old(self)
                &&& r is None
            },
    {
        let ghost pre = *self;
        if seq > self.last_acked_seq && seq < self.next_seq {
            let i = (seq - self.last_acked_seq - 1) as usize;
            let plen = self.table[i].payload.len();
            let packet = create_packet(self.table[i].seq, plen, self.fill_byte);
            self.table[i].sent_at_ms = now_ms;
            proof {
                assert(self.table@ =~= pre.table@.update(
                    i as int,
                    (Segment {
                        seq,
                        payload: pre.table@[i as int].payload,
                        sent_at_ms: now_ms,
                        retry_count: pre.table@[i as int].retry_count,
                    }),
                ));
            }
            Some(packet)
        } else {
            None
        }
    }
}

/// Everything the retransmission-timer tick does to the engine state.  If
/// the oldest outstanding segment — the next one the receiver expects —
/// has been waiting longer than the current timeout, the controller takes
/// a timeout, the estimator backs off, and that one segment is re-stamped,
/// its retry count raised, and handed back for the wire.  Otherwise
/// nothing changes.
pub open spec fn timeout_transition(
    pre: TransmissionState,
    now_ms: u64,
    post: TransmissionState,
    retx: Option<Vec<u8>>,
) -> bool {
    if pre.table@.len() > 0 && rtt_sample_ms(pre.table@[0], now_ms) > pre.rtt.rto_ms {
        &&& post.total_bytes == pre.total_bytes
        &&& post.fill_byte == pre.fill_byte
        &&& post.start_ms == pre.start_ms
        &&& post.transmitted == pre.transmitted
        &&& post.next_seq == pre.next_seq
        &&& post.last_acked_seq == pre.last_acked_seq
        &&& post.checknum == pre.checknum
        &&& post.dup_acks == pre.dup_acks
        &&& post.cc == controller_after_timeout(pre.cc)
        &&& post.rtt == estimator_after_backoff(pre.rtt)
        &&& post.table@ == pre.table@.update(
            0,
            (Segment {
                seq: pre.table@[0].seq,
                payload: pre.table@[0].payload,
                sent_at_ms: now_ms,
                retry_count: bumped_retry(pre.table@[0].retry_count),
            }),
        )
        &&& (retx matches Some(v) && v@ == packet_bytes(
            pre.table@[0].seq,
            pre.table@[0].payload@.len() as int,
            pre.fill_byte,
        ))
    } else {
        &&& post == pre
        &&& retx is None
    }
}

/// How many segments a small acknowledgment advance asks to resend
/// proactively: twice the advance, at most five, never more than the table
/// holds, and none at all unless the advance was between one and three
/// with segments still outstanding.
pub open spec fn proactive_count(ack_advance: int, table_len: int) -> int {
    if 1 <= ack_advance <= 3 && table_len > 0 {
        let m = if 2 * ack_advance < 5 {
            2 * ack_advance
        } else {
            5
        };
        if m < table_len {
            m
        } else {
            table_len
        }
    } else {
        0
    }
}

/// Law: an acknowledgment at or below the last acknowledged sequence — as
/// long as it is not the third duplicate in a row, which fires the fast
/// retransmit — never touches the segment table, the congestion
/// controller, or the estimator; one strictly below changes nothing at
/// all.
pub proof fn lemma_stale_or_duplicate_ack_is_quiet(
    pre: TransmissionState,
    acked_seq: u32,
    checknum: u8,
    now_ms: u64,
    post: TransmissionState,
    retx: Option<Vec<u8>>,
)
    requires
        pre.wf(),
        ack_transition(pre, acked_seq, checknum, now_ms, post, retx),
        acked_seq <= pre.last_acked_seq,
        pre.dup_acks + 1 < DUP_ACK_LIMIT,
    ensures
        post.table@ == pre.table@,
        post.cc == pre.cc,
        post.rtt == pre.rtt,
        post.transmitted == pre.transmitted,
        post.last_acked_seq == pre.last_acked_seq,
        post.checknum == pre.checknum,
        retx is None,
        acked_seq < pre.last_acked_seq ==> post == pre,
{
}

/// Everything one acknowledgment naming `acked_seq` with check value
/// `checknum` does to the engine state, and the datagram it may hand back
/// for immediate retransmission.
///
/// A fresh acknowledgment (above the last one, naming an allocated
/// sequence) removes the newly covered run from the table, grows the
/// congestion window once per removed segment, feeds one round-trip sample
/// from the oldest just-acked segment unless that segment was ever
/// retransmitted, stores the check value, and clears the duplicate
/// counter.  A duplicate (naming exactly the last acknowledged sequence)
/// only counts, until the third in a row halves the window and asks for
/// the next expected segment again.  A stale acknowledgment, or one naming
/// a sequence never allocated, changes nothing.
pub open spec fn ack_transition(
    pre: TransmissionState,
    acked_seq: u32,
    checknum: u8,
    now_ms: u64,
    post: TransmissionState,
    retx: Option<Vec<u8>>,
) -> bool {
    if pre.last_acked_seq < acked_seq < pre.next_seq {
        let k = acked_seq - pre.last_acked_seq;
        &&& post.total_bytes == pre.total_bytes
        &&& post.fill_byte == pre.fill_byte
        &&& post.start_ms == pre.start_ms
        &&& post.transmitted == pre.transmitted
        &&& post.next_seq == pre.next_seq
        &&& post.last_acked_seq == acked_seq
        &&& post.checknum == checknum
        &&& post.dup_acks == 0
        &&& post.table@ == pre.table@.skip(k as int)
        &&& post.cc == controller_after_acks(pre.cc, k as nat)
        &&& post.rtt == (if pre.table@[0].retry_count == 0 {
            estimator_after_sample(pre.rtt, rtt_sample_ms(pre.table@[0], now_ms))
        } else {
            pre.rtt
        })
        &&& retx is None
    } else if acked_seq == pre.last_acked_seq {
        if pre.dup_acks + 1 < DUP_ACK_LIMIT {
            &&& post == (TransmissionState { dup_acks: (pre.dup_acks + 1) as u32, ..pre })
            &&& retx is None
        } else {
            &&& post.total_bytes == pre.total_bytes
            &&& post.fill_byte == pre.fill_byte
            &&& post.start_ms == pre.start_ms
            &&& post.transmitted == pre.transmitted
            &&& post.next_seq == pre.next_seq
            &&& post.last_acked_seq == pre.last_acked_seq
            &&& post.checknum == pre.checknum
            &&& post.dup_acks == 0
            &&& post.cc == controller_after_fast_retransmit(pre.cc)
            &&& post.rtt == pre.rtt
            &&& if pre.table@.len() > 0 {
                &&& post.table@ == pre.table@.update(
                    0,
                    (Segment {
                        seq: pre.table@[0].seq,
                        payload: pre.table@[0].payload,
                        sent_at_ms: now_ms,
                        retry_count: bumped_retry(pre.table@[0].retry_count),
                    }),
                )
                &&& (retx matches Some(v) && v@ == packet_bytes(
                    pre.table@[0].seq,
                    pre.table@[0].payload@.len() as int,
                    pre.fill_byte,
                ))
            } else {
                &&& post.table@ == pre.table@
                &&& retx is None
            }
        }
    } else {
        &&& post == pre
        &&& retx is None
    }
}

/// Law: under the engine invariant, every sequence number in the segment
/// table is strictly above the last cumulatively acknowledged one —
/// cumulative-acknowledgment semantics hold in every reachable state.
pub proof fn lemma_table_keys_exceed_acked(s: TransmissionState)
    requires
        s.wf(),
    ensures
        forall|i: int| 0 <= i < s.table@.len() ==> (#[trigger] s.table@[i]).seq > s.last_acked_seq,
{
}

/// Law: under the engine invariant — which every constructor establishes
/// and every step preserves — the usable window stays between one and
/// sixty-four segments and the retransmission timeout stays within its
/// clamp.
pub proof fn lemma_window_and_rto_bounds(s: TransmissionState)
    requires
        s.wf(),
    ensures
        1 <= spec_window(s.cc) <= 64,
        crate::rtt::MIN_RTO_MS <= s.rtt.rto_ms <= crate::rtt::MAX_RTO_MS,
{
    assert(1 <= s.cc.cwnd as int / crate::congestion::CWND_UNIT as int <= 64) by (nonlinear_arith)
        requires
            crate::congestion::MIN_CWND <= s.cc.cwnd <= crate::congestion::MAX_CWND,
    ;
}

} // verus!
