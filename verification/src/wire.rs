//! Wire format of the transport, all multi-byte integers big-endian.
//!
//! A data segment is four bytes of sequence number, two bytes of payload
//! length, then the payload itself, at most `MAX_PAYLOAD` bytes.  An
//! acknowledgment segment is four bytes naming the highest contiguous
//! sequence received, then one opaque check byte.

use vstd::prelude::*;

verus! {

/// Largest payload one data segment may carry, in bytes.
pub const MAX_PAYLOAD: usize = 1200;

/// Bytes of the data-segment header: sequence number plus payload length.
pub const HEADER_SIZE: usize = 6;

/// Bytes of a well-formed acknowledgment segment.
pub const ACK_SIZE: usize = 5;

/// The four big-endian base-256 digits of a 32-bit value, most significant
/// first.
pub open spec fn u32_be_bytes(n: u32) -> Seq<u8> {
    seq![
        (n as int / 0x1000000) as u8,
        ((n as int / 0x10000) % 0x100) as u8,
        ((n as int / 0x100) % 0x100) as u8,
        (n as int % 0x100) as u8,
    ]
}

/// The two big-endian base-256 digits of a 16-bit value, most significant
/// first.
pub open spec fn u16_be_bytes(n: u16) -> Seq<u8> {
    seq![(n as int / 0x100) as u8, (n as int % 0x100) as u8]
}

/// The 32-bit value written big-endian as the four given bytes.
pub open spec fn be32_value(b0: u8, b1: u8, b2: u8, b3: u8) -> int {
    b0 as int * 0x1000000 + b1 as int * 0x10000 + b2 as int * 0x100 + b3 as int
}

/// All the bytes of one data segment: header, then `payload_len` copies of
/// the fill byte.
pub open spec fn packet_bytes(seq: u32, payload_len: int, fill: u8) -> Seq<u8> {
    u32_be_bytes(seq) + u16_be_bytes(payload_len as u16) + Seq::new(
        payload_len as nat,
        |i: int| fill,
    )
}

/// Law: reading the four big-endian digits of a sequence number back gives
/// the sequence number: the codec round-trips.
pub proof fn lemma_be32_round_trip(n: u32)
    ensures
        be32_value(
            u32_be_bytes(n)[0],
            u32_be_bytes(n)[1],
            u32_be_bytes(n)[2],
            u32_be_bytes(n)[3],
        ) == n,
{
    assert((n as int / 0x1000000) * 0x1000000 + ((n as int / 0x10000) % 0x100) * 0x10000 + ((
    n as int / 0x100) % 0x100) * 0x100 + (n as int % 0x100) == n) by (nonlinear_arith)
        requires
            0 <= n < 0x100000000,
    ;
}

/// Builds the datagram for one data segment: the sequence number and the
/// payload length big-endian, then the payload, `payload_size` copies of
/// `character`.
pub fn create_packet(seq: u32, payload_size: usize, character: u8) -> (packet: Vec<u8>)
    requires
        payload_size <= MAX_PAYLOAD,
    ensures
        packet@ == packet_bytes(seq, payload_size as int, character),
        packet@.len() == HEADER_SIZE + payload_size,
{
    let mut packet: Vec<u8> = Vec::with_capacity(HEADER_SIZE + payload_size);
    packet.push((seq / 0x1000000) as u8);
    packet.push(((seq / 0x10000) % 0x100) as u8);
    packet.push(((seq / 0x100) % 0x100) as u8);
    packet.push((seq % 0x100) as u8);
    let len16: u16 = payload_size as u16;
    packet.push((len16 / 0x100) as u8);
    packet.push((len16 % 0x100) as u8);
    let mut i: usize = 0;
    while i < payload_size
        invariant
            i <= payload_size,
            payload_size <= MAX_PAYLOAD,
            packet@.len() == HEADER_SIZE + i,
            packet@ == (u32_be_bytes(seq) + u16_be_bytes(len16)) + Seq::new(
                i as nat,
                |j: int| character,
            ),
        decreases payload_size - i,
    {
        packet.push(character);
        i += 1;
        assert(packet@ =~= (u32_be_bytes(seq) + u16_be_bytes(len16)) + Seq::new(
            i as nat,
            |j: int| character,
        ));
    }
    assert(packet@ =~= packet_bytes(seq, payload_size as int, character));
    packet
}

/// Reads one acknowledgment datagram: `None` exactly when fewer than
/// `ACK_SIZE` bytes arrived, otherwise the acknowledged sequence number and
/// the check byte.
pub fn parse_ack(ack_buf: &[u8]) -> (r: Option<(u32, u8)>)
    ensures
        ack_buf@.len() < ACK_SIZE ==> r is None,
        ack_buf@.len() >= ACK_SIZE ==> r == Some(
            (
                be32_value(ack_buf@[0], ack_buf@[1], ack_buf@[2], ack_buf@[3]) as u32,
                ack_buf@[4],
            ),
        ),
{
    if ack_buf.len() < ACK_SIZE {
        return None;
    }
    let acked_seq: u32 = ack_buf[0] as u32 * 0x1000000 + ack_buf[1] as u32 * 0x10000 + ack_buf[2]
        as u32 * 0x100 + ack_buf[3] as u32;
    Some((acked_seq, ack_buf[4]))
}

/// Law: an acknowledgment datagram written for sequence `n` with check byte
/// `c` reads back as exactly `(n, c)`.
pub proof fn lemma_ack_round_trip(n: u32, c: u8)
    ensures
        ({
            let ack = u32_be_bytes(n) + seq![c];
            &&& ack.len() == ACK_SIZE
            &&& be32_value(ack[0], ack[1], ack[2], ack[3]) == n
            &&& ack[4] == c
        }),
{
    lemma_be32_round_trip(n);
}

/// Law: the header of a data segment reads back as the sequence number and
/// the payload length it was built from.
pub proof fn lemma_packet_header_round_trip(seq: u32, payload_len: int, fill: u8)
    requires
        0 <= payload_len <= MAX_PAYLOAD,
    ensures
        ({
            let p = packet_bytes(seq, payload_len, fill);
            &&& p.len() == HEADER_SIZE + payload_len
            &&& be32_value(p[0], p[1], p[2], p[3]) == seq
            &&& p[4] as int * 0x100 + p[5] as int == payload_len
        }),
{
    lemma_be32_round_trip(seq);
    assert((payload_len as u16 as int / 0x100) * 0x100 + (payload_len as u16 as int % 0x100)
        == payload_len) by (nonlinear_arith)
        requires
            0 <= payload_len <= 1200,
    ;
}

} // verus!
