//! Payload inspection and the byte-shift cipher used on forwarded packets.
//!
//! The forwarder drops or duplicates a packet according to whether its
//! payload contains a configured pattern, compared ASCII-case-insensitively;
//! the cipher shifts every byte by three, wrapping around.

use vstd::prelude::*;

verus! {

/// ASCII lower-casing of one byte: upper-case letters gain `0x20`, every
/// other byte stays itself.
pub open spec fn ascii_lower(b: u8) -> u8 {
    if 0x41 <= b <= 0x5a {
        (b + 0x20) as u8
    } else {
        b
    }
}

/// The two byte sequences are equal when compared ASCII-case-insensitively.
pub open spec fn eq_ignore_ascii_case_seq(a: Seq<u8>, b: Seq<u8>) -> bool {
    &&& a.len() == b.len()
    &&& forall|i: int| 0 <= i < a.len() ==> ascii_lower(a[i]) == ascii_lower(b[i])
}

/// The pattern occurs somewhere in the haystack, compared
/// ASCII-case-insensitively.
pub open spec fn contains_ignore_ascii_case(hay: Seq<u8>, pat: Seq<u8>) -> bool {
    exists|i: int|
        0 <= i && i + pat.len() <= hay.len() && #[trigger] eq_ignore_ascii_case_seq(
            hay.subrange(i, i + pat.len() as int),
            pat,
        )
}

/// One byte shifted up by three, wrapping around at 256.
pub open spec fn shifted_byte(b: u8) -> u8 {
    ((b as int + 3) % 0x100) as u8
}

/// One byte shifted down by three, wrapping around at 256.
pub open spec fn unshifted_byte(b: u8) -> u8 {
    ((b as int + 0xfd) % 0x100) as u8
}

/// What a forwarder does with one packet.
#[derive(Clone, Copy, Debug, PartialEq, Eq, Structural)]
pub enum TunAction {
    /// The payload holds the drop pattern: do not forward.
    Drop,
    /// The payload holds the duplicate pattern: forward twice.
    Duplicate,
    /// Forward once.
    Forward,
}

/// ASCII-lower-cases one byte.
fn lower_byte(b: u8) -> (r: u8)
    ensures
        r == ascii_lower(b),
{
    if 0x41 <= b && b <= 0x5a {
        b + 0x20
    } else {
        b
    }
}

/// The window of the haystack starting at `at` equals the pattern,
/// compared ASCII-case-insensitively.
fn window_matches(hay: &[u8], pat: &[u8], at: usize) -> (r: bool)
    requires
        at + pat@.len() <= hay@.len(),
    ensures
        r == eq_ignore_ascii_case_seq(hay@.subrange(at as int, at + pat@.len()), pat@),
{
    let ghost window = hay@.subrange(at as int, at + pat@.len());
    let plen = pat.len();
    let hlen = hay.len();
    let mut j: usize = 0;
    while j < plen
        invariant
            plen == pat@.len(),
            hlen == hay@.len(),
            j <= plen,
            at + plen <= hlen,
            window == hay@.subrange(at as int, at + pat@.len()),
            forall|k: int| 0 <= k < j ==> ascii_lower(window[k]) == ascii_lower(pat@[k]),
        decreases plen - j,
    {
        assert(window[j as int] == hay@[at + j]);
        if lower_byte(hay[at + j]) != lower_byte(pat[j]) {
            return false;
        }
        j += 1;
    }
    true
}

/// The payload contains the pattern `you`, compared
/// ASCII-case-insensitively: the gatekeeping test of the forwarder.
pub fn you_shall_not_pass(you: &[u8], payload: &[u8]) -> (r: bool)
    requires
        you@.len() >= 1,
    ensures
        r == contains_ignore_ascii_case(payload@, you@),
{
    if you.len() > payload.len() {
        return false;
    }
    let end = payload.len() - you.len();
    let mut i: usize = 0;
    while i <= end
        invariant
            you@.len() >= 1,
            end == payload@.len() - you@.len(),
            end < usize::MAX,
            i <= end + 1,
            forall|k: int|
                0 <= k < i ==> !(#[trigger] eq_ignore_ascii_case_seq(
                    payload@.subrange(k, k + you@.len()),
                    you@,
                )),
        decreases end + 1 - i,
    {
        if window_matches(payload, you, i) {
            return true;
        }
        i += 1;
    }
    false
}

/// Decides what to do with a packet read from the tunnel device: drop it
/// when its payload holds the drop pattern, forward it twice when it holds
/// the duplicate pattern instead, and forward it once otherwise.
pub fn classify_tun_payload(payload: &[u8], drop_pat: &[u8], duplicate_pat: &[u8]) -> (r:
    TunAction)
    requires
        drop_pat@.len() >= 1,
        duplicate_pat@.len() >= 1,
    ensures
        r is Drop <==> contains_ignore_ascii_case(payload@, drop_pat@),
        r is Duplicate <==> !contains_ignore_ascii_case(payload@, drop_pat@)
            && contains_ignore_ascii_case(payload@, duplicate_pat@),
        r is Forward <==> !contains_ignore_ascii_case(payload@, drop_pat@)
            && !contains_ignore_ascii_case(payload@, duplicate_pat@),
{
    if you_shall_not_pass(drop_pat, payload) {
        TunAction::Drop
    } else if you_shall_not_pass(duplicate_pat, payload) {
        TunAction::Duplicate
    } else {
        TunAction::Forward
    }
}

/// Shifts every byte of the buffer up by three, wrapping around.
pub fn encrypt(buf: &mut Vec<u8>)
    ensures
        final(buf)@.len() == old(buf)@.len(),
        forall|i: int| 0 <= i < old(buf)@.len() ==> final(buf)@[i] == shifted_byte(old(buf)@[i]),
{
    let n = buf.len();
    let mut i: usize = 0;
    while i < n
        invariant
            n == buf@.len(),
            buf@.len() == old(buf)@.len(),
            i <= n,
            forall|k: int| 0 <= k < i ==> buf@[k] == shifted_byte(old(buf)@[k]),
            forall|k: int| i <= k < n ==> buf@[k] == old(buf)@[k],
        decreases n - i,
    {
        let v = buf[i];
        let w: u8 = if v >= 0xfd {
            v - 0xfd
        } else {
            v + 3
        };
        buf[i] = w;
        i += 1;
    }
}

/// Shifts every byte of the buffer down by three, wrapping around: the
/// inverse of `encrypt`.
pub fn decrypt(buf: &mut Vec<u8>)
    ensures
        final(buf)@.len() == old(buf)@.len(),
        forall|i: int| 0 <= i < old(buf)@.len() ==> final(buf)@[i] == unshifted_byte(old(buf)@[i]),
{
    let n = buf.len();
    let mut i: usize = 0;
    while i < n
        invariant
            n == buf@.len(),
            buf@.len() == old(buf)@.len(),
            i <= n,
            forall|k: int| 0 <= k < i ==> buf@[k] == unshifted_byte(old(buf)@[k]),
            forall|k: int| i <= k < n ==> buf@[k] == old(buf)@[k],
        decreases n - i,
    {
        let v = buf[i];
        let w: u8 = if v < 3 {
            v + 0xfd
        } else {
            v - 3
        };
        buf[i] = w;
        i += 1;
    }
}

/// Law: shifting a byte up and then down, or down and then up, gives the
/// byte back: the cipher round-trips on every buffer.
pub proof fn lemma_shift_round_trip(b: u8)
    ensures
        unshifted_byte(shifted_byte(b)) == b,
        shifted_byte(unshifted_byte(b)) == b,
{
}

} // verus!
