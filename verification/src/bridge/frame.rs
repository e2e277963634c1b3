//! Frames on a connection: a four-byte big-endian length followed by that many
//! bytes of message. A frame of length zero is a heartbeat.
use vstd::prelude::*;

verus! {

/// The header of a frame whose message is `n` bytes long: `n` in four bytes,
/// most significant first.
pub open spec fn header_of(n: u32) -> Seq<u8> {
    seq![
        (n / 0x100_0000) as u8,
        ((n / 0x1_0000) % 0x100) as u8,
        ((n / 0x100) % 0x100) as u8,
        (n % 0x100) as u8,
    ]
}

/// The message length a four-byte header announces.
pub open spec fn length_of(header: Seq<u8>) -> int {
    header[0] * 0x100_0000 + header[1] * 0x1_0000 + header[2] * 0x100 + header[3]
}

/// The header of a frame whose message is `n` bytes long.
pub fn frame_header(n: u32) -> (r: [u8; 4])
    ensures
        r@ == header_of(n),
{
    let r = [(n / 0x100_0000) as u8, ((n / 0x1_0000) % 0x100) as u8, ((n / 0x100) % 0x100) as u8, (n % 0x100) as u8];
    assert(r@ == header_of(n));
    r
}

/// A frame holding `payload`.
pub fn frame_message(payload: &[u8]) -> (r: Vec<u8>)
    requires
        payload@.len() <= u32::MAX,
    ensures
        r@ == header_of(payload@.len() as u32) + payload@,
{
    let header = frame_header(payload.len() as u32);
    let mut r: Vec<u8> = Vec::new();
    let mut i: usize = 0;
    while i < 4
        invariant
            i <= 4,
            header@ == header_of(payload@.len() as u32),
            r@ == header@.take(i as int),
        decreases 4 - i,
    {
        r.push(header[i]);
        i = i + 1;
        assert(r@ == header@.take(i as int));
    }
    let mut j: usize = 0;
    while j < payload.len()
        invariant
            j <= payload@.len(),
            r@ == header@ + payload@.take(j as int),
        decreases payload@.len() - j,
    {
        r.push(payload[j]);
        j = j + 1;
        assert(r@ == header@ + payload@.take(j as int));
    }
    assert(payload@.take(j as int) == payload@);
    assert(header@.take(4) == header@);
    r
}

/// The message length a header announces.
pub fn frame_length(header: [u8; 4]) -> (r: u32)
    ensures
        r == length_of(header@),
{
    (header[0] as u32) * 0x100_0000 + (header[1] as u32) * 0x1_0000 + (header[2] as u32) * 0x100 + (
    header[3] as u32)
}

/// Reading a header back gives the length it was written for.
pub proof fn law_frame_length_roundtrip(n: u32)
    ensures
        length_of(header_of(n)) == n,
{
    assert((n / 0x100_0000) * 0x100_0000 + ((n / 0x1_0000) % 0x100) * 0x1_0000 + ((n / 0x100) % 0x100)
        * 0x100 + (n % 0x100) == n) by (nonlinear_arith);
}

} // verus!
