//! Length-prefixed message framing for the request/response transports:
//! a frame is the payload preceded by its length as four big-endian
//! bytes. A message is therefore self-delimited, so a connection can
//! carry several messages and stay open — unlike framing that signals the
//! end of a message by closing the connection.

use vstd::prelude::*;

verus! {

/// The four big-endian bytes of a 32-bit value.
pub open spec fn spec_be_bytes(n: u32) -> Seq<u8> {
    seq![
        (n >> 24) as u8,
        ((n >> 16) & 0xff) as u8,
        ((n >> 8) & 0xff) as u8,
        (n & 0xff) as u8,
    ]
}

/// The 32-bit value of four big-endian bytes.
pub open spec fn spec_be_value(b: Seq<u8>) -> u32
    recommends
        b.len() == 4,
{
    ((b[0] as u32) << 24) | ((b[1] as u32) << 16) | ((b[2] as u32) << 8) | (b[3] as u32)
}

/// A whole frame: the payload length, then the payload.
pub open spec fn spec_frame(p: Seq<u8>) -> Seq<u8>
    recommends
        p.len() <= 0xFFFFFFFF,
{
    spec_be_bytes(p.len() as u32) + p
}

/// What parsing a frame off the front of `b` yields: the payload and the
/// number of bytes consumed when a complete frame is present, nothing when
/// more bytes are needed.
pub open spec fn spec_decode(b: Seq<u8>) -> Option<(Seq<u8>, int)> {
    if b.len() < 4 {
        None
    } else {
        let n = spec_be_value(b.subrange(0, 4)) as int;
        if b.len() - 4 < n {
            None
        } else {
            Some((b.subrange(4, 4 + n), 4 + n))
        }
    }
}

/// The four big-endian bytes round-trip through the 32-bit value.
pub proof fn lemma_be_round_trip(n: u32)
    ensures
        spec_be_value(spec_be_bytes(n)) == n,
{
    assert((((n >> 24) as u8 as u32) << 24) | ((((n >> 16) & 0xff) as u8 as u32) << 16) | ((((n
        >> 8) & 0xff) as u8 as u32) << 8) | ((n & 0xff) as u8 as u32) == n) by (bit_vector);
}

/// Law: a frame parses back to exactly the payload it was built from,
/// consuming exactly the frame, whatever bytes follow it on the stream.
pub proof fn lemma_frame_round_trip(p: Seq<u8>, rest: Seq<u8>)
    requires
        p.len() <= 0xFFFFFFFF,
    ensures
        spec_decode(spec_frame(p) + rest) == Some((p, 4 + p.len() as int)),
{
    let b = spec_frame(p) + rest;
    assert(b.subrange(0, 4) =~= spec_be_bytes(p.len() as u32));
    lemma_be_round_trip(p.len() as u32);
    assert(b.subrange(4, 4 + p.len() as int) =~= p);
}

/// Builds the frame for a payload.
pub fn encode_frame(payload: &Vec<u8>) -> (r: Vec<u8>)
    requires
        payload@.len() <= 0xFFFFFFFF,
    ensures
        r@ == spec_frame(payload@),
{
    let n = payload.len();
    let n32 = n as u32;
    let mut r: Vec<u8> = Vec::new();
    r.push((n32 >> 24) as u8);
    r.push(((n32 >> 16) & 0xff) as u8);
    r.push(((n32 >> 8) & 0xff) as u8);
    r.push((n32 & 0xff) as u8);
    proof {
        assert(r@ =~= spec_be_bytes(n32));
    }
    let mut i: usize = 0;
    while i < n
        invariant
            i <= n,
            n == payload@.len(),
            r@ == spec_be_bytes(n as u32) + payload@.subrange(0, i as int),
        decreases n - i,
    {
        r.push(payload[i]);
        proof {
            assert(r@ =~= spec_be_bytes(n as u32) + payload@.subrange(0, i + 1 as int));
        }
        i = i + 1;
    }
    proof {
        assert(payload@.subrange(0, n as int) =~= payload@);
    }
    r
}

/// Parses one frame off the front of `buf`: the payload and the number of
/// bytes consumed when a complete frame is present, `None` when more bytes
/// are needed.
pub fn decode_frame(buf: &Vec<u8>) -> (r: Option<(Vec<u8>, usize)>)
    ensures
        match r {
            Some(pc) => spec_decode(buf@) == Some((pc.0@, pc.1 as int)),
            None => spec_decode(buf@) is None,
        },
{
    if buf.len() < 4 {
        return None;
    }
    let v = ((buf[0] as u32) << 24) | ((buf[1] as u32) << 16) | ((buf[2] as u32) << 8) | (
    buf[3] as u32);
    proof {
        assert(buf@.subrange(0, 4)[0] == buf@[0]);
        assert(buf@.subrange(0, 4)[1] == buf@[1]);
        assert(buf@.subrange(0, 4)[2] == buf@[2]);
        assert(buf@.subrange(0, 4)[3] == buf@[3]);
    }
    let n = v as usize;
    if buf.len() - 4 < n {
        return None;
    }
    let mut p: Vec<u8> = Vec::new();
    let mut i: usize = 0;
    while i < n
        invariant
            i <= n,
            4 + n <= buf@.len(),
            buf@.len() <= usize::MAX,
            p@ == buf@.subrange(4, 4 + i as int),
        decreases n - i,
    {
        p.push(buf[4 + i]);
        proof {
            assert(p@ =~= buf@.subrange(4, 4 + (i + 1) as int));
        }
        i = i + 1;
    }
    Some((p, 4 + n))
}

} // verus!
