use vstd::prelude::*;
use crate::rencode::spec::{be4, from_be4};

verus! {

/// The only version of the DelugeRPC framing that is understood.
pub const PROTOCOL_VERSION: u8 = 1;

/// A message on the wire: the version byte, the body's length as a big-endian
/// `u32`, then the body.
pub open spec fn framed(body: Seq<u8>) -> Seq<u8> {
    seq![PROTOCOL_VERSION] + be4(body.len() as u32) + body
}

/// Frames a body; bodies of more than `u32::MAX` bytes cannot be framed.
pub fn frame(body: &[u8]) -> (r: Option<Vec<u8>>)
    ensures
        r is None <==> body@.len() > u32::MAX,
        r matches Some(f) ==> f@ == framed(body@),
{
    if body.len() > 4294967295usize {
        return None;
    }
    let len = body.len() as u32;
    let mut out: Vec<u8> = Vec::new();
    out.push(PROTOCOL_VERSION);
    out.push((len >> 24u32) as u8);
    out.push(((len >> 16u32) & 0xffu32) as u8);
    out.push(((len >> 8u32) & 0xffu32) as u8);
    out.push((len & 0xffu32) as u8);
    let mut i: usize = 0;
    while i < body.len()
        invariant
            i <= body.len(),
            len == body@.len(),
            out@ == seq![PROTOCOL_VERSION] + be4(len) + body@.subrange(0, i as int),
        decreases body.len() - i,
    {
        out.push(body[i]);
        i = i + 1;
        assert(out@ =~= seq![PROTOCOL_VERSION] + be4(len) + body@.subrange(0, i as int));
    }
    assert(body@.subrange(0, body@.len() as int) =~= body@);
    Some(out)
}

/// Reads the five header bytes of a message: the body's length, or the
/// unknown protocol version it announces.
pub fn body_len(header: &[u8]) -> (r: Result<u32, u8>)
    requires
        header.len() == 5,
    ensures
        header@[0] == 1 ==> (r matches Ok(n) && n as int == ((header@[1] * 256 + header@[2]) * 256
            + header@[3]) * 256 + header@[4]),
        header@[0] != PROTOCOL_VERSION ==> r == Err::<u32, u8>(header@[0]),
        header@[0] == PROTOCOL_VERSION ==> r == Ok::<u32, u8>(
            from_be4(header@[1], header@[2], header@[3], header@[4]),
        ),
{
    if header[0] != PROTOCOL_VERSION {
        return Err(header[0]);
    }
    proof {
        let (b0, b1, b2, b3) = (header@[1], header@[2], header@[3], header@[4]);
        assert(from_be4(b0, b1, b2, b3) as int == ((b0 * 256 + b1) * 256 + b2) * 256 + b3)
            by (bit_vector);
    }
    Ok(((header[1] as u32) << 24u32) | ((header[2] as u32) << 16u32) | ((header[3] as u32) << 8u32)
        | (header[4] as u32))
}

/// Law: the header of a framed body announces the body's length: the
/// version byte 1, then the length in four bytes, high byte first.
pub proof fn law_frame_header(body: Seq<u8>)
    requires
        body.len() <= u32::MAX,
    ensures
        framed(body)[0] == 1,
        framed(body).len() == body.len() + 5,
        ((framed(body)[1] * 256 + framed(body)[2]) * 256 + framed(body)[3]) * 256 + framed(body)[4]
            == body.len(),
        framed(body)[0] == PROTOCOL_VERSION,
        from_be4(framed(body)[1], framed(body)[2], framed(body)[3], framed(body)[4])
            == body.len(),
        framed(body).subrange(5, framed(body).len() as int) == body,
{
    let f = framed(body);
    crate::rencode::lemmas::lemma_be4(body.len() as u32);
    let u = body.len() as u32;
    assert(((((u >> 24u32) as u8) as int * 256 + (((u >> 16u32) & 0xffu32) as u8) as int) * 256 + (
    ((u >> 8u32) & 0xffu32) as u8) as int) * 256 + ((u & 0xffu32) as u8) as int == u as int)
        by (bit_vector);
    assert(f.subrange(5, f.len() as int) =~= body);
}

} // verus!
