use vstd::prelude::*;
use crate::rencode;
use crate::rencode::value::Value;

verus! {

#[verifier::external_type_specification]
#[verifier::external_body]
pub struct ExZError(cloudflare_zlib::ZError);

/// What zlib's `inflate` gives back for a compressed buffer when it succeeds.
pub uninterp spec fn zlib_inflated(compressed: Seq<u8>) -> Seq<u8>;

/// Whether a buffer begins with one complete, well-formed zlib stream.
pub uninterp spec fn zlib_stream(data: Seq<u8>) -> bool;

/// Calls `cloudflare_zlib::deflate`, which asserts that its input is shorter
/// than `u32::MAX` bytes. On success it has run zlib's `deflate` with
/// `Z_FINISH` up to `Z_STREAM_END`, so its output is one complete zlib stream;
/// zlib compression is lossless: when that stream is itself shorter than
/// `u32::MAX` bytes, inflating it gives back the input. Whether it succeeds
/// depends on the CPU (the crate refuses CPUs without SSE4.2/PCLMUL or
/// NEON/CRC), so nothing is stated of when it fails.
#[verifier::external_body]
fn zlib_deflate(data: &[u8]) -> (r: Result<Vec<u8>, cloudflare_zlib::ZError>)
    requires
        data.len() < u32::MAX,
    ensures
        r matches Ok(c) ==> zlib_stream(c@),
        r matches Ok(c) ==> (c@.len() < u32::MAX ==> zlib_inflated(c@) == data@),
{
    cloudflare_zlib::deflate(data)
}

/// Calls `cloudflare_zlib::inflate`. It feeds zlib the whole buffer, its
/// length taken as a `u32`, and grows its output until zlib reports the end
/// of the stream or an error; on a buffer that stops in the middle of a
/// stream (the empty one among them) zlib never reports either and the call
/// does not return, so only buffers that begin with a complete stream and fit
/// a `u32` length are admitted. When it succeeds its output is a function of
/// the input alone, named `zlib_inflated`; whether it succeeds depends on the
/// CPU and on memory, so nothing is stated of when it fails.
#[verifier::external_body]
fn zlib_inflate(data: &[u8]) -> (r: Result<Vec<u8>, cloudflare_zlib::ZError>)
    requires
        zlib_stream(data@),
        data@.len() <= u32::MAX,
    ensures
        r matches Ok(d) ==> d@ == zlib_inflated(data@),
{
    cloudflare_zlib::inflate(data)
}

/// What can go wrong in turning values into compressed messages and back.
#[derive(Debug)]
pub enum Error {
    /// zlib failed to compress.
    Compression(cloudflare_zlib::ZError),
    /// zlib failed to decompress.
    Decompression(cloudflare_zlib::ZError),
    /// The data to compress was `u32::MAX` bytes or longer.
    TooLarge,
    /// The compressed body, given here, was `u32::MAX` bytes or longer, too
    /// long to be read back in one piece.
    CompressedTooLarge(Vec<u8>),
    /// The decompressed bytes were not one rencode value.
    Rencode(rencode::error::Error),
}

/// Compresses rencode bytes for the wire.
pub fn compress(raw: &[u8]) -> (r: Result<Vec<u8>, Error>)
    ensures
        raw@.len() >= u32::MAX <==> r matches Err(Error::TooLarge),
        r matches Ok(c) ==> zlib_stream(c@),
        r matches Ok(c) ==> (c@.len() < u32::MAX ==> zlib_inflated(c@) == raw@),
        r matches Err(e) ==> e is TooLarge || e is Compression,
{
    if raw.len() >= 4294967295usize {
        return Err(Error::TooLarge);
    }
    match zlib_deflate(raw) {
        Ok(c) => Ok(c),
        Err(e) => Err(Error::Compression(e)),
    }
}

/// Decompresses a message body into its rencode bytes.
pub fn decompress(data: &[u8]) -> (r: Result<Vec<u8>, Error>)
    requires
        zlib_stream(data@),
        data@.len() <= u32::MAX,
    ensures
        r matches Ok(d) ==> d@ == zlib_inflated(data@),
        r matches Err(e) ==> e is Decompression,
{
    match zlib_inflate(data) {
        Ok(d) => Ok(d),
        Err(e) => Err(Error::Decompression(e)),
    }
}

/// Encodes a value and compresses it: the body of a message on the wire.
pub fn encode(v: &Value) -> (r: Result<Vec<u8>, Error>)
    ensures
        rencode::spec::encode(v.model()).len() >= u32::MAX <==> r matches Err(Error::TooLarge),
        r matches Ok(c) ==> zlib_stream(c@),
        r matches Ok(c) ==> (c@.len() < u32::MAX ==> zlib_inflated(c@) == rencode::spec::encode(
            v.model(),
        )),
        r matches Err(e) ==> e is TooLarge || e is Compression,
{
    let raw = rencode::writer::to_bytes(v);
    compress(raw.as_slice())
}

/// Decompresses a message body and decodes the one value it holds.
pub fn decode(data: &[u8]) -> (r: Result<Value, Error>)
    requires
        zlib_stream(data@),
        data@.len() <= u32::MAX,
    ensures
        r matches Ok(v) ==> rencode::spec::decode(zlib_inflated(data@)) == Ok::<
            rencode::value::Model,
            rencode::error::Error,
        >(v.model()),
        r matches Err(Error::Rencode(e)) ==> rencode::spec::decode(zlib_inflated(data@)) == Err::<
            rencode::value::Model,
            rencode::error::Error,
        >(e),
        r matches Err(e) ==> e is Rencode || e is Decompression,
{
    let raw = decompress(data)?;
    match rencode::reader::from_bytes(raw.as_slice()) {
        Ok(v) => Ok(v),
        Err(e) => Err(Error::Rencode(e)),
    }
}

/// Encodes and compresses a value, then reads the body back the way the
/// daemon will, so that a body is handed on only once it has been seen to
/// decompress on this machine; what it reads back as is the value itself.
pub fn encode_checked(v: &Value) -> (r: Result<Vec<u8>, Error>)
    ensures
        rencode::spec::encode(v.model()).len() >= u32::MAX <==> r matches Err(Error::TooLarge),
        r matches Err(Error::CompressedTooLarge(c)) ==> zlib_stream(c@) && c@.len() >= u32::MAX,
        r matches Ok(c) ==> zlib_stream(c@) && c@.len() < u32::MAX && zlib_inflated(c@)
            == rencode::spec::encode(v.model()) && rencode::spec::decode(zlib_inflated(c@)) == Ok::<
            rencode::value::Model,
            rencode::error::Error,
        >(v.model()),
        r matches Err(e) ==> e is TooLarge || e is CompressedTooLarge || e is Compression
            || e is Decompression,
{
    let raw = rencode::writer::to_bytes(v);
    let c = compress(raw.as_slice())?;
    if c.len() >= 4294967295usize {
        return Err(Error::CompressedTooLarge(c));
    }
    proof {
        rencode::lemmas::law_decode_encode(v.model());
    }
    match decode(c.as_slice()) {
        Ok(_) => Ok(c),
        Err(e) => Err(e),
    }
}

/// Law: a value that was encoded and compressed, and whose compressed form
/// decompresses, decodes to itself.
pub proof fn law_decode_encode_compressed(m: rencode::value::Model, compressed: Seq<u8>)
    requires
        rencode::spec::fits(m),
        zlib_inflated(compressed) == rencode::spec::encode(m),
    ensures
        rencode::spec::decode(zlib_inflated(compressed)) == Ok::<
            rencode::value::Model,
            rencode::error::Error,
        >(m),
{
    rencode::lemmas::law_decode_encode(m);
}

} // verus!
