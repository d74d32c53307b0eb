use vstd::prelude::*;
use vstd::utf8::{decode_utf8, encode_utf8, valid_utf8};
use super::error::Error;
use super::value::Model;
use super::spec::{
    all_digits, decimal, decode, decode_at, digits_value, encode, encode_items, encode_pairs, fits,
    from_be2, from_be4, from_be8, is_digit,
};
use super::lemmas::{lemma_decimal, lemma_decode_encode, lemma_find_byte};

verus! {

// The rencode format's tables, stated byte by byte with the numbers that the
// format fixes. Each law below speaks of `encode` (what the writer emits) or of
// `decode` (what the reader gives back).

/// The two bytes of a 16-bit number, high byte first, as a number.
pub open spec fn be_2(b: Seq<u8>, p: int) -> int {
    b[p] * 256 + b[p + 1]
}

/// Four bytes, high byte first, as a number.
pub open spec fn be_4(b: Seq<u8>, p: int) -> int {
    be_2(b, p) * 65536 + be_2(b, p + 2)
}

/// Eight bytes, high byte first, as a number.
pub open spec fn be_8(b: Seq<u8>, p: int) -> int {
    be_4(b, p) * 4294967296 + be_4(b, p + 4)
}

proof fn lemma_u8_bits(v: i8)
    ensures
        (v as u8) as int == if v < 0 { v + 256 } else { v as int },
        ((v as u8) as i8) == v,
{
    assert((v as u8) as int == if v < 0 { v + 256 } else { v as int }) by (bit_vector);
    assert(((v as u8) as i8) == v) by (bit_vector);
}

proof fn lemma_u8_signed(b: u8)
    ensures
        (b as i8) as int == if b >= 128 { b - 256 } else { b as int },
{
    assert((b as i8) as int == if b >= 128 { b - 256 } else { b as int }) by (bit_vector);
}

proof fn lemma_be2_bytes(u: u16)
    ensures
        ((u >> 8u16) as u8) as int * 256 + ((u & 0xffu16) as u8) as int == u as int,
{
    assert(((u >> 8u16) as u8) as int * 256 + ((u & 0xffu16) as u8) as int == u as int)
        by (bit_vector);
}

proof fn lemma_be4_bytes(u: u32)
    ensures
        (((u >> 24u32) as u8) as int * 256 + (((u >> 16u32) & 0xffu32) as u8) as int) * 65536 + (
        ((u >> 8u32) & 0xffu32) as u8) as int * 256 + ((u & 0xffu32) as u8) as int == u as int,
{
    assert((((u >> 24u32) as u8) as int * 256 + (((u >> 16u32) & 0xffu32) as u8) as int) * 65536
        + (((u >> 8u32) & 0xffu32) as u8) as int * 256 + ((u & 0xffu32) as u8) as int == u as int)
        by (bit_vector);
}

proof fn lemma_be8_split(u: u64)
    ensures
        ((u >> 32u64) as u32) as int * 4294967296 + (u as u32) as int == u as int,
        (u >> 56u64) as u8 == ((u >> 32u64) as u32 >> 24u32) as u8,
        ((u >> 48u64) & 0xffu64) as u8 == ((((u >> 32u64) as u32) >> 16u32) & 0xffu32) as u8,
        ((u >> 40u64) & 0xffu64) as u8 == ((((u >> 32u64) as u32) >> 8u32) & 0xffu32) as u8,
        ((u >> 32u64) & 0xffu64) as u8 == (((u >> 32u64) as u32) & 0xffu32) as u8,
        ((u >> 24u64) & 0xffu64) as u8 == ((u as u32) >> 24u32) as u8,
        ((u >> 16u64) & 0xffu64) as u8 == (((u as u32) >> 16u32) & 0xffu32) as u8,
        ((u >> 8u64) & 0xffu64) as u8 == (((u as u32) >> 8u32) & 0xffu32) as u8,
        (u & 0xffu64) as u8 == ((u as u32) & 0xffu32) as u8,
{
    assert(((u >> 32u64) as u32) as int * 4294967296 + (u as u32) as int == u as int)
        by (bit_vector);
    assert((u >> 56u64) as u8 == ((u >> 32u64) as u32 >> 24u32) as u8) by (bit_vector);
    assert(((u >> 48u64) & 0xffu64) as u8 == ((((u >> 32u64) as u32) >> 16u32) & 0xffu32) as u8)
        by (bit_vector);
    assert(((u >> 40u64) & 0xffu64) as u8 == ((((u >> 32u64) as u32) >> 8u32) & 0xffu32) as u8)
        by (bit_vector);
    assert(((u >> 32u64) & 0xffu64) as u8 == (((u >> 32u64) as u32) & 0xffu32) as u8)
        by (bit_vector);
    assert(((u >> 24u64) & 0xffu64) as u8 == ((u as u32) >> 24u32) as u8) by (bit_vector);
    assert(((u >> 16u64) & 0xffu64) as u8 == (((u as u32) >> 16u32) & 0xffu32) as u8)
        by (bit_vector);
    assert(((u >> 8u64) & 0xffu64) as u8 == (((u as u32) >> 8u32) & 0xffu32) as u8)
        by (bit_vector);
    assert((u & 0xffu64) as u8 == ((u as u32) & 0xffu32) as u8) by (bit_vector);
}

proof fn lemma_signed16(v: i16)
    ensures
        (v as u16) as int == if v < 0 { v + 65536 } else { v as int },
{
    assert((v as u16) as int == if v < 0 { v + 65536 } else { v as int }) by (bit_vector);
}

proof fn lemma_signed32(v: i32)
    ensures
        (v as u32) as int == if v < 0 { v + 4294967296 } else { v as int },
{
    assert((v as u32) as int == if v < 0 { v + 4294967296 } else { v as int }) by (bit_vector);
}

proof fn lemma_signed64(v: i64)
    ensures
        (v as u64) as int == if v < 0 { v + 18446744073709551616 } else { v as int },
{
    assert((v as u64) as int == if v < 0 { v + 18446744073709551616 } else { v as int })
        by (bit_vector);
}

/// Law: the bytes that each kind of scalar is written as.
/// - `None` is the byte 69, `true` 67, `false` 68.
/// - An 8-bit integer from 0 to 43 is the one byte of its value; one from -32
///   to -1 is the one byte `69 - v`; any other is 62 and then its byte in
///   two's complement.
/// - 16-, 32- and 64-bit integers are 63, 64 and 65 and then their two's
///   complement, high byte first.
/// - 32- and 64-bit floats are 66 and 44 and then their bits, high byte first.
pub proof fn law_encode_scalars(m: Model)
    ensures
        m == Model::Unit ==> encode(m) == seq![69u8],
        m == Model::Bool(true) ==> encode(m) == seq![67u8],
        m == Model::Bool(false) ==> encode(m) == seq![68u8],
        m matches Model::I8(v) ==> {
            if 0 <= v <= 43 {
                encode(m).len() == 1 && encode(m)[0] as int == v as int
            } else if -32 <= v < 0 {
                encode(m).len() == 1 && encode(m)[0] as int == 69 - v
            } else {
                encode(m).len() == 2 && encode(m)[0] == 62 && encode(m)[1] as int == (if v < 0 {
                    v + 256
                } else {
                    v as int
                })
            }
        },
        m matches Model::I16(v) ==> encode(m).len() == 3 && encode(m)[0] == 63 && be_2(encode(m), 1)
            == (if v < 0 { v + 65536 } else { v as int }),
        m matches Model::I32(v) ==> encode(m).len() == 5 && encode(m)[0] == 64 && be_4(encode(m), 1)
            == (if v < 0 { v + 4294967296 } else { v as int }),
        m matches Model::I64(v) ==> encode(m).len() == 9 && encode(m)[0] == 65 && be_8(encode(m), 1)
            == (if v < 0 { v + 18446744073709551616 } else { v as int }),
        m matches Model::F32(bits) ==> encode(m).len() == 5 && encode(m)[0] == 66 && be_4(
            encode(m),
            1,
        ) == bits as int,
        m matches Model::F64(bits) ==> encode(m).len() == 9 && encode(m)[0] == 44 && be_8(
            encode(m),
            1,
        ) == bits as int,
{
    match m {
        Model::I8(v) => {
            lemma_u8_bits(v);
        },
        Model::I16(v) => {
            lemma_signed16(v);
            lemma_be2_bytes(v as u16);
        },
        Model::I32(v) => {
            lemma_signed32(v);
            lemma_be4_bytes(v as u32);
        },
        Model::I64(v) => {
            lemma_signed64(v);
            let u = v as u64;
            lemma_be8_split(u);
            lemma_be4_bytes((u >> 32u64) as u32);
            lemma_be4_bytes(u as u32);
        },
        Model::F32(bits) => {
            lemma_be4_bytes(bits);
        },
        Model::F64(bits) => {
            lemma_be8_split(bits);
            lemma_be4_bytes((bits >> 32u64) as u32);
            lemma_be4_bytes(bits as u32);
        },
        _ => {},
    }
}

proof fn lemma_from_be2(a: u8, b: u8)
    ensures
        from_be2(a, b) as int == a * 256 + b,
        (from_be2(a, b) as i16) as int == if a * 256 + b >= 32768 {
            a * 256 + b - 65536
        } else {
            a * 256 + b
        },
{
    assert(from_be2(a, b) as int == a * 256 + b) by (bit_vector);
    let u = from_be2(a, b);
    assert((u as i16) as int == if u >= 32768 { u - 65536 } else { u as int }) by (bit_vector);
}

proof fn lemma_from_be4(a: u8, b: u8, c: u8, d: u8)
    ensures
        from_be4(a, b, c, d) as int == (a * 256 + b) * 65536 + c * 256 + d,
{
    assert(from_be4(a, b, c, d) as int == (a * 256 + b) * 65536 + c * 256 + d) by (bit_vector);
}

proof fn lemma_signed_u32(u: u32)
    ensures
        (u as i32) as int == if u >= 2147483648 { u - 4294967296 } else { u as int },
{
    assert((u as i32) as int == if u >= 2147483648 { u - 4294967296 } else { u as int })
        by (bit_vector);
}

proof fn lemma_from_be8(b0: u8, b1: u8, b2: u8, b3: u8, b4: u8, b5: u8, b6: u8, b7: u8)
    ensures
        from_be8(b0, b1, b2, b3, b4, b5, b6, b7) as int == from_be4(b0, b1, b2, b3) as int
            * 4294967296 + from_be4(b4, b5, b6, b7) as int,
{
    let hi = from_be4(b0, b1, b2, b3);
    let lo = from_be4(b4, b5, b6, b7);
    assert(from_be8(b0, b1, b2, b3, b4, b5, b6, b7) == ((hi as u64) << 32u64) | (lo as u64))
        by (bit_vector)
        requires
            hi == from_be4(b0, b1, b2, b3),
            lo == from_be4(b4, b5, b6, b7),
    ;
    assert((((hi as u64) << 32u64) | (lo as u64)) as int == hi as int * 4294967296 + lo as int)
        by (bit_vector);
}

proof fn lemma_signed_u64(u: u64)
    ensures
        (u as i64) as int == if u >= 9223372036854775808 {
            u - 18446744073709551616
        } else {
            u as int
        },
{
    assert((u as i64) as int == if u >= 9223372036854775808 {
        u - 18446744073709551616
    } else {
        u as int
    }) by (bit_vector);
}

/// Law: what each one-value buffer of a scalar type reads as.
/// - The bytes 0 to 43 alone are those numbers; 70 to 101 alone are
///   `69 - b`, from -1 down to -32.
/// - 67, 68 and 69 alone are `true`, `false` and `None`.
/// - 62, 63, 64 and 65, followed by one, two, four or eight bytes, are that
///   integer in two's complement, high byte first; 66 and 44 followed by
///   four or eight bytes are the bits of a float.
/// - Nothing is a truncated value; 61 (arbitrary-precision integers), 45 to
///   48, the colon 58 and the terminator 127 are refused where a value starts.
pub proof fn law_decode_scalars(data: Seq<u8>)
    ensures
        data.len() == 0 ==> decode(data) == Err::<Model, Error>(Error::UnexpectedEnd),
        data.len() == 1 && data[0] <= 43 ==> (decode(data) matches Ok(Model::I8(v)) && v as int
            == data[0] as int),
        data.len() == 1 && 70 <= data[0] <= 101 ==> (decode(data) matches Ok(Model::I8(v)) && v as int
            == 69 - data[0]),
        data == seq![67u8] ==> decode(data) == Ok::<Model, Error>(Model::Bool(true)),
        data == seq![68u8] ==> decode(data) == Ok::<Model, Error>(Model::Bool(false)),
        data == seq![69u8] ==> decode(data) == Ok::<Model, Error>(Model::Unit),
        data.len() == 2 && data[0] == 62 ==> (decode(data) matches Ok(Model::I8(v)) && v as int == (
        if data[1] >= 128 {
            data[1] - 256
        } else {
            data[1] as int
        })),
        data.len() == 3 && data[0] == 63 ==> (decode(data) matches Ok(Model::I16(v)) && v as int == (
        if be_2(data, 1) >= 32768 {
            be_2(data, 1) - 65536
        } else {
            be_2(data, 1)
        })),
        data.len() == 5 && data[0] == 64 ==> (decode(data) matches Ok(Model::I32(v)) && v as int == (
        if be_4(data, 1) >= 2147483648 {
            be_4(data, 1) - 4294967296
        } else {
            be_4(data, 1)
        })),
        data.len() == 9 && data[0] == 65 ==> (decode(data) matches Ok(Model::I64(v)) && v as int == (
        if be_8(data, 1) >= 9223372036854775808 {
            be_8(data, 1) - 18446744073709551616
        } else {
            be_8(data, 1)
        })),
        data.len() == 5 && data[0] == 66 ==> (decode(data) matches Ok(Model::F32(bits)) && bits as int
            == be_4(data, 1)),
        data.len() == 9 && data[0] == 44 ==> (decode(data) matches Ok(Model::F64(bits)) && bits as int
            == be_8(data, 1)),
        data.len() >= 1 && data[0] == 61 ==> decode(data) == Err::<Model, Error>(
            Error::UnsupportedInt,
        ),
        data.len() >= 1 && 45 <= data[0] <= 48 ==> decode(data) == Err::<Model, Error>(
            Error::UnknownType(data[0]),
        ),
        data.len() >= 1 && data[0] == 58 ==> decode(data) == Err::<Model, Error>(
            Error::UnexpectedStrlenTerminator,
        ),
        data.len() >= 1 && data[0] == 127 ==> decode(data) == Err::<Model, Error>(
            Error::UnexpectedTerminator,
        ),
{
    if data.len() >= 1 {
        lemma_u8_signed(data[0]);
    }
    if data.len() == 2 {
        lemma_u8_signed(data[1]);
    }
    if data.len() == 3 {
        lemma_from_be2(data[1], data[2]);
    }
    if data.len() == 5 {
        lemma_from_be4(data[1], data[2], data[3], data[4]);
        lemma_signed_u32(from_be4(data[1], data[2], data[3], data[4]));
    }
    if data.len() == 9 {
        lemma_from_be4(data[1], data[2], data[3], data[4]);
        lemma_from_be4(data[5], data[6], data[7], data[8]);
        lemma_from_be8(data[1], data[2], data[3], data[4], data[5], data[6], data[7], data[8]);
        lemma_signed_u64(
            from_be8(data[1], data[2], data[3], data[4], data[5], data[6], data[7], data[8]),
        );
    }
}

/// Law: how strings are written. A string of fewer than 64 UTF-8 bytes is the
/// byte `128 + length` and then its bytes; a longer one is its length in
/// decimal digits without a leading zero, the colon 58, and then its bytes.
pub proof fn law_encode_strings(s: Seq<char>)
    ensures
        encode_utf8(s).len() < 64 ==> encode(Model::Str(s)) == seq![(128 + encode_utf8(s).len()) as u8]
            + encode_utf8(s),
        encode_utf8(s).len() >= 64 ==> exists|d: Seq<u8>|
            #![trigger digits_value(d)]
            {
                &&& d.len() >= 1
                &&& 49 <= d[0] <= 57
                &&& forall|i: int| 0 <= i < d.len() ==> 48 <= #[trigger] d[i] <= 57
                &&& digits_value(d) == encode_utf8(s).len()
                &&& encode(Model::Str(s)) == d + seq![58u8] + encode_utf8(s)
            },
{
    let b = encode_utf8(s);
    if b.len() >= 64 {
        lemma_decimal(b.len());
        let d = decimal(b.len());
        assert(forall|i: int| 0 <= i < d.len() ==> 48 <= #[trigger] d[i] <= 57) by {
            assert forall|i: int| 0 <= i < d.len() implies 48 <= #[trigger] d[i] <= 57 by {
                assert(is_digit(d[i]));
            }
        }
        assert(digits_value(d) == b.len());
    }
}

/// Law: what a buffer that holds one string reads as. A type byte `b` from 128
/// to 191 announces `b - 128` bytes of UTF-8, which must be there and be valid.
/// Decimal digits (the first not 0), a colon and that many bytes are a string
/// too; bytes that are not UTF-8 there read as the text
/// "some non-utf8 nonsense".
pub proof fn law_decode_strings(data: Seq<u8>, d: Seq<u8>, body: Seq<u8>)
    ensures
        data.len() >= 1 && 128 <= data[0] <= 191 && data.len() == data[0] - 127 ==> {
            let b = data.subrange(1, data.len() as int);
            if valid_utf8(b) {
                decode(data) == Ok::<Model, Error>(Model::Str(decode_utf8(b)))
            } else {
                decode(data) == Err::<Model, Error>(Error::InvalidUtf8)
            }
        },
        data.len() >= 1 && 128 <= data[0] <= 191 && data.len() < data[0] - 127 ==> decode(data)
            == Err::<Model, Error>(Error::UnexpectedEnd),
        ({
            &&& d.len() >= 1
            &&& 49 <= d[0] <= 57
            &&& forall|i: int| 0 <= i < d.len() ==> 48 <= #[trigger] d[i] <= 57
            &&& digits_value(d) == body.len()
            &&& body.len() <= usize::MAX
        }) ==> decode(d + seq![58u8] + body) == Ok::<Model, Error>(
            Model::Str(
                if valid_utf8(body) {
                    decode_utf8(body)
                } else {
                    "some non-utf8 nonsense"@
                },
            ),
        ),
{
    if d.len() >= 1 && 49 <= d[0] <= 57 && (forall|i: int| 0 <= i < d.len() ==> 48 <= #[trigger] d[i]
        <= 57) && digits_value(d) == body.len() && body.len() <= usize::MAX {
        let data = d + seq![58u8] + body;
        let j = d.len() as int;
        assert(data[0] == d[0]);
        assert(data[j] == 58);
        assert forall|k: int| 1 <= k < j implies data[k] != 58 by {
            assert(data[k] == d[k]);
        }
        lemma_find_byte(data, 1, j, 58);
        assert(data.subrange(0, j) =~= d);
        assert forall|i: int| 0 <= i < d.len() implies #[trigger] is_digit(d[i]) by {}
        assert(all_digits(d));
        assert(data.subrange(j + 1, j + 1 + body.len()) =~= body);
    }
}

/// Law: how lists and dicts are written. A list of fewer than 64 items is
/// the byte `192 + length` and then its items in order; a longer one is 59,
/// its items, and the terminator 127. A dict of fewer than 25 pairs is
/// `102 + length` and then each key followed by its value, in order; a longer
/// one is 60, its pairs, and 127.
pub proof fn law_encode_containers(items: Seq<Model>, pairs: Seq<(Model, Model)>)
    ensures
        items.len() < 64 ==> encode(Model::List(items)) == seq![(192 + items.len()) as u8]
            + encode_items(items),
        items.len() >= 64 ==> encode(Model::List(items)) == seq![59u8] + encode_items(items)
            + seq![127u8],
        pairs.len() < 25 ==> encode(Model::Dict(pairs)) == seq![(102 + pairs.len()) as u8]
            + encode_pairs(pairs),
        pairs.len() >= 25 ==> encode(Model::Dict(pairs)) == seq![60u8] + encode_pairs(pairs)
            + seq![127u8],
        items.len() == 0 ==> encode_items(items) == Seq::<u8>::empty(),
        items.len() > 0 ==> encode_items(items) == encode(items[0]) + encode_items(
            items.drop_first(),
        ),
        pairs.len() == 0 ==> encode_pairs(pairs) == Seq::<u8>::empty(),
        pairs.len() > 0 ==> encode_pairs(pairs) == encode(pairs[0].0) + encode(pairs[0].1)
            + encode_pairs(pairs.drop_first()),
{
    assert(items.drop_first() =~= items.subrange(1, items.len() as int));
    assert(pairs.drop_first() =~= pairs.subrange(1, pairs.len() as int));
}

/// Law: a buffer holds exactly one value; bytes after a complete value are
/// refused.
pub proof fn law_trailing_bytes_refused(m: Model, extra: Seq<u8>)
    requires
        fits(m),
        extra.len() > 0,
    ensures
        decode(encode(m) + extra) == Err::<Model, Error>(Error::TooManyBytes),
{
    let data = encode(m) + extra;
    assert(data.subrange(0, encode(m).len() as int) =~= encode(m));
    lemma_decode_encode(m, data, 0);
}

} // verus!
