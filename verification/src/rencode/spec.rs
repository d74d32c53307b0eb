use vstd::prelude::*;
use vstd::utf8::*;
use super::value::Model;
use super::error::Error;

verus! {

broadcast use vstd::seq::axiom_seq_subrange_decreases;

pub const LIST: u8 = 59;
pub const DICT: u8 = 60;
pub const INT: u8 = 61;
pub const INT1: u8 = 62;
pub const INT2: u8 = 63;
pub const INT4: u8 = 64;
pub const INT8: u8 = 65;
pub const FLOAT32: u8 = 66;
pub const FLOAT64: u8 = 44;
pub const TRUE: u8 = 67;
pub const FALSE: u8 = 68;
pub const NONE: u8 = 69;
pub const TERM: u8 = 127;
pub const COLON: u8 = 58;

pub const INT_POS_MAX: i8 = 43;
pub const INT_NEG_START: i8 = 70;
pub const INT_NEG_MIN: i8 = -32;

pub const STR_START: u8 = 128;
pub const STR_COUNT: usize = 64;
pub const LIST_START: u8 = 192;
pub const LIST_COUNT: usize = 64;
pub const DICT_START: u8 = 102;
pub const DICT_COUNT: usize = 25;

/// The text that a long string whose bytes are not UTF-8 decodes to.
pub open spec fn non_utf8_text() -> Seq<char> {
    "some non-utf8 nonsense"@
}

// ---- fixed-width big-endian integers ----

pub open spec fn be2(u: u16) -> Seq<u8> {
    seq![(u >> 8u16) as u8, (u & 0xffu16) as u8]
}

pub open spec fn from_be2(b0: u8, b1: u8) -> u16 {
    ((b0 as u16) << 8u16) | (b1 as u16)
}

pub open spec fn be4(u: u32) -> Seq<u8> {
    seq![
        (u >> 24u32) as u8,
        ((u >> 16u32) & 0xffu32) as u8,
        ((u >> 8u32) & 0xffu32) as u8,
        (u & 0xffu32) as u8,
    ]
}

pub open spec fn from_be4(b0: u8, b1: u8, b2: u8, b3: u8) -> u32 {
    ((b0 as u32) << 24u32) | ((b1 as u32) << 16u32) | ((b2 as u32) << 8u32) | (b3 as u32)
}

pub open spec fn be8(u: u64) -> Seq<u8> {
    seq![
        (u >> 56u64) as u8,
        ((u >> 48u64) & 0xffu64) as u8,
        ((u >> 40u64) & 0xffu64) as u8,
        ((u >> 32u64) & 0xffu64) as u8,
        ((u >> 24u64) & 0xffu64) as u8,
        ((u >> 16u64) & 0xffu64) as u8,
        ((u >> 8u64) & 0xffu64) as u8,
        (u & 0xffu64) as u8,
    ]
}

pub open spec fn from_be8(
    b0: u8,
    b1: u8,
    b2: u8,
    b3: u8,
    b4: u8,
    b5: u8,
    b6: u8,
    b7: u8,
) -> u64 {
    ((b0 as u64) << 56u64) | ((b1 as u64) << 48u64) | ((b2 as u64) << 40u64) | ((b3 as u64)
        << 32u64) | ((b4 as u64) << 24u64) | ((b5 as u64) << 16u64) | ((b6 as u64) << 8u64) | (
    b7 as u64)
}

pub open spec fn read_u16(data: Seq<u8>, p: int) -> u16 {
    from_be2(data[p], data[p + 1])
}

pub open spec fn read_u32(data: Seq<u8>, p: int) -> u32 {
    from_be4(data[p], data[p + 1], data[p + 2], data[p + 3])
}

pub open spec fn read_u64(data: Seq<u8>, p: int) -> u64 {
    from_be8(
        data[p],
        data[p + 1],
        data[p + 2],
        data[p + 3],
        data[p + 4],
        data[p + 5],
        data[p + 6],
        data[p + 7],
    )
}

// ---- decimal lengths ----

pub open spec fn is_digit(b: u8) -> bool {
    48 <= b <= 57
}

/// The decimal digits of `n`, most significant first, without leading zeros.
pub open spec fn decimal(n: nat) -> Seq<u8>
    decreases n,
{
    if n < 10 {
        seq![(48 + n) as u8]
    } else {
        decimal(n / 10).push((48 + n % 10) as u8)
    }
}

pub open spec fn all_digits(s: Seq<u8>) -> bool {
    forall|i: int| 0 <= i < s.len() ==> #[trigger] is_digit(s[i])
}

/// The number that a run of decimal digits stands for.
pub open spec fn digits_value(s: Seq<u8>) -> nat
    decreases s.len(),
{
    if s.len() == 0 {
        0
    } else {
        digits_value(s.drop_last()) * 10 + (s.last() - 48) as nat
    }
}

/// The first index at or after `p` where `data` holds byte `b`.
pub open spec fn find_byte(data: Seq<u8>, p: int, b: u8) -> Option<int>
    decreases data.len() - p,
{
    if p < 0 || p >= data.len() {
        None
    } else if data[p] == b {
        Some(p)
    } else {
        find_byte(data, p + 1, b)
    }
}

// ---- encoding ----

pub open spec fn enc_unit() -> Seq<u8> {
    seq![NONE]
}

pub open spec fn enc_bool(b: bool) -> Seq<u8> {
    seq![if b { TRUE } else { FALSE }]
}

pub open spec fn enc_i8(v: i8) -> Seq<u8> {
    if 0 <= v <= INT_POS_MAX {
        seq![v as u8]
    } else if INT_NEG_MIN <= v < 0 {
        seq![(69 - v) as u8]
    } else {
        seq![INT1, v as u8]
    }
}

pub open spec fn enc_i16(v: i16) -> Seq<u8> {
    seq![INT2] + be2(v as u16)
}

pub open spec fn enc_i32(v: i32) -> Seq<u8> {
    seq![INT4] + be4(v as u32)
}

pub open spec fn enc_i64(v: i64) -> Seq<u8> {
    seq![INT8] + be8(v as u64)
}

pub open spec fn enc_f32(bits: u32) -> Seq<u8> {
    seq![FLOAT32] + be4(bits)
}

pub open spec fn enc_f64(bits: u64) -> Seq<u8> {
    seq![FLOAT64] + be8(bits)
}

/// A byte string: short ones carry their length in the type byte, long ones
/// a decimal length and a colon.
pub open spec fn enc_bytes(b: Seq<u8>) -> Seq<u8> {
    if b.len() < STR_COUNT {
        seq![(STR_START + b.len()) as u8] + b
    } else {
        decimal(b.len()) + seq![COLON] + b
    }
}

pub open spec fn enc_str(s: Seq<char>) -> Seq<u8> {
    enc_bytes(encode_utf8(s))
}

pub open spec fn list_open(n: nat) -> Seq<u8> {
    if n < LIST_COUNT {
        seq![(LIST_START + n) as u8]
    } else {
        seq![LIST]
    }
}

pub open spec fn list_close(n: nat) -> Seq<u8> {
    if n < LIST_COUNT {
        seq![]
    } else {
        seq![TERM]
    }
}

pub open spec fn dict_open(n: nat) -> Seq<u8> {
    if n < DICT_COUNT {
        seq![(DICT_START + n) as u8]
    } else {
        seq![DICT]
    }
}

pub open spec fn dict_close(n: nat) -> Seq<u8> {
    if n < DICT_COUNT {
        seq![]
    } else {
        seq![TERM]
    }
}

/// The rencode bytes of a value.
pub open spec fn encode(m: Model) -> Seq<u8>
    decreases m,
{
    match m {
        Model::Unit => enc_unit(),
        Model::Bool(b) => enc_bool(b),
        Model::I8(v) => enc_i8(v),
        Model::I16(v) => enc_i16(v),
        Model::I32(v) => enc_i32(v),
        Model::I64(v) => enc_i64(v),
        Model::F32(b) => enc_f32(b),
        Model::F64(b) => enc_f64(b),
        Model::Str(s) => enc_str(s),
        Model::List(items) => list_open(items.len()) + encode_items(items) + list_close(items.len()),
        Model::Dict(pairs) => dict_open(pairs.len()) + encode_pairs(pairs) + dict_close(pairs.len()),
    }
}

pub open spec fn encode_items(items: Seq<Model>) -> Seq<u8>
    decreases items,
{
    if items.len() == 0 {
        seq![]
    } else {
        encode(items[0]) + encode_items(items.subrange(1, items.len() as int))
    }
}

pub open spec fn encode_pairs(pairs: Seq<(Model, Model)>) -> Seq<u8>
    decreases pairs,
{
    if pairs.len() == 0 {
        seq![]
    } else {
        encode(pairs[0].0) + encode(pairs[0].1) + encode_pairs(
            pairs.subrange(1, pairs.len() as int),
        )
    }
}

/// Every string in the value has a UTF-8 length that fits in `usize`.
pub open spec fn fits(m: Model) -> bool
    decreases m,
{
    match m {
        Model::Str(s) => encode_utf8(s).len() <= usize::MAX,
        Model::List(items) => forall|i: int| 0 <= i < items.len() ==> fits(#[trigger] items[i]),
        Model::Dict(pairs) => forall|i: int|
            0 <= i < pairs.len() ==> fits(#[trigger] pairs[i].0) && fits(pairs[i].1),
        _ => true,
    }
}

// ---- decoding ----

/// A string whose length is written in decimal, starting at `pos`.
pub open spec fn decode_str_term(data: Seq<u8>, pos: int) -> Result<(Model, int), Error> {
    match find_byte(data, pos + 1, COLON) {
        None => Err(Error::UnexpectedEnd),
        Some(j) => {
            let digits = data.subrange(pos, j);
            if !all_digits(digits) || digits_value(digits) > usize::MAX {
                Err(Error::InvalidLength)
            } else {
                let len = digits_value(digits) as int;
                if j + 1 + len > data.len() {
                    Err(Error::UnexpectedEnd)
                } else {
                    let body = data.subrange(j + 1, j + 1 + len);
                    Ok(
                        (
                            Model::Str(
                                if valid_utf8(body) {
                                    decode_utf8(body)
                                } else {
                                    non_utf8_text()
                                },
                            ),
                            j + 1 + len,
                        ),
                    )
                }
            }
        },
    }
}

/// A string whose length `len` is in its type byte at `pos`.
pub open spec fn decode_str_fixed(data: Seq<u8>, pos: int, len: int) -> Result<(Model, int), Error> {
    if pos + 1 + len > data.len() {
        Err(Error::UnexpectedEnd)
    } else {
        let body = data.subrange(pos + 1, pos + 1 + len);
        if valid_utf8(body) {
            Ok((Model::Str(decode_utf8(body)), pos + 1 + len))
        } else {
            Err(Error::InvalidUtf8)
        }
    }
}

/// The value that starts at `pos`, and the position just after it.
pub open spec fn decode_at(data: Seq<u8>, pos: int) -> Result<(Model, int), Error>
    decreases data.len() - pos, 0int,
{
    if pos < 0 || pos >= data.len() {
        Err(Error::UnexpectedEnd)
    } else {
        let b = data[pos];
        if b <= 43 {
            Ok((Model::I8(b as i8), pos + 1))
        } else if b == FLOAT64 {
            if pos + 9 > data.len() {
                Err(Error::UnexpectedEnd)
            } else {
                Ok((Model::F64(read_u64(data, pos + 1)), pos + 9))
            }
        } else if b <= 48 {
            Err(Error::UnknownType(b))
        } else if b <= 57 {
            decode_str_term(data, pos)
        } else if b == COLON {
            Err(Error::UnexpectedStrlenTerminator)
        } else if b == LIST {
            match decode_list_term(data, pos + 1) {
                Ok((items, p)) => Ok((Model::List(items), p)),
                Err(e) => Err(e),
            }
        } else if b == DICT {
            match decode_dict_term(data, pos + 1) {
                Ok((pairs, p)) => Ok((Model::Dict(pairs), p)),
                Err(e) => Err(e),
            }
        } else if b == INT {
            Err(Error::UnsupportedInt)
        } else if b == INT1 {
            if pos + 2 > data.len() {
                Err(Error::UnexpectedEnd)
            } else {
                Ok((Model::I8(data[pos + 1] as i8), pos + 2))
            }
        } else if b == INT2 {
            if pos + 3 > data.len() {
                Err(Error::UnexpectedEnd)
            } else {
                Ok((Model::I16(read_u16(data, pos + 1) as i16), pos + 3))
            }
        } else if b == INT4 {
            if pos + 5 > data.len() {
                Err(Error::UnexpectedEnd)
            } else {
                Ok((Model::I32(read_u32(data, pos + 1) as i32), pos + 5))
            }
        } else if b == INT8 {
            if pos + 9 > data.len() {
                Err(Error::UnexpectedEnd)
            } else {
                Ok((Model::I64(read_u64(data, pos + 1) as i64), pos + 9))
            }
        } else if b == FLOAT32 {
            if pos + 5 > data.len() {
                Err(Error::UnexpectedEnd)
            } else {
                Ok((Model::F32(read_u32(data, pos + 1)), pos + 5))
            }
        } else if b == TRUE {
            Ok((Model::Bool(true), pos + 1))
        } else if b == FALSE {
            Ok((Model::Bool(false), pos + 1))
        } else if b == NONE {
            Ok((Model::Unit, pos + 1))
        } else if b <= 101 {
            Ok((Model::I8((69 - b) as i8), pos + 1))
        } else if b <= 126 {
            match decode_dict_fixed(data, pos + 1, (b - DICT_START) as nat) {
                Ok((pairs, p)) => Ok((Model::Dict(pairs), p)),
                Err(e) => Err(e),
            }
        } else if b == TERM {
            Err(Error::UnexpectedTerminator)
        } else if b <= 191 {
            decode_str_fixed(data, pos, (b - STR_START) as int)
        } else {
            match decode_list_fixed(data, pos + 1, (b - LIST_START) as nat) {
                Ok((items, p)) => Ok((Model::List(items), p)),
                Err(e) => Err(e),
            }
        }
    }
}

/// `n` values in a row, starting at `pos`.
pub open spec fn decode_list_fixed(data: Seq<u8>, pos: int, n: nat) -> Result<
    (Seq<Model>, int),
    Error,
>
    decreases data.len() - pos, 1int,
{
    if n == 0 {
        Ok((seq![], pos))
    } else if pos < 0 || pos >= data.len() {
        Err(Error::UnexpectedEnd)
    } else {
        match decode_at(data, pos) {
            Err(e) => Err(e),
            Ok((m, p)) => if p <= pos || p > data.len() {
                Err(Error::UnexpectedEnd)
            } else {
                match decode_list_fixed(data, p, (n - 1) as nat) {
                    Err(e) => Err(e),
                    Ok((ms, q)) => Ok((seq![m] + ms, q)),
                }
            },
        }
    }
}

/// Values up to the terminator, starting at `pos`.
pub open spec fn decode_list_term(data: Seq<u8>, pos: int) -> Result<(Seq<Model>, int), Error>
    decreases data.len() - pos, 1int,
{
    if pos < 0 || pos >= data.len() {
        Err(Error::UnexpectedEnd)
    } else if data[pos] == TERM {
        Ok((seq![], pos + 1))
    } else {
        match decode_at(data, pos) {
            Err(e) => Err(e),
            Ok((m, p)) => if p <= pos || p > data.len() {
                Err(Error::UnexpectedEnd)
            } else {
                match decode_list_term(data, p) {
                    Err(e) => Err(e),
                    Ok((ms, q)) => Ok((seq![m] + ms, q)),
                }
            },
        }
    }
}

/// `n` key/value pairs in a row, starting at `pos`.
pub open spec fn decode_dict_fixed(data: Seq<u8>, pos: int, n: nat) -> Result<
    (Seq<(Model, Model)>, int),
    Error,
>
    decreases data.len() - pos, 1int,
{
    if n == 0 {
        Ok((seq![], pos))
    } else if pos < 0 || pos >= data.len() {
        Err(Error::UnexpectedEnd)
    } else {
        match decode_at(data, pos) {
            Err(e) => Err(e),
            Ok((k, p1)) => if p1 <= pos || p1 > data.len() {
                Err(Error::UnexpectedEnd)
            } else {
                match decode_at(data, p1) {
                    Err(e) => Err(e),
                    Ok((v, p2)) => if p2 <= p1 || p2 > data.len() {
                        Err(Error::UnexpectedEnd)
                    } else {
                        match decode_dict_fixed(data, p2, (n - 1) as nat) {
                            Err(e) => Err(e),
                            Ok((ps, q)) => Ok((seq![(k, v)] + ps, q)),
                        }
                    },
                }
            },
        }
    }
}

/// Key/value pairs up to the terminator, starting at `pos`.
pub open spec fn decode_dict_term(data: Seq<u8>, pos: int) -> Result<
    (Seq<(Model, Model)>, int),
    Error,
>
    decreases data.len() - pos, 1int,
{
    if pos < 0 || pos >= data.len() {
        Err(Error::UnexpectedEnd)
    } else if data[pos] == TERM {
        Ok((seq![], pos + 1))
    } else {
        match decode_at(data, pos) {
            Err(e) => Err(e),
            Ok((k, p1)) => if p1 <= pos || p1 > data.len() {
                Err(Error::UnexpectedEnd)
            } else {
                match decode_at(data, p1) {
                    Err(e) => Err(e),
                    Ok((v, p2)) => if p2 <= p1 || p2 > data.len() {
                        Err(Error::UnexpectedEnd)
                    } else {
                        match decode_dict_term(data, p2) {
                            Err(e) => Err(e),
                            Ok((ps, q)) => Ok((seq![(k, v)] + ps, q)),
                        }
                    },
                }
            },
        }
    }
}

/// A whole buffer read as one value: what `from_bytes` gives back.
pub open spec fn decode(data: Seq<u8>) -> Result<Model, Error> {
    match decode_at(data, 0) {
        Err(e) => Err(e),
        Ok((m, p)) => if p == data.len() {
            Ok(m)
        } else {
            Err(Error::TooManyBytes)
        },
    }
}

} // verus!
