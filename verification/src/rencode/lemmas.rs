use vstd::prelude::*;
use vstd::utf8::*;
use super::value::Model;
use super::spec::{
    all_digits, be2, be4, be8, decimal, decode, decode_at, decode_dict_fixed, decode_dict_term,
    decode_list_fixed, decode_list_term, dict_close, dict_open, digits_value, enc_str, encode,
    encode_items, encode_pairs, find_byte, fits, from_be2, from_be4, from_be8, is_digit, list_close,
    list_open, COLON, DICT_COUNT, INT_NEG_MIN, INT_POS_MAX, LIST_COUNT, STR_COUNT, STR_START, TERM,
};

verus! {

broadcast use {vstd::seq::axiom_seq_subrange_decreases, vstd::seq::axiom_seq_index_decreases};

pub proof fn lemma_i8_byte(v: i8)
    ensures
        (v as u8) as i8 == v,
{
    assert((v as u8) as i8 == v) by (bit_vector);
}

pub proof fn lemma_be2(v: i16)
    ensures
        from_be2(be2(v as u16)[0], be2(v as u16)[1]) as i16 == v,
        from_be2(be2(v as u16)[0], be2(v as u16)[1]) == v as u16,
{
    let u = v as u16;
    let b0 = (u >> 8u16) as u8;
    let b1 = (u & 0xffu16) as u8;
    assert(((((b0 as u16) << 8u16) | (b1 as u16)) as i16 == v) && ((((b0 as u16) << 8u16) | (
    b1 as u16)) == u)) by (bit_vector)
        requires
            u == v as u16,
            b0 == (u >> 8u16) as u8,
            b1 == (u & 0xffu16) as u8,
    ;
}

pub proof fn lemma_be4(u: u32)
    ensures
        from_be4(be4(u)[0], be4(u)[1], be4(u)[2], be4(u)[3]) == u,
        from_be4(be4(u)[0], be4(u)[1], be4(u)[2], be4(u)[3]) as i32 == u as i32,
{
    let b0 = (u >> 24u32) as u8;
    let b1 = ((u >> 16u32) & 0xffu32) as u8;
    let b2 = ((u >> 8u32) & 0xffu32) as u8;
    let b3 = (u & 0xffu32) as u8;
    assert(((b0 as u32) << 24u32) | ((b1 as u32) << 16u32) | ((b2 as u32) << 8u32) | (b3 as u32)
        == u) by (bit_vector)
        requires
            b0 == (u >> 24u32) as u8,
            b1 == ((u >> 16u32) & 0xffu32) as u8,
            b2 == ((u >> 8u32) & 0xffu32) as u8,
            b3 == (u & 0xffu32) as u8,
    ;
}

pub proof fn lemma_i32_bits(v: i32)
    ensures
        (v as u32) as i32 == v,
{
    assert((v as u32) as i32 == v) by (bit_vector);
}

pub proof fn lemma_i64_bits(v: i64)
    ensures
        (v as u64) as i64 == v,
{
    assert((v as u64) as i64 == v) by (bit_vector);
}

pub proof fn lemma_be8(u: u64)
    ensures
        from_be8(
            be8(u)[0],
            be8(u)[1],
            be8(u)[2],
            be8(u)[3],
            be8(u)[4],
            be8(u)[5],
            be8(u)[6],
            be8(u)[7],
        ) == u,
{
    let b0 = (u >> 56u64) as u8;
    let b1 = ((u >> 48u64) & 0xffu64) as u8;
    let b2 = ((u >> 40u64) & 0xffu64) as u8;
    let b3 = ((u >> 32u64) & 0xffu64) as u8;
    let b4 = ((u >> 24u64) & 0xffu64) as u8;
    let b5 = ((u >> 16u64) & 0xffu64) as u8;
    let b6 = ((u >> 8u64) & 0xffu64) as u8;
    let b7 = (u & 0xffu64) as u8;
    assert(((b0 as u64) << 56u64) | ((b1 as u64) << 48u64) | ((b2 as u64) << 40u64) | ((b3 as u64)
        << 32u64) | ((b4 as u64) << 24u64) | ((b5 as u64) << 16u64) | ((b6 as u64) << 8u64) | (
    b7 as u64) == u) by (bit_vector)
        requires
            b0 == (u >> 56u64) as u8,
            b1 == ((u >> 48u64) & 0xffu64) as u8,
            b2 == ((u >> 40u64) & 0xffu64) as u8,
            b3 == ((u >> 32u64) & 0xffu64) as u8,
            b4 == ((u >> 24u64) & 0xffu64) as u8,
            b5 == ((u >> 16u64) & 0xffu64) as u8,
            b6 == ((u >> 8u64) & 0xffu64) as u8,
            b7 == (u & 0xffu64) as u8,
    ;
}

/// The decimal digits of `n` are digits, stand for `n`, and do not start with zero
/// unless `n` is zero.
pub proof fn lemma_decimal(n: nat)
    ensures
        decimal(n).len() >= 1,
        all_digits(decimal(n)),
        digits_value(decimal(n)) == n,
        n > 0 ==> 49 <= decimal(n)[0] <= 57,
    decreases n,
{
    if n >= 10 {
        lemma_decimal(n / 10);
        let d = decimal(n / 10);
        let s = d.push((48 + n % 10) as u8);
        assert(s.drop_last() =~= d);
        assert(s[0] == d[0]);
        vstd::arithmetic::div_mod::lemma_fundamental_div_mod(n as int, 10);
        assert(s.last() as int == 48 + n % 10);
        assert(decimal(n) == s);
        assert(digits_value(s) == digits_value(d) * 10 + (s.last() - 48) as nat);
        assert(n == (n / 10) * 10 + n % 10);
        assert forall|i: int| 0 <= i < s.len() implies #[trigger] is_digit(s[i]) by {
            if i < d.len() {
                assert(s[i] == d[i]);
            }
        }
    } else {
        let s = decimal(n);
        assert(s.drop_last() =~= Seq::<u8>::empty());
        assert(digits_value(s.drop_last()) == 0);
    }
}

/// Searching for a byte finds its first occurrence.
pub proof fn lemma_find_byte(data: Seq<u8>, p: int, j: int, b: u8)
    requires
        0 <= p <= j < data.len(),
        data[j] == b,
        forall|k: int| p <= k < j ==> data[k] != b,
    ensures
        find_byte(data, p, b) == Some(j),
    decreases j - p,
{
    if p < j {
        lemma_find_byte(data, p + 1, j, b);
    }
}

/// Every encoding is at least one byte long, and its first byte is never the terminator.
pub proof fn lemma_first_byte(m: Model)
    ensures
        encode(m).len() >= 1,
        encode(m)[0] != TERM,
{
    match m {
        Model::Str(s) => {
            let b = encode_utf8(s);
            if b.len() >= STR_COUNT {
                lemma_decimal(b.len());
            }
        },
        _ => {},
    }
}

pub open spec fn all_fit(items: Seq<Model>) -> bool {
    forall|i: int| 0 <= i < items.len() ==> fits(#[trigger] items[i])
}

pub open spec fn all_pairs_fit(pairs: Seq<(Model, Model)>) -> bool {
    forall|i: int| 0 <= i < pairs.len() ==> fits(#[trigger] pairs[i].0) && fits(pairs[i].1)
}

pub open spec fn holds_at(data: Seq<u8>, pos: int, bytes: Seq<u8>) -> bool {
    0 <= pos && pos + bytes.len() <= data.len() && data.subrange(pos, pos + bytes.len()) == bytes
}

proof fn lemma_holds_split(data: Seq<u8>, pos: int, a: Seq<u8>, b: Seq<u8>)
    requires
        holds_at(data, pos, a + b),
    ensures
        holds_at(data, pos, a),
        holds_at(data, pos + a.len(), b),
{
    let ab = a + b;
    let whole = data.subrange(pos, pos + ab.len());
    assert(whole == ab);
    assert(data.subrange(pos, pos + a.len()) =~= whole.subrange(0, a.len() as int));
    assert(ab.subrange(0, a.len() as int) =~= a);
    assert(data.subrange(pos + a.len(), pos + a.len() + b.len()) =~= whole.subrange(
        a.len() as int,
        ab.len() as int,
    ));
    assert(ab.subrange(a.len() as int, ab.len() as int) =~= b);
}

proof fn lemma_holds_index(data: Seq<u8>, pos: int, a: Seq<u8>, k: int)
    requires
        holds_at(data, pos, a),
        0 <= k < a.len(),
    ensures
        data[pos + k] == a[k],
{
    assert(data.subrange(pos, pos + a.len())[k] == data[pos + k]);
}

proof fn lemma_str_roundtrip(s: Seq<char>, data: Seq<u8>, pos: int)
    requires
        encode_utf8(s).len() <= usize::MAX,
        holds_at(data, pos, enc_str(s)),
    ensures
        decode_at(data, pos) == Ok::<(Model, int), super::error::Error>(
            (Model::Str(s), pos + enc_str(s).len()),
        ),
{
    let b = encode_utf8(s);
    encode_utf8_valid_utf8(s);
    encode_utf8_decode_utf8(s);
    if b.len() < STR_COUNT {
        let head: Seq<u8> = seq![(STR_START + b.len()) as u8];
        lemma_holds_split(data, pos, head, b);
        lemma_holds_index(data, pos, head, 0);
        assert(data.subrange(pos + 1, pos + 1 + b.len()) == b);
    } else {
        let d = decimal(b.len());
        lemma_decimal(b.len());
        let head = d + seq![COLON];
        lemma_holds_split(data, pos, head, b);
        lemma_holds_split(data, pos, d, seq![COLON]);
        lemma_holds_index(data, pos, d, 0);
        lemma_holds_index(data, pos + d.len(), seq![COLON], 0);
        assert forall|k: int| pos + 1 <= k < pos + d.len() implies data[k] != COLON by {
            lemma_holds_index(data, pos, d, k - pos);
            assert(is_digit(d[k - pos]));
        }
        lemma_find_byte(data, pos + 1, pos + d.len(), COLON);
        assert(data.subrange(pos, pos + d.len()) == d);
        assert(data.subrange(pos + d.len() + 1, pos + d.len() + 1 + b.len()) == b);
    }
}

/// Reading back what was written gives the value and the position right after it.
pub proof fn lemma_decode_encode(m: Model, data: Seq<u8>, pos: int)
    requires
        fits(m),
        holds_at(data, pos, encode(m)),
    ensures
        decode_at(data, pos) == Ok::<(Model, int), super::error::Error>(
            (m, pos + encode(m).len()),
        ),
    decreases m,
{
    lemma_first_byte(m);
    let e = encode(m);
    lemma_holds_index(data, pos, e, 0);
    match m {
        Model::Unit => {},
        Model::Bool(_) => {},
        Model::I8(v) => {
            lemma_i8_byte(v);
            if !(0 <= v <= INT_POS_MAX) && !(INT_NEG_MIN <= v < 0) {
                lemma_holds_index(data, pos, e, 1);
            }
        },
        Model::I16(v) => {
            lemma_holds_index(data, pos, e, 1);
            lemma_holds_index(data, pos, e, 2);
            lemma_be2(v);
        },
        Model::I32(v) => {
            lemma_holds_index(data, pos, e, 1);
            lemma_holds_index(data, pos, e, 2);
            lemma_holds_index(data, pos, e, 3);
            lemma_holds_index(data, pos, e, 4);
            lemma_be4(v as u32);
            lemma_i32_bits(v);
        },
        Model::I64(v) => {
            lemma_holds_index(data, pos, e, 1);
            lemma_holds_index(data, pos, e, 2);
            lemma_holds_index(data, pos, e, 3);
            lemma_holds_index(data, pos, e, 4);
            lemma_holds_index(data, pos, e, 5);
            lemma_holds_index(data, pos, e, 6);
            lemma_holds_index(data, pos, e, 7);
            lemma_holds_index(data, pos, e, 8);
            lemma_be8(v as u64);
            lemma_i64_bits(v);
        },
        Model::F32(b) => {
            lemma_holds_index(data, pos, e, 1);
            lemma_holds_index(data, pos, e, 2);
            lemma_holds_index(data, pos, e, 3);
            lemma_holds_index(data, pos, e, 4);
            lemma_be4(b);
        },
        Model::F64(b) => {
            lemma_holds_index(data, pos, e, 1);
            lemma_holds_index(data, pos, e, 2);
            lemma_holds_index(data, pos, e, 3);
            lemma_holds_index(data, pos, e, 4);
            lemma_holds_index(data, pos, e, 5);
            lemma_holds_index(data, pos, e, 6);
            lemma_holds_index(data, pos, e, 7);
            lemma_holds_index(data, pos, e, 8);
            lemma_be8(b);
        },
        Model::Str(s) => {
            lemma_str_roundtrip(s, data, pos);
        },
        Model::List(items) => {
            let n = items.len();
            let body = encode_items(items);
            lemma_holds_split(data, pos, list_open(n) + body, list_close(n));
            lemma_holds_split(data, pos, list_open(n), body);
            if n < LIST_COUNT {
                lemma_items_fixed(items, data, pos + 1);
            } else {
                lemma_holds_index(data, pos + 1 + body.len(), list_close(n), 0);
                lemma_items_term(items, data, pos + 1);
            }
        },
        Model::Dict(pairs) => {
            let n = pairs.len();
            let body = encode_pairs(pairs);
            lemma_holds_split(data, pos, dict_open(n) + body, dict_close(n));
            lemma_holds_split(data, pos, dict_open(n), body);
            if n < DICT_COUNT {
                lemma_pairs_fixed(pairs, data, pos + 1);
            } else {
                lemma_holds_index(data, pos + 1 + body.len(), dict_close(n), 0);
                lemma_pairs_term(pairs, data, pos + 1);
            }
        },
    }
}

pub proof fn lemma_items_fixed(items: Seq<Model>, data: Seq<u8>, pos: int)
    requires
        all_fit(items),
        holds_at(data, pos, encode_items(items)),
    ensures
        decode_list_fixed(data, pos, items.len()) == Ok::<(Seq<Model>, int), super::error::Error>(
            (items, pos + encode_items(items).len()),
        ),
    decreases items,
{
    if items.len() > 0 {
        let rest = items.subrange(1, items.len() as int);
        lemma_holds_split(data, pos, encode(items[0]), encode_items(rest));
        lemma_first_byte(items[0]);
        lemma_decode_encode(items[0], data, pos);
        assert(all_fit(rest)) by {
            assert forall|i: int| 0 <= i < rest.len() implies fits(#[trigger] rest[i]) by {
                assert(rest[i] == items[i + 1]);
            }
        }
        lemma_items_fixed(rest, data, pos + encode(items[0]).len());
        assert(seq![items[0]] + rest =~= items);
    } else {
        assert(items =~= seq![]);
    }
}

pub proof fn lemma_items_term(items: Seq<Model>, data: Seq<u8>, pos: int)
    requires
        all_fit(items),
        holds_at(data, pos, encode_items(items)),
        pos + encode_items(items).len() < data.len(),
        data[pos + encode_items(items).len()] == TERM,
    ensures
        decode_list_term(data, pos) == Ok::<(Seq<Model>, int), super::error::Error>(
            (items, pos + encode_items(items).len() + 1),
        ),
    decreases items,
{
    if items.len() > 0 {
        let rest = items.subrange(1, items.len() as int);
        lemma_holds_split(data, pos, encode(items[0]), encode_items(rest));
        lemma_first_byte(items[0]);
        lemma_holds_index(data, pos, encode(items[0]), 0);
        lemma_decode_encode(items[0], data, pos);
        assert(all_fit(rest)) by {
            assert forall|i: int| 0 <= i < rest.len() implies fits(#[trigger] rest[i]) by {
                assert(rest[i] == items[i + 1]);
            }
        }
        lemma_items_term(rest, data, pos + encode(items[0]).len());
        assert(seq![items[0]] + rest =~= items);
    } else {
        assert(items =~= seq![]);
    }
}

pub proof fn lemma_pairs_fixed(pairs: Seq<(Model, Model)>, data: Seq<u8>, pos: int)
    requires
        all_pairs_fit(pairs),
        holds_at(data, pos, encode_pairs(pairs)),
    ensures
        decode_dict_fixed(data, pos, pairs.len()) == Ok::<
            (Seq<(Model, Model)>, int),
            super::error::Error,
        >((pairs, pos + encode_pairs(pairs).len())),
    decreases pairs,
{
    if pairs.len() > 0 {
        let rest = pairs.subrange(1, pairs.len() as int);
        let k = pairs[0].0;
        let v = pairs[0].1;
        lemma_holds_split(data, pos, encode(k) + encode(v), encode_pairs(rest));
        lemma_holds_split(data, pos, encode(k), encode(v));
        lemma_first_byte(k);
        lemma_first_byte(v);
        lemma_decode_encode(k, data, pos);
        lemma_decode_encode(v, data, pos + encode(k).len());
        assert(all_pairs_fit(rest)) by {
            assert forall|i: int| 0 <= i < rest.len() implies fits(#[trigger] rest[i].0) && fits(
                rest[i].1,
            ) by {
                assert(rest[i] == pairs[i + 1]);
            }
        }
        lemma_pairs_fixed(rest, data, pos + encode(k).len() + encode(v).len());
        assert(seq![(k, v)] + rest =~= pairs);
    } else {
        assert(pairs =~= seq![]);
    }
}

pub proof fn lemma_pairs_term(pairs: Seq<(Model, Model)>, data: Seq<u8>, pos: int)
    requires
        all_pairs_fit(pairs),
        holds_at(data, pos, encode_pairs(pairs)),
        pos + encode_pairs(pairs).len() < data.len(),
        data[pos + encode_pairs(pairs).len()] == TERM,
    ensures
        decode_dict_term(data, pos) == Ok::<(Seq<(Model, Model)>, int), super::error::Error>(
            (pairs, pos + encode_pairs(pairs).len() + 1),
        ),
    decreases pairs,
{
    if pairs.len() > 0 {
        let rest = pairs.subrange(1, pairs.len() as int);
        let k = pairs[0].0;
        let v = pairs[0].1;
        lemma_holds_split(data, pos, encode(k) + encode(v), encode_pairs(rest));
        lemma_holds_split(data, pos, encode(k), encode(v));
        lemma_first_byte(k);
        lemma_first_byte(v);
        lemma_holds_index(data, pos, encode(k), 0);
        lemma_decode_encode(k, data, pos);
        lemma_decode_encode(v, data, pos + encode(k).len());
        assert(all_pairs_fit(rest)) by {
            assert forall|i: int| 0 <= i < rest.len() implies fits(#[trigger] rest[i].0) && fits(
                rest[i].1,
            ) by {
                assert(rest[i] == pairs[i + 1]);
            }
        }
        lemma_pairs_term(rest, data, pos + encode(k).len() + encode(v).len());
        assert(seq![(k, v)] + rest =~= pairs);
    } else {
        assert(pairs =~= seq![]);
    }
}

/// Law: decoding the encoding of any value gives the value back.
pub proof fn law_decode_encode(m: Model)
    requires
        fits(m),
    ensures
        decode(encode(m)) == Ok::<Model, super::error::Error>(m),
{
    let e = encode(m);
    assert(e.subrange(0, e.len() as int) =~= e);
    lemma_decode_encode(m, e, 0);
}

/// Law: different values have different encodings, so the bytes on the wire
/// determine the value.
pub proof fn law_encoding_injective(m1: Model, m2: Model)
    requires
        fits(m1),
        fits(m2),
        encode(m1) == encode(m2),
    ensures
        m1 == m2,
{
    law_decode_encode(m1);
    law_decode_encode(m2);
}

} // verus!
