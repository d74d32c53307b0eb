use vstd::prelude::*;
use vstd::utf8::{encode_utf8, encode_utf8_decode_utf8, is_ascii_chars, is_ascii_chars_encode_utf8};

verus! {

/// Why a hex string was refused.
#[derive(Debug, Clone, Copy, PartialEq, Eq)]
pub enum HexError {
    /// The byte at `index` is not a hex digit; `c` is that byte taken as a `char`.
    InvalidHexCharacter { c: char, index: usize },
    /// The string has an odd number of bytes.
    OddLength,
    /// The string's length does not match the number of bytes wanted.
    InvalidStringLength,
}

/// The value of a hex digit, upper or lower case; -1 for any other byte.
pub open spec fn hex_value(c: u8) -> int {
    if 48 <= c <= 57 {
        c - 48
    } else if 97 <= c <= 102 {
        c - 87
    } else if 65 <= c <= 70 {
        c - 55
    } else {
        -1
    }
}

pub open spec fn is_hex(c: u8) -> bool {
    hex_value(c) >= 0
}

/// The first index at or after `i` that holds no hex digit.
pub open spec fn first_non_hex(s: Seq<u8>, i: int) -> Option<int>
    decreases s.len() - i,
{
    if i < 0 || i >= s.len() {
        None
    } else if !is_hex(s[i]) {
        Some(i)
    } else {
        first_non_hex(s, i + 1)
    }
}

/// The bytes that pairs of hex digits stand for, high digit first.
pub open spec fn hex_pairs(s: Seq<u8>) -> Seq<u8> {
    Seq::new(s.len() / 2, |i: int| (hex_value(s[2 * i]) * 16 + hex_value(s[2 * i + 1])) as u8)
}

/// Decoding hex text into exactly 20 bytes: the length is checked first (odd,
/// then not 40), then the digits in order.
pub open spec fn decode_hex20(s: Seq<u8>) -> Result<Seq<u8>, HexError> {
    if s.len() % 2 != 0 {
        Err(HexError::OddLength)
    } else if s.len() != 40 {
        Err(HexError::InvalidStringLength)
    } else {
        match first_non_hex(s, 0) {
            Some(i) => Err(HexError::InvalidHexCharacter { c: s[i] as char, index: i as usize }),
            None => Ok(hex_pairs(s)),
        }
    }
}

/// A lower-case hex digit.
pub open spec fn hex_char(n: int) -> char {
    if n < 10 {
        (48 + n) as char
    } else {
        (87 + n) as char
    }
}

/// Lower-case hex text for bytes, two digits per byte, high digit first.
pub open spec fn hex_lower(b: Seq<u8>) -> Seq<char> {
    Seq::new(
        2 * b.len(),
        |i: int|
            if i % 2 == 0 {
                hex_char((b[i / 2] / 16) as int)
            } else {
                hex_char((b[i / 2] % 16) as int)
            },
    )
}

/// An upper-case hex digit.
pub open spec fn hex_char_upper(n: int) -> char {
    if n < 10 {
        (48 + n) as char
    } else {
        (55 + n) as char
    }
}

/// Upper-case hex text for bytes, two digits per byte, high digit first.
pub open spec fn hex_upper(b: Seq<u8>) -> Seq<char> {
    Seq::new(
        2 * b.len(),
        |i: int|
            if i % 2 == 0 {
                hex_char_upper((b[i / 2] / 16) as int)
            } else {
                hex_char_upper((b[i / 2] % 16) as int)
            },
    )
}

/// Calls `hex::encode_upper`, which writes each byte as two upper-case hex
/// digits, high digit first.
#[verifier::external_body]
fn hex_encode20_upper(bytes: &[u8; 20]) -> (s: String)
    ensures
        s@ == hex_upper(bytes@),
{
    hex::encode_upper(bytes)
}

/// Calls `<[u8; 20] as hex::FromHex>::from_hex`, which goes through
/// `hex::decode_to_slice`: odd length first, then a length other than 40, then
/// the digits in order, upper or lower case. The error variants are carried
/// over one for one.
#[verifier::external_body]
fn hex_decode20(data: &[u8]) -> (r: Result<[u8; 20], HexError>)
    ensures
        match r {
            Ok(a) => decode_hex20(data@) == Ok::<Seq<u8>, HexError>(a@),
            Err(e) => decode_hex20(data@) == Err::<Seq<u8>, HexError>(e),
        },
{
    match <[u8; 20] as hex::FromHex>::from_hex(data) {
        Ok(a) => Ok(a),
        Err(hex::FromHexError::InvalidHexCharacter { c, index }) => Err(
            HexError::InvalidHexCharacter { c, index },
        ),
        Err(hex::FromHexError::OddLength) => Err(HexError::OddLength),
        Err(hex::FromHexError::InvalidStringLength) => Err(HexError::InvalidStringLength),
    }
}

/// Calls `hex::encode`, which writes each byte as two lower-case hex digits,
/// high digit first.
#[verifier::external_body]
fn hex_encode20(bytes: &[u8; 20]) -> (s: String)
    ensures
        s@ == hex_lower(bytes@),
{
    hex::encode(bytes)
}

/// A BitTorrent infohash: the 20 bytes of a SHA-1 digest.
#[derive(Default, Copy, Clone, PartialEq, Eq, PartialOrd, Ord, Hash, Debug)]
pub struct InfoHash([u8; 20]);

impl View for InfoHash {
    type V = Seq<u8>;

    closed spec fn view(&self) -> Seq<u8> {
        self.0@
    }
}

impl InfoHash {
    pub proof fn lemma_len(self)
        ensures
            self@.len() == 20,
    {
    }

    /// Reads an infohash from 40 hex digits given as bytes.
    pub fn from_hex_bytes(hex: &[u8]) -> (r: Result<InfoHash, HexError>)
        ensures
            match r {
                Ok(h) => decode_hex20(hex@) == Ok::<Seq<u8>, HexError>(h@),
                Err(e) => decode_hex20(hex@) == Err::<Seq<u8>, HexError>(e),
            },
    {
        match hex_decode20(hex) {
            Ok(a) => Ok(InfoHash(a)),
            Err(e) => Err(e),
        }
    }

    /// Reads an infohash from 40 hex digits.
    pub fn from_hex(hex: &str) -> (r: Result<InfoHash, HexError>)
        ensures
            match r {
                Ok(h) => decode_hex20(encode_utf8(hex@)) == Ok::<Seq<u8>, HexError>(h@),
                Err(e) => decode_hex20(encode_utf8(hex@)) == Err::<Seq<u8>, HexError>(e),
            },
    {
        Self::from_hex_bytes(hex.as_bytes())
    }

    /// The infohash as 40 lower-case hex digits.
    pub fn to_hex(&self) -> (s: String)
        ensures
            s@ == hex_lower(self@),
    {
        hex_encode20(&self.0)
    }

    /// The infohash as 40 upper-case hex digits.
    pub fn to_hex_upper(&self) -> (s: String)
        ensures
            s@ == hex_upper(self@),
    {
        hex_encode20_upper(&self.0)
    }
}

proof fn lemma_hex_char_upper(n: int)
    requires
        0 <= n < 16,
    ensures
        ('\0' <= hex_char_upper(n) <= '\u{7f}'),
        is_hex(hex_char_upper(n) as u8),
        hex_value(hex_char_upper(n) as u8) == n,
{
}

proof fn lemma_hex_char(n: int)
    requires
        0 <= n < 16,
    ensures
        ('\0' <= hex_char(n) <= '\u{7f}'),
        is_hex(hex_char(n) as u8),
        hex_value(hex_char(n) as u8) == n,
{
}

/// Law: the hex text of an infohash reads back as the same infohash.
pub proof fn law_hex_roundtrip(h: InfoHash)
    ensures
        decode_hex20(encode_utf8(hex_lower(h@))) == Ok::<Seq<u8>, HexError>(h@),
{
    let b = h@;
    let t = hex_lower(b);
    assert forall|i: int| 0 <= i < t.len() implies ('\0' <= #[trigger] t[i] <= '\u{7f}') && is_hex(
        t[i] as u8,
    ) by {
        lemma_hex_char((b[i / 2] / 16) as int);
        lemma_hex_char((b[i / 2] % 16) as int);
    }
    assert(is_ascii_chars(t));
    is_ascii_chars_encode_utf8(t);
    let s = encode_utf8(t);
    assert(s.len() == 40);
    assert forall|i: int| 0 <= i < s.len() implies #[trigger] s[i] == t[i] as u8 by {}
    assert forall|k: int| 0 <= k < s.len() implies is_hex(#[trigger] s[k]) by {
        lemma_hex_char((b[k / 2] / 16) as int);
        lemma_hex_char((b[k / 2] % 16) as int);
    }
    lemma_no_non_hex(s, 0);
    assert forall|i: int| 0 <= i < 20 implies #[trigger] hex_pairs(s)[i] == b[i] by {
        lemma_hex_char((b[i] / 16) as int);
        lemma_hex_char((b[i] % 16) as int);
        assert(s[2 * i] == t[2 * i] as u8);
        assert(s[2 * i + 1] == t[2 * i + 1] as u8);
        assert(t[2 * i] == hex_char((b[i] / 16) as int));
        assert(t[2 * i + 1] == hex_char((b[i] % 16) as int));
    }
    assert(hex_pairs(s) =~= b);
}

/// Law: the upper-case hex text of an infohash reads back as the same infohash.
pub proof fn law_hex_upper_roundtrip(h: InfoHash)
    ensures
        decode_hex20(encode_utf8(hex_upper(h@))) == Ok::<Seq<u8>, HexError>(h@),
{
    let b = h@;
    let t = hex_upper(b);
    assert forall|i: int| 0 <= i < t.len() implies ('\0' <= #[trigger] t[i] <= '\u{7f}') && is_hex(
        t[i] as u8,
    ) by {
        lemma_hex_char_upper((b[i / 2] / 16) as int);
        lemma_hex_char_upper((b[i / 2] % 16) as int);
    }
    assert(is_ascii_chars(t));
    is_ascii_chars_encode_utf8(t);
    let s = encode_utf8(t);
    assert(s.len() == 40);
    assert forall|i: int| 0 <= i < s.len() implies #[trigger] s[i] == t[i] as u8 by {}
    assert forall|k: int| 0 <= k < s.len() implies is_hex(#[trigger] s[k]) by {
        lemma_hex_char_upper((b[k / 2] / 16) as int);
        lemma_hex_char_upper((b[k / 2] % 16) as int);
    }
    lemma_no_non_hex(s, 0);
    assert forall|i: int| 0 <= i < 20 implies #[trigger] hex_pairs(s)[i] == b[i] by {
        lemma_hex_char_upper((b[i] / 16) as int);
        lemma_hex_char_upper((b[i] % 16) as int);
        assert(s[2 * i] == t[2 * i] as u8);
        assert(s[2 * i + 1] == t[2 * i + 1] as u8);
        assert(t[2 * i] == hex_char_upper((b[i] / 16) as int));
        assert(t[2 * i + 1] == hex_char_upper((b[i] % 16) as int));
    }
    assert(hex_pairs(s) =~= b);
}

/// An ASCII upper-case letter in lower case; any other character unchanged.
pub open spec fn ascii_lower_char(c: char) -> char {
    if 'A' <= c && c <= 'Z' {
        ((c as u32) + 32) as char
    } else {
        c
    }
}

/// Text with its ASCII upper-case letters in lower case.
pub open spec fn ascii_lowercase(s: Seq<char>) -> Seq<char> {
    Seq::new(s.len(), |i: int| ascii_lower_char(s[i]))
}

/// Law: an infohash read from hex text gives back that text, in lower case,
/// as its hex text.
pub proof fn law_hex_of_parsed_is_lowercase(s: Seq<char>, h: Seq<u8>)
    requires
        decode_hex20(encode_utf8(s)) == Ok::<Seq<u8>, HexError>(h),
    ensures
        s.len() == 40,
        hex_lower(h) == ascii_lowercase(s),
{
    lemma_parsed_text(s, h);
    let b = encode_utf8(s);
    assert forall|i: int| 0 <= i < 40 implies #[trigger] hex_lower(h)[i] == ascii_lowercase(s)[i] by {
        let j = i / 2;
        let hi = hex_value(b[2 * j]);
        let lo = hex_value(b[2 * j + 1]);
        assert(is_hex(b[2 * j]) && is_hex(b[2 * j + 1]));
        lemma_pair_digits(hi, lo);
        assert(h[j] == (hi * 16 + lo) as u8);
        if i % 2 == 0 {
            assert(i == 2 * j);
            lemma_lower_digit(b[i]);
        } else {
            assert(i == 2 * j + 1);
            lemma_lower_digit(b[i]);
        }
    }
    assert(hex_lower(h) =~= ascii_lowercase(s));
}

/// Text that reads as an infohash is forty ASCII hex digits, whose bytes are
/// paired into the infohash.
proof fn lemma_parsed_text(s: Seq<char>, h: Seq<u8>)
    requires
        decode_hex20(encode_utf8(s)) == Ok::<Seq<u8>, HexError>(h),
    ensures
        encode_utf8(s).len() == 40,
        s.len() == 40,
        forall|k: int| 0 <= k < 40 ==> is_hex(#[trigger] encode_utf8(s)[k]),
        forall|k: int| 0 <= k < 40 ==> #[trigger] s[k] == encode_utf8(s)[k] as char,
        h == hex_pairs(encode_utf8(s)),
{
    let b = encode_utf8(s);
    lemma_all_hex(b, 0);
    let t = Seq::new(b.len(), |i: int| b[i] as char);
    assert forall|i: int| 0 <= i < t.len() implies ('\0' <= #[trigger] t[i] <= '\u{7f}') by {
        assert(is_hex(b[i]));
    }
    is_ascii_chars_encode_utf8(t);
    assert forall|i: int| 0 <= i < b.len() implies #[trigger] encode_utf8(t)[i] == b[i] by {
        assert(is_hex(b[i]));
        assert(t[i] as u8 == b[i]);
    }
    assert(encode_utf8(t) =~= b);
    encode_utf8_decode_utf8(s);
    encode_utf8_decode_utf8(t);
    assert(s == t);
    assert(h =~= hex_pairs(b));
}

/// The value of a hex digit: '0' to '9' are 0 to 9, 'a' to 'f' and 'A' to 'F'
/// are 10 to 15; -1 for any other character.
pub open spec fn hex_digit_value(c: char) -> int {
    if '0' <= c && c <= '9' {
        c as int - '0' as int
    } else if 'a' <= c && c <= 'f' {
        c as int - 'a' as int + 10
    } else if 'A' <= c && c <= 'F' {
        c as int - 'A' as int + 10
    } else {
        -1
    }
}

/// Law: an infohash read from hex text is forty hex digits, and each of its
/// twenty bytes is sixteen times the digit at its place plus the digit after.
pub proof fn law_hex_digits(s: Seq<char>, h: Seq<u8>)
    requires
        decode_hex20(encode_utf8(s)) == Ok::<Seq<u8>, HexError>(h),
    ensures
        s.len() == 40,
        h.len() == 20,
        forall|k: int| 0 <= k < 40 ==> #[trigger] hex_digit_value(s[k]) >= 0,
        forall|i: int|
            0 <= i < 20 ==> #[trigger] h[i] as int == hex_digit_value(s[2 * i]) * 16
                + hex_digit_value(s[2 * i + 1]),
{
    lemma_parsed_text(s, h);
    let b = encode_utf8(s);
    assert forall|k: int| 0 <= k < 40 implies #[trigger] hex_digit_value(s[k]) == hex_value(b[k]) by {
        assert(is_hex(b[k]));
        assert(s[k] == b[k] as char);
    }
    assert forall|i: int|
        0 <= i < 20 implies #[trigger] h[i] as int == hex_digit_value(s[2 * i]) * 16
            + hex_digit_value(s[2 * i + 1]) by {
        let hi = hex_value(b[2 * i]);
        let lo = hex_value(b[2 * i + 1]);
        assert(is_hex(b[2 * i]) && is_hex(b[2 * i + 1]));
        assert(hex_digit_value(s[2 * i]) == hi);
        assert(hex_digit_value(s[2 * i + 1]) == lo);
        assert(0 <= hi * 16 + lo < 256) by (nonlinear_arith)
            requires
                0 <= hi < 16,
                0 <= lo < 16,
        ;
    }
}

/// Law: the hex text of an infohash writes each byte as two lower-case
/// digits from "0123456789abcdef", the high one first.
pub proof fn law_hex_text(h: InfoHash)
    ensures
        hex_lower(h@).len() == 40,
        forall|i: int|
            0 <= i < 20 ==> #[trigger] hex_lower(h@)[2 * i] == "0123456789abcdef"@[(h@[i] / 16) as int]
                && hex_lower(h@)[2 * i + 1] == "0123456789abcdef"@[(h@[i] % 16) as int],
{
    reveal_strlit("0123456789abcdef");
    let b = h@;
    assert forall|i: int|
        0 <= i < 20 implies #[trigger] hex_lower(b)[2 * i] == "0123456789abcdef"@[(b[i] / 16) as int]
            && hex_lower(b)[2 * i + 1] == "0123456789abcdef"@[(b[i] % 16) as int] by {
        assert((2 * i) / 2 == i && (2 * i + 1) / 2 == i && (2 * i) % 2 == 0 && (2 * i + 1) % 2 == 1);
        let hi = (b[i] / 16) as int;
        let lo = (b[i] % 16) as int;
        assert(0 <= hi < 16 && 0 <= lo < 16);
    }
}

proof fn lemma_pair_digits(hi: int, lo: int)
    requires
        0 <= hi < 16,
        0 <= lo < 16,
    ensures
        ((hi * 16 + lo) as u8) / 16 == hi,
        ((hi * 16 + lo) as u8) % 16 == lo,
{
    assert(0 <= hi * 16 + lo < 256) by (nonlinear_arith)
        requires
            0 <= hi < 16,
            0 <= lo < 16,
    ;
    assert((hi * 16 + lo) / 16 == hi && (hi * 16 + lo) % 16 == lo) by (nonlinear_arith)
        requires
            0 <= hi < 16,
            0 <= lo < 16,
    ;
}

proof fn lemma_lower_digit(c: u8)
    requires
        is_hex(c),
    ensures
        hex_char(hex_value(c)) == ascii_lower_char(c as char),
{
}

proof fn lemma_all_hex(s: Seq<u8>, i: int)
    requires
        0 <= i <= s.len(),
        first_non_hex(s, i) is None,
    ensures
        forall|k: int| i <= k < s.len() ==> is_hex(#[trigger] s[k]),
    decreases s.len() - i,
{
    if i < s.len() {
        lemma_all_hex(s, i + 1);
    }
}

pub(crate) proof fn lemma_no_non_hex(s: Seq<u8>, i: int)
    requires
        0 <= i <= s.len(),
        forall|k: int| 0 <= k < s.len() ==> is_hex(#[trigger] s[k]),
    ensures
        first_non_hex(s, i) is None,
    decreases s.len() - i,
{
    if i < s.len() {
        lemma_no_non_hex(s, i + 1);
    }
}

} // verus!
