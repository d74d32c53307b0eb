use vstd::prelude::*;
use vstd::slice::{slice_subrange, slice_to_vec};
use vstd::utf8::{decode_utf8, valid_utf8};
use super::error::Error;
use super::spec::{
    all_digits, decode, decode_at, decode_dict_fixed, decode_dict_term, decode_list_fixed,
    decode_list_term, decode_str_fixed, decode_str_term, digits_value, find_byte, is_digit,
    COLON, DICT, DICT_START, FALSE, FLOAT32, FLOAT64, INT, INT1, INT2, INT4, INT8,
    LIST, LIST_START, NONE, STR_START, TERM, TRUE,
};
use super::value::{Model, Value, lemma_dict_model, lemma_list_model, models, pair_models};

verus! {

/// Calls std's `String::from_utf8`. Its documentation says that it succeeds
/// exactly when the bytes are valid UTF-8, and that the string then holds the
/// characters those bytes encode; the contract states that, over vstd's model of UTF-8.
#[verifier::external_body]
fn string_from_utf8(bytes: Vec<u8>) -> (r: Option<String>)
    ensures
        r is Some <==> valid_utf8(bytes@),
        r matches Some(s) ==> s@ == decode_utf8(bytes@),
{
    String::from_utf8(bytes).ok()
}

/// How an exec decoding result stands to the spec one.
pub open spec fn agrees(r: Result<(Value, usize), Error>, s: Result<(Model, int), Error>) -> bool {
    match r {
        Ok((v, p)) => s == Ok::<(Model, int), Error>((v.model(), p as int)),
        Err(e) => s == Err::<(Model, int), Error>(e),
    }
}

proof fn lemma_digits_prefix(s: Seq<u8>, k: int)
    requires
        0 <= k <= s.len(),
        all_digits(s),
    ensures
        digits_value(s.subrange(0, k)) <= digits_value(s),
    decreases s.len() - k,
{
    if k < s.len() {
        lemma_digits_prefix(s, k + 1);
        assert(s.subrange(0, k + 1).drop_last() =~= s.subrange(0, k));
    } else {
        assert(s.subrange(0, k) =~= s);
    }
}

/// Reads `data[start..end]` as a decimal number.
fn parse_len(data: &[u8], start: usize, end: usize) -> (r: Option<usize>)
    requires
        start <= end <= data.len(),
    ensures
        r is Some <==> all_digits(data@.subrange(start as int, end as int)) && digits_value(
            data@.subrange(start as int, end as int),
        ) <= usize::MAX,
        r matches Some(n) ==> n == digits_value(data@.subrange(start as int, end as int)),
{
    let ghost digits = data@.subrange(start as int, end as int);
    let mut acc: usize = 0;
    let mut i: usize = start;
    while i < end
        invariant
            start <= i <= end <= data.len(),
            digits == data@.subrange(start as int, end as int),
            all_digits(data@.subrange(start as int, i as int)),
            acc == digits_value(data@.subrange(start as int, i as int)),
        decreases end - i,
    {
        let b = data[i];
        let ghost prefix = data@.subrange(start as int, i as int);
        let ghost next = data@.subrange(start as int, i + 1);
        assert(next.drop_last() =~= prefix);
        assert(next =~= digits.subrange(0, i + 1 - start));
        if b < 48 || b > 57 {
            assert(!is_digit(digits[i - start]));
            return None;
        }
        let m = acc.checked_mul(10);
        if m.is_none() {
            proof {
                lemma_digits_prefix(next, next.len() as int);
                if all_digits(digits) {
                    lemma_digits_prefix(digits, i + 1 - start);
                }
            }
            return None;
        }
        let a = m.unwrap().checked_add((b - 48) as usize);
        if a.is_none() {
            proof {
                if all_digits(digits) {
                    lemma_digits_prefix(digits, i + 1 - start);
                }
            }
            return None;
        }
        acc = a.unwrap();
        i = i + 1;
        assert(all_digits(next)) by {
            assert forall|k: int| 0 <= k < next.len() implies #[trigger] is_digit(next[k]) by {
                if k < prefix.len() {
                    assert(next[k] == prefix[k]);
                }
            }
        }
    }
    Some(acc)
}

/// The first index at or after `from` that holds a colon.
fn find_colon(data: &[u8], from: usize) -> (r: Option<usize>)
    requires
        from <= data.len(),
    ensures
        r matches Some(j) ==> find_byte(data@, from as int, COLON) == Some(j as int) && from <= j
            < data.len(),
        r is None ==> find_byte(data@, from as int, COLON) is None,
{
    let mut j = from;
    while j < data.len()
        invariant
            from <= j <= data.len(),
            find_byte(data@, from as int, COLON) == find_byte(data@, j as int, COLON),
        decreases data.len() - j,
    {
        if data[j] == COLON {
            return Some(j);
        }
        j = j + 1;
    }
    None
}

fn decode_str_term_exec(data: &[u8], pos: usize) -> (r: Result<(Value, usize), Error>)
    requires
        pos < data.len(),
    ensures
        agrees(r, decode_str_term(data@, pos as int)),
        r matches Ok((_, p)) ==> pos < p <= data.len(),
{
    let j = match find_colon(data, pos + 1) {
        None => return Err(Error::UnexpectedEnd),
        Some(j) => j,
    };
    let len = match parse_len(data, pos, j) {
        None => return Err(Error::InvalidLength),
        Some(n) => n,
    };
    if len > data.len() - (j + 1) {
        return Err(Error::UnexpectedEnd);
    }
    let body = slice_to_vec(slice_subrange(data, j + 1, j + 1 + len));
    let s = match string_from_utf8(body) {
        Some(s) => s,
        None => "some non-utf8 nonsense".to_owned(),
    };
    Ok((Value::Str(s), j + 1 + len))
}

fn decode_str_fixed_exec(data: &[u8], pos: usize, len: usize) -> (r: Result<(Value, usize), Error>)
    requires
        pos < data.len(),
    ensures
        agrees(r, decode_str_fixed(data@, pos as int, len as int)),
        r matches Ok((_, p)) ==> pos < p <= data.len(),
{
    if len > data.len() - (pos + 1) {
        return Err(Error::UnexpectedEnd);
    }
    let body = slice_to_vec(slice_subrange(data, pos + 1, pos + 1 + len));
    match string_from_utf8(body) {
        Some(s) => Ok((Value::Str(s), pos + 1 + len)),
        None => Err(Error::InvalidUtf8),
    }
}

/// Decodes the value that starts at `pos`.
pub fn decode_value(data: &[u8], pos: usize) -> (r: Result<(Value, usize), Error>)
    requires
        pos <= data.len(),
    ensures
        agrees(r, decode_at(data@, pos as int)),
        r matches Ok((_, p)) ==> pos < p <= data.len(),
    decreases data.len() - pos, 1int,
{
    if pos >= data.len() {
        return Err(Error::UnexpectedEnd);
    }
    let b = data[pos];
    if b <= 43 {
        Ok((Value::I8(b as i8), pos + 1))
    } else if b == FLOAT64 {
        if data.len() - pos < 9 {
            Err(Error::UnexpectedEnd)
        } else {
            Ok((Value::F64(read_u64_at(data, pos + 1)), pos + 9))
        }
    } else if b <= 48 {
        Err(Error::UnknownType(b))
    } else if b <= 57 {
        decode_str_term_exec(data, pos)
    } else if b == COLON {
        Err(Error::UnexpectedStrlenTerminator)
    } else if b == LIST {
        match decode_list_term_exec(data, pos + 1) {
            Ok((items, p)) => {
                proof {
                    lemma_list_model(items);
                }
                Ok((Value::List(items), p))
            },
            Err(e) => Err(e),
        }
    } else if b == DICT {
        match decode_dict_term_exec(data, pos + 1) {
            Ok((pairs, p)) => {
                proof {
                    lemma_dict_model(pairs);
                }
                Ok((Value::Dict(pairs), p))
            },
            Err(e) => Err(e),
        }
    } else if b == INT {
        Err(Error::UnsupportedInt)
    } else if b == INT1 {
        if data.len() - pos < 2 {
            Err(Error::UnexpectedEnd)
        } else {
            Ok((Value::I8(#[verifier::truncate] (data[pos + 1] as i8)), pos + 2))
        }
    } else if b == INT2 {
        if data.len() - pos < 3 {
            Err(Error::UnexpectedEnd)
        } else {
            let u = ((data[pos + 1] as u16) << 8u16) | (data[pos + 2] as u16);
            Ok((Value::I16(#[verifier::truncate] (u as i16)), pos + 3))
        }
    } else if b == INT4 {
        if data.len() - pos < 5 {
            Err(Error::UnexpectedEnd)
        } else {
            Ok((Value::I32(#[verifier::truncate] (read_u32_at(data, pos + 1) as i32)), pos + 5))
        }
    } else if b == INT8 {
        if data.len() - pos < 9 {
            Err(Error::UnexpectedEnd)
        } else {
            Ok((Value::I64(#[verifier::truncate] (read_u64_at(data, pos + 1) as i64)), pos + 9))
        }
    } else if b == FLOAT32 {
        if data.len() - pos < 5 {
            Err(Error::UnexpectedEnd)
        } else {
            Ok((Value::F32(read_u32_at(data, pos + 1)), pos + 5))
        }
    } else if b == TRUE {
        Ok((Value::Bool(true), pos + 1))
    } else if b == FALSE {
        Ok((Value::Bool(false), pos + 1))
    } else if b == NONE {
        Ok((Value::Unit, pos + 1))
    } else if b <= 101 {
        Ok((Value::I8((69 - b as i16) as i8), pos + 1))
    } else if b <= 126 {
        match decode_dict_fixed_exec(data, pos + 1, (b - DICT_START) as usize) {
            Ok((pairs, p)) => {
                proof {
                    lemma_dict_model(pairs);
                }
                Ok((Value::Dict(pairs), p))
            },
            Err(e) => Err(e),
        }
    } else if b == TERM {
        Err(Error::UnexpectedTerminator)
    } else if b <= 191 {
        decode_str_fixed_exec(data, pos, (b - STR_START) as usize)
    } else {
        match decode_list_fixed_exec(data, pos + 1, (b - LIST_START) as usize) {
            Ok((items, p)) => {
                proof {
                    lemma_list_model(items);
                }
                Ok((Value::List(items), p))
            },
            Err(e) => Err(e),
        }
    }
}

fn read_u32_at(data: &[u8], p: usize) -> (u: u32)
    requires
        p + 4 <= data.len(),
    ensures
        u == super::spec::read_u32(data@, p as int),
{
    ((data[p] as u32) << 24u32) | ((data[p + 1] as u32) << 16u32) | ((data[p + 2] as u32) << 8u32)
        | (data[p + 3] as u32)
}

fn read_u64_at(data: &[u8], p: usize) -> (u: u64)
    requires
        p + 8 <= data.len(),
    ensures
        u == super::spec::read_u64(data@, p as int),
{
    ((data[p] as u64) << 56u64) | ((data[p + 1] as u64) << 48u64) | ((data[p + 2] as u64) << 40u64)
        | ((data[p + 3] as u64) << 32u64) | ((data[p + 4] as u64) << 24u64) | ((data[p + 5] as u64)
        << 16u64) | ((data[p + 6] as u64) << 8u64) | (data[p + 7] as u64)
}

pub open spec fn items_agree(
    acc: Seq<Value>,
    s: Result<(Seq<Model>, int), Error>,
) -> Result<(Seq<Model>, int), Error> {
    match s {
        Ok((ms, q)) => Ok((models(acc) + ms, q)),
        Err(e) => Err(e),
    }
}

pub open spec fn pairs_agree(
    acc: Seq<(Value, Value)>,
    s: Result<(Seq<(Model, Model)>, int), Error>,
) -> Result<(Seq<(Model, Model)>, int), Error> {
    match s {
        Ok((ps, q)) => Ok((pair_models(acc) + ps, q)),
        Err(e) => Err(e),
    }
}

fn decode_list_fixed_exec(data: &[u8], start: usize, n: usize) -> (r: Result<
    (Vec<Value>, usize),
    Error,
>)
    requires
        0 < start <= data.len(),
    ensures
        match r {
            Ok((items, p)) => decode_list_fixed(data@, start as int, n as nat) == Ok::<
                (Seq<Model>, int),
                Error,
            >((models(items@), p as int)) && start <= p <= data.len(),
            Err(e) => decode_list_fixed(data@, start as int, n as nat) == Err::<
                (Seq<Model>, int),
                Error,
            >(e),
        },
    decreases data.len() - start + 1, 0int,
{
    let mut acc: Vec<Value> = Vec::new();
    let mut p = start;
    let mut k = n;
    assert(models(acc@) + Seq::<Model>::empty() =~= Seq::<Model>::empty());
    while k > 0
        invariant
            0 < start <= p <= data.len(),
            decode_list_fixed(data@, start as int, n as nat) == items_agree(
                acc@,
                decode_list_fixed(data@, p as int, k as nat),
            ),
        decreases k,
    {
        let ghost acc0 = acc@;
        match decode_value(data, p) {
            Err(e) => {
                return Err(e);
            },
            Ok((v, p1)) => {
                let ghost m = v.model();
                acc.push(v);
                proof {
                    assert(models(acc@) =~= models(acc0).push(m));
                    match decode_list_fixed(data@, p1 as int, (k - 1) as nat) {
                        Ok((ms, q)) => {
                            assert(models(acc0) + (seq![m] + ms) =~= models(acc@) + ms);
                        },
                        Err(_) => {},
                    }
                }
                p = p1;
                k = k - 1;
            },
        }
    }
    assert(models(acc@) + Seq::<Model>::empty() =~= models(acc@));
    Ok((acc, p))
}

fn decode_list_term_exec(data: &[u8], start: usize) -> (r: Result<(Vec<Value>, usize), Error>)
    requires
        0 < start <= data.len(),
    ensures
        match r {
            Ok((items, p)) => decode_list_term(data@, start as int) == Ok::<
                (Seq<Model>, int),
                Error,
            >((models(items@), p as int)) && start <= p <= data.len(),
            Err(e) => decode_list_term(data@, start as int) == Err::<(Seq<Model>, int), Error>(e),
        },
    decreases data.len() - start + 1, 0int,
{
    let mut acc: Vec<Value> = Vec::new();
    let mut p = start;
    assert(models(acc@) + Seq::<Model>::empty() =~= Seq::<Model>::empty());
    loop
        invariant
            0 < start <= p <= data.len(),
            decode_list_term(data@, start as int) == items_agree(
                acc@,
                decode_list_term(data@, p as int),
            ),
        decreases data.len() - p,
    {
        if p >= data.len() {
            return Err(Error::UnexpectedEnd);
        }
        if data[p] == TERM {
            assert(models(acc@) + Seq::<Model>::empty() =~= models(acc@));
            return Ok((acc, p + 1));
        }
        let ghost acc0 = acc@;
        match decode_value(data, p) {
            Err(e) => {
                return Err(e);
            },
            Ok((v, p1)) => {
                let ghost m = v.model();
                acc.push(v);
                proof {
                    assert(models(acc@) =~= models(acc0).push(m));
                    match decode_list_term(data@, p1 as int) {
                        Ok((ms, q)) => {
                            assert(models(acc0) + (seq![m] + ms) =~= models(acc@) + ms);
                        },
                        Err(_) => {},
                    }
                }
                p = p1;
            },
        }
    }
}

fn decode_dict_fixed_exec(data: &[u8], start: usize, n: usize) -> (r: Result<
    (Vec<(Value, Value)>, usize),
    Error,
>)
    requires
        0 < start <= data.len(),
    ensures
        match r {
            Ok((pairs, p)) => decode_dict_fixed(data@, start as int, n as nat) == Ok::<
                (Seq<(Model, Model)>, int),
                Error,
            >((pair_models(pairs@), p as int)) && start <= p <= data.len(),
            Err(e) => decode_dict_fixed(data@, start as int, n as nat) == Err::<
                (Seq<(Model, Model)>, int),
                Error,
            >(e),
        },
    decreases data.len() - start + 1, 0int,
{
    let mut acc: Vec<(Value, Value)> = Vec::new();
    let mut p = start;
    let mut k = n;
    assert(pair_models(acc@) + Seq::<(Model, Model)>::empty() =~= Seq::<(Model, Model)>::empty());
    while k > 0
        invariant
            0 < start <= p <= data.len(),
            decode_dict_fixed(data@, start as int, n as nat) == pairs_agree(
                acc@,
                decode_dict_fixed(data@, p as int, k as nat),
            ),
        decreases k,
    {
        let ghost acc0 = acc@;
        let (key, p1) = match decode_value(data, p) {
            Err(e) => {
                return Err(e);
            },
            Ok(x) => x,
        };
        let (val, p2) = match decode_value(data, p1) {
            Err(e) => {
                return Err(e);
            },
            Ok(x) => x,
        };
        let ghost m = (key.model(), val.model());
        acc.push((key, val));
        proof {
            assert(pair_models(acc@) =~= pair_models(acc0).push(m));
            match decode_dict_fixed(data@, p2 as int, (k - 1) as nat) {
                Ok((ps, q)) => {
                    assert(pair_models(acc0) + (seq![m] + ps) =~= pair_models(acc@) + ps);
                },
                Err(_) => {},
            }
        }
        p = p2;
        k = k - 1;
    }
    assert(pair_models(acc@) + Seq::<(Model, Model)>::empty() =~= pair_models(acc@));
    Ok((acc, p))
}

fn decode_dict_term_exec(data: &[u8], start: usize) -> (r: Result<
    (Vec<(Value, Value)>, usize),
    Error,
>)
    requires
        0 < start <= data.len(),
    ensures
        match r {
            Ok((pairs, p)) => decode_dict_term(data@, start as int) == Ok::<
                (Seq<(Model, Model)>, int),
                Error,
            >((pair_models(pairs@), p as int)) && start <= p <= data.len(),
            Err(e) => decode_dict_term(data@, start as int) == Err::<
                (Seq<(Model, Model)>, int),
                Error,
            >(e),
        },
    decreases data.len() - start + 1, 0int,
{
    let mut acc: Vec<(Value, Value)> = Vec::new();
    let mut p = start;
    assert(pair_models(acc@) + Seq::<(Model, Model)>::empty() =~= Seq::<(Model, Model)>::empty());
    loop
        invariant
            0 < start <= p <= data.len(),
            decode_dict_term(data@, start as int) == pairs_agree(
                acc@,
                decode_dict_term(data@, p as int),
            ),
        decreases data.len() - p,
    {
        if p >= data.len() {
            return Err(Error::UnexpectedEnd);
        }
        if data[p] == TERM {
            assert(pair_models(acc@) + Seq::<(Model, Model)>::empty() =~= pair_models(acc@));
            return Ok((acc, p + 1));
        }
        let ghost acc0 = acc@;
        let (key, p1) = match decode_value(data, p) {
            Err(e) => {
                return Err(e);
            },
            Ok(x) => x,
        };
        let (val, p2) = match decode_value(data, p1) {
            Err(e) => {
                return Err(e);
            },
            Ok(x) => x,
        };
        let ghost m = (key.model(), val.model());
        acc.push((key, val));
        proof {
            assert(pair_models(acc@) =~= pair_models(acc0).push(m));
            match decode_dict_term(data@, p2 as int) {
                Ok((ps, q)) => {
                    assert(pair_models(acc0) + (seq![m] + ps) =~= pair_models(acc@) + ps);
                },
                Err(_) => {},
            }
        }
        p = p2;
    }
}

/// Reads a whole buffer as one rencode value; bytes left over are an error.
pub fn from_bytes(data: &[u8]) -> (r: Result<Value, Error>)
    ensures
        match r {
            Ok(v) => decode(data@) == Ok::<Model, Error>(v.model()),
            Err(e) => decode(data@) == Err::<Model, Error>(e),
        },
{
    let (v, p) = decode_value(data, 0)?;
    if p == data.len() {
        Ok(v)
    } else {
        Err(Error::TooManyBytes)
    }
}

} // verus!
