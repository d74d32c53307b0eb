use deluge_rpc::rencode::error::Error;
use deluge_rpc::rencode::reader::from_bytes;
use deluge_rpc::rencode::writer::{to_bytes, Encoder};
use deluge_rpc::Value;

fn enc(f: impl FnOnce(&mut Encoder)) -> Vec<u8> {
    let mut e = Encoder::new();
    f(&mut e);
    e.into_bytes()
}

#[test]
fn small_positive_ints_are_one_byte() {
    assert_eq!(enc(|e| e.serialize_i8(0)), vec![0]);
    assert_eq!(enc(|e| e.serialize_i8(5)), vec![5]);
    assert_eq!(enc(|e| e.serialize_i8(43)), vec![43]);
}

#[test]
fn small_negative_ints_are_one_byte() {
    assert_eq!(enc(|e| e.serialize_i8(-1)), vec![70]);
    assert_eq!(enc(|e| e.serialize_i8(-32)), vec![101]);
}

#[test]
fn other_i8_use_int1() {
    assert_eq!(enc(|e| e.serialize_i8(44)), vec![62, 44]);
    assert_eq!(enc(|e| e.serialize_i8(-33)), vec![62, 0xdf]);
    assert_eq!(enc(|e| e.serialize_i8(127)), vec![62, 127]);
    assert_eq!(enc(|e| e.serialize_i8(-128)), vec![62, 0x80]);
}

#[test]
fn wider_ints_are_big_endian() {
    assert_eq!(enc(|e| e.serialize_i16(0x1234)), vec![63, 0x12, 0x34]);
    assert_eq!(enc(|e| e.serialize_i16(-2)), vec![63, 0xff, 0xfe]);
    assert_eq!(enc(|e| e.serialize_i32(0x01020304)), vec![64, 1, 2, 3, 4]);
    assert_eq!(
        enc(|e| e.serialize_i64(-1)),
        vec![65, 0xff, 0xff, 0xff, 0xff, 0xff, 0xff, 0xff, 0xff]
    );
}

#[test]
fn unsigned_ints_are_written_as_i64() {
    let mut e = Encoder::new();
    assert_eq!(e.serialize_u64(7), Ok(()));
    assert_eq!(e.into_bytes(), vec![65, 0, 0, 0, 0, 0, 0, 0, 7]);
}

#[test]
fn unsigned_ints_above_i64_max_are_refused() {
    let mut e = Encoder::new();
    assert_eq!(e.serialize_u64(u64::MAX), Err(Error::UnsignedTooLarge));
    assert_eq!(e.into_bytes(), Vec::<u8>::new());
    assert_eq!(Error::UnsignedTooLarge.message(), "unsigned integers are unsupported");
}

#[test]
fn unit_bool_and_floats() {
    assert_eq!(enc(|e| e.serialize_unit()), vec![69]);
    assert_eq!(enc(|e| e.serialize_none()), vec![69]);
    assert_eq!(enc(|e| e.serialize_bool(true)), vec![67]);
    assert_eq!(enc(|e| e.serialize_bool(false)), vec![68]);
    assert_eq!(enc(|e| e.serialize_f32_bits(1.5f32.to_bits())), vec![66, 0x3f, 0xc0, 0, 0]);
    assert_eq!(
        enc(|e| e.serialize_f64_bits(1.5f64.to_bits())),
        vec![44, 0x3f, 0xf8, 0, 0, 0, 0, 0, 0]
    );
}

#[test]
fn short_strings_carry_their_length_in_the_type_byte() {
    assert_eq!(enc(|e| e.serialize_str("abc")), vec![131, b'a', b'b', b'c']);
    assert_eq!(enc(|e| e.serialize_str("")), vec![128]);
    let s = "x".repeat(63);
    let out = enc(|e| e.serialize_str(&s));
    assert_eq!(out[0], 191);
    assert_eq!(out.len(), 64);
}

#[test]
fn long_strings_carry_a_decimal_length() {
    let s = "y".repeat(64);
    let out = enc(|e| e.serialize_str(&s));
    assert_eq!(&out[..3], b"64:");
    assert_eq!(&out[3..], s.as_bytes());
    let s = "z".repeat(1234);
    let out = enc(|e| e.serialize_bytes(s.as_bytes()));
    assert_eq!(&out[..5], b"1234:");
}

#[test]
fn lists_and_dicts_fixed_and_terminated() {
    let mut e = Encoder::new();
    e.serialize_tuple(2);
    e.serialize_i8(1);
    e.serialize_i8(2);
    e.end_seq();
    assert_eq!(e.into_bytes(), vec![194, 1, 2]);

    let mut e = Encoder::new();
    e.serialize_seq(Some(64)).unwrap();
    for _ in 0..64 {
        e.serialize_unit();
    }
    assert_eq!(e.open_count(), 1);
    e.end_seq();
    assert_eq!(e.open_count(), 0);
    let out = e.into_bytes();
    assert_eq!(out[0], 59);
    assert_eq!(*out.last().unwrap(), 127);
    assert_eq!(out.len(), 66);

    let mut e = Encoder::new();
    e.serialize_map(Some(1)).unwrap();
    e.serialize_str("a");
    e.serialize_bool(true);
    e.end_map();
    assert_eq!(e.into_bytes(), vec![103, 129, b'a', 67]);

    let mut e = Encoder::new();
    e.serialize_struct(25);
    e.end_map();
    assert_eq!(e.into_bytes(), vec![60, 127]);
}

#[test]
fn unknown_lengths_are_refused() {
    let mut e = Encoder::new();
    assert_eq!(e.serialize_seq(None), Err(Error::SeqLengthUnknown));
    assert_eq!(e.serialize_map(None), Err(Error::MapLengthUnknown));
    assert_eq!(e.open_count(), 0);
    assert_eq!(Error::SeqLengthUnknown.message(), "try .collect()");
    assert_eq!(Error::MapLengthUnknown.message(), "need to know map size ahead of time");
}

#[test]
fn decode_scalars() {
    assert_eq!(from_bytes(&[5]), Ok(Value::I8(5)));
    assert_eq!(from_bytes(&[70]), Ok(Value::I8(-1)));
    assert_eq!(from_bytes(&[101]), Ok(Value::I8(-32)));
    assert_eq!(from_bytes(&[62, 0xdf]), Ok(Value::I8(-33)));
    assert_eq!(from_bytes(&[63, 0xff, 0xfe]), Ok(Value::I16(-2)));
    assert_eq!(from_bytes(&[64, 1, 2, 3, 4]), Ok(Value::I32(0x01020304)));
    assert_eq!(from_bytes(&[65, 0, 0, 0, 0, 0, 0, 1, 0]), Ok(Value::I64(256)));
    assert_eq!(from_bytes(&[66, 0x3f, 0xc0, 0, 0]), Ok(Value::F32(1.5f32.to_bits())));
    assert_eq!(
        from_bytes(&[44, 0x3f, 0xf8, 0, 0, 0, 0, 0, 0]),
        Ok(Value::F64(1.5f64.to_bits()))
    );
    assert_eq!(from_bytes(&[67]), Ok(Value::Bool(true)));
    assert_eq!(from_bytes(&[68]), Ok(Value::Bool(false)));
    assert_eq!(from_bytes(&[69]), Ok(Value::Unit));
}

#[test]
fn decode_strings() {
    assert_eq!(from_bytes(&[130, b'h', b'i']), Ok(Value::Str("hi".to_string())));
    let mut long = b"65:".to_vec();
    long.extend(std::iter::repeat(b'q').take(65));
    assert_eq!(from_bytes(&long), Ok(Value::Str("q".repeat(65))));
}

#[test]
fn decode_long_non_utf8_string_gives_placeholder() {
    let mut long = b"2:".to_vec();
    long.extend([0xff, 0xfe]);
    assert_eq!(from_bytes(&long), Ok(Value::Str("some non-utf8 nonsense".to_string())));
}

#[test]
fn decode_short_non_utf8_string_is_refused() {
    assert_eq!(from_bytes(&[129, 0xff]), Err(Error::InvalidUtf8));
}

#[test]
fn decode_lists_and_dicts() {
    assert_eq!(
        from_bytes(&[194, 1, 70]),
        Ok(Value::List(vec![Value::I8(1), Value::I8(-1)]))
    );
    assert_eq!(from_bytes(&[59, 1, 2, 127]), Ok(Value::List(vec![Value::I8(1), Value::I8(2)])));
    assert_eq!(
        from_bytes(&[103, 129, b'k', 67]),
        Ok(Value::Dict(vec![(Value::Str("k".to_string()), Value::Bool(true))]))
    );
    assert_eq!(
        from_bytes(&[60, 1, 2, 127]),
        Ok(Value::Dict(vec![(Value::I8(1), Value::I8(2))]))
    );
    assert_eq!(from_bytes(&[192]), Ok(Value::List(vec![])));
    assert_eq!(from_bytes(&[102]), Ok(Value::Dict(vec![])));
}

#[test]
fn decode_errors() {
    assert_eq!(from_bytes(&[]), Err(Error::UnexpectedEnd));
    assert_eq!(from_bytes(&[58]), Err(Error::UnexpectedStrlenTerminator));
    assert_eq!(from_bytes(&[127]), Err(Error::UnexpectedTerminator));
    assert_eq!(from_bytes(&[45]), Err(Error::UnknownType(45)));
    assert_eq!(from_bytes(&[48, 58]), Err(Error::UnknownType(48)));
    assert_eq!(from_bytes(&[61]), Err(Error::UnsupportedInt));
    assert_eq!(from_bytes(&[5, 5]), Err(Error::TooManyBytes));
    assert_eq!(from_bytes(&[63, 1]), Err(Error::UnexpectedEnd));
    assert_eq!(from_bytes(&[196, 1]), Err(Error::UnexpectedEnd));
    assert_eq!(from_bytes(&[59, 1]), Err(Error::UnexpectedEnd));
    assert_eq!(from_bytes(&[131, b'a']), Err(Error::UnexpectedEnd));
    assert_eq!(from_bytes(b"12"), Err(Error::UnexpectedEnd));
    assert_eq!(from_bytes(b"1x:"), Err(Error::InvalidLength));
    assert_eq!(from_bytes(b"99999999999999999999999:"), Err(Error::InvalidLength));
    assert_eq!(from_bytes(b"5:ab"), Err(Error::UnexpectedEnd));
    assert_eq!(Error::TooManyBytes.message(), "too many bytes");
    assert_eq!(Error::UnexpectedStrlenTerminator.message(), "unexpected strlen terminator");
    assert_eq!(Error::UnexpectedTerminator.message(), "unexpected list/dict terminator");
    assert_eq!(
        Error::UnknownType(46).message(),
        "I don't know what values 45-48 are supposed to mean"
    );
    assert_eq!(Error::Custom("boom".to_string()).message(), "boom");
}

fn sample() -> Value {
    let mut items = Vec::new();
    for i in 0..70 {
        items.push(Value::I64(i * 1000));
    }
    let mut pairs = Vec::new();
    for i in 0..30 {
        pairs.push((Value::Str(format!("key{}", i)), Value::I16(i as i16 - 15)));
    }
    Value::List(vec![
        Value::Unit,
        Value::Bool(true),
        Value::I8(-100),
        Value::I32(-5),
        Value::F64(2.25f64.to_bits()),
        Value::Str("ünïcödé".to_string()),
        Value::Str("w".repeat(200)),
        Value::List(items),
        Value::Dict(pairs),
        Value::Dict(vec![(Value::I8(3), Value::List(vec![]))]),
    ])
}

#[test]
fn decoding_an_encoding_gives_the_value_back() {
    let v = sample();
    let bytes = to_bytes(&v);
    assert_eq!(from_bytes(&bytes), Ok(v));
}

#[test]
fn deep_clone_is_equal() {
    let v = sample();
    assert_eq!(v.deep_clone(), v);
}

#[test]
fn serialize_value_matches_token_writes() {
    let v = Value::List(vec![Value::I64(7), Value::Str("core.info".to_string())]);
    let mut e = Encoder::new();
    e.serialize_tuple(2);
    e.serialize_i64(7);
    e.serialize_str("core.info");
    e.end_seq();
    assert_eq!(to_bytes(&v), e.into_bytes());
}

#[test]
fn different_values_have_different_encodings() {
    assert_ne!(to_bytes(&Value::I8(1)), to_bytes(&Value::I16(1)));
    assert_ne!(to_bytes(&Value::Str("1".to_string())), to_bytes(&Value::I8(1)));
    assert_ne!(
        to_bytes(&Value::List(vec![])),
        to_bytes(&Value::Dict(vec![]))
    );
}
