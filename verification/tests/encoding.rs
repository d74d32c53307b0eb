use deluge_rpc::encoding::{compress, decode, decompress, encode, encode_checked, Error};
use deluge_rpc::frame::{body_len, frame, PROTOCOL_VERSION};
use deluge_rpc::rencode::writer::to_bytes;
use deluge_rpc::Value;

#[test]
fn compressed_bytes_decompress_to_themselves() {
    let raw: Vec<u8> = (0..1000u32).map(|i| (i % 7) as u8).collect();
    let c = compress(&raw).expect("compression works on this machine");
    assert_ne!(c, raw);
    let d = decompress(&c).expect("decompression works on this machine");
    assert_eq!(d, raw);
}

#[test]
fn encoded_values_decode_to_themselves() {
    let v = Value::List(vec![
        Value::I64(3),
        Value::Str("daemon.info".to_string()),
        Value::List(vec![]),
        Value::Dict(vec![]),
    ]);
    let body = encode(&v).unwrap();
    assert_eq!(decompress(&body).unwrap(), to_bytes(&v));
    assert_eq!(decode(&body).unwrap(), v);
}

#[test]
fn checked_bodies_read_back_as_the_value() {
    let v = Value::List(vec![Value::I8(1), Value::Str("core.get_config".to_string())]);
    let body = encode_checked(&v).unwrap();
    assert_ne!(body, to_bytes(&v));
    assert_eq!(decode(&body).unwrap(), v);
    assert_eq!(body, encode(&v).unwrap());
}

#[test]
fn decompressed_garbage_is_a_rencode_error() {
    let body = compress(&[5, 5]).unwrap();
    match decode(&body) {
        Err(Error::Rencode(e)) => assert_eq!(e, deluge_rpc::rencode::error::Error::TooManyBytes),
        other => panic!("unexpected {:?}", other),
    }
}

#[test]
fn frames_carry_version_and_length() {
    let f = frame(&[9, 8, 7]).unwrap();
    assert_eq!(f, vec![1, 0, 0, 0, 3, 9, 8, 7]);
    assert_eq!(body_len(&f[..5]), Ok(3));
    let big = vec![0u8; 70000];
    let f = frame(&big).unwrap();
    assert_eq!(&f[..5], &[PROTOCOL_VERSION, 0, 1, 0x11, 0x70]);
    assert_eq!(body_len(&f[..5]), Ok(70000));
}

#[test]
fn unknown_protocol_version_is_reported() {
    assert_eq!(body_len(&[2, 0, 0, 0, 1]), Err(2));
}
