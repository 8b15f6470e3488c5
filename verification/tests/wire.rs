use restate_sdk::types::{InvocationError, ResponseResult};
use restate_sdk::wire::{encode_fields, read_fields, read_varint, write_varint, Field, WireValue};

#[test]
fn varint_round_trip() {
    for v in [0u64, 1, 127, 128, 300, 16_384, u32::MAX as u64, u64::MAX] {
        let mut out = vec![];
        write_varint(&mut out, v);
        out.push(0xAA);
        assert_eq!(read_varint(&out, 0), Some((v, out.len() - 1)));
    }
    let mut out = vec![];
    write_varint(&mut out, 300);
    assert_eq!(out, vec![0xAC, 0x02]);
}

#[test]
fn fields_round_trip() {
    let fields = vec![
        Field { number: 1, value: WireValue::Varint(150) },
        Field { number: 2, value: WireValue::Bytes(b"testing".to_vec()) },
    ];
    let bytes = encode_fields(&fields);
    assert_eq!(bytes, vec![0x08, 0x96, 0x01, 0x12, 0x07, b't', b'e', b's', b't', b'i', b'n', b'g']);
    assert_eq!(read_fields(&bytes), Some(fields));
}

#[test]
fn truncated_field_is_not_read() {
    assert_eq!(read_fields(&[0x12, 0x07, b't']), None);
}

#[test]
fn response_result_round_trip() {
    let ok: Result<Vec<u8>, InvocationError> = Ok(b"v".to_vec());
    let r: ResponseResult = ok.clone().into();
    assert_eq!(r, ResponseResult::Success(b"v".to_vec()));
    let back: Result<Vec<u8>, InvocationError> = r.into();
    assert_eq!(back, ok);
    let err = InvocationError { code: 500, message: "x".to_string() };
    let r: ResponseResult = err.clone().into();
    assert_eq!(r, ResponseResult::Failure(err));
}
