use vm_boundary::value::{
    decode_value, encode_value, native_to_value, value_to_native, NativeValue, Value, ValueTag,
    WireValue,
};

fn round_trip(v: Value) {
    let wire = encode_value(&v);
    assert_eq!(decode_value(&wire), Some(v));
}

#[test]
fn i32_round_trips_exactly() {
    for x in [0i32, 1, -1, 42, i32::MIN, i32::MAX, -123456789] {
        round_trip(Value::I32(x));
    }
}

#[test]
fn i64_round_trips_exactly() {
    for x in [0i64, 1, -1, i64::MIN, i64::MAX, -9876543210] {
        round_trip(Value::I64(x));
    }
}

#[test]
fn f32_round_trips_exactly() {
    for f in [0.0f32, -0.0, 1.5, -3.25, f32::INFINITY, f32::NEG_INFINITY, f32::MIN, f32::MAX] {
        let v = Value::F32Bits(f.to_bits());
        let wire = encode_value(&v);
        let back = decode_value(&wire).unwrap();
        match back {
            Value::F32Bits(b) => assert_eq!(f32::from_bits(b).to_bits(), f.to_bits()),
            _ => panic!("wrong kind decoded"),
        }
    }
    // a NaN payload survives bit for bit
    round_trip(Value::F32Bits(f32::NAN.to_bits()));
}

#[test]
fn f64_round_trips_exactly() {
    for f in [0.0f64, -0.0, 2.5, -1.0e300, f64::INFINITY, f64::NEG_INFINITY] {
        round_trip(Value::F64Bits(f.to_bits()));
    }
    round_trip(Value::F64Bits(f64::NAN.to_bits()));
}

#[test]
fn wire_encoding_is_stable() {
    let w = encode_value(&Value::I32(-1));
    assert_eq!(w.tag, ValueTag::I32);
    assert_eq!(w.payload, 0xffff_ffff);
    let w = encode_value(&Value::I64(-2));
    assert_eq!(w.tag, ValueTag::I64);
    assert_eq!(w.payload, 0xffff_ffff_ffff_fffe);
    let w = encode_value(&Value::F32Bits(0x3f80_0000));
    assert_eq!(w.tag, ValueTag::F32);
    assert_eq!(w.payload, 0x3f80_0000);
}

#[test]
fn malformed_wire_is_rejected() {
    let w = WireValue { tag: ValueTag::I32, payload: 0x1_0000_0000 };
    assert_eq!(decode_value(&w), None);
    let w = WireValue { tag: ValueTag::F32, payload: u64::MAX };
    assert_eq!(decode_value(&w), None);
}

#[test]
fn native_conversion_round_trips() {
    for v in [
        Value::I32(-7),
        Value::I64(1 << 40),
        Value::F32Bits(1.25f32.to_bits()),
        Value::F64Bits((-0.5f64).to_bits()),
    ] {
        let n = value_to_native(&v);
        assert_eq!(native_to_value(&n), Some(v));
    }
}

#[test]
fn params_marshal_in_order() {
    let params = vec![Value::I32(-1), Value::I64(2), Value::F64Bits(3.5f64.to_bits())];
    let natives = vm_boundary::instance::marshal_params(&params);
    assert_eq!(
        natives,
        vec![NativeValue::I32(-1), NativeValue::I64(2), NativeValue::F64Bits(3.5f64.to_bits())]
    );
}

#[test]
fn vector_kind_is_not_marshalled() {
    assert_eq!(native_to_value(&NativeValue::V128(123456789012345678901234567890u128)), None);
}
