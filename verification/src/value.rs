//! The value codec: conversion between the host's tagged numeric values,
//! the engine's native value representation, and the fixed-width wire
//! representation that crosses the boundary.
//!
//! Floating-point payloads are carried as their raw bit patterns, so the
//! codec itself is pure integer logic and a round trip is exact by
//! construction.
use vstd::prelude::*;

verus! {

/// Kind tag of a boundary value. Its encoding is part of the boundary
/// contract and must stay stable.
#[derive(Clone, Copy, PartialEq, Eq, Structural, Debug)]
pub enum ValueTag {
    I32,
    I64,
    F32,
    F64,
}

/// A host-native tagged value: a fixed-size tagged union over the four
/// numeric kinds. Floating-point payloads are held as raw bit patterns.
#[derive(Clone, Copy, PartialEq, Eq, Structural, Debug)]
pub enum Value {
    I32(i32),
    I64(i64),
    F32Bits(u32),
    F64Bits(u64),
}

/// The engine's native value representation. It has one kind more than the
/// boundary's tagged value: a 128-bit vector, which the boundary cannot
/// marshal and must report as an error rather than abort on.
#[derive(Clone, Copy, PartialEq, Eq, Structural, Debug)]
pub enum NativeValue {
    I32(i32),
    I64(i64),
    F32Bits(u32),
    F64Bits(u64),
    V128(u128),
}

/// The wire representation of a value: a kind tag and a fixed 64-bit
/// payload holding the value's bit pattern.
#[derive(Clone, Copy, PartialEq, Eq, Structural, Debug)]
pub struct WireValue {
    pub tag: ValueTag,
    pub payload: u64,
}

/// Two's-complement bit pattern of a 32-bit integer, widened to 64 bits.
pub open spec fn i32_bits(x: i32) -> u64 {
    if x >= 0 {
        x as u64
    } else {
        (x as int + 0x1_0000_0000) as u64
    }
}

/// The 32-bit integer whose two's-complement bit pattern is `b`.
pub open spec fn bits_i32(b: u64) -> i32
    recommends
        b < 0x1_0000_0000,
{
    if b < 0x8000_0000 {
        b as i32
    } else {
        (b as int - 0x1_0000_0000) as i32
    }
}

/// Two's-complement bit pattern of a 64-bit integer.
pub open spec fn i64_bits(x: i64) -> u64 {
    if x >= 0 {
        x as u64
    } else {
        (x as int + 0x1_0000_0000_0000_0000) as u64
    }
}

/// The 64-bit integer whose two's-complement bit pattern is `b`.
pub open spec fn bits_i64(b: u64) -> i64 {
    if b < 0x8000_0000_0000_0000 {
        b as i64
    } else {
        (b as int - 0x1_0000_0000_0000_0000) as i64
    }
}

/// Well-formedness of a wire value: 32-bit kinds use only the low 32 bits
/// of the payload.
pub open spec fn wire_wf(w: WireValue) -> bool {
    match w.tag {
        ValueTag::I32 => w.payload < 0x1_0000_0000,
        ValueTag::F32 => w.payload < 0x1_0000_0000,
        ValueTag::I64 => true,
        ValueTag::F64 => true,
    }
}

/// The wire representation of a tagged value.
pub open spec fn spec_encode(v: Value) -> WireValue {
    match v {
        Value::I32(x) => WireValue { tag: ValueTag::I32, payload: i32_bits(x) },
        Value::I64(x) => WireValue { tag: ValueTag::I64, payload: i64_bits(x) },
        Value::F32Bits(b) => WireValue { tag: ValueTag::F32, payload: b as u64 },
        Value::F64Bits(b) => WireValue { tag: ValueTag::F64, payload: b },
    }
}

/// The tagged value a wire value stands for, if it is well formed.
pub open spec fn spec_decode(w: WireValue) -> Option<Value> {
    match w.tag {
        ValueTag::I32 => if w.payload < 0x1_0000_0000 {
            Some(Value::I32(bits_i32(w.payload)))
        } else {
            None
        },
        ValueTag::I64 => Some(Value::I64(bits_i64(w.payload))),
        ValueTag::F32 => if w.payload < 0x1_0000_0000 {
            Some(Value::F32Bits(w.payload as u32))
        } else {
            None
        },
        ValueTag::F64 => Some(Value::F64Bits(w.payload)),
    }
}

/// Encodes a tagged value into its wire representation.
pub fn encode_value(v: &Value) -> (w: WireValue)
    ensures
        w == spec_encode(*v),
        wire_wf(w),
{
    match *v {
        Value::I32(x) => {
            let payload: u64 = if x >= 0 {
                x as u64
            } else {
                ((x as i64) + 0x1_0000_0000i64) as u64
            };
            WireValue { tag: ValueTag::I32, payload }
        },
        Value::I64(x) => {
            let payload: u64 = if x >= 0 {
                x as u64
            } else {
                ((x as i128) + 0x1_0000_0000_0000_0000i128) as u64
            };
            WireValue { tag: ValueTag::I64, payload }
        },
        Value::F32Bits(b) => WireValue { tag: ValueTag::F32, payload: b as u64 },
        Value::F64Bits(b) => WireValue { tag: ValueTag::F64, payload: b },
    }
}

/// Decodes a wire value back into a tagged value; `None` when the wire
/// value is malformed (a 32-bit kind with high payload bits set).
pub fn decode_value(w: &WireValue) -> (r: Option<Value>)
    ensures
        r == spec_decode(*w),
{
    match w.tag {
        ValueTag::I32 => {
            if w.payload < 0x1_0000_0000 {
                let x: i32 = if w.payload < 0x8000_0000 {
                    w.payload as i32
                } else {
                    ((w.payload as i64) - 0x1_0000_0000i64) as i32
                };
                Some(Value::I32(x))
            } else {
                None
            }
        },
        ValueTag::I64 => {
            let x: i64 = if w.payload < 0x8000_0000_0000_0000 {
                w.payload as i64
            } else {
                ((w.payload as i128) - 0x1_0000_0000_0000_0000i128) as i64
            };
            Some(Value::I64(x))
        },
        ValueTag::F32 => {
            if w.payload < 0x1_0000_0000 {
                Some(Value::F32Bits(w.payload as u32))
            } else {
                None
            }
        },
        ValueTag::F64 => Some(Value::F64Bits(w.payload)),
    }
}

/// Every tagged value survives the trip onto the wire and back unchanged.
pub proof fn lemma_value_round_trip(v: Value)
    ensures
        spec_decode(spec_encode(v)) == Some(v),
{
}

/// Every well-formed wire value decodes, and encoding the decoded value
/// reproduces the wire value bit for bit.
pub proof fn lemma_wire_round_trip(w: WireValue)
    requires
        wire_wf(w),
    ensures
        spec_decode(w) is Some,
        spec_encode(spec_decode(w)->Some_0) == w,
{
}

/// The engine-native counterpart of a tagged value.
pub open spec fn spec_to_native(v: Value) -> NativeValue {
    match v {
        Value::I32(x) => NativeValue::I32(x),
        Value::I64(x) => NativeValue::I64(x),
        Value::F32Bits(b) => NativeValue::F32Bits(b),
        Value::F64Bits(b) => NativeValue::F64Bits(b),
    }
}

/// The tagged value a native value marshals to; `None` for the 128-bit
/// vector kind, which the boundary does not support.
pub open spec fn spec_from_native(n: NativeValue) -> Option<Value> {
    match n {
        NativeValue::I32(x) => Some(Value::I32(x)),
        NativeValue::I64(x) => Some(Value::I64(x)),
        NativeValue::F32Bits(b) => Some(Value::F32Bits(b)),
        NativeValue::F64Bits(b) => Some(Value::F64Bits(b)),
        NativeValue::V128(_) => None,
    }
}

/// Converts a tagged argument value into the engine's representation.
pub fn value_to_native(v: &Value) -> (n: NativeValue)
    ensures
        n == spec_to_native(*v),
{
    match *v {
        Value::I32(x) => NativeValue::I32(x),
        Value::I64(x) => NativeValue::I64(x),
        Value::F32Bits(b) => NativeValue::F32Bits(b),
        Value::F64Bits(b) => NativeValue::F64Bits(b),
    }
}

/// Converts an engine result value back into a tagged value; `None` for
/// the unsupported 128-bit vector kind.
pub fn native_to_value(n: &NativeValue) -> (r: Option<Value>)
    ensures
        r == spec_from_native(*n),
{
    match *n {
        NativeValue::I32(x) => Some(Value::I32(x)),
        NativeValue::I64(x) => Some(Value::I64(x)),
        NativeValue::F32Bits(b) => Some(Value::F32Bits(b)),
        NativeValue::F64Bits(b) => Some(Value::F64Bits(b)),
        NativeValue::V128(_) => None,
    }
}

/// Every tagged value survives the trip into the engine's representation
/// and back unchanged.
pub proof fn lemma_native_round_trip(v: Value)
    ensures
        spec_from_native(spec_to_native(v)) == Some(v),
{
}

} // verus!
