//! The decoded form of an SML datagram, as far as the reading logic reads it.
use vstd::prelude::*;

verus! {

/// A protocol time value.
#[derive(Clone, Copy, Debug, PartialEq, Eq, Structural)]
pub enum Time {
    /// seconds counted by the meter, usually since it was installed
    SecIndex(u32),
}

/// The value carried by a list entry.
#[derive(Clone, Debug, PartialEq, Eq)]
pub enum RawValue {
    Bool(bool),
    Bytes(Vec<u8>),
    I8(i8),
    I16(i16),
    I32(i32),
    I64(i64),
    U8(u8),
    U16(u16),
    U32(u32),
    U64(u64),
    /// a list holding a time value
    TimeList(Time),
}

impl RawValue {
    /// The integer that the value carries, if it is one of the integer variants.
    pub open spec fn spec_integer(&self) -> Option<int> {
        match self {
            RawValue::I8(v) => Some(*v as int),
            RawValue::I16(v) => Some(*v as int),
            RawValue::I32(v) => Some(*v as int),
            RawValue::I64(v) => Some(*v as int),
            RawValue::U8(v) => Some(*v as int),
            RawValue::U16(v) => Some(*v as int),
            RawValue::U32(v) => Some(*v as int),
            RawValue::U64(v) => Some(*v as int),
            _ => None,
        }
    }

    /// The integer that the value carries, widened to `i128`; `None` for the
    /// variants that are not integers.
    pub fn integer(&self) -> (r: Option<i128>)
        ensures
            r matches Some(v) ==> self.spec_integer() == Some(v as int),
            r is None ==> self.spec_integer() is None,
    {
        match self {
            RawValue::I8(v) => Some(*v as i128),
            RawValue::I16(v) => Some(*v as i128),
            RawValue::I32(v) => Some(*v as i128),
            RawValue::I64(v) => Some(*v as i128),
            RawValue::U8(v) => Some(*v as i128),
            RawValue::U16(v) => Some(*v as i128),
            RawValue::U32(v) => Some(*v as i128),
            RawValue::U64(v) => Some(*v as i128),
            _ => None,
        }
    }
}

/// One entry of a value list: a measurement record.
#[derive(Clone, Debug, PartialEq, Eq)]
pub struct RawEntry {
    /// the object identifier, six bytes when well formed
    pub obj_name: Vec<u8>,
    pub value: RawValue,
    /// decimal exponent of the value
    pub scaler: Option<i8>,
    /// raw unit code
    pub unit: Option<u8>,
    pub val_time: Option<Time>,
}

/// A top-level message of a datagram.
#[derive(Clone, Debug, PartialEq, Eq)]
pub enum Message {
    OpenResponse,
    GetListResponse(Vec<RawEntry>),
    CloseResponse,
}

/// A decoded datagram: its messages, in order.
#[derive(Clone, Debug, PartialEq, Eq)]
pub struct Datagram {
    pub messages: Vec<Message>,
}

} // verus!
