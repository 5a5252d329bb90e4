//! The fixed 128-bit type ids of the base scalar types, as integer values of
//! their 16 big-endian bytes.
use vstd::prelude::*;

verus! {

pub const STD_UUID: u128 = 0x100;

pub const STD_STR: u128 = 0x101;

pub const STD_BYTES: u128 = 0x102;

pub const STD_INT16: u128 = 0x103;

pub const STD_INT32: u128 = 0x104;

pub const STD_INT64: u128 = 0x105;

pub const STD_FLOAT32: u128 = 0x106;

pub const STD_FLOAT64: u128 = 0x107;

pub const STD_DECIMAL: u128 = 0x108;

pub const STD_BOOL: u128 = 0x109;

pub const STD_DATETIME: u128 = 0x10a;

pub const CAL_LOCAL_DATETIME: u128 = 0x10b;

pub const CAL_LOCAL_DATE: u128 = 0x10c;

pub const CAL_LOCAL_TIME: u128 = 0x10d;

pub const STD_DURATION: u128 = 0x10e;

pub const STD_JSON: u128 = 0x10f;

pub const STD_BIGINT: u128 = 0x110;

} // verus!
