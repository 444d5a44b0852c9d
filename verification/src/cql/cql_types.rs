//! Numbers of the sizes that CQL knows, made from script integers.
use vstd::prelude::*;

use crate::text::i64_text;

verus! {

/// A CQL `tinyint`.
#[derive(Debug, Clone, Copy, PartialEq, Eq, Structural)]
pub struct Int8(pub i8);

/// A CQL `smallint`.
#[derive(Debug, Clone, Copy, PartialEq, Eq, Structural)]
pub struct Int16(pub i16);

/// A CQL `int`.
#[derive(Debug, Clone, Copy, PartialEq, Eq, Structural)]
pub struct Int32(pub i32);

/// Converts a script integer to a `tinyint`, if it fits.
pub fn to_i8(value: i64) -> (r: Option<Int8>)
    ensures
        r is Some <==> i8::MIN <= value <= i8::MAX,
        r matches Some(i) ==> i.0 == value,
{
    if -0x80 <= value && value <= 0x7f {
        Some(Int8(value as i8))
    } else {
        None
    }
}

/// Converts a script integer to a `smallint`, if it fits.
pub fn to_i16(value: i64) -> (r: Option<Int16>)
    ensures
        r is Some <==> i16::MIN <= value <= i16::MAX,
        r matches Some(i) ==> i.0 == value,
{
    if -0x8000 <= value && value <= 0x7fff {
        Some(Int16(value as i16))
    } else {
        None
    }
}

/// Converts a script integer to an `int`, if it fits.
pub fn to_i32(value: i64) -> (r: Option<Int32>)
    ensures
        r is Some <==> i32::MIN <= value <= i32::MAX,
        r matches Some(i) ==> i.0 == value,
{
    if -0x8000_0000 <= value && value <= 0x7fff_ffff {
        Some(Int32(value as i32))
    } else {
        None
    }
}

/// Converts a script integer to a string.
pub fn to_string(value: i64) -> (r: String)
    ensures
        r@ == crate::text::int_text(value as int),
{
    i64_text(value)
}

/// Restricts a value to a certain interval.
pub fn clamp(value: i64, min: i64, max: i64) -> (r: i64)
    requires
        min <= max,
    ensures
        r == (if value < min {
            min
        } else if value > max {
            max
        } else {
            value
        }),
{
    if value < min {
        min
    } else if value > max {
        max
    } else {
        value
    }
}

/// A clamped value lies in the interval, and a value that does is its own.
pub proof fn clamp_stays_inside(value: int, min: int, max: int)
    requires
        min <= max,
    ensures
        ({
            let r = if value < min {
                min
            } else if value > max {
                max
            } else {
                value
            };
            min <= r <= max && (min <= value <= max ==> r == value)
        }),
{
}

} // verus!
