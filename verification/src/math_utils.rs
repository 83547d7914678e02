use vstd::prelude::*;

verus! {

/// The value an integer conversion produces: the value itself when it fits
/// in the target range `lo..=hi`, and zero otherwise.
pub open spec fn converted_or_zero(value: int, lo: int, hi: int) -> int {
    if lo <= value && value <= hi {
        value
    } else {
        0
    }
}

/// Converts a `u32` to an `i32`, falling back to zero when it does not fit.
pub fn i32_from(value: u32) -> (converted: i32)
    ensures
        converted == converted_or_zero(value as int, i32::MIN as int, i32::MAX as int),
{
    if value <= 2147483647u32 {
        value as i32
    } else {
        0
    }
}

/// Converts a `usize` to an `i32`, falling back to zero when it does not fit.
pub fn i32_from_usize(value: usize) -> (converted: i32)
    ensures
        converted == converted_or_zero(value as int, i32::MIN as int, i32::MAX as int),
{
    if value <= 2147483647usize {
        value as i32
    } else {
        0
    }
}

/// Converts an `i32` to a `usize`, falling back to zero for negative values.
pub fn usize_from_i32(value: i32) -> (converted: usize)
    ensures
        converted == converted_or_zero(value as int, 0, usize::MAX as int),
{
    if value >= 0 {
        value as usize
    } else {
        0
    }
}

/// Converts an `i32` to a `u32`, falling back to zero for negative values.
pub fn u32_from(value: i32) -> (converted: u32)
    ensures
        converted == converted_or_zero(value as int, 0, u32::MAX as int),
{
    if value >= 0 {
        value as u32
    } else {
        0
    }
}

} // verus!
