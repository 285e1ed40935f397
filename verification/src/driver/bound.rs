//! The ends of a range of values.

use vstd::prelude::*;

verus! {

/// One end of a range of values.
#[derive(Clone, Copy, Debug, PartialEq, Eq)]
pub enum Bound<T> {
    /// The range reaches the value.
    Included(T),
    /// The range stops short of the value.
    Excluded(T),
    /// The range reaches as far as the type does.
    Unbounded,
}

/// `bound` with its value as a `u128`.
pub open spec fn spec_widen_u8(bound: Bound<u8>) -> Bound<u128> {
    match bound {
        Bound::Included(value) => Bound::Included(value as u128),
        Bound::Excluded(value) => Bound::Excluded(value as u128),
        Bound::Unbounded => Bound::Unbounded,
    }
}

/// `bound` with its value as a `u128`.
pub fn widen_u8(bound: Bound<u8>) -> (wide: Bound<u128>)
    ensures
        wide == spec_widen_u8(bound),
{
    match bound {
        Bound::Included(value) => Bound::Included(value as u128),
        Bound::Excluded(value) => Bound::Excluded(value as u128),
        Bound::Unbounded => Bound::Unbounded,
    }
}

/// `value` as a `u128`, where there is one.
pub open spec fn spec_wide_u8(value: Option<u8>) -> Option<u128> {
    match value {
        Some(value) => Some(value as u128),
        None => None,
    }
}

/// `bound` with its value as a `u128`.
pub open spec fn spec_widen_u32(bound: Bound<u32>) -> Bound<u128> {
    match bound {
        Bound::Included(value) => Bound::Included(value as u128),
        Bound::Excluded(value) => Bound::Excluded(value as u128),
        Bound::Unbounded => Bound::Unbounded,
    }
}

/// `bound` with its value as a `u128`.
pub fn widen_u32(bound: Bound<u32>) -> (wide: Bound<u128>)
    ensures
        wide == spec_widen_u32(bound),
{
    match bound {
        Bound::Included(value) => Bound::Included(value as u128),
        Bound::Excluded(value) => Bound::Excluded(value as u128),
        Bound::Unbounded => Bound::Unbounded,
    }
}

/// `value` as a `u128`, where there is one.
pub open spec fn spec_wide_u32(value: Option<u32>) -> Option<u128> {
    match value {
        Some(value) => Some(value as u128),
        None => None,
    }
}

/// `bound` with its value as a `u128`.
pub open spec fn spec_widen_u64(bound: Bound<u64>) -> Bound<u128> {
    match bound {
        Bound::Included(value) => Bound::Included(value as u128),
        Bound::Excluded(value) => Bound::Excluded(value as u128),
        Bound::Unbounded => Bound::Unbounded,
    }
}

/// `bound` with its value as a `u128`.
pub fn widen_u64(bound: Bound<u64>) -> (wide: Bound<u128>)
    ensures
        wide == spec_widen_u64(bound),
{
    match bound {
        Bound::Included(value) => Bound::Included(value as u128),
        Bound::Excluded(value) => Bound::Excluded(value as u128),
        Bound::Unbounded => Bound::Unbounded,
    }
}

/// `value` as a `u128`, where there is one.
pub open spec fn spec_wide_u64(value: Option<u64>) -> Option<u128> {
    match value {
        Some(value) => Some(value as u128),
        None => None,
    }
}

} // verus!
