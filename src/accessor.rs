//! A value conveyed by a type: `T::get()` hands back the same value on every
//! call, with no state and no side effect.
use vstd::prelude::*;

verus! {

/// A type that conveys one value of type `T`.
pub trait Get<T> {
    /// The value that the type conveys.
    spec fn conveyed() -> T;

    /// Returns the conveyed value; every call returns the same one.
    fn get() -> (r: T)
        ensures
            r == Self::conveyed(),
    ;
}

/// A marker written out by hand: it conveys the `u32` seven.
pub struct Seven;

impl Get<u32> for Seven {
    open spec fn conveyed() -> u32 {
        7
    }

    fn get() -> (r: u32) {
        7
    }
}

/// A zero-sized marker that conveys the `u8` literal `V`.
pub struct ConstU8<const V: u8>;

impl<const V: u8> Get<u8> for ConstU8<V> {
    open spec fn conveyed() -> u8 {
        V
    }

    fn get() -> (r: u8) {
        V
    }
}

/// A zero-sized marker that conveys the `u16` literal `V`.
pub struct ConstU16<const V: u16>;

impl<const V: u16> Get<u16> for ConstU16<V> {
    open spec fn conveyed() -> u16 {
        V
    }

    fn get() -> (r: u16) {
        V
    }
}

/// A zero-sized marker that conveys the `u32` literal `V`.
pub struct ConstU32<const V: u32>;

impl<const V: u32> Get<u32> for ConstU32<V> {
    open spec fn conveyed() -> u32 {
        V
    }

    fn get() -> (r: u32) {
        V
    }
}

/// A zero-sized marker that conveys the `u64` literal `V`.
pub struct ConstU64<const V: u64>;

impl<const V: u64> Get<u64> for ConstU64<V> {
    open spec fn conveyed() -> u64 {
        V
    }

    fn get() -> (r: u64) {
        V
    }
}

} // verus!
