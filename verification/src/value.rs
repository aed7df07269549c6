//! The universal runtime datum: a tagged value with a payload of at most
//! 64 bits.
//!
//! A float payload is stored as its IEEE 754 bit pattern, so the tag and the
//! payload are both plain integers.  Slots come into being as `Uninit` and
//! only the constructors below can give them another tag.

use vstd::prelude::*;

verus! {

/// A tagged runtime value.
///
/// `F64` carries the bit pattern of an IEEE 754 double; the machine never
/// interprets those bits itself, it only moves them and hands them to the
/// host when float arithmetic is asked for.
#[derive(Clone, Copy, Debug, PartialEq, Eq, Structural)]
pub enum Data {
    Uninit,
    I64(i64),
    U64(u64),
    F64(u64),
    Bool(bool),
}

impl Data {
    /// A fresh, uninitialized slot.
    pub fn new_uninit() -> (r: Data)
        ensures
            r == Data::Uninit,
    {
        Data::Uninit
    }

    /// A signed 64-bit integer value.
    pub fn new_i64(val: i64) -> (r: Data)
        ensures
            r == Data::I64(val),
    {
        Data::I64(val)
    }

    /// An unsigned 64-bit integer value.
    pub fn new_u64(val: u64) -> (r: Data)
        ensures
            r == Data::U64(val),
    {
        Data::U64(val)
    }

    /// A double, given by its IEEE 754 bit pattern.
    pub fn new_f64(bits: u64) -> (r: Data)
        ensures
            r == Data::F64(bits),
    {
        Data::F64(bits)
    }

    /// A boolean value.
    pub fn new_bool(val: bool) -> (r: Data)
        ensures
            r == Data::Bool(val),
    {
        Data::Bool(val)
    }
}

/// The bit patterns of positive and negative IEEE 754 zero.  A float divisor
/// counts as zero exactly when its bits are one of these.
pub open spec fn f64_bits_are_zero(bits: u64) -> bool {
    bits == 0u64 || bits == 0x8000_0000_0000_0000u64
}

} // verus!
