//! A continuous double-auction matching engine: orders rest in per-asset
//! books, the best buy is matched against the best sell, and every fill is
//! recorded as a transaction.

use std::cmp::Ordering;
use vstd::prelude::*;

pub mod book_registry;
pub mod dto;
pub mod entities;
pub mod order_book;
pub mod order_queue;
pub mod stamp;

verus! {

/// The bit pattern of positive infinity. Every pattern below it is a finite,
/// non-negative 32-bit binary floating-point number, and no other pattern
/// is.
pub const PRICE_BITS_END: u32 = 0x7F80_0000;

/// A price, held as the bit pattern of a finite, non-negative 32-bit binary
/// floating-point number.
///
/// Among such patterns the order of the integers is the order of the numbers
/// they encode, and two patterns are equal exactly when the numbers are, so
/// prices are compared as integers, exactly and totally.
#[derive(Debug, Clone, Copy, PartialEq, Eq, Structural, PartialOrd, Ord, Hash)]
pub struct ComparableFloat {
    bits: u32,
}

/// Whether `bits` encodes a price: a finite number that is not negative.
pub open spec fn is_price_bits(bits: u32) -> bool {
    bits < PRICE_BITS_END
}

/// How two keys compare.
pub open spec fn order_of(a: u32, b: u32) -> Ordering {
    if a < b {
        Ordering::Less
    } else if a > b {
        Ordering::Greater
    } else {
        Ordering::Equal
    }
}

impl ComparableFloat {
    #[verifier::type_invariant]
    spec fn well_formed(self) -> bool {
        is_price_bits(self.bits)
    }

    /// The bit pattern of this price.
    pub closed spec fn bits(self) -> u32 {
        self.bits
    }

    /// The price with the given bit pattern, if the pattern encodes one.
    pub fn from_bits(bits: u32) -> (price: Option<ComparableFloat>)
        ensures
            price is Some <==> is_price_bits(bits),
            price matches Some(p) ==> p.bits() == bits,
    {
        if bits < PRICE_BITS_END {
            Some(ComparableFloat { bits })
        } else {
            None
        }
    }

    /// The bit pattern of this price.
    pub fn to_bits(&self) -> (bits: u32)
        ensures
            bits == self.bits(),
            is_price_bits(bits),
    {
        proof {
            use_type_invariant(self);
        }
        self.bits
    }

    /// Compares two prices as numbers.
    pub fn cmp(&self, other: &ComparableFloat) -> (r: Ordering)
        ensures
            r == order_of(self.bits(), other.bits()),
    {
        if self.bits < other.bits {
            return Ordering::Less;
        }
        if self.bits > other.bits {
            return Ordering::Greater;
        }
        Ordering::Equal
    }
}

} // verus!
