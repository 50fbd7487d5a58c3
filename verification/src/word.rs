//! Arithmetic on machine words.
//!
//! A word is a 64-bit unsigned integer. Addition, subtraction and
//! multiplication wrap around; the functions here say what that means over
//! the mathematical integers.

use vstd::prelude::*;
use crate::isa::Fault;

verus! {

/// Number of bits in a machine word.
pub const WORD_BITS: u64 = 64;

/// Number of distinct word values.
pub open spec fn word_modulus() -> int {
    0x1_0000_0000_0000_0000
}

/// The word that an integer denotes under wraparound: its remainder modulo
/// the number of word values.
pub open spec fn wrap(x: int) -> u64 {
    (x % word_modulus()) as u64
}

/// The low eight bits of a word.
pub open spec fn low_byte(w: u64) -> u8 {
    (w % 256) as u8
}

/// One word divided by another, rounded down. Division by zero is an
/// arithmetic fault.
pub open spec fn quotient(x: u64, y: u64) -> Result<u64, Fault> {
    if y == 0 {
        Err(Fault::ArithmeticFault)
    } else {
        Ok(x / y)
    }
}

/// A word shifted left, without the bits that leave the word. A shift by the
/// word width or more is an arithmetic fault.
pub open spec fn shift_left(x: u64, amount: u64) -> Result<u64, Fault> {
    if amount >= WORD_BITS {
        Err(Fault::ArithmeticFault)
    } else {
        Ok(x << amount)
    }
}

/// A word shifted right, filled with zeros. A shift by the word width or more
/// is an arithmetic fault.
pub open spec fn shift_right(x: u64, amount: u64) -> Result<u64, Fault> {
    if amount >= WORD_BITS {
        Err(Fault::ArithmeticFault)
    } else {
        Ok(x >> amount)
    }
}

/// Computes [`quotient`].
pub fn divide(x: u64, y: u64) -> (r: Result<u64, Fault>)
    ensures
        r == quotient(x, y),
{
    if y == 0 {
        Err(Fault::ArithmeticFault)
    } else {
        Ok(x / y)
    }
}

/// Computes [`shift_left`].
pub fn shl(x: u64, amount: u64) -> (r: Result<u64, Fault>)
    ensures
        r == shift_left(x, amount),
{
    if amount >= WORD_BITS {
        Err(Fault::ArithmeticFault)
    } else {
        Ok(x << amount)
    }
}

/// Computes [`shift_right`].
pub fn shr(x: u64, amount: u64) -> (r: Result<u64, Fault>)
    ensures
        r == shift_right(x, amount),
{
    if amount >= WORD_BITS {
        Err(Fault::ArithmeticFault)
    } else {
        Ok(x >> amount)
    }
}

/// Stepping back by one and then forward by one, both with wraparound, lands
/// on the word one started from.
pub proof fn lemma_wrap_back_and_forth(w: u64)
    ensures
        wrap(wrap(w - 1) + 1) == w,
{
}

} // verus!
