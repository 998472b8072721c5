//! The sum of file sizes as the store hands it over, a decimal number, and the
//! usage that is reported for it.

use vstd::prelude::*;
use rust_decimal::Decimal;
use rust_decimal::prelude::ToPrimitive;

verus! {

/// The largest scale of a decimal number.
pub const MAX_SCALE: u32 = 28;

/// The largest mantissa of a decimal number: 96 bits, all set.
pub const MAX_MANTISSA: i128 = 0xFFFF_FFFF_FFFF_FFFF_FFFF_FFFF;

/// A decimal sum in plain values: it stands for `mantissa / 10^scale`.
#[derive(Debug, Clone, Copy, PartialEq, Eq)]
pub struct DecimalSum {
    pub mantissa: i128,
    pub scale: u32,
}

/// The power of ten.
pub open spec fn pow10(n: nat) -> nat
    decreases n,
{
    if n == 0 {
        1
    } else {
        10 * pow10((n - 1) as nat)
    }
}

impl DecimalSum {
    /// A decimal number can hold the sum.
    pub open spec fn wf(&self) -> bool {
        self.scale <= MAX_SCALE && -MAX_MANTISSA <= self.mantissa <= MAX_MANTISSA
    }

    /// The sum as an unsigned 64-bit integer: its integer part, where the sum
    /// is not negative and the integer part fits.
    pub open spec fn to_u64(&self) -> Option<u64> {
        if self.mantissa < 0 {
            None
        } else if (self.mantissa as int) / (pow10(self.scale as nat) as int) <= u64::MAX {
            Some(((self.mantissa as int) / (pow10(self.scale as nat) as int)) as u64)
        } else {
            None
        }
    }

    /// The usage that is reported for the sum: its integer part, or 0 where
    /// that is negative or does not fit.
    pub open spec fn usage(&self) -> u64 {
        match self.to_u64() {
            Some(n) => n,
            None => 0,
        }
    }

    /// Whether a decimal number can hold the sum.
    pub fn is_wf(&self) -> (ok: bool)
        ensures
            ok == self.wf(),
    {
        self.scale <= MAX_SCALE && -MAX_MANTISSA <= self.mantissa && self.mantissa <= MAX_MANTISSA
    }
}

/// Calls `Decimal::from_i128_with_scale` and, on the number it gives,
/// `ToPrimitive::to_u64`. Claimed of them: a negative number has no unsigned
/// value; any other has its integer part, the mantissa divided by ten to the
/// scale and truncated, where that is below 2^64, and none otherwise.
#[verifier::external_body]
fn decimal_to_u64(sum: DecimalSum) -> (value: Option<u64>)
    requires
        sum.wf(),
    ensures
        value == sum.to_u64(),
{
    Decimal::from_i128_with_scale(sum.mantissa, sum.scale).to_u64()
}

/// The usage to report for the sum that the store computed over the rows of
/// a workspace: 0 without rows, and 0 where the sum is negative or too large.
pub fn usage_from_sum(sum: Option<DecimalSum>) -> (usage: u64)
    requires
        sum matches Some(s) ==> s.wf(),
    ensures
        usage == match sum {
            Some(s) => s.usage(),
            None => 0,
        },
{
    match sum {
        Some(s) => match decimal_to_u64(s) {
            Some(n) => n,
            None => 0,
        },
        None => 0,
    }
}

} // verus!
