use vstd::prelude::*;

verus! {

/// A fixed-point decimal amount: `mantissa * 10^(-scale)`.
///
/// Monetary values are carried as this pair and never as binary floating point, so that
/// repeated upserts of the same value cannot drift.
#[derive(Clone, Copy, Debug, PartialEq, Eq, Structural)]
pub struct Amount {
    pub mantissa: i128,
    pub scale: u32,
}

impl Amount {
    /// The amount zero.
    pub fn zero() -> (r: Amount)
        ensures
            r.mantissa == 0,
            r.scale == 0,
    {
        Amount { mantissa: 0, scale: 0 }
    }

    /// The amount `mantissa * 10^(-scale)`.
    pub fn new(mantissa: i128, scale: u32) -> (r: Amount)
        ensures
            r.mantissa == mantissa,
            r.scale == scale,
    {
        Amount { mantissa, scale }
    }
}

/// The amount that an optional reported value stands for: zero when none was reported.
pub open spec fn amount_or_zero(a: Option<Amount>) -> Amount {
    match a {
        Some(v) => v,
        None => Amount { mantissa: 0, scale: 0 },
    }
}

/// Reads an optional reported amount, taking zero where none was reported.
pub fn unwrap_amount(a: Option<Amount>) -> (r: Amount)
    ensures
        r == amount_or_zero(a),
{
    match a {
        Some(v) => v,
        None => Amount::zero(),
    }
}

} // verus!
