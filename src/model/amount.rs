use rust_decimal::Decimal;
use vstd::prelude::*;

verus! {

/// Largest magnitude a decimal mantissa may take: 96 bits.
pub const MAX_MANTISSA: i128 = 0xFFFF_FFFF_FFFF_FFFF_FFFF_FFFF;

/// Fractional digits an accepted amount may carry; balances count units of this scale.
pub const MAX_SCALE: u32 = 4;

/// Largest scale a decimal may take.
pub const DECIMAL_MAX_SCALE: u32 = 28;

pub open spec fn pow10(n: nat) -> int
    decreases n,
{
    if n == 0 {
        1
    } else {
        10 * pow10((n - 1) as nat)
    }
}

/// `m * 10^-s` with its trailing fractional zeros dropped, as (mantissa, scale).
pub open spec fn normal_form(m: int, s: nat) -> (int, nat)
    decreases s,
{
    if s > 0 && m % 10 == 0 {
        normal_form(m / 10, (s - 1) as nat)
    } else {
        (m, s)
    }
}

/// The decimal text of `mantissa * 10^-scale`.
pub uninterp spec fn decimal_text(mantissa: int, scale: int) -> Seq<char>;

/// Relies on rust_decimal's `Decimal::from_i128_with_scale` (which panics past 96 bits or
/// scale 28, hence the bounds) and on its `Display`, for the text of `mantissa * 10^-scale`.
#[verifier::external_body]
pub(crate) fn decimal_to_text(mantissa: i128, scale: u32) -> (r: String)
    requires
        -MAX_MANTISSA <= mantissa <= MAX_MANTISSA,
        scale <= DECIMAL_MAX_SCALE,
    ensures
        r@ == decimal_text(mantissa as int, scale as int),
{
    Decimal::from_i128_with_scale(mantissa, scale).to_string()
}

/// A base-10 fixed-point number: `mantissa * 10^-scale`.
///
/// Equality compares the two fields, so `1.5` and `1.50` differ; balances are
/// always produced in normal form (see `from_units`).
#[derive(Clone, Copy, Debug, PartialEq, Eq, Structural)]
pub struct Amount {
    pub mantissa: i128,
    pub scale: u32,
}

impl Amount {
    pub fn new(mantissa: i128, scale: u32) -> (r: Amount)
        ensures
            r.mantissa == mantissa,
            r.scale == scale,
    {
        Amount { mantissa, scale }
    }

    /// The value in units of `10^-MAX_SCALE`; meaningful for a scale of at most `MAX_SCALE`.
    pub open spec fn units(self) -> int {
        self.mantissa * pow10((MAX_SCALE - self.scale) as nat)
    }

    /// The amount worth `units * 10^-MAX_SCALE`, in normal form.
    pub open spec fn of_units(units: int) -> Amount {
        let (m, s) = normal_form(units, MAX_SCALE as nat);
        Amount { mantissa: m as i128, scale: s as u32 }
    }

    pub fn from_units(units: i128) -> (r: Amount)
        requires
            0 <= units <= MAX_MANTISSA,
        ensures
            r == Self::of_units(units as int),
            r.units() == units,
            0 <= r.mantissa <= units,
            r.scale <= MAX_SCALE,
    {
        let mut m = units;
        let mut s: u32 = MAX_SCALE;
        while s > 0 && m % 10 == 0
            invariant
                0 <= m <= units,
                s <= MAX_SCALE,
                normal_form(m as int, s as nat) == normal_form(units as int, MAX_SCALE as nat),
                m * pow10((MAX_SCALE - s) as nat) == units,
            decreases s,
        {
            let ghost k = (MAX_SCALE - s) as nat;
            assert(pow10(k + 1) == 10 * pow10(k));
            assert((m / 10) * pow10(k + 1) == m * pow10(k)) by (nonlinear_arith)
                requires
                    m % 10 == 0,
                    pow10(k + 1) == 10 * pow10(k),
            ;
            m = m / 10;
            s = s - 1;
        }
        Amount { mantissa: m, scale: s }
    }

    /// The decimal text of this amount.
    pub fn to_text(&self) -> (r: String)
        requires
            -MAX_MANTISSA <= self.mantissa <= MAX_MANTISSA,
            self.scale <= DECIMAL_MAX_SCALE,
        ensures
            r@ == decimal_text(self.mantissa as int, self.scale as int),
    {
        decimal_to_text(self.mantissa, self.scale)
    }
}

} // verus!
