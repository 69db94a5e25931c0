use std::cmp::Ordering;
use vstd::prelude::*;

verus! {

/// Largest number of fractional digits a decimal carries.
pub const MAX_SCALE: u32 = 28;

/// Largest magnitude of a mantissa: 96 bits.
pub const MAX_MANTISSA: i128 = 0xFFFF_FFFF_FFFF_FFFF_FFFF_FFFF;

/// Ten to the power `n`.
pub open spec fn pow10(n: nat) -> int
    decreases n,
{
    if n == 0 {
        1
    } else {
        10 * pow10((n - 1) as nat)
    }
}

pub proof fn lemma_pow10_positive(n: nat)
    ensures
        pow10(n) > 0,
    decreases n,
{
    if n > 0 {
        lemma_pow10_positive((n - 1) as nat);
    }
}

pub open spec fn abs(x: int) -> int {
    if x < 0 {
        -x
    } else {
        x
    }
}

/// The ordering of two integers.
pub open spec fn ordering_of(x: int, y: int) -> Ordering {
    if x < y {
        Ordering::Less
    } else if x == y {
        Ordering::Equal
    } else {
        Ordering::Greater
    }
}

/// An exact decimal number `mantissa / 10^scale`, with the range of a
/// 96-bit mantissa and at most 28 fractional digits.
///
/// Two decimals are `==` when they have the same representation; `units`
/// compares their values.
#[derive(Clone, Copy, Debug, PartialEq, Eq, Structural)]
pub struct Decimal {
    mantissa: i128,
    scale: u32,
}

impl Decimal {
    #[verifier::type_invariant]
    spec fn inv(self) -> bool {
        &&& self.scale <= MAX_SCALE
        &&& -MAX_MANTISSA <= self.mantissa <= MAX_MANTISSA
    }

    pub closed spec fn mantissa_spec(self) -> int {
        self.mantissa as int
    }

    pub closed spec fn scale_spec(self) -> nat {
        self.scale as nat
    }

    /// The value of the decimal, in units of 10^-28.
    pub open spec fn units(self) -> int {
        self.mantissa_spec() * pow10((MAX_SCALE - self.scale_spec()) as nat)
    }

    /// The decimal `mantissa / 10^scale`.
    pub fn new(mantissa: i64, scale: u32) -> (r: Decimal)
        requires
            scale <= MAX_SCALE,
        ensures
            r.mantissa_spec() == mantissa,
            r.scale_spec() == scale,
    {
        Decimal { mantissa: mantissa as i128, scale }
    }

    /// The decimal `mantissa / 10^scale`, or `None` where the parts are out of range.
    pub fn try_new(mantissa: i128, scale: u32) -> (r: Option<Decimal>)
        ensures
            r is Some <==> (scale <= MAX_SCALE && -MAX_MANTISSA <= mantissa <= MAX_MANTISSA),
            r matches Some(d) ==> d.mantissa_spec() == mantissa && d.scale_spec() == scale,
    {
        if scale <= MAX_SCALE && -MAX_MANTISSA <= mantissa && mantissa <= MAX_MANTISSA {
            Some(Decimal { mantissa, scale })
        } else {
            None
        }
    }

    pub fn mantissa(&self) -> (r: i128)
        ensures
            r == self.mantissa_spec(),
    {
        self.mantissa
    }

    pub fn scale(&self) -> (r: u32)
        ensures
            r == self.scale_spec(),
    {
        self.scale
    }

    /// Whether the value is above zero.
    pub fn is_positive(&self) -> (r: bool)
        ensures
            r == (self.units() > 0),
    {
        proof {
            use_type_invariant(self);
            let p = pow10((MAX_SCALE - self.scale_spec()) as nat);
            lemma_pow10_positive((MAX_SCALE - self.scale_spec()) as nat);
            assert(self.mantissa > 0 ==> self.mantissa * p > 0) by (nonlinear_arith)
                requires
                    p > 0,
            ;
            assert(self.mantissa <= 0 ==> self.mantissa * p <= 0) by (nonlinear_arith)
                requires
                    p > 0,
            ;
        }
        self.mantissa > 0
    }
}

/// Whether `a - b` is computed without rounding: both mantissas fit in 64
/// bits, the scales differ by at most 19, and the exact difference, written at
/// the larger of the two scales, has a mantissa under 2^96.
pub open spec fn exact_difference_fits(a: Decimal, b: Decimal) -> bool {
    let s: nat = if a.scale_spec() >= b.scale_spec() {
        a.scale_spec()
    } else {
        b.scale_spec()
    };
    &&& abs(a.mantissa_spec()) < 0x1_0000_0000_0000_0000
    &&& abs(b.mantissa_spec()) < 0x1_0000_0000_0000_0000
    &&& abs(a.scale_spec() - b.scale_spec()) <= 19
    &&& abs(
        a.mantissa_spec() * pow10((s - a.scale_spec()) as nat) - b.mantissa_spec() * pow10(
            (s - b.scale_spec()) as nat,
        ),
    ) < 0x1_0000_0000_0000_0000_0000_0000
}

/// Relies on `Ord for rust_decimal::Decimal`: it compares the exact values of
/// two decimals, whatever their scales.
#[verifier::external_body]
pub(crate) fn compare_values(a: &Decimal, b: &Decimal) -> (r: Ordering)
    ensures
        r == ordering_of(a.units(), b.units()),
{
    let x = rust_decimal::Decimal::from_i128_with_scale(a.mantissa, a.scale);
    let y = rust_decimal::Decimal::from_i128_with_scale(b.mantissa, b.scale);
    x.cmp(&y)
}

/// What `rust_decimal`'s checked subtraction gives for `a - b`: `None` where
/// it overflows.
pub uninterp spec fn difference_of(a: Decimal, b: Decimal) -> Option<Decimal>;

/// Relies on `rust_decimal::Decimal::checked_sub`, whose result depends on its
/// operands alone: where both mantissas fit in
/// 64 bits, the scales differ by at most 19 and the exact difference fits in 96
/// bits at the larger scale, it aligns the scales in 128-bit arithmetic and
/// returns that exact difference.
#[verifier::external_body]
pub(crate) fn checked_difference(a: &Decimal, b: &Decimal) -> (r: Option<Decimal>)
    ensures
        r == difference_of(*a, *b),
        exact_difference_fits(*a, *b) ==> r is Some,
        exact_difference_fits(*a, *b) ==> r->0.units() == a.units() - b.units(),
{
    let x = rust_decimal::Decimal::from_i128_with_scale(a.mantissa, a.scale);
    let y = rust_decimal::Decimal::from_i128_with_scale(b.mantissa, b.scale);
    match x.checked_sub(y) {
        Some(d) => Some(Decimal { mantissa: d.mantissa(), scale: d.scale() }),
        None => None,
    }
}

} // verus!
