//! Decimal amounts as requests carry them, and their reduction to the ledger's
//! fixed-point unit of one millionth.

use vstd::prelude::*;

verus! {

/// Largest magnitude of a 96-bit decimal mantissa.
pub const MAX_MANTISSA: i128 = 0xFFFF_FFFF_FFFF_FFFF_FFFF_FFFF;

/// Largest number of fractional digits a decimal can carry.
pub const MAX_SCALE: u32 = 28;

/// Number of fractional digits the ledger keeps.
pub const MONEY_SCALE: u32 = 6;

/// Ten to the power `n`.
pub open spec fn pow10(n: nat) -> nat
    decreases n,
{
    if n == 0 {
        1
    } else {
        10 * pow10((n - 1) as nat)
    }
}

/// The mathematical content of an [`Amount`]: the number `mantissa / 10^scale`.
pub struct DecimalValue {
    pub mantissa: int,
    pub scale: nat,
}

impl DecimalValue {
    /// The absolute value, cut (not rounded) to six fractional digits and
    /// expressed in millionths.
    pub open spec fn magnitude_micros(self) -> int {
        let m = if self.mantissa < 0 { -self.mantissa } else { self.mantissa };
        (m * 1_000_000) / (pow10(self.scale) as int)
    }

    /// What a 96-bit decimal can represent.
    pub open spec fn representable(self) -> bool {
        &&& -MAX_MANTISSA <= self.mantissa <= MAX_MANTISSA
        &&& self.scale <= MAX_SCALE
    }
}

/// A decimal number with a 96-bit mantissa and up to 28 fractional digits.
#[derive(Clone, Copy, Debug)]
pub struct Amount {
    mantissa: i128,
    scale: u32,
}

impl View for Amount {
    type V = DecimalValue;

    closed spec fn view(&self) -> DecimalValue {
        DecimalValue { mantissa: self.mantissa as int, scale: self.scale as nat }
    }
}

/// The powers of ten up to a million.
pub proof fn lemma_pow10_values()
    ensures
        pow10(0) == 1,
        pow10(1) == 10,
        pow10(2) == 100,
        pow10(3) == 1_000,
        pow10(4) == 10_000,
        pow10(5) == 100_000,
        pow10(6) == 1_000_000,
{
    reveal_with_fuel(pow10, 7);
}

/// A power of ten is positive.
pub proof fn lemma_pow10_positive(n: nat)
    ensures
        pow10(n) > 0,
    decreases n,
{
    if n > 0 {
        lemma_pow10_positive((n - 1) as nat);
    }
}

/// Powers of ten multiply as their exponents add.
pub proof fn lemma_pow10_add(a: nat, b: nat)
    ensures
        pow10(a + b) == pow10(a) * pow10(b),
    decreases a,
{
    if a == 0 {
        assert(pow10(0) == 1);
        assert(pow10(a + b) == pow10(b));
    } else {
        lemma_pow10_add((a - 1) as nat, b);
        assert(pow10(a + b) == 10 * pow10((a + b - 1) as nat));
        assert((a + b - 1) as nat == (a - 1) as nat + b);
        assert(10 * (pow10((a - 1) as nat) * pow10(b)) == (10 * pow10((a - 1) as nat)) * pow10(b))
            by (nonlinear_arith);
    }
}

/// Ten to the power `n` for the exponents the ledger's scale needs.
fn pow10_exec(n: u32) -> (p: i128)
    requires
        n <= MONEY_SCALE,
    ensures
        p == pow10(n as nat),
{
    proof {
        lemma_pow10_values();
    }
    if n == 0 {
        1
    } else if n == 1 {
        10
    } else if n == 2 {
        100
    } else if n == 3 {
        1_000
    } else if n == 4 {
        10_000
    } else if n == 5 {
        100_000
    } else {
        1_000_000
    }
}

/// Calls `rust_decimal::Decimal::abs` and then `Decimal::trunc_with_scale`
/// with `digits` on the decimal with the given mantissa and scale, and hands
/// back the mantissa and scale of the result.
///
/// Trusted: the result is not negative, carries at most `digits` fractional
/// digits, and denotes the absolute value of the input with every digit past
/// that many dropped. (The outside function may pad a shorter fraction with
/// zeros; the contract leaves the resulting scale open for that reason.)
#[verifier::external_body]
fn truncated_magnitude(mantissa: i128, scale: u32, digits: u32) -> (r: (i128, u32))
    requires
        -MAX_MANTISSA <= mantissa <= MAX_MANTISSA,
        scale <= MAX_SCALE,
        digits <= MAX_SCALE,
    ensures
        0 <= r.0 <= MAX_MANTISSA,
        r.1 <= digits,
        r.0 * pow10((digits - r.1) as nat) == ((if mantissa < 0 {
            -mantissa
        } else {
            mantissa as int
        }) * pow10(digits as nat)) / (pow10(scale as nat) as int),
{
    let d = rust_decimal::Decimal::from_i128_with_scale(mantissa, scale).abs().trunc_with_scale(
        digits,
    );
    (d.mantissa(), d.scale())
}

impl Amount {
    #[verifier::type_invariant]
    spec fn inv(self) -> bool {
        &&& -MAX_MANTISSA <= self.mantissa <= MAX_MANTISSA
        &&& self.scale <= MAX_SCALE
    }

    /// The decimal `mantissa / 10^scale`, or `None` where a 96-bit decimal
    /// cannot hold it.
    pub fn new(mantissa: i128, scale: u32) -> (r: Option<Amount>)
        ensures
            r is Some <==> (DecimalValue {
                mantissa: mantissa as int,
                scale: scale as nat,
            }).representable(),
            r matches Some(a) ==> a@ == (DecimalValue {
                mantissa: mantissa as int,
                scale: scale as nat,
            }),
    {
        if scale > MAX_SCALE || mantissa > MAX_MANTISSA || mantissa < -MAX_MANTISSA {
            None
        } else {
            Some(Amount { mantissa, scale })
        }
    }

    /// The amount of `micros` millionths, or `None` where a 96-bit decimal
    /// cannot hold it.
    pub fn from_micros(micros: i128) -> (r: Option<Amount>)
        ensures
            r is Some <==> -MAX_MANTISSA <= micros <= MAX_MANTISSA,
            r matches Some(a) ==> a@ == (DecimalValue {
                mantissa: micros as int,
                scale: MONEY_SCALE as nat,
            }),
    {
        Amount::new(micros, MONEY_SCALE)
    }

    /// The amount in millionths, where it carries at most six fractional
    /// digits; `None` where it carries more.
    pub fn to_micros(&self) -> (r: Option<i128>)
        ensures
            r is Some <==> self@.scale <= MONEY_SCALE,
            r matches Some(micros) ==> micros * pow10(self@.scale) == self@.mantissa * 1_000_000,
    {
        proof {
            use_type_invariant(self);
            lemma_pow10_values();
        }
        if self.scale > MONEY_SCALE {
            return None;
        }
        let factor = pow10_exec(MONEY_SCALE - self.scale);
        proof {
            lemma_pow10_bounded((MONEY_SCALE - self.scale) as nat);
            lemma_pow10_add((MONEY_SCALE - self.scale) as nat, self.scale as nat);
            let m = self.mantissa as int;
            let f = factor as int;
            let p = pow10(self.scale as nat) as int;
            assert(-MAX_MANTISSA * 1_000_000 <= m * f <= MAX_MANTISSA * 1_000_000)
                by (nonlinear_arith)
                requires
                    -MAX_MANTISSA <= m <= MAX_MANTISSA,
                    1 <= f <= 1_000_000,
            ;
            assert((m * f) * p == m * (f * p)) by (nonlinear_arith);
        }
        Some(self.mantissa * factor)
    }

    /// The mantissa: the amount times ten to the power of its scale.
    pub fn mantissa(&self) -> (m: i128)
        ensures
            m == self@.mantissa,
            self@.representable(),
    {
        proof {
            use_type_invariant(self);
        }
        self.mantissa
    }

    /// The scale: the number of fractional digits.
    pub fn scale(&self) -> (s: u32)
        ensures
            s == self@.scale,
            self@.representable(),
    {
        proof {
            use_type_invariant(self);
        }
        self.scale
    }

    /// The magnitude of the amount in millionths: its absolute value with
    /// every digit past the sixth fractional digit dropped.
    pub fn magnitude(&self) -> (micros: i128)
        ensures
            micros == self@.magnitude_micros(),
            0 <= micros <= MAX_MANTISSA * 1_000_000,
            self@.representable(),
    {
        proof {
            use_type_invariant(self);
        }
        proof {
            lemma_pow10_values();
        }
        let (m, s) = truncated_magnitude(self.mantissa, self.scale, MONEY_SCALE);
        let factor = pow10_exec(MONEY_SCALE - s);
        proof {
            lemma_pow10_values();
            assert(1 <= factor <= 1_000_000) by {
                lemma_pow10_bounded((MONEY_SCALE - s) as nat);
            }
            assert(0 <= m * factor <= MAX_MANTISSA * 1_000_000) by (nonlinear_arith)
                requires
                    0 <= m <= MAX_MANTISSA,
                    1 <= factor <= 1_000_000,
            ;
        }
        m * factor
    }
}

proof fn lemma_pow10_bounded(n: nat)
    requires
        n <= 6,
    ensures
        1 <= pow10(n) <= 1_000_000,
{
    lemma_pow10_values();
}

} // verus!
