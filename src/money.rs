//! Money amounts as fixed-point integers, and prices read from decimal text.
//!
//! An amount is an `i128` count of units of `10^-AMOUNT_SCALE`; `30.5` is
//! `30_500_000_000`.

use vstd::prelude::*;

verus! {

/// Decimal places an amount keeps.
pub const AMOUNT_SCALE: u32 = 9;

pub open spec fn pow10(n: nat) -> int
    decreases n,
{
    if n == 0 {
        1
    } else {
        10 * pow10((n - 1) as nat)
    }
}

/// A decimal mantissa stays strictly between `-2^96` and `2^96`.
pub open spec fn mantissa_limit() -> int {
    0x1_0000_0000_0000_0000_0000_0000
}

/// Amounts made from one decimal stay strictly inside this bound,
/// `2^96 * 10^AMOUNT_SCALE`.
pub open spec fn amount_limit() -> int {
    79_228_162_514_264_337_593_543_950_336_000_000_000
}

/// A decimal number `mantissa * 10^-scale`.
#[derive(Clone, Copy, Debug, PartialEq, Eq, Structural)]
pub struct DecimalValue {
    pub mantissa: i128,
    pub scale: u32,
}

impl DecimalValue {
    /// The ranges a decimal's parts keep: at most 28 places and a 96-bit mantissa.
    pub open spec fn wf(self) -> bool {
        &&& self.scale <= 28
        &&& -mantissa_limit() < self.mantissa < mantissa_limit()
    }

    pub open spec fn amount(self) -> int {
        amount_of(self.mantissa as int, self.scale as int)
    }

    /// Whether the parts lie in the ranges a decimal keeps.
    pub fn is_wf(&self) -> (r: bool)
        ensures
            r == self.wf(),
    {
        self.scale <= 28 && -0x1_0000_0000_0000_0000_0000_0000 < self.mantissa
            && self.mantissa < 0x1_0000_0000_0000_0000_0000_0000
    }
}

/// Division that rounds toward zero.
pub open spec fn truncated_div(a: int, b: int) -> int {
    if a >= 0 {
        a / b
    } else {
        -((-a) / b)
    }
}

/// The amount of `m * 10^-e`; digits beyond `AMOUNT_SCALE` places are dropped
/// toward zero.
pub open spec fn amount_of(m: int, e: int) -> int {
    if e <= AMOUNT_SCALE {
        m * pow10((AMOUNT_SCALE - e) as nat)
    } else {
        truncated_div(m, pow10((e - AMOUNT_SCALE) as nat))
    }
}

/// The mantissa and scale `rust_decimal` reads from a text, if it reads one.
pub uninterp spec fn decimal_of_text(s: Seq<char>) -> Option<(int, int)>;

/// The amount a price text stands for; text that is no decimal counts as zero.
pub open spec fn price_of_text(s: Seq<char>) -> int {
    match decimal_of_text(s) {
        Some((m, e)) => amount_of(m, e),
        None => 0,
    }
}

/// Relies on rust_decimal's `Decimal::from_str`, `Decimal::mantissa` and
/// `Decimal::scale`: the parsed number, whose scale is at most 28 and whose
/// mantissa lies strictly between `-2^96` and `2^96`.
#[verifier::external_body]
fn parse_decimal(text: &str) -> (r: Option<DecimalValue>)
    ensures
        match r {
            Some(v) => v.wf() && decimal_of_text(text@) == Some(
                (v.mantissa as int, v.scale as int),
            ),
            None => decimal_of_text(text@) is None,
        },
{
    match <rust_decimal::Decimal as std::str::FromStr>::from_str(text) {
        Ok(d) => Some(DecimalValue { mantissa: d.mantissa(), scale: d.scale() }),
        Err(_) => None,
    }
}

proof fn lemma_pow10_le(a: nat, b: nat)
    requires
        a <= b,
    ensures
        pow10(a) <= pow10(b),
    decreases b - a,
{
    if a < b {
        lemma_pow10_le(a, (b - 1) as nat);
        lemma_pow10_pos((b - 1) as nat);
    }
}

proof fn lemma_pow10_pos(n: nat)
    ensures
        pow10(n) >= 1,
    decreases n,
{
    if n > 0 {
        lemma_pow10_pos((n - 1) as nat);
    }
}

/// `10^n`.
fn pow10_i128(n: u32) -> (r: i128)
    requires
        n <= 38,
    ensures
        r == pow10(n as nat),
{
    proof {
        reveal_with_fuel(pow10, 39);
        assert(pow10(38) == 100_000_000_000_000_000_000_000_000_000_000_000_000);
    }
    let mut r: i128 = 1;
    let mut i: u32 = 0;
    while i < n
        invariant
            i <= n <= 38,
            r == pow10(i as nat),
            pow10(38) == 100_000_000_000_000_000_000_000_000_000_000_000_000,
        decreases n - i,
    {
        proof {
            lemma_pow10_le((i + 1) as nat, 38);
            lemma_pow10_pos(i as nat);
            assert(pow10((i + 1) as nat) == 10 * pow10(i as nat));
        }
        r = r * 10;
        i = i + 1;
    }
    r
}

/// The amount of a decimal.
pub fn decimal_amount(v: DecimalValue) -> (r: i128)
    requires
        v.wf(),
    ensures
        r == v.amount(),
        -amount_limit() < r < amount_limit(),
{
    proof {
        reveal_with_fuel(pow10, 10);
        assert(pow10(9) == 1_000_000_000);
    }
    if v.scale <= AMOUNT_SCALE {
        let p = pow10_i128(AMOUNT_SCALE - v.scale);
        proof {
            lemma_pow10_pos((AMOUNT_SCALE - v.scale) as nat);
            lemma_pow10_le((AMOUNT_SCALE - v.scale) as nat, 9);
            let m = v.mantissa as int;
            let pp = p as int;
            assert(pp <= 1_000_000_000);
            let ml = mantissa_limit();
            assert(-ml * 1_000_000_000 < m * pp < ml * 1_000_000_000) by (nonlinear_arith)
                requires
                    -ml < m < ml,
                    1 <= pp <= 1_000_000_000,
            ;
            assert(-amount_limit() < m * pp < amount_limit());
        }
        v.mantissa * p
    } else {
        let p = pow10_i128(v.scale - AMOUNT_SCALE);
        proof {
            lemma_pow10_pos((v.scale - AMOUNT_SCALE) as nat);
        }
        if v.mantissa >= 0 {
            let m = v.mantissa;
            proof {
                assert(0 <= m / p <= m) by (nonlinear_arith)
                    requires
                        m >= 0,
                        p >= 1,
                ;
            }
            m / p
        } else {
            let m = -v.mantissa;
            proof {
                assert(0 <= m / p <= m) by (nonlinear_arith)
                    requires
                        m >= 0,
                        p >= 1,
                ;
            }
            -(m / p)
        }
    }
}

/// The amount a price text stands for, zero where the text is no decimal.
pub fn price_amount(text: &str) -> (r: i128)
    ensures
        r == price_of_text(text@),
        -amount_limit() < r < amount_limit(),
{
    match parse_decimal(text) {
        Some(v) => decimal_amount(v),
        None => 0,
    }
}

} // verus!
