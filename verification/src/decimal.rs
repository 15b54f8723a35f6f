//! Fixed-point decimal numbers as `rust_decimal` holds them: a mantissa of at most 96
//! bits and a scale of at most 28, the value being the mantissa divided by ten to the
//! scale. Comparison and text are exact; arithmetic is done by `rust_decimal`.
use vstd::prelude::*;
use crate::text::{decimal_text, owned, spec_decimal};
use rust_decimal::Decimal;

verus! {

/// The largest mantissa magnitude, 2^96 - 1.
pub const DEC_MANTISSA_MAX: i128 = 0xFFFF_FFFF_FFFF_FFFF_FFFF_FFFF;

/// The largest scale.
pub const DEC_MAX_SCALE: u32 = 28;

/// A decimal number: `mantissa / 10^scale`.
#[derive(Debug, Clone, Copy, PartialEq, Eq, Structural)]
pub struct Dec {
    pub mantissa: i128,
    pub scale: u32,
}

impl Dec {
    /// Within the range of `rust_decimal`.
    pub open spec fn wf(self) -> bool {
        &&& self.scale <= DEC_MAX_SCALE
        &&& -DEC_MANTISSA_MAX <= self.mantissa <= DEC_MANTISSA_MAX
    }

    /// The number `mantissa / 10^scale`.
    pub fn new(mantissa: i128, scale: u32) -> (r: Dec)
        ensures
            r.mantissa == mantissa,
            r.scale == scale,
    {
        Dec { mantissa, scale }
    }

    /// Zero.
    pub fn zero() -> (r: Dec)
        ensures
            r.mantissa == 0,
            r.scale == 0,
    {
        Dec { mantissa: 0, scale: 0 }
    }
}

/// Ten to the `n`.
pub open spec fn pow10(n: nat) -> int
    decreases n,
{
    if n == 0 {
        1
    } else {
        10 * pow10((n - 1) as nat)
    }
}

/// `a < b` as numbers.
pub open spec fn dec_lt(a: Dec, b: Dec) -> bool {
    a.mantissa * pow10(b.scale as nat) < b.mantissa * pow10(a.scale as nat)
}

/// `a == b` as numbers (`1.0 == 1.00`).
pub open spec fn dec_eq(a: Dec, b: Dec) -> bool {
    a.mantissa * pow10(b.scale as nat) == b.mantissa * pow10(a.scale as nat)
}

/// `a <= b` as numbers.
pub open spec fn dec_le(a: Dec, b: Dec) -> bool {
    dec_lt(a, b) || dec_eq(a, b)
}

/// Ten to a power is positive, and powers add.
pub proof fn lemma_pow10(a: nat, b: nat)
    ensures
        pow10(a) >= 1,
        pow10(a + b) == pow10(a) * pow10(b),
    decreases a,
{
    if a > 0 {
        lemma_pow10((a - 1) as nat, b);
        assert(pow10(a + b) == 10 * pow10((a - 1 + b) as nat));
        assert(10 * (pow10((a - 1) as nat) * pow10(b)) == (10 * pow10((a - 1) as nat)) * pow10(b))
            by (nonlinear_arith);
    }
}

/// Multiplying both sides by a positive number keeps an order.
proof fn lemma_scale_order(x: int, y: int, p: int)
    requires
        p > 0,
    ensures
        (x * p < y * p) == (x < y),
        (x * p == y * p) == (x == y),
{
    if x < y {
        assert(x * p < y * p) by (nonlinear_arith)
            requires x < y, p > 0;
    } else if x == y {
    } else {
        assert(y * p < x * p) by (nonlinear_arith)
            requires y < x, p > 0;
    }
}

/// `x * 10^d` is at least `x` for a positive `x`, at most for a negative one.
proof fn lemma_grow(x: int, p: int)
    requires
        p >= 1,
    ensures
        x > 0 ==> x * p >= x,
        x < 0 ==> x * p <= x,
{
    if x > 0 {
        assert(x * p >= x) by (nonlinear_arith)
            requires x > 0, p >= 1;
    }
    if x < 0 {
        assert(x * p <= x) by (nonlinear_arith)
            requires x < 0, p >= 1;
    }
}

/// Compares `x * 10^d` with `y`: negative, zero or positive.
fn scaled_compare(x: i128, d: u32, y: i128) -> (r: i8)
    requires
        -DEC_MANTISSA_MAX <= x <= DEC_MANTISSA_MAX,
        -DEC_MANTISSA_MAX <= y <= DEC_MANTISSA_MAX,
        d <= DEC_MAX_SCALE,
    ensures
        (r < 0) == (x * pow10(d as nat) < y),
        (r == 0) == (x * pow10(d as nat) == y),
        (r > 0) == (x * pow10(d as nat) > y),
{
    let big: i128 = 0x2_0000_0000_0000_0000_0000_0000;
    let mut v: i128 = x;
    let mut k: u32 = 0;
    while k < d
        invariant
            k <= d,
            d <= DEC_MAX_SCALE,
            v == x * pow10(k as nat),
            -10 * big <= v <= 10 * big,
            big == 0x2_0000_0000_0000_0000_0000_0000,
            -DEC_MANTISSA_MAX <= y <= DEC_MANTISSA_MAX,
        decreases d - k,
    {
        if v > big || v < -big {
            proof {
                lemma_pow10(k as nat, (d - k) as nat);
                lemma_pow10((d - k) as nat, 0);
                lemma_grow(v as int, pow10((d - k) as nat));
                assert(x * pow10(d as nat) == v * pow10((d - k) as nat)) by (nonlinear_arith)
                    requires
                        v == x * pow10(k as nat),
                        pow10((k + (d - k)) as nat) == pow10(k as nat) * pow10((d - k) as nat),
                        k + (d - k) == d;
            }
            if v > big {
                return 1;
            } else {
                return -1;
            }
        }
        proof {
            assert(pow10((k + 1) as nat) == 10 * pow10(k as nat));
            assert(x * (10 * pow10(k as nat)) == 10 * (x * pow10(k as nat))) by (nonlinear_arith);
        }
        v = v * 10;
        k = k + 1;
    }
    if v < y {
        -1
    } else if v == y {
        0
    } else {
        1
    }
}

/// Compares two decimals as numbers: negative, zero or positive.
pub fn dec_compare(a: Dec, b: Dec) -> (r: i8)
    requires
        a.wf(),
        b.wf(),
    ensures
        (r < 0) == dec_lt(a, b),
        (r == 0) == dec_eq(a, b),
        (r > 0) == dec_lt(b, a),
{
    if a.scale <= b.scale {
        let d = b.scale - a.scale;
        let c = scaled_compare(a.mantissa, d, b.mantissa);
        proof {
            lemma_pow10(d as nat, a.scale as nat);
            lemma_pow10(a.scale as nat, 0);
            let p = pow10(a.scale as nat);
            assert(a.mantissa * pow10(b.scale as nat) == (a.mantissa * pow10(d as nat)) * p)
                by (nonlinear_arith)
                requires
                    pow10((d + a.scale) as nat) == pow10(d as nat) * p,
                    d + a.scale == b.scale;
            lemma_scale_order(a.mantissa * pow10(d as nat), b.mantissa as int, p);
            lemma_scale_order(b.mantissa as int, a.mantissa * pow10(d as nat), p);
        }
        c
    } else {
        let d = a.scale - b.scale;
        let c = scaled_compare(b.mantissa, d, a.mantissa);
        proof {
            lemma_pow10(d as nat, b.scale as nat);
            lemma_pow10(b.scale as nat, 0);
            let p = pow10(b.scale as nat);
            assert(b.mantissa * pow10(a.scale as nat) == (b.mantissa * pow10(d as nat)) * p)
                by (nonlinear_arith)
                requires
                    pow10((d + b.scale) as nat) == pow10(d as nat) * p,
                    d + b.scale == a.scale;
            lemma_scale_order(b.mantissa * pow10(d as nat), a.mantissa as int, p);
            lemma_scale_order(a.mantissa as int, b.mantissa * pow10(d as nat), p);
        }
        if c < 0 {
            1
        } else if c == 0 {
            0
        } else {
            -1
        }
    }
}

/// `n` zero digits.
pub open spec fn spec_zeros(n: nat) -> Seq<char> {
    Seq::new(n, |i: int| '0')
}

/// The digits of the mantissa's magnitude, padded with zeros on the left to at least
/// `scale` digits; zero has no digits of its own.
pub open spec fn spec_dec_digits(d: Dec) -> Seq<char> {
    let m: int = if d.mantissa < 0 { -d.mantissa } else { d.mantissa as int };
    let ds = if m == 0 { Seq::<char>::empty() } else { spec_decimal(m as nat) };
    if ds.len() < d.scale { spec_zeros((d.scale - ds.len()) as nat) + ds } else { ds }
}

/// How `rust_decimal` writes a number: all `scale` fractional digits, a `0` before the
/// point where there is no whole part, and `-` before a negative number.
pub open spec fn spec_dec_text(d: Dec) -> Seq<char> {
    let p = spec_dec_digits(d);
    let w = p.len() - d.scale;
    let body = if d.scale == 0 {
        if p.len() == 0 { seq!['0'] } else { p }
    } else {
        (if w == 0 { seq!['0'] } else { p.take(w) }) + seq!['.'] + p.skip(w)
    };
    if d.mantissa < 0 { seq!['-'] + body } else { body }
}

/// The text of a decimal, as `rust_decimal` writes it.
pub fn dec_text(d: Dec) -> (r: String)
    requires
        d.wf(),
    ensures
        r@ == spec_dec_text(d),
{
    let m: u128 = if d.mantissa < 0 { (-d.mantissa) as u128 } else { d.mantissa as u128 };
    let digits: String = if m == 0 { owned("") } else { decimal_text(m) };
    let dl = digits.as_str().unicode_len();
    let mut p: String = owned("");
    proof {
        reveal_strlit("");
        reveal_strlit("0");
    }
    if dl < d.scale as usize {
        let n = d.scale as usize - dl;
        let mut i: usize = 0;
        while i < n
            invariant
                i <= n,
                p@ == spec_zeros(i as nat),
            decreases n - i,
        {
            p.append("0");
            proof {
                reveal_strlit("0");
                assert(p@ =~= spec_zeros((i + 1) as nat));
            }
            i = i + 1;
        }
    }
    p.append(digits.as_str());
    assert(p@ =~= spec_dec_digits(d));
    let l = p.as_str().unicode_len();
    let s = d.scale as usize;
    let mut body: String;
    proof {
        reveal_strlit(".");
    }
    if s == 0 {
        if l == 0 {
            body = owned("0");
        } else {
            body = p;
        }
    } else {
        let w = l - s;
        if w == 0 {
            body = owned("0");
        } else {
            body = owned(p.as_str().substring_char(0, w));
        }
        body.append(".");
        body.append(p.as_str().substring_char(w, l));
    }
    if d.mantissa < 0 {
        proof {
            reveal_strlit("-");
        }
        let r = owned("-").concat(body.as_str());
        assert(r@ =~= spec_dec_text(d));
        r
    } else {
        assert(body@ =~= spec_dec_text(d));
        body
    }
}

/// What `rust_decimal` gives for `a + b`, or `None` where it overflows.
pub uninterp spec fn decimal_checked_sum(am: int, ascale: nat, bm: int, bscale: nat) -> Option<(int, nat)>;

/// What `rust_decimal` gives for `a - b`, or `None` where it overflows.
pub uninterp spec fn decimal_checked_difference(am: int, ascale: nat, bm: int, bscale: nat) -> Option<(int, nat)>;

/// What `rust_decimal` gives for `a * b`, or `None` where it overflows.
pub uninterp spec fn decimal_checked_product(am: int, ascale: nat, bm: int, bscale: nat) -> Option<(int, nat)>;

/// What `rust_decimal` gives for `a / b`, or `None` where `b` is zero or it overflows.
pub uninterp spec fn decimal_checked_quotient(am: int, ascale: nat, bm: int, bscale: nat) -> Option<(int, nat)>;

/// A decimal as the pair that the names above take.
pub open spec fn dec_pair(d: Dec) -> (int, nat) {
    (d.mantissa as int, d.scale as nat)
}

/// An optional decimal as an optional pair.
pub open spec fn opt_dec_pair(d: Option<Dec>) -> Option<(int, nat)> {
    match d {
        Some(x) => Some(dec_pair(x)),
        None => None,
    }
}

/// A pair taken back to a decimal.
pub open spec fn from_pair(p: (int, nat)) -> Dec {
    Dec { mantissa: p.0 as i128, scale: p.1 as u32 }
}

/// An optional pair taken back to an optional decimal.
pub open spec fn lift_pair(o: Option<(int, nat)>) -> Option<Dec> {
    match o {
        Some(p) => Some(from_pair(p)),
        None => None,
    }
}

/// `a + b` by `rust_decimal`.
pub open spec fn sum_of(a: Dec, b: Dec) -> Option<Dec> {
    lift_pair(decimal_checked_sum(a.mantissa as int, a.scale as nat, b.mantissa as int, b.scale as nat))
}

/// `a - b` by `rust_decimal`.
pub open spec fn difference_of(a: Dec, b: Dec) -> Option<Dec> {
    lift_pair(decimal_checked_difference(a.mantissa as int, a.scale as nat, b.mantissa as int, b.scale as nat))
}

/// `a * b` by `rust_decimal`.
pub open spec fn product_of(a: Dec, b: Dec) -> Option<Dec> {
    lift_pair(decimal_checked_product(a.mantissa as int, a.scale as nat, b.mantissa as int, b.scale as nat))
}

/// `a / b` by `rust_decimal`.
pub open spec fn quotient_of(a: Dec, b: Dec) -> Option<Dec> {
    lift_pair(decimal_checked_quotient(a.mantissa as int, a.scale as nat, b.mantissa as int, b.scale as nat))
}

/// A decimal in range is its own pair taken back.
pub proof fn lemma_lift_pair(r: Option<Dec>)
    requires
        r matches Some(x) ==> x.wf(),
    ensures
        lift_pair(opt_dec_pair(r)) == r,
{
}

/// `Decimal::checked_add`. The result is the sum as `rust_decimal` computes it (exact
/// where it fits, else rounded to fit); it is left as a name, and is within range.
#[verifier::external_body]
pub fn dec_checked_add(a: Dec, b: Dec) -> (r: Option<Dec>)
    requires
        a.wf(),
        b.wf(),
    ensures
        opt_dec_pair(r) == decimal_checked_sum(a.mantissa as int, a.scale as nat, b.mantissa as int, b.scale as nat),
        r matches Some(x) ==> x.wf(),
{
    let x = Decimal::from_i128_with_scale(a.mantissa, a.scale);
    let y = Decimal::from_i128_with_scale(b.mantissa, b.scale);
    match x.checked_add(y) {
        Some(z) => Some(Dec { mantissa: z.mantissa(), scale: z.scale() }),
        None => None,
    }
}

/// `Decimal::checked_sub`, as `dec_checked_add` for `a - b`.
#[verifier::external_body]
pub fn dec_checked_sub(a: Dec, b: Dec) -> (r: Option<Dec>)
    requires
        a.wf(),
        b.wf(),
    ensures
        opt_dec_pair(r) == decimal_checked_difference(a.mantissa as int, a.scale as nat, b.mantissa as int, b.scale as nat),
        r matches Some(x) ==> x.wf(),
{
    let x = Decimal::from_i128_with_scale(a.mantissa, a.scale);
    let y = Decimal::from_i128_with_scale(b.mantissa, b.scale);
    match x.checked_sub(y) {
        Some(z) => Some(Dec { mantissa: z.mantissa(), scale: z.scale() }),
        None => None,
    }
}

/// `Decimal::checked_mul`, as `dec_checked_add` for `a * b`.
#[verifier::external_body]
pub fn dec_checked_mul(a: Dec, b: Dec) -> (r: Option<Dec>)
    requires
        a.wf(),
        b.wf(),
    ensures
        opt_dec_pair(r) == decimal_checked_product(a.mantissa as int, a.scale as nat, b.mantissa as int, b.scale as nat),
        r matches Some(x) ==> x.wf(),
{
    let x = Decimal::from_i128_with_scale(a.mantissa, a.scale);
    let y = Decimal::from_i128_with_scale(b.mantissa, b.scale);
    match x.checked_mul(y) {
        Some(z) => Some(Dec { mantissa: z.mantissa(), scale: z.scale() }),
        None => None,
    }
}

/// `Decimal::checked_div`, as `dec_checked_add` for `a / b`; `None` where `b` is zero.
#[verifier::external_body]
pub fn dec_checked_div(a: Dec, b: Dec) -> (r: Option<Dec>)
    requires
        a.wf(),
        b.wf(),
    ensures
        opt_dec_pair(r) == decimal_checked_quotient(a.mantissa as int, a.scale as nat, b.mantissa as int, b.scale as nat),
        r matches Some(x) ==> x.wf(),
        b.mantissa == 0 ==> r is None,
{
    let x = Decimal::from_i128_with_scale(a.mantissa, a.scale);
    let y = Decimal::from_i128_with_scale(b.mantissa, b.scale);
    match x.checked_div(y) {
        Some(z) => Some(Dec { mantissa: z.mantissa(), scale: z.scale() }),
        None => None,
    }
}

/// The text of `d` with exactly `places` fractional digits, as `format!("{:.places$}")`
/// writes a `rust_decimal` number: further digits are cut off, not rounded, and missing
/// ones are filled with zeros.
pub uninterp spec fn decimal_fixed_text(m: int, scale: nat, places: nat) -> Seq<char>;

/// `format!("{:.*}", places, d)` on a `rust_decimal` number: the digits beyond `places`
/// are cut off.
#[verifier::external_body]
pub fn dec_fixed_text(d: Dec, places: usize) -> (r: String)
    requires
        d.wf(),
    ensures
        r@ == decimal_fixed_text(d.mantissa as int, d.scale as nat, places as nat),
{
    let x = Decimal::from_i128_with_scale(d.mantissa, d.scale);
    format!("{:.*}", places, x)
}

} // verus!
