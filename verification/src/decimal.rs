//! Exact decimal literals and their comparison with byte counts.
//!
//! A numeric literal of the query language is kept digit by digit, so that a
//! size such as `0.5kb` is compared with an entry's byte count without any
//! rounding.

use crate::text::{decimal_text, digit_char, digit_str};
use vstd::prelude::*;
use vstd::string::StringExecFns;

verus! {

/// The outcome of a three-way comparison.
#[derive(Clone, Copy, Debug, PartialEq, Eq, Structural)]
pub enum Comparison {
    Less,
    Equal,
    Greater,
}

/// Ten to the power `n`.
pub open spec fn pow10(n: nat) -> nat
    decreases n,
{
    if n == 0 {
        1
    } else {
        10 * pow10((n - 1) as nat)
    }
}

/// Every element is a decimal digit.
pub open spec fn all_digits(d: Seq<u8>) -> bool {
    forall|i: int| 0 <= i < d.len() ==> d[i] < 10
}

/// The number written by the digits `d`, most significant first.
pub open spec fn digits_value(d: Seq<u8>) -> nat
    decreases d.len(),
{
    if d.len() == 0 {
        0
    } else {
        digits_value(d.drop_last()) * 10 + d.last() as nat
    }
}

/// The characters that write the digits `d`.
pub open spec fn digits_text(d: Seq<u8>) -> Seq<char> {
    Seq::new(d.len(), |i: int| digit_char(d[i] as int))
}

/// The sign of `x` as a comparison of `x` with zero.
pub open spec fn sign_of(x: int) -> Comparison {
    if x < 0 {
        Comparison::Less
    } else if x == 0 {
        Comparison::Equal
    } else {
        Comparison::Greater
    }
}

pub proof fn lemma_pow10_positive(n: nat)
    ensures
        pow10(n) >= 1,
    decreases n,
{
    if n > 0 {
        lemma_pow10_positive((n - 1) as nat);
    }
}

/// A digit string of length `n` writes a number below `10^n`.
pub proof fn lemma_digits_value_bound(d: Seq<u8>)
    requires
        all_digits(d),
    ensures
        digits_value(d) < pow10(d.len()),
    decreases d.len(),
{
    if d.len() > 0 {
        lemma_digits_value_bound(d.drop_last());
    }
}

/// The value of a digit string splits at any position into the value of the
/// prefix, shifted, plus the value of the suffix.
pub proof fn lemma_digits_value_split(d: Seq<u8>, i: int)
    requires
        0 <= i <= d.len(),
    ensures
        digits_value(d) == digits_value(d.take(i)) * pow10((d.len() - i) as nat) + digits_value(
            d.skip(i),
        ),
    decreases d.len(),
{
    if i == d.len() {
        assert(d.take(i) == d);
        assert(d.skip(i).len() == 0);
        assert(pow10(0) == 1);
        assert(digits_value(d.skip(i)) == 0);
        assert(digits_value(d) * 1 == digits_value(d)) by (nonlinear_arith);
        assert((d.len() - i) as nat == 0);
    } else {
        let front = d.drop_last();
        lemma_digits_value_split(front, i);
        assert(front.take(i) == d.take(i));
        assert(d.skip(i).drop_last() == front.skip(i));
        assert(d.skip(i).last() == d.last());
        let a = digits_value(d.take(i)) as int;
        let p = pow10((front.len() - i) as nat) as int;
        let b = digits_value(front.skip(i)) as int;
        assert(pow10((d.len() - i) as nat) == 10 * p);
        assert(digits_value(front) == a * p + b);
        assert(digits_value(d) == digits_value(front) * 10 + d.last() as nat);
        assert(digits_value(d.skip(i)) == b * 10 + d.last() as nat);
        assert((a * p + b) * 10 == a * (10 * p) + b * 10) by (nonlinear_arith);
        let whole_power = pow10((d.len() - i) as nat) as int;
        assert(a * whole_power == a * (10 * p));
        assert(digits_value(d) == a * whole_power + digits_value(d.skip(i)));
    }
}

/// The view of a [`Decimal`]: its digits before and after the point.
pub struct DecimalView {
    pub whole: Seq<u8>,
    pub frac: Seq<u8>,
}

impl DecimalView {
    /// The literal as it is written: the digits before the point, and, if
    /// there are digits after it, the point and those.
    pub open spec fn text(self) -> Seq<char> {
        if self.frac.len() == 0 {
            digits_text(self.whole)
        } else {
            digits_text(self.whole) + seq!['.'] + digits_text(self.frac)
        }
    }

    /// The number of digits after the decimal point.
    pub open spec fn scale(self) -> nat {
        self.frac.len()
    }

    /// The literal's value is `numerator() / 10^scale()`.
    pub open spec fn numerator(self) -> nat {
        digits_value(self.whole) * pow10(self.scale()) + digits_value(self.frac)
    }
}

/// `amount - d * unit`, multiplied by `10^scale` so that it is whole.
pub open spec fn scaled_difference(amount: u64, d: DecimalView, unit: u64) -> int {
    amount * pow10(d.scale()) - d.numerator() * unit
}

/// How `amount` compares with the number `d` multiplied by `unit`: the sign
/// of `amount - d * unit`, with no rounding.
pub open spec fn scaled_comparison(amount: u64, d: DecimalView, unit: u64) -> Comparison {
    sign_of(scaled_difference(amount, d, unit))
}

/// The tolerance of an equality is one part in this many: two to the power
/// fifty-two.
pub open spec fn tolerance_parts() -> int {
    0x10_0000_0000_0000
}

/// Whether `amount` equals the number `d` multiplied by `unit` up to the
/// tolerance: `|amount - d * unit| < 1 / tolerance_parts()`.
pub open spec fn within_tolerance(amount: u64, d: DecimalView, unit: u64) -> bool {
    let spread = scaled_difference(amount, d, unit) * tolerance_parts();
    -pow10(d.scale()) < spread < pow10(d.scale())
}

/// A decimal literal: the digits before and after the decimal point.
#[derive(Debug)]
pub struct Decimal {
    whole: Vec<u8>,
    frac: Vec<u8>,
}

impl View for Decimal {
    type V = DecimalView;

    open spec fn view(&self) -> DecimalView {
        DecimalView { whole: self.whole_digits(), frac: self.frac_digits() }
    }
}

impl Clone for Decimal {
    fn clone(&self) -> (r: Self)
        ensures
            r.whole_digits() == self.whole_digits(),
            r.frac_digits() == self.frac_digits(),
    {
        proof {
            use_type_invariant(self);
        }
        Decimal { whole: self.whole.clone(), frac: self.frac.clone() }
    }
}

impl Decimal {
    #[verifier::type_invariant]
    spec fn digits_in_range(&self) -> bool {
        all_digits(self.whole@) && all_digits(self.frac@)
    }

    /// The digits before the decimal point, most significant first.
    pub closed spec fn whole_digits(&self) -> Seq<u8> {
        self.whole@
    }

    /// The digits after the decimal point.
    pub closed spec fn frac_digits(&self) -> Seq<u8> {
        self.frac@
    }


    /// Builds a literal from its digits; `None` unless every element is a
    /// decimal digit.
    pub fn from_digits(whole: Vec<u8>, frac: Vec<u8>) -> (r: Option<Decimal>)
        ensures
            r is Some <==> all_digits(whole@) && all_digits(frac@),
            r matches Some(d) ==> d.whole_digits() == whole@ && d.frac_digits() == frac@,
    {
        if digits_only(&whole) && digits_only(&frac) {
            Some(Decimal { whole, frac })
        } else {
            None
        }
    }

    /// Builds a literal from digits known to be in range.
    pub(crate) fn from_digit_runs(whole: Vec<u8>, frac: Vec<u8>) -> (r: Decimal)
        requires
            all_digits(whole@),
            all_digits(frac@),
        ensures
            r.whole_digits() == whole@,
            r.frac_digits() == frac@,
    {
        Decimal { whole, frac }
    }

    /// The literal as it is written.
    pub fn text(&self) -> (r: String)
        ensures
            r@ == self@.text(),
    {
        proof {
            use_type_invariant(self);
        }
        let mut out = String::new();
        append_digits(&mut out, &self.whole);
        if self.frac.len() > 0 {
            proof {
                reveal_strlit(".");
            }
            out.append(".");
            append_digits(&mut out, &self.frac);
        }
        proof {
            assert(out@ =~= self@.text());
        }
        out
    }

    /// Whether the literal has digits after the decimal point.
    pub fn has_fraction(&self) -> (r: bool)
        ensures
            r == (self.frac_digits().len() > 0),
    {
        self.frac.len() > 0
    }

    /// The digits before the decimal point read as a whole number, unless
    /// that number is above `u64::MAX`.
    pub fn whole_as_u64(&self) -> (r: Option<u64>)
        ensures
            r == (if digits_value(self.whole_digits()) <= u64::MAX {
                Some(digits_value(self.whole_digits()) as u64)
            } else {
                None
            }),
    {
        proof {
            use_type_invariant(self);
        }
        let mut w: u64 = 0;
        let mut i: usize = 0;
        while i < self.whole.len()
            invariant
                i <= self.whole@.len(),
                all_digits(self.whole@),
                w == digits_value(self.whole@.take(i as int)),
            decreases self.whole@.len() - i,
        {
            let digit: u8 = self.whole[i];
            proof {
                let longer = self.whole@.take(i + 1);
                assert(longer.drop_last() =~= self.whole@.take(i as int));
                assert(longer.last() == digit);
                lemma_digits_value_split(self.whole@, i + 1);
                lemma_pow10_positive((self.whole@.len() - (i + 1)) as nat);
                let next = digits_value(longer) as int;
                let rest = pow10((self.whole@.len() - (i + 1)) as nat) as int;
                let tail = digits_value(self.whole@.skip(i + 1)) as int;
                assert(digits_value(self.whole@) >= next) by (nonlinear_arith)
                    requires
                        digits_value(self.whole@) == next * rest + tail,
                        rest >= 1,
                        tail >= 0,
                        next >= 0,
                ;
            }
            if w > (u64::MAX - digit as u64) / 10 {
                return None;
            }
            w = w * 10 + digit as u64;
            i = i + 1;
        }
        assert(self.whole@.take(i as int) =~= self.whole@);
        Some(w)
    }

    /// The whole number `n`, written without leading zeros.
    pub fn from_u64(n: u64) -> (r: Decimal)
        ensures
            r@.frac.len() == 0,
            r@.numerator() == n,
            r@.text() == decimal_text(n as nat),
    {
        let whole = digits_of_number(n);
        let frac: Vec<u8> = Vec::new();
        proof {
            assert(digits_value(frac@) == 0);
            assert(pow10(0) == 1);
            assert(digits_value(whole@) * 1 + 0 == n as int);
        }
        Decimal { whole, frac }
    }

    /// What is left of `amount` once the whole part of this number, taken
    /// `unit` times, is taken away; `None` if that is more than `amount`.
    fn remainder(&self, amount: u64, unit: u64) -> (r: Option<u128>)
        requires
            unit >= 1,
        ensures
            match r {
                Some(left) => left == amount - digits_value(self.whole_digits()) * unit,
                None => digits_value(self.whole_digits()) * unit > amount,
            },
    {
        let ghost whole_value = digits_value(self.whole@) as int;
        match self.whole_as_u64() {
            None => {
                assert(whole_value * unit > amount) by (nonlinear_arith)
                    requires
                        whole_value > amount,
                        unit >= 1,
                        amount >= 0,
                ;
                None
            },
            Some(w) => {
                assert(w * unit <= u64::MAX * u64::MAX) by (nonlinear_arith)
                    requires
                        0 <= w <= u64::MAX,
                        0 <= unit <= u64::MAX,
                ;
                let product: u128 = (w as u128) * (unit as u128);
                if product > amount as u128 {
                    None
                } else {
                    Some(amount as u128 - product)
                }
            },
        }
    }

    /// Compares `amount` with this number multiplied by `unit`, exactly.
    pub fn compare_scaled(&self, amount: u64, unit: u64) -> (r: Comparison)
        ensures
            r == scaled_comparison(amount, self@, unit),
    {
        proof {
            use_type_invariant(self);
            lemma_pow10_positive(self@.scale());
            lemma_digits_value_bound(self.frac@);
        }
        let ghost big = pow10(self@.scale()) as int;
        let ghost whole_value = digits_value(self.whole@) as int;
        let ghost frac_value = digits_value(self.frac@) as int;
        let ghost diff = scaled_difference(amount, self@, unit);
        if unit == 0 {
            proof {
                assert(self@.numerator() * unit == 0) by (nonlinear_arith)
                    requires
                        unit == 0,
                ;
                assert(amount > 0 ==> amount * big > 0) by (nonlinear_arith)
                    requires
                        big >= 1,
                ;
                assert(amount == 0 ==> amount * big == 0) by (nonlinear_arith);
            }
            return if amount == 0 {
                Comparison::Equal
            } else {
                Comparison::Greater
            };
        }
        match self.remainder(amount, unit) {
            None => {
                assert(diff < 0) by (nonlinear_arith)
                    requires
                        diff == amount * big - (whole_value * big + frac_value) * unit,
                        whole_value * unit > amount,
                        big >= 1,
                        frac_value >= 0,
                        unit >= 1,
                ;
                Comparison::Less
            },
            Some(left) => {
                assert(diff == left * big - frac_value * unit) by (nonlinear_arith)
                    requires
                        diff == amount * big - (whole_value * big + frac_value) * unit,
                        left == amount - whole_value * unit,
                ;
                if left >= unit as u128 {
                    assert(left * big - frac_value * unit > 0) by (nonlinear_arith)
                        requires
                            left >= unit,
                            big >= 1,
                            0 <= frac_value < big,
                            unit >= 1,
                    ;
                    Comparison::Greater
                } else {
                    fraction_comparison(left, unit as u128, &self.frac)
                }
            },
        }
    }

    /// Whether `amount` equals this number multiplied by `unit`, up to the
    /// tolerance.
    pub fn equals_scaled(&self, amount: u64, unit: u64) -> (r: bool)
        ensures
            r == within_tolerance(amount, self@, unit),
    {
        proof {
            use_type_invariant(self);
            lemma_pow10_positive(self@.scale());
            lemma_digits_value_bound(self.frac@);
        }
        let ghost big = pow10(self@.scale()) as int;
        let ghost whole_value = digits_value(self.whole@) as int;
        let ghost frac_value = digits_value(self.frac@) as int;
        let ghost diff = scaled_difference(amount, self@, unit);
        let ghost parts = tolerance_parts();
        if unit == 0 {
            proof {
                assert(self@.numerator() * unit == 0) by (nonlinear_arith)
                    requires
                        unit == 0,
                ;
                assert(amount > 0 ==> amount * big * parts >= big) by (nonlinear_arith)
                    requires
                        big >= 1,
                        parts >= 1,
                ;
                assert(amount == 0 ==> amount * big * parts == 0) by (nonlinear_arith);
            }
            return amount == 0;
        }
        let left: u128 = match self.remainder(amount, unit) {
            None => {
                assert(diff * parts <= -big) by (nonlinear_arith)
                    requires
                        diff == amount * big - (whole_value * big + frac_value) * unit,
                        whole_value * unit > amount,
                        big >= 1,
                        frac_value >= 0,
                        unit >= 1,
                        parts >= 1,
                ;
                return false;
            },
            Some(left) => left,
        };
        assert(diff == left * big - frac_value * unit) by (nonlinear_arith)
            requires
                diff == amount * big - (whole_value * big + frac_value) * unit,
                left == amount - whole_value * unit,
        ;
        if left > unit as u128 {
            assert((left * big - frac_value * unit) * parts >= big) by (nonlinear_arith)
                requires
                    left >= unit + 1,
                    big >= 1,
                    0 <= frac_value < big,
                    unit >= 1,
                    parts >= 1,
            ;
            return false;
        }
        let fine: u128 = (unit as u128) * 0x10_0000_0000_0000;
        if left == unit as u128 {
            // The number is just below a whole step: equal if it is close
            // enough to the step.
            let below = fraction_comparison(fine - 1, fine, &self.frac);
            proof {
                assert((fine - 1) * big - frac_value * fine == diff * parts - big)
                    by (nonlinear_arith)
                    requires
                        diff == left * big - frac_value * unit,
                        left == unit,
                        fine == unit * parts,
                ;
                assert(diff * parts >= 0) by (nonlinear_arith)
                    requires
                        diff == left * big - frac_value * unit,
                        left == unit,
                        0 <= frac_value < big,
                        unit >= 1,
                        parts >= 1,
                ;
            }
            return is_less(below);
        }
        let scaled: u128 = left * 0x10_0000_0000_0000;
        proof {
            assert(scaled * big - frac_value * fine == diff * parts) by (nonlinear_arith)
                requires
                    diff == left * big - frac_value * unit,
                    scaled == left * parts,
                    fine == unit * parts,
            ;
            assert((scaled + 1) * big - frac_value * fine == diff * parts + big)
                by (nonlinear_arith)
                requires
                    scaled * big - frac_value * fine == diff * parts,
            ;
            assert((scaled - 1) * big - frac_value * fine == diff * parts - big)
                by (nonlinear_arith)
                requires
                    scaled * big - frac_value * fine == diff * parts,
            ;
            assert(frac_value * fine >= 0) by (nonlinear_arith)
                requires
                    frac_value >= 0,
                    fine >= 0,
            ;
        }
        let above = fraction_comparison(scaled + 1, fine, &self.frac);
        if !is_greater(above) {
            return false;
        }
        if left == 0 {
            assert(scaled * big == 0) by (nonlinear_arith)
                requires
                    scaled == 0,
            ;
            return true;
        }
        let below = fraction_comparison(scaled - 1, fine, &self.frac);
        is_less(below)
    }
}

/// Whether a comparison says "less".
fn is_less(c: Comparison) -> (r: bool)
    ensures
        r == (c == Comparison::Less),
{
    match c {
        Comparison::Less => true,
        _ => false,
    }
}

/// Whether a comparison says "greater".
fn is_greater(c: Comparison) -> (r: bool)
    ensures
        r == (c == Comparison::Greater),
{
    match c {
        Comparison::Greater => true,
        _ => false,
    }
}

/// Compares the fraction `start / divisor` with the fraction written by the
/// digits `frac` after a decimal point, digit by digit: the sign of
/// `start * 10^n - frac * divisor` for `n` digits.
fn fraction_comparison(start: u128, divisor: u128, frac: &Vec<u8>) -> (c: Comparison)
    requires
        all_digits(frac@),
        start < divisor,
        divisor <= 0x10_0000_0000_0000_0000_0000_0000_0000,
    ensures
        c == sign_of(start * pow10(frac@.len()) - digits_value(frac@) * divisor),
{
    let ghost k = frac@.len();
    let ghost big = pow10(k) as int;
    let ghost frac_value = digits_value(frac@) as int;
    let mut r: u128 = start;
    let mut j: usize = 0;
    proof {
        assert(frac@.take(0).len() == 0);
        assert(digits_value(frac@.take(0)) == 0);
        assert(pow10(0) == 1);
        assert(0 * divisor == 0);
        assert(start * 1 == start);
    }
    while j < frac.len()
        invariant
            j <= frac@.len(),
            all_digits(frac@),
            1 <= divisor <= 0x10_0000_0000_0000_0000_0000_0000_0000,
            r < divisor,
            start * pow10(j as nat) == digits_value(frac@.take(j as int)) * divisor + r,
            k == frac@.len(),
            big == pow10(k),
            frac_value == digits_value(frac@),
        decreases frac@.len() - j,
    {
        let scaled: u128 = r * 10;
        let digit: u128 = scaled / divisor;
        let rem: u128 = scaled % divisor;
        let given: u128 = frac[j] as u128;
        proof {
            let longer = frac@.take(j + 1);
            assert(longer.drop_last() =~= frac@.take(j as int));
            assert(longer.last() == given);
            let q = digits_value(frac@.take(j as int)) as int;
            let pj = pow10(j as nat) as int;
            assert(pow10((j + 1) as nat) == 10 * pj);
            assert(scaled == digit * divisor + rem) by (nonlinear_arith)
                requires
                    digit == scaled / divisor,
                    rem == scaled % divisor,
                    divisor >= 1,
            ;
            assert(start * (10 * pj) == (q * 10 + digit) * divisor + rem) by (nonlinear_arith)
                requires
                    start * pj == q * divisor + r,
                    r * 10 == digit * divisor + rem,
            ;
        }
        if digit != given {
            proof {
                let q = digits_value(frac@.take(j as int)) as int;
                let rest_len = (k - (j + 1)) as nat;
                let t = pow10(rest_len) as int;
                let tail = digits_value(frac@.skip(j + 1)) as int;
                lemma_pow10_positive(rest_len);
                lemma_digits_value_split(frac@, j + 1);
                lemma_digits_value_bound(frac@.skip(j + 1));
                lemma_pow10_sum((j + 1) as nat, rest_len);
                let pj1 = pow10((j + 1) as nat) as int;
                assert(big == pj1 * t);
                assert(frac_value == (q * 10 + given) * t + tail);
                assert(start * pj1 == (q * 10 + digit) * divisor + rem);
                let diff = start * big - frac_value * divisor;
                let head = q * 10 + digit;
                let want = q * 10 + given;
                assert(start * big == (head * divisor + rem) * t) by (nonlinear_arith)
                    requires
                        big == pj1 * t,
                        start * pj1 == head * divisor + rem,
                ;
                assert((head * divisor + rem) * t == head * divisor * t + rem * t)
                    by (nonlinear_arith);
                assert((want * t + tail) * divisor == want * divisor * t + tail * divisor)
                    by (nonlinear_arith);
                assert(head * divisor * t - want * divisor * t == (digit - given) * divisor * t)
                    by (nonlinear_arith)
                    requires
                        head - want == digit - given,
                ;
                assert(diff == (digit - given) * divisor * t + rem * t - tail * divisor);
                if digit < given {
                    assert((digit - given) * divisor * t + rem * t - tail * divisor < 0)
                        by (nonlinear_arith)
                        requires
                            digit - given <= -1,
                            0 <= rem < divisor,
                            0 <= tail,
                            t >= 1,
                            divisor >= 1,
                    ;
                } else {
                    assert((digit - given) * divisor * t + rem * t - tail * divisor > 0)
                        by (nonlinear_arith)
                        requires
                            digit - given >= 1,
                            0 <= rem,
                            0 <= tail < t,
                            t >= 1,
                            divisor >= 1,
                    ;
                }
            }
            return if digit < given {
                Comparison::Less
            } else {
                Comparison::Greater
            };
        }
        r = rem;
        j = j + 1;
    }
    proof {
        assert(frac@.take(j as int) =~= frac@);
    }
    if r == 0 {
        Comparison::Equal
    } else {
        Comparison::Greater
    }
}

/// `10^(a+b) == 10^a * 10^b`.
pub proof fn lemma_pow10_sum(a: nat, b: nat)
    ensures
        pow10(a + b) == pow10(a) * pow10(b),
    decreases a,
{
    if a == 0 {
        assert(pow10(0) == 1);
    } else {
        lemma_pow10_sum((a - 1) as nat, b);
        let x = pow10((a - 1) as nat) as int;
        let y = pow10(b) as int;
        assert(pow10(a + b) == 10 * pow10((a - 1 + b) as nat));
        assert(10 * (x * y) == (10 * x) * y) by (nonlinear_arith);
    }
}

/// The digits of `n`, most significant first, without leading zeros.
fn digits_of_number(n: u64) -> (r: Vec<u8>)
    ensures
        all_digits(r@),
        digits_value(r@) == n,
        digits_text(r@) == decimal_text(n as nat),
    decreases n,
{
    if n < 10 {
        let mut r: Vec<u8> = Vec::new();
        r.push(n as u8);
        proof {
            assert(r@.drop_last() =~= Seq::<u8>::empty());
            assert(digits_value(r@.drop_last()) == 0);
            assert(digits_text(r@) =~= decimal_text(n as nat));
        }
        r
    } else {
        let mut r = digits_of_number(n / 10);
        let ghost before = r@;
        r.push((n % 10) as u8);
        proof {
            assert(r@.drop_last() =~= before);
            assert(digits_text(r@) =~= digits_text(before).push(digit_char((n % 10) as int)));
        }
        r
    }
}

/// Appends the characters that write the digits `d`.
fn append_digits(out: &mut String, d: &Vec<u8>)
    requires
        all_digits(d@),
    ensures
        final(out)@ == old(out)@ + digits_text(d@),
{
    let mut i: usize = 0;
    assert(out@ =~= old(out)@ + digits_text(d@.take(0)));
    while i < d.len()
        invariant
            i <= d@.len(),
            all_digits(d@),
            out@ == old(out)@ + digits_text(d@.take(i as int)),
        decreases d@.len() - i,
    {
        let ghost before = out@;
        out.append(digit_str(d[i]));
        assert(out@ =~= old(out)@ + digits_text(d@.take(i + 1)));
        i = i + 1;
    }
    assert(d@.take(i as int) =~= d@);
}

/// Whether every element of `d` is a decimal digit.
fn digits_only(d: &Vec<u8>) -> (ok: bool)
    ensures
        ok == all_digits(d@),
{
    let mut i: usize = 0;
    while i < d.len()
        invariant
            i <= d@.len(),
            forall|j: int| 0 <= j < i ==> d@[j] < 10,
        decreases d@.len() - i,
    {
        if d[i] >= 10 {
            return false;
        }
        i = i + 1;
    }
    true
}

} // verus!
