//! Exponential smoothing with the factor one fifth, in exact arithmetic.
//!
//! The smoothed value of a series `d0, d1, .., dn` is `S0 = d0` and
//! `Si = di / 5 + 4 * S(i-1) / 5`. It is a fraction over a power of five, so
//! it is kept here as a whole part and the base-five digits of the rest:
//! nothing is rounded on the way.

use vstd::prelude::*;

verus! {

/// Five to the power `n`.
pub open spec fn pow5(n: nat) -> int
    decreases n,
{
    if n == 0 {
        1
    } else {
        5 * pow5((n - 1) as nat)
    }
}

/// The smoothed value of `series` times five to the power `series.len() - 1`,
/// which is a whole number.
pub open spec fn smoothed_numerator(series: Seq<int>) -> int
    decreases series.len(),
{
    if series.len() == 0 {
        0
    } else if series.len() == 1 {
        series[0]
    } else {
        pow5((series.len() - 2) as nat) * series.last() + 4 * smoothed_numerator(
            series.drop_last(),
        )
    }
}

/// True when `wait` is greater than the smoothed value of `series`.
pub open spec fn exceeds_smoothed(wait: int, series: Seq<int>) -> bool {
    wait * pow5((series.len() - 1) as nat) > smoothed_numerator(series)
}

/// `n` divided by the positive `d`, rounded towards zero.
pub open spec fn toward_zero(n: int, d: int) -> int {
    if n >= 0 {
        n / d
    } else {
        -((-n) / d)
    }
}

/// The smoothed value of `series` in whole seconds, rounded towards zero.
pub open spec fn smoothed_seconds(series: Seq<int>) -> int {
    toward_zero(smoothed_numerator(series), pow5((series.len() - 1) as nat))
}

/// The number that the first `count` base-five digits of `digits` spell, the
/// least significant digit first.
pub open spec fn digits_value(digits: Seq<u8>, count: nat) -> int
    decreases count,
{
    if count == 0 {
        0
    } else {
        digits_value(digits, (count - 1) as nat) + digits[count - 1] * pow5((count - 1) as nat)
    }
}

/// Every power of five is positive.
pub proof fn lemma_pow5_positive(n: nat)
    ensures
        pow5(n) > 0,
    decreases n,
{
    if n > 0 {
        lemma_pow5_positive((n - 1) as nat);
    }
}

/// Digits below five spell a number below the matching power of five.
pub proof fn lemma_digits_value_bound(digits: Seq<u8>, count: nat)
    requires
        count <= digits.len(),
        forall|k: int| 0 <= k < digits.len() ==> digits[k] < 5,
    ensures
        0 <= digits_value(digits, count) < pow5(count),
    decreases count,
{
    if count > 0 {
        let below = (count - 1) as nat;
        lemma_digits_value_bound(digits, below);
        lemma_pow5_positive(below);
        let p = pow5(below);
        let d = digits[count - 1] as int;
        assert(0 <= d * p <= 4 * p) by (nonlinear_arith)
            requires
                0 <= d <= 4,
                p > 0,
        ;
    }
}

/// The value of the first `count` digits does not depend on the later ones.
pub proof fn lemma_digits_value_prefix(a: Seq<u8>, b: Seq<u8>, count: nat)
    requires
        count <= a.len(),
        count <= b.len(),
        forall|k: int| 0 <= k < count ==> a[k] == b[k],
    ensures
        digits_value(a, count) == digits_value(b, count),
    decreases count,
{
    if count > 0 {
        lemma_digits_value_prefix(a, b, (count - 1) as nat);
    }
}

/// Digits spell zero exactly when all of them are zero.
pub proof fn lemma_digits_value_zero(digits: Seq<u8>, count: nat)
    requires
        count <= digits.len(),
    ensures
        digits_value(digits, count) >= 0,
        digits_value(digits, count) == 0 <==> forall|k: int| 0 <= k < count ==> digits[k] == 0,
    decreases count,
{
    if count > 0 {
        let below = (count - 1) as nat;
        lemma_digits_value_zero(digits, below);
        lemma_pow5_positive(below);
        let p = pow5(below);
        let d = digits[count - 1] as int;
        assert(d * p >= 0 && (d * p == 0 <==> d == 0)) by (nonlinear_arith)
            requires
                0 <= d,
                p > 0,
        ;
        if digits_value(digits, count) == 0 {
            assert forall|k: int| 0 <= k < count implies digits[k] == 0 by {
                if k < below {
                } else {
                    assert(k == count - 1);
                }
            }
        }
    }
}

/// The running smoothed value of a series that grows one number at a time.
pub struct Smoother {
    /// The smoothed value rounded down.
    whole: i64,
    /// The rest, a fraction over five to the power `digits.len()`, as its
    /// base-five digits, the least significant first.
    digits: Vec<u8>,
    series: Ghost<Seq<int>>,
}

impl View for Smoother {
    type V = Seq<int>;

    /// The series smoothed so far.
    closed spec fn view(&self) -> Seq<int> {
        self.series@
    }
}

impl Smoother {
    /// The whole part and the digits together are the smoothed value of the
    /// series, to the last digit.
    #[verifier::type_invariant]
    spec fn exact(self) -> bool {
        &&& self.series@.len() == self.digits@.len() + 1
        &&& forall|k: int| 0 <= k < self.digits@.len() ==> self.digits@[k] < 5
        &&& self.whole * pow5(self.digits@.len()) + digits_value(self.digits@, self.digits@.len())
            == smoothed_numerator(self.series@)
    }

    /// Starts a series with its first number.
    pub fn new(first: i64) -> (r: Smoother)
        ensures
            r@ == seq![first as int],
    {
        let series: Ghost<Seq<int>> = Ghost(Seq::<int>::empty().push(first as int));
        Smoother { whole: first, digits: Vec::new(), series }
    }

    /// Appends `value` to the series.
    pub fn push(self, value: i64) -> (r: Smoother)
        ensures
            r@ == self@.push(value as int),
    {
        proof {
            use_type_invariant(&self);
        }
        let ghost series = self.series@;
        let ghost old_digits = self.digits@;
        let whole = self.whole;
        let mut digits = self.digits;
        let m = digits.len();
        let mut carry: u8 = 0;
        let mut i: usize = 0;
        while i < m
            invariant
                i <= m,
                m == digits@.len(),
                m == old_digits.len(),
                carry <= 3,
                forall|k: int| 0 <= k < m ==> digits@[k] < 5,
                forall|k: int| 0 <= k < m ==> old_digits[k] < 5,
                forall|k: int| i <= k < m ==> digits@[k] == old_digits[k],
                4 * digits_value(old_digits, i as nat) == digits_value(digits@, i as nat) + carry
                    * pow5(i as nat),
            decreases m - i,
        {
            let ghost before = digits@;
            let ghost carry_in = carry as int;
            let x: u8 = 4 * digits[i] + carry;
            digits.set(i, x % 5);
            carry = x / 5;
            proof {
                lemma_digits_value_prefix(before, digits@, i as nat);
                let p = pow5(i as nat);
                let lo = (x % 5) as int;
                let hi = (x / 5) as int;
                let d = old_digits[i as int] as int;
                assert(pow5((i + 1) as nat) == 5 * p);
                assert(4 * (d * p) + carry_in * p == lo * p + hi * (5 * p)) by (nonlinear_arith)
                    requires
                        4 * d + carry_in == lo + 5 * hi,
                ;
            }
            i += 1;
        }
        let t: i128 = value as i128 + 4 * (whole as i128) + carry as i128;
        let mut q: i128 = t / 5;
        let mut r: i128 = t % 5;
        if r < 0 {
            q = q - 1;
            r = r + 5;
        }
        let ghost swept = digits@;
        digits.push(r as u8);
        proof {
            let p = pow5(m as nat);
            let f = digits_value(old_digits, m as nat);
            let g = digits_value(swept, m as nat);
            lemma_digits_value_prefix(swept, digits@, m as nat);
            let grown = series.push(value as int);
            assert(grown.drop_last() =~= series);
            assert(grown.last() == value as int);
            assert(smoothed_numerator(grown) == p * (value as int) + 4 * smoothed_numerator(
                series,
            ));
            assert(pow5((m + 1) as nat) == 5 * p);
            assert(q * (5 * p) + (g + r * p) == p * (value as int) + 4 * (whole * p + f))
                by (nonlinear_arith)
                requires
                    value + 4 * whole + carry == 5 * q + r,
                    4 * f == g + carry * p,
            ;
        }
        let series: Ghost<Seq<int>> = Ghost(series.push(value as int));
        Smoother { whole: q as i64, digits, series }
    }

    /// Tells whether `wait` is greater than the smoothed value of the series.
    pub fn exceeded_by(&self, wait: i64) -> (r: bool)
        ensures
            r == exceeds_smoothed(wait as int, self@),
    {
        proof {
            use_type_invariant(self);
            let m = self.digits@.len();
            let p = pow5(m);
            let f = digits_value(self.digits@, m);
            lemma_digits_value_bound(self.digits@, m);
            let w = self.whole as int;
            let e = wait as int;
            assert(e > w ==> e * p > w * p + f) by (nonlinear_arith)
                requires
                    0 <= f < p,
            {
                assert(e > w ==> e * p >= (w + 1) * p);
            }
            assert(e <= w ==> e * p <= w * p + f) by (nonlinear_arith)
                requires
                    0 <= f < p,
            ;
        }
        wait > self.whole
    }

    /// The smoothed value in whole seconds, rounded towards zero.
    pub fn seconds(&self) -> (r: i64)
        ensures
            r == smoothed_seconds(self@),
    {
        proof {
            use_type_invariant(self);
        }
        let m = self.digits.len();
        let mut whole_number: bool = true;
        let mut i: usize = 0;
        while i < m
            invariant
                i <= m,
                m == self.digits@.len(),
                whole_number <==> forall|k: int| 0 <= k < i ==> self.digits@[k] == 0,
            decreases m - i,
        {
            if self.digits[i] != 0 {
                whole_number = false;
            }
            i += 1;
        }
        proof {
            let p = pow5(m as nat);
            let f = digits_value(self.digits@, m as nat);
            let w = self.whole as int;
            let n = smoothed_numerator(self@);
            lemma_digits_value_bound(self.digits@, m as nat);
            lemma_digits_value_zero(self.digits@, m as nat);
            assert(n == w * p + f);
            vstd::arithmetic::div_mod::lemma_fundamental_div_mod_converse_div(n, p, w, f);
            assert(w >= 0 <==> n >= 0) by (nonlinear_arith)
                requires
                    n == w * p + f,
                    0 <= f < p,
            ;
            if n < 0 {
                if f == 0 {
                    assert(-n == (-w) * p + 0) by (nonlinear_arith)
                        requires
                            n == w * p + f,
                            f == 0,
                    ;
                    vstd::arithmetic::div_mod::lemma_fundamental_div_mod_converse_div(
                        -n,
                        p,
                        -w,
                        0,
                    );
                } else {
                    assert(-n == (-w - 1) * p + (p - f)) by (nonlinear_arith)
                        requires
                            n == w * p + f,
                    ;
                    vstd::arithmetic::div_mod::lemma_fundamental_div_mod_converse_div(
                        -n,
                        p,
                        -w - 1,
                        p - f,
                    );
                }
            }
        }
        if self.whole >= 0 || whole_number {
            self.whole
        } else {
            self.whole + 1
        }
    }
}

} // verus!
