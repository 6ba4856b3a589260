//! Exact rational numbers backed by machine integers.
//!
//! A `Number` stores a sign, a numerator and a positive denominator, all in
//! `u64`. Every numeric literal of the language (an optional run of digits,
//! a dot, more digits) denotes such a rational exactly, and the four
//! arithmetic operators are exact on them. An operation whose exact result
//! has a numerator or denominator beyond `u64` reports that by returning
//! `None`; the evaluator turns that into a runtime error.

use vstd::prelude::*;

verus! {

use vstd::std_specs::cmp::PartialEqSpec;

/// Ten raised to `k`, as a mathematical integer.
pub open spec fn pow10(k: nat) -> int
    decreases k,
{
    if k == 0 {
        1
    } else {
        10 * pow10((k - 1) as nat)
    }
}

/// An exact rational: `num / den`, negated when `neg` is set.
#[derive(Debug, Clone, Copy)]
pub struct Number {
    pub neg: bool,
    pub num: u64,
    pub den: u64,
}

impl Number {
    /// Well-formed: the denominator is positive and zero carries no sign.
    pub open spec fn wf(self) -> bool {
        &&& self.den >= 1
        &&& self.num == 0 ==> !self.neg
    }

    /// The signed numerator, as a mathematical integer.
    pub open spec fn v_num(self) -> int {
        if self.neg {
            -(self.num as int)
        } else {
            self.num as int
        }
    }

    /// The denominator, as a mathematical integer.
    pub open spec fn v_den(self) -> int {
        self.den as int
    }

    /// Two numbers denote the same rational value.
    pub open spec fn same_value(self, other: Number) -> bool {
        self.v_num() * other.v_den() == other.v_num() * self.v_den()
    }

    pub fn zero() -> (r: Number)
        ensures
            r.wf(),
            r.v_num() == 0,
            r.v_den() == 1,
    {
        Number { neg: false, num: 0, den: 1 }
    }

    pub fn from_integer(i: u64) -> (r: Number)
        ensures
            r.wf(),
            r.v_num() == i,
            r.v_den() == 1,
    {
        Number { neg: false, num: i, den: 1 }
    }

    /// The value `whole.frac` with `frac_digits` digits after the dot,
    /// or `None` when that decimal does not fit the representation.
    pub fn from_decimal(whole: u64, frac: u64, frac_digits: u32) -> (r: Option<Number>)
        ensures
            ({
                let p = pow10(frac_digits as nat);
                let n = whole * p + frac;
                if n <= u64::MAX && p <= u64::MAX {
                    r == Some((Number { neg: false, num: n as u64, den: p as u64 }))
                } else {
                    r is None
                }
            }),
    {
        let p = match pow10_u64(frac_digits) {
            Some(p) => p,
            None => {
                proof {
                    lemma_big_pow10(frac_digits as nat);
                }
                return None;
            },
        };
        let scaled = match whole.checked_mul(p) {
            Some(s) => s,
            None => {
                proof {
                    vstd::arithmetic::mul::lemma_mul_is_commutative(whole as int, p as int);
                }
                return None;
            },
        };
        match scaled.checked_add(frac) {
            Some(n) => Some(Number { neg: false, num: n, den: p }),
            None => None,
        }
    }

    pub open spec fn is_zero_spec(self) -> bool {
        self.num == 0
    }

    pub fn is_zero(&self) -> (r: bool)
        ensures
            r == self.is_zero_spec(),
            r == (self.v_num() == 0),
    {
        self.num == 0
    }

    /// The same magnitude with the opposite sign; zero stays unsigned.
    pub fn negated(&self) -> (r: Number)
        requires
            self.wf(),
        ensures
            r.wf(),
            r.v_num() == -self.v_num(),
            r.v_den() == self.v_den(),
    {
        if self.num == 0 {
            Number { neg: false, num: 0, den: self.den }
        } else {
            Number { neg: !self.neg, num: self.num, den: self.den }
        }
    }

    /// The exact sum, or `None` when its plain cross-multiplied form
    /// (`a.num*b.den + b.num*a.den` over `a.den*b.den`) leaves `u64`.
    pub fn checked_add(&self, other: &Number) -> (r: Option<Number>)
        requires
            self.wf(),
            other.wf(),
        ensures
            ({
                let rn = self.v_num() * other.v_den() + other.v_num() * self.v_den();
                let rd = self.v_den() * other.v_den();
                if -(u64::MAX as int) <= rn <= u64::MAX && rd <= u64::MAX {
                    r matches Some(x) && x.wf() && x.v_num() == rn && x.v_den() == rd
                } else {
                    r is None
                }
            }),
    {
        proof {
            lemma_u64_mul_fits(self.num, other.den);
            lemma_u64_mul_fits(other.num, self.den);
            lemma_u64_mul_fits(self.den, other.den);
            lemma_signed_cross(*self, *other);
            lemma_signed_cross(*other, *self);
            lemma_den_pos(self.den as int, other.den as int);
        }
        let m1: u128 = (self.num as u128) * (other.den as u128);
        let m2: u128 = (other.num as u128) * (self.den as u128);
        let d: u128 = (self.den as u128) * (other.den as u128);
        if d > u64::MAX as u128 {
            return None;
        }
        let (neg, mag): (bool, u128) = if self.neg == other.neg {
            match m1.checked_add(m2) {
                Some(s) => (self.neg, s),
                None => {
                    return None;
                },
            }
        } else if m1 >= m2 {
            (self.neg, m1 - m2)
        } else {
            (other.neg, m2 - m1)
        };
        if mag > u64::MAX as u128 {
            return None;
        }
        let neg = if mag == 0 {
            false
        } else {
            neg
        };
        Some(Number { neg, num: mag as u64, den: d as u64 })
    }

    /// The exact difference, computed as the sum with the negated operand.
    pub fn checked_sub(&self, other: &Number) -> (r: Option<Number>)
        requires
            self.wf(),
            other.wf(),
        ensures
            ({
                let rn = self.v_num() * other.v_den() - other.v_num() * self.v_den();
                let rd = self.v_den() * other.v_den();
                if -(u64::MAX as int) <= rn <= u64::MAX && rd <= u64::MAX {
                    r matches Some(x) && x.wf() && x.v_num() == rn && x.v_den() == rd
                } else {
                    r is None
                }
            }),
    {
        let flipped = other.negated();
        proof {
            assert((-other.v_num()) * self.v_den() == -(other.v_num() * self.v_den()))
                by (nonlinear_arith);
        }
        self.checked_add(&flipped)
    }

    /// The exact product, or `None` when `a.num*b.num` or `a.den*b.den`
    /// leaves `u64`.
    pub fn checked_mul(&self, other: &Number) -> (r: Option<Number>)
        requires
            self.wf(),
            other.wf(),
        ensures
            ({
                let rn = self.v_num() * other.v_num();
                let rd = self.v_den() * other.v_den();
                if -(u64::MAX as int) <= rn <= u64::MAX && rd <= u64::MAX {
                    r matches Some(x) && x.wf() && x.v_num() == rn && x.v_den() == rd
                } else {
                    r is None
                }
            }),
    {
        proof {
            lemma_u64_mul_fits(self.num, other.num);
            lemma_u64_mul_fits(self.den, other.den);
            lemma_sign_product(self.num as int, other.num as int, self.neg, other.neg);
            lemma_den_pos(self.den as int, other.den as int);
        }
        let m: u128 = (self.num as u128) * (other.num as u128);
        let d: u128 = (self.den as u128) * (other.den as u128);
        if m > u64::MAX as u128 || d > u64::MAX as u128 {
            return None;
        }
        let neg = if m == 0 {
            false
        } else {
            self.neg != other.neg
        };
        Some(Number { neg, num: m as u64, den: d as u64 })
    }

    /// The exact quotient `self / other` for a non-zero `other`, or `None`
    /// when `a.num*b.den` or `a.den*b.num` leaves `u64`.
    pub fn checked_div(&self, other: &Number) -> (r: Option<Number>)
        requires
            self.wf(),
            other.wf(),
            other.v_num() != 0,
        ensures
            ({
                let rn = if other.neg {
                    -(self.v_num() * other.v_den())
                } else {
                    self.v_num() * other.v_den()
                };
                let rd = self.v_den() * (other.num as int);
                if -(u64::MAX as int) <= rn <= u64::MAX && rd <= u64::MAX {
                    r matches Some(x) && x.wf() && x.v_num() == rn && x.v_den() == rd
                } else {
                    r is None
                }
            }),
    {
        proof {
            lemma_u64_mul_fits(self.num, other.den);
            lemma_u64_mul_fits(self.den, other.num);
            lemma_signed_cross(*self, *other);
            lemma_den_pos(self.den as int, other.num as int);
        }
        let m: u128 = (self.num as u128) * (other.den as u128);
        let d: u128 = (self.den as u128) * (other.num as u128);
        if m > u64::MAX as u128 || d > u64::MAX as u128 {
            return None;
        }
        let neg = if m == 0 {
            false
        } else {
            self.neg != other.neg
        };
        Some(Number { neg, num: m as u64, den: d as u64 })
    }

    /// Strictly less, by cross multiplication against positive denominators.
    pub fn lt(&self, other: &Number) -> (r: bool)
        requires
            self.wf(),
            other.wf(),
        ensures
            r == (self.v_num() * other.v_den() < other.v_num() * self.v_den()),
    {
        proof {
            lemma_u64_mul_fits(self.num, other.den);
            lemma_u64_mul_fits(other.num, self.den);
            lemma_signed_cross(*self, *other);
            lemma_signed_cross(*other, *self);
        }
        let m1: u128 = (self.num as u128) * (other.den as u128);
        let m2: u128 = (other.num as u128) * (self.den as u128);
        match (self.neg, other.neg) {
            (false, false) => m1 < m2,
            (true, true) => m2 < m1,
            (true, false) => !(m1 == 0 && m2 == 0),
            (false, true) => false,
        }
    }

    /// Less or equal, by cross multiplication against positive denominators.
    pub fn le(&self, other: &Number) -> (r: bool)
        requires
            self.wf(),
            other.wf(),
        ensures
            r == (self.v_num() * other.v_den() <= other.v_num() * self.v_den()),
    {
        !other.lt(self)
    }
}

/// The character for a single decimal digit.
pub open spec fn digit_char(d: nat) -> char {
    if d == 0 {
        '0'
    } else if d == 1 {
        '1'
    } else if d == 2 {
        '2'
    } else if d == 3 {
        '3'
    } else if d == 4 {
        '4'
    } else if d == 5 {
        '5'
    } else if d == 6 {
        '6'
    } else if d == 7 {
        '7'
    } else if d == 8 {
        '8'
    } else {
        '9'
    }
}

/// The decimal digits of `n`, most significant first.
pub open spec fn dec_digits(n: nat) -> Seq<char>
    decreases n,
{
    if n < 10 {
        seq![digit_char(n)]
    } else {
        dec_digits(n / 10).push(digit_char(n % 10))
    }
}

/// The digits after the decimal point of `rem / den`, or `None` when the
/// expansion does not terminate within `fuel` digits.
pub open spec fn frac_digit_seq(rem: nat, den: nat, fuel: nat) -> Option<Seq<char>>
    recommends
        1 <= den,
        rem < den,
    decreases fuel,
{
    if rem == 0 {
        Some(Seq::empty())
    } else if fuel == 0 {
        None
    } else {
        match frac_digit_seq((rem * 10) % den, den, (fuel - 1) as nat) {
            Some(rest) => Some(seq![digit_char((rem * 10) / den)] + rest),
            None => None,
        }
    }
}

/// How many fractional digits the renderer is willing to produce before it
/// falls back to the `num/den` form.
pub open spec fn render_fuel() -> nat {
    64
}

/// The textual form of a number: its exact decimal expansion when that
/// terminates, else `num/den`; `trailing_zero` asks for `.0` after a whole
/// number, matching the debug form of floating-point values.
pub open spec fn render_spec(x: Number, trailing_zero: bool) -> Seq<char>
    recommends
        x.wf(),
{
    let sign = if x.neg {
        seq!['-']
    } else {
        Seq::<char>::empty()
    };
    let q = (x.num as nat) / (x.den as nat);
    let rem = (x.num as nat) % (x.den as nat);
    match frac_digit_seq(rem, x.den as nat, render_fuel()) {
        Some(ds) => if ds.len() == 0 {
            if trailing_zero {
                sign + dec_digits(q) + seq!['.', '0']
            } else {
                sign + dec_digits(q)
            }
        } else {
            sign + dec_digits(q) + seq!['.'] + ds
        },
        None => sign + dec_digits(x.num as nat) + seq!['/'] + dec_digits(x.den as nat),
    }
}

impl Number {
    /// The decimal text of this number, as the evaluator prints it:
    /// `42` stays `42`, `45.67` stays `45.67`.
    pub fn display_string(&self) -> (r: String)
        requires
            self.wf(),
        ensures
            r@ == render_spec(*self, false),
    {
        self.render(false)
    }

    /// The debug text of this number: whole values carry a trailing `.0`,
    /// as in `42.0`.
    pub fn debug_string(&self) -> (r: String)
        requires
            self.wf(),
        ensures
            r@ == render_spec(*self, true),
    {
        self.render(true)
    }

    fn render(&self, trailing_zero: bool) -> (r: String)
        requires
            self.wf(),
        ensures
            r@ == render_spec(*self, trailing_zero),
    {
        let q: u64 = self.num / self.den;
        let rem: u64 = self.num % self.den;
        let mut out = String::new();
        if self.neg {
            out.append("-");
            proof {
                reveal_strlit("-");
                assert("-"@ =~= seq!['-']);
            }
        }
        let mut frac = String::new();
        let ok = push_frac_digits(&mut frac, rem, self.den, 64);
        if ok {
            push_dec_u64(&mut out, q);
            if rem != 0 {
                out.append(".");
                proof {
                    reveal_strlit(".");
                    assert("."@ =~= seq!['.']);
                }
                out.append(frac.as_str());
            } else if trailing_zero {
                out.append(".0");
                proof {
                    reveal_strlit(".0");
                    assert(".0"@ =~= seq!['.', '0']);
                }
            }
        } else {
            push_dec_u64(&mut out, self.num);
            out.append("/");
            proof {
                reveal_strlit("/");
                assert("/"@ =~= seq!['/']);
            }
            push_dec_u64(&mut out, self.den);
        }
        proof {
            assert(out@ =~= render_spec(*self, trailing_zero));
        }
        out
    }
}

/// Append one decimal digit.
fn push_digit(out: &mut String, d: u64)
    requires
        d < 10,
    ensures
        final(out)@ == old(out)@ + seq![digit_char(d as nat)],
{
    if d == 0 {
        out.append("0");
        proof {
            reveal_strlit("0");
            assert("0"@ =~= seq!['0']);
        }
    } else if d == 1 {
        out.append("1");
        proof {
            reveal_strlit("1");
            assert("1"@ =~= seq!['1']);
        }
    } else if d == 2 {
        out.append("2");
        proof {
            reveal_strlit("2");
            assert("2"@ =~= seq!['2']);
        }
    } else if d == 3 {
        out.append("3");
        proof {
            reveal_strlit("3");
            assert("3"@ =~= seq!['3']);
        }
    } else if d == 4 {
        out.append("4");
        proof {
            reveal_strlit("4");
            assert("4"@ =~= seq!['4']);
        }
    } else if d == 5 {
        out.append("5");
        proof {
            reveal_strlit("5");
            assert("5"@ =~= seq!['5']);
        }
    } else if d == 6 {
        out.append("6");
        proof {
            reveal_strlit("6");
            assert("6"@ =~= seq!['6']);
        }
    } else if d == 7 {
        out.append("7");
        proof {
            reveal_strlit("7");
            assert("7"@ =~= seq!['7']);
        }
    } else if d == 8 {
        out.append("8");
        proof {
            reveal_strlit("8");
            assert("8"@ =~= seq!['8']);
        }
    } else {
        out.append("9");
        proof {
            reveal_strlit("9");
            assert("9"@ =~= seq!['9']);
        }
    }
}

/// Append the decimal digits of `n`.
fn push_dec_u64(out: &mut String, n: u64)
    ensures
        final(out)@ == old(out)@ + dec_digits(n as nat),
    decreases n,
{
    if n >= 10 {
        push_dec_u64(out, n / 10);
        push_digit(out, n % 10);
    } else {
        push_digit(out, n);
    }
}

/// Append the fractional expansion of `rem / den`; reports `false`, leaving
/// the text unspecified, when the expansion outruns the given fuel.
fn push_frac_digits(out: &mut String, rem: u64, den: u64, fuel: u32) -> (ok: bool)
    requires
        1 <= den,
        rem < den,
    ensures
        ok == (frac_digit_seq(rem as nat, den as nat, fuel as nat) is Some),
        ok ==> final(out)@ == old(out)@ + frac_digit_seq(
            rem as nat,
            den as nat,
            fuel as nat,
        )->Some_0,
    decreases fuel,
{
    if rem == 0 {
        return true;
    }
    if fuel == 0 {
        return false;
    }
    proof {
        lemma_u64_mul_fits(rem, 10);
        lemma_frac_step(rem as nat, den as nat);
    }
    let r10: u128 = (rem as u128) * 10;
    let digit: u64 = (r10 / (den as u128)) as u64;
    let next: u64 = (r10 % (den as u128)) as u64;
    push_digit(out, digit);
    push_frac_digits(out, next, den, fuel - 1)
}

/// One step of a decimal expansion: the next digit is below ten and the
/// next remainder stays below the denominator.
proof fn lemma_frac_step(rem: nat, den: nat)
    requires
        1 <= den,
        rem < den,
    ensures
        (rem * 10) / den < 10,
        (rem * 10) % den < den,
        rem * 10 <= 10 * den,
{
    assert(rem * 10 < 10 * den) by (nonlinear_arith)
        requires
            rem < den,
    ;
    assert((rem * 10) / den < 10) by (nonlinear_arith)
        requires
            1 <= den,
            rem * 10 < 10 * den,
    ;
    assert((rem * 10) % den < den) by (nonlinear_arith)
        requires
            1 <= den,
    ;
}

impl PartialEq for Number {
    /// Value equality: equal signs and equal cross products.
    fn eq(&self, other: &Number) -> (r: bool) {
        proof {
            lemma_u64_mul_fits(self.num, other.den);
            lemma_u64_mul_fits(other.num, self.den);
        }
        let m1: u128 = (self.num as u128) * (other.den as u128);
        let m2: u128 = (other.num as u128) * (self.den as u128);
        self.neg == other.neg && m1 == m2
    }
}

impl vstd::std_specs::cmp::PartialEqSpecImpl for Number {
    open spec fn obeys_eq_spec() -> bool {
        true
    }

    open spec fn eq_spec(&self, other: &Number) -> bool {
        self.neg == other.neg && self.num * other.den == other.num * self.den
    }
}

/// For well-formed numbers, `==` coincides with rational value equality.
pub proof fn lemma_eq_is_same_value(a: Number, b: Number)
    requires
        a.wf(),
        b.wf(),
    ensures
        a.eq_spec(&b) == a.same_value(b),
{
    lemma_signed_cross(a, b);
    lemma_signed_cross(b, a);
    lemma_u64_mul_fits(a.num, b.den);
    lemma_u64_mul_fits(b.num, a.den);
    if a.neg != b.neg {
        // Opposite signs: the values agree only when both cross products
        // vanish, and well-formedness then forbids differing signs.
        if a.same_value(b) {
            lemma_zero_product(a.num as int, b.den as int);
            lemma_zero_product(b.num as int, a.den as int);
        }
    }
}

/// A product of a non-negative and a positive integer vanishes only when
/// the first factor does.
proof fn lemma_zero_product(x: int, y: int)
    requires
        x >= 0,
        y >= 1,
    ensures
        x * y == 0 ==> x == 0,
{
    if x >= 1 {
        assert(x * y >= 1 * 1) by (nonlinear_arith)
            requires
                x >= 1,
                y >= 1,
        ;
    }
}

/// The signed cross product `a.v_num() * b.v_den()` in terms of magnitudes.
proof fn lemma_signed_cross(a: Number, b: Number)
    ensures
        a.v_num() * b.v_den() == if a.neg {
            -((a.num as int) * (b.den as int))
        } else {
            (a.num as int) * (b.den as int)
        },
{
    if a.neg {
        assert(-(a.num as int) * (b.den as int) == -((a.num as int) * (b.den as int)))
            by (nonlinear_arith);
    }
}

/// A product of two `u64` magnitudes fits in `u128`.
proof fn lemma_u64_mul_fits(a: u64, b: u64)
    ensures
        (a as int) * (b as int) <= u128::MAX,
        (a as int) * (b as int) >= 0,
{
    vstd::arithmetic::mul::lemma_mul_upper_bound(a as int, u64::MAX as int, b as int, u64::MAX as int);
    vstd::arithmetic::mul::lemma_mul_nonnegative(a as int, b as int);
}

/// Signed product in terms of magnitudes and signs.
proof fn lemma_sign_product(ma: int, mb: int, na: bool, nb: bool)
    ensures
        (if na { -ma } else { ma }) * (if nb { -mb } else { mb }) == (if na == nb {
            ma * mb
        } else {
            -(ma * mb)
        }),
{
    assert((-ma) * (-mb) == ma * mb) by (nonlinear_arith);
    assert((-ma) * mb == -(ma * mb)) by (nonlinear_arith);
    assert(ma * (-mb) == -(ma * mb)) by (nonlinear_arith);
}

/// A product of two positive integers is positive.
proof fn lemma_den_pos(a: int, b: int)
    requires
        a >= 1,
        b >= 1,
    ensures
        a * b >= 1,
{
    assert(a * b >= 1 * 1) by (nonlinear_arith)
        requires
            a >= 1,
            b >= 1,
    ;
}

/// Ten to a power beyond nineteen no longer fits in `u64`.
proof fn lemma_big_pow10(k: nat)
    ensures
        k >= 20 ==> pow10(k) > u64::MAX,
        pow10(k) >= 1,
    decreases k,
{
    if k > 0 {
        lemma_big_pow10((k - 1) as nat);
        assert(pow10(k) == 10 * pow10((k - 1) as nat));
        if k == 20 {
            assert(pow10(20) > u64::MAX) by {
                reveal_with_fuel(pow10, 21);
            }
        }
    }
}

/// Ten to the `k`, or `None` when that leaves `u64` (`k > 19`).
fn pow10_u64(k: u32) -> (r: Option<u64>)
    ensures
        match r {
            Some(p) => p == pow10(k as nat) && pow10(k as nat) <= u64::MAX,
            None => pow10(k as nat) > u64::MAX,
        },
{
    let mut i: u32 = 0;
    let mut acc: u64 = 1;
    while i < k
        invariant
            0 <= i <= k,
            acc == pow10(i as nat),
            acc <= u64::MAX,
        decreases k - i,
    {
        proof {
            lemma_big_pow10((i + 1) as nat);
        }
        acc = match acc.checked_mul(10) {
            Some(a) => a,
            None => {
                proof {
                    lemma_pow10_mono((i + 1) as nat, k as nat);
                }
                return None;
            },
        };
        i = i + 1;
    }
    Some(acc)
}

/// Powers of ten grow with the exponent.
proof fn lemma_pow10_mono(j: nat, k: nat)
    ensures
        j <= k ==> pow10(j) <= pow10(k),
        pow10(k) >= 1,
    decreases k,
{
    if k > 0 {
        lemma_pow10_mono(j, (k - 1) as nat);
        lemma_big_pow10(k);
        if j <= k - 1 {
            assert(pow10((k - 1) as nat) <= 10 * pow10((k - 1) as nat)) by (nonlinear_arith)
                requires
                    pow10((k - 1) as nat) >= 1,
            ;
        }
    } else {
        lemma_big_pow10(k);
    }
}

} // verus!
