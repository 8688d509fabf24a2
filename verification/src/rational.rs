//! Exact rational amounts, backed by `num_rational`.
use vstd::prelude::*;

verus! {

/// A mathematical fraction: the meaning of a `Rational64`.
pub struct Fraction {
    pub num: int,
    pub den: int,
}

impl Fraction {
    /// Two fractions with positive denominators denote the same rational number.
    pub open spec fn eqv(self, other: Fraction) -> bool {
        self.num * other.den == other.num * self.den
    }

    pub open spec fn add(self, other: Fraction) -> Fraction {
        Fraction { num: self.num * other.den + other.num * self.den, den: self.den * other.den }
    }

    pub open spec fn neg(self) -> Fraction {
        Fraction { num: -self.num, den: self.den }
    }

    pub open spec fn scale(self, k: int) -> Fraction {
        Fraction { num: self.num * k, den: self.den }
    }

    pub open spec fn div_int(self, k: int) -> Fraction {
        Fraction { num: self.num, den: self.den * k }
    }

    pub open spec fn from_int(n: int) -> Fraction {
        Fraction { num: n, den: 1 }
    }

    pub open spec fn valid(self) -> bool {
        self.den > 0
    }
}

/// Greatest common divisor.
pub open spec fn gcd(a: nat, b: nat) -> nat
    decreases b,
{
    if b == 0 {
        a
    } else {
        gcd(b, a % b)
    }
}

/// The fraction in lowest terms: numerator and denominator divided by their
/// greatest common divisor. For a positive denominator this is the unique
/// representation with coprime parts and a positive denominator.
pub open spec fn lowest_terms(f: Fraction) -> Fraction {
    let g = gcd(abs_int(f.num) as nat, f.den as nat) as int;
    Fraction { num: f.num / g, den: f.den / g }
}

/// The greatest common divisor divides both numbers, and is positive unless
/// both are zero.
pub proof fn lemma_gcd_divides(a: nat, b: nat) -> (q: (int, int))
    ensures
        a == q.0 * gcd(a, b),
        b == q.1 * gcd(a, b),
        (a > 0 || b > 0) ==> gcd(a, b) > 0,
    decreases b,
{
    if b == 0 {
        (1, 0)
    } else {
        let (qb, qr) = lemma_gcd_divides(b, a % b);
        let g = gcd(b, a % b) as int;
        vstd::arithmetic::div_mod::lemma_fundamental_div_mod(a as int, b as int);
        let k = (a / b) as int;
        let r = (a % b) as int;
        assert(a == (k * qb + qr) * g) by (nonlinear_arith)
            requires
                a == b * k + r,
                b == qb * g,
                r == qr * g,
        ;
        (k * qb + qr, qb)
    }
}

/// Scaling both numbers scales their remainder.
proof fn lemma_mod_scale(a: nat, b: nat, k: nat)
    requires
        b > 0,
        k > 0,
    ensures
        (k * a) % (k * b) == k * (a % b),
{
    vstd::arithmetic::div_mod::lemma_fundamental_div_mod(a as int, b as int);
    let q = (a / b) as int;
    let r = (a % b) as int;
    assert(0 <= r < b);
    assert(k * a == q * (k * b) + k * r && 0 <= k * r && k * r < k * b) by (nonlinear_arith)
        requires
            a == b * q + r,
            0 <= r < b,
            k > 0,
    ;
    vstd::arithmetic::div_mod::lemma_fundamental_div_mod_converse((k * a) as int, (k * b) as int, q, k * r);
}

/// Scaling both numbers scales their greatest common divisor.
pub proof fn lemma_gcd_scale(a: nat, b: nat, k: nat)
    requires
        k > 0,
    ensures
        gcd(k * a, k * b) == k * gcd(a, b),
    decreases b,
{
    if b > 0 {
        assert(k * b > 0) by (nonlinear_arith)
            requires
                k > 0,
                b > 0,
        ;
        lemma_mod_scale(a, b, k);
        assert((k * a) % (k * b) == k * (a % b));
        lemma_gcd_scale(b, a % b, k);
        assert(gcd(k * a, k * b) == gcd(k * b, (k * a) % (k * b)));
    } else {
        assert(k * b == 0) by (nonlinear_arith)
            requires
                b == 0,
        ;
    }
}

/// Lowest terms of a negation are the negated lowest terms.
pub proof fn lemma_lowest_terms_neg(f: Fraction)
    requires
        f.valid(),
    ensures
        lowest_terms(f.neg()) == lowest_terms(f).neg(),
{
    let g = gcd(abs_int(f.num) as nat, f.den as nat) as int;
    assert(abs_int(f.neg().num) == abs_int(f.num));
    let (qn, qd) = lemma_gcd_divides(abs_int(f.num) as nat, f.den as nat);
    let m = if f.num < 0 { -qn } else { qn };
    assert(f.num == g * m && -f.num == g * (-m)) by (nonlinear_arith)
        requires
            abs_int(f.num) == qn * g,
            m == (if f.num < 0 { -qn } else { qn }),
            abs_int(f.num) == (if f.num < 0 { -f.num } else { f.num }),
    ;
    vstd::arithmetic::div_mod::lemma_div_multiples_vanish(m, g);
    vstd::arithmetic::div_mod::lemma_div_multiples_vanish(-m, g);
}

/// Any positive number has greatest common divisor one with one.
pub proof fn lemma_gcd_with_one(a: nat)
    ensures
        gcd(a, 1) == 1,
{
    assert(a % 1 == 0);
    assert(gcd(1, 0) == 1);
}

/// Lowest terms denote the same number, with parts no larger in size.
pub proof fn lemma_lowest_terms(f: Fraction)
    requires
        f.valid(),
    ensures
        lowest_terms(f).valid(),
        lowest_terms(f).eqv(f),
        abs_int(lowest_terms(f).num) <= abs_int(f.num),
        lowest_terms(f).den <= f.den,
        gcd(abs_int(lowest_terms(f).num) as nat, lowest_terms(f).den as nat) == 1,
{
    let g = gcd(abs_int(f.num) as nat, f.den as nat) as int;
    let (qn, qd) = lemma_gcd_divides(abs_int(f.num) as nat, f.den as nat);
    let m = if f.num < 0 { -qn } else { qn };
    assert(abs_int(f.num) == qn * g);
    assert(f.num == g * m) by (nonlinear_arith)
        requires
            abs_int(f.num) == qn * g,
            m == (if f.num < 0 { -qn } else { qn }),
            abs_int(f.num) == (if f.num < 0 { -f.num } else { f.num }),
    ;
    assert(f.den == g * qd) by (nonlinear_arith)
        requires
            f.den == qd * g,
    ;
    vstd::arithmetic::div_mod::lemma_div_multiples_vanish(m, g);
    vstd::arithmetic::div_mod::lemma_div_multiples_vanish(qd, g);
    assert(f.num / g == m);
    assert(f.den / g == qd);
    assert(qd > 0) by (nonlinear_arith)
        requires
            f.den == qd * g,
            f.den > 0,
            g > 0,
    ;
    assert(m * f.den == f.num * qd) by (nonlinear_arith)
        requires
            f.num == m * g,
            f.den == qd * g,
    ;
    assert(abs_int(m) <= abs_int(f.num)) by (nonlinear_arith)
        requires
            f.num == m * g,
            g >= 1,
    ;
    assert(qd <= f.den) by (nonlinear_arith)
        requires
            f.den == qd * g,
            g >= 1,
            qd > 0,
    ;
    assert(qn >= 0) by (nonlinear_arith)
        requires
            abs_int(f.num) == qn * g,
            abs_int(f.num) >= 0,
            g > 0,
    ;
    assert(abs_int(m) == qn);
    lemma_gcd_scale(qn as nat, qd as nat, g as nat);
    assert(g * qn == abs_int(f.num) && g * qd == f.den) by (nonlinear_arith)
        requires
            abs_int(f.num) == qn * g,
            f.den == qd * g,
    ;
    assert(g * gcd(qn as nat, qd as nat) == g);
    assert(gcd(qn as nat, qd as nat) == 1) by (nonlinear_arith)
        requires
            g * gcd(qn as nat, qd as nat) == g,
            g > 0,
    ;
}

/// A rational number with 64-bit numerator and denominator, as
/// `num_rational::Rational64` holds it: the denominator is always positive.
#[derive(Clone, Copy, Debug, PartialEq, Eq, Hash)]
pub struct Rational64 {
    numer: i64,
    denom: i64,
}

impl Rational64 {
    /// In lowest terms with a positive denominator, as `num_rational` keeps it:
    /// every value denotes a rational number, and equal numbers are equal
    /// values.
    #[verifier::type_invariant]
    spec fn in_lowest_terms(self) -> bool {
        &&& self.denom > 0
        &&& gcd(abs_int(self.numer as int) as nat, self.denom as nat) == 1
    }

    pub closed spec fn spec_numer(&self) -> i64 {
        self.numer
    }

    pub closed spec fn spec_denom(&self) -> i64 {
        self.denom
    }

    /// The rational number this value denotes.
    pub open spec fn frac(self) -> Fraction {
        Fraction { num: self.spec_numer() as int, den: self.spec_denom() as int }
    }

    #[verifier::when_used_as_spec(spec_numer)]
    pub fn numer(&self) -> (n: i64)
        ensures
            n == self.spec_numer(),
    {
        self.numer
    }

    /// Every value is in lowest terms with a positive denominator. Nothing
    /// happens at run time; a caller learns the invariant for `self`.
    pub fn canonical(&self)
        ensures
            self.frac().valid(),
            gcd(abs_int(self.frac().num) as nat, self.frac().den as nat) == 1,
            lowest_terms(self.frac()) == self.frac(),
    {
        proof { use_type_invariant(self); }
    }

    #[verifier::when_used_as_spec(spec_denom)]
    pub fn denom(&self) -> (d: i64)
        ensures
            d == self.spec_denom(),
            d > 0,
    {
        proof { use_type_invariant(self); }
        self.denom
    }
}

/// `numer / denom` written with a positive denominator.
pub open spec fn positive_form(numer: int, denom: int) -> Fraction {
    if denom > 0 {
        Fraction { num: numer, den: denom }
    } else {
        Fraction { num: -numer, den: -denom }
    }
}

/// Exactly the pairs that `Ratio::new` reduces without overflowing `i64`: a
/// non-zero denominator, and no negation of `i64::MIN` when a negative
/// denominator is made positive (which happens only for parts already
/// coprime).
pub open spec fn reduce_fits(numer: int, denom: int) -> bool {
    &&& denom != 0
    &&& !(denom < 0 && numer != 0 && numer != denom && gcd(abs_int(numer) as nat, abs_int(denom) as nat)
        == 1 && (numer == i64::MIN || denom == i64::MIN))
}

/// `num_rational::Ratio::new`. The claim: on the pairs it reduces without
/// overflowing, it returns `numer / denom` in lowest terms with a positive
/// denominator.
#[verifier::external_body]
fn ratio_new(numer: i64, denom: i64) -> (r: (i64, i64))
    requires
        reduce_fits(numer as int, denom as int),
    ensures
        (Fraction { num: r.0 as int, den: r.1 as int }) == lowest_terms(positive_form(numer as int, denom as int)),
{
    num_rational::Ratio::new(numer, denom).into_raw()
}

impl Rational64 {
    /// The rational `numer / denom` in lowest terms.
    pub fn new(numer: i64, denom: i64) -> (r: Rational64)
        requires
            reduce_fits(numer as int, denom as int),
        ensures
            r.frac() == lowest_terms(positive_form(numer as int, denom as int)),
            r.frac().eqv(Fraction { num: numer as int, den: denom as int }),
    {
        let (n, d) = ratio_new(numer, denom);
        proof {
            let pf = positive_form(numer as int, denom as int);
            let f = Fraction { num: numer as int, den: denom as int };
            lemma_lowest_terms(pf);
            assert(pf.eqv(f)) by (nonlinear_arith)
                requires
                    pf == positive_form(f.num, f.den),
            ;
            lemma_eqv_trans(lowest_terms(pf), pf, f);
        }
        Rational64 { numer: n, denom: d }
    }
}


/// The integer fits in an `i64`.
pub open spec fn in_i64(x: int) -> bool {
    i64::MIN <= x && x <= i64::MAX
}

pub open spec fn abs_int(x: int) -> int {
    if x < 0 { -x } else { x }
}

/// The least common multiple of two positive numbers, as `num_integer`
/// computes it: `a * (b / gcd(a, b))`.
pub open spec fn lcm(a: int, b: int) -> int {
    a * (b / gcd(a as nat, b as nat) as int)
}

/// Exactly the amounts (with positive denominators) that `num_rational` adds
/// without overflowing `i64`: over a common denominator it adds the
/// numerators; otherwise it brings both to their least common denominator,
/// which, the scaled numerators and their sum must fit.
pub open spec fn add_fits(a: Fraction, b: Fraction) -> bool {
    if a.den == b.den {
        in_i64(a.num + b.num)
    } else {
        let l = lcm(a.den, b.den);
        &&& l <= i64::MAX
        &&& in_i64(a.num * (l / a.den))
        &&& in_i64(b.num * (l / b.den))
        &&& in_i64(a.num * (l / a.den) + b.num * (l / b.den))
    }
}

/// Exactly the amounts `a` and integers `k` that `num_rational` multiplies
/// without overflowing `i64`: the numerator times `k` divided by the common
/// factor of `k` and the denominator must fit.
pub open spec fn mul_fits(a: Fraction, k: int) -> bool {
    in_i64(a.num * (k / gcd(a.den as nat, abs_int(k) as nat) as int))
}

/// Exactly the amounts `a` and integers `k` that `num_rational` divides
/// without overflowing `i64`: it cancels the common factor of the numerator
/// and `k`, multiplies the denominator by what is left of `k`, and reduces
/// the pair; `k` is not zero, and the common factor of zero or `i64::MIN`
/// with `i64::MIN` is not computed.
pub open spec fn div_fits(a: Fraction, k: int) -> bool {
    let g = gcd(abs_int(a.num) as nat, abs_int(k) as nat) as int;
    &&& k != 0
    &&& !(k == i64::MIN && (a.num == 0 || a.num == i64::MIN))
    &&& in_i64(a.den * (k / g))
    &&& reduce_fits(a.num / g, a.den * (k / g))
}

/// Three amounts can be added left to right: the first two, then their sum
/// and the third.
pub open spec fn sum3_fits(a: Fraction, b: Fraction, c: Fraction) -> bool {
    &&& add_fits(a, b)
    &&& add_fits(lowest_terms(a.add(b)), c)
}

/// `<Ratio<i64> as Add>::add`. The claim: on the inputs where it does not
/// overflow, it returns the sum `a + b` in lowest terms.
#[verifier::external_body]
fn ratio_add(a: (i64, i64), b: (i64, i64)) -> (r: (i64, i64))
    requires
        a.1 > 0,
        b.1 > 0,
        add_fits(Fraction { num: a.0 as int, den: a.1 as int }, Fraction { num: b.0 as int, den: b.1 as int }),
    ensures
        (Fraction { num: r.0 as int, den: r.1 as int }) == lowest_terms(
            Fraction { num: a.0 as int, den: a.1 as int }.add(Fraction { num: b.0 as int, den: b.1 as int }),
        ),
{
    (num_rational::Ratio::new_raw(a.0, a.1) + num_rational::Ratio::new_raw(b.0, b.1)).into_raw()
}

/// `<Ratio<i64> as Mul<i64>>::mul`. The claim: on the inputs where it does
/// not overflow, it returns the product `a * k` in lowest terms.
#[verifier::external_body]
fn ratio_mul_integer(a: (i64, i64), k: i64) -> (r: (i64, i64))
    requires
        a.1 > 0,
        mul_fits(Fraction { num: a.0 as int, den: a.1 as int }, k as int),
    ensures
        (Fraction { num: r.0 as int, den: r.1 as int }) == lowest_terms(
            Fraction { num: a.0 * k, den: a.1 as int },
        ),
{
    (num_rational::Ratio::new_raw(a.0, a.1) * k).into_raw()
}

/// `<Ratio<i64> as Div<i64>>::div`. The claim: on the inputs where it does
/// not overflow, it returns the quotient `a / k` in lowest terms with a
/// positive denominator.
#[verifier::external_body]
fn ratio_div_integer(a: (i64, i64), k: i64) -> (r: (i64, i64))
    requires
        a.1 > 0,
        div_fits(Fraction { num: a.0 as int, den: a.1 as int }, k as int),
    ensures
        (Fraction { num: r.0 as int, den: r.1 as int }) == lowest_terms(
            positive_form(a.0 as int, a.1 * k),
        ),
{
    (num_rational::Ratio::new_raw(a.0, a.1) / k).into_raw()
}

/// `<Ratio<i64> as Neg>::neg`: negates the numerator, keeps the denominator.
#[verifier::external_body]
fn ratio_neg(a: (i64, i64)) -> (r: (i64, i64))
    requires
        a.0 != i64::MIN,
    ensures
        r.0 == -a.0,
        r.1 == a.1,
{
    (-num_rational::Ratio::new_raw(a.0, a.1)).into_raw()
}

/// `<Ratio<i64> as Signed>::abs`: the value itself when it is not negative,
/// its negation otherwise.
#[verifier::external_body]
fn ratio_abs(a: (i64, i64)) -> (r: (i64, i64))
    requires
        a.1 > 0,
        a.0 != i64::MIN,
    ensures
        r.0 == abs_int(a.0 as int),
        r.1 == a.1,
{
    num_traits::Signed::abs(&num_rational::Ratio::new_raw(a.0, a.1)).into_raw()
}

/// `<Ratio<i64> as Signed>::is_positive`: numerator and denominator have the
/// same strict sign.
#[verifier::external_body]
fn ratio_is_positive(a: (i64, i64)) -> (b: bool)
    ensures
        b == ((a.0 > 0 && a.1 > 0) || (a.0 < 0 && a.1 < 0)),
{
    num_traits::Signed::is_positive(&num_rational::Ratio::new_raw(a.0, a.1))
}

/// `<Ratio<i64> as Signed>::is_negative`: numerator and denominator have
/// opposite strict signs.
#[verifier::external_body]
fn ratio_is_negative(a: (i64, i64)) -> (b: bool)
    ensures
        b == ((a.0 < 0 && a.1 > 0) || (a.0 > 0 && a.1 < 0)),
{
    num_traits::Signed::is_negative(&num_rational::Ratio::new_raw(a.0, a.1))
}

/// `<Ratio<i64> as Zero>::zero`: the pair `(0, 1)`.
#[verifier::external_body]
fn ratio_zero() -> (r: (i64, i64))
    ensures
        r.0 == 0,
        r.1 == 1,
{
    <num_rational::Ratio<i64> as num_traits::Zero>::zero().into_raw()
}

/// `Ratio::from_integer`: the pair `(t, 1)`.
#[verifier::external_body]
fn ratio_from_integer(t: i64) -> (r: (i64, i64))
    ensures
        r.0 == t,
        r.1 == 1,
{
    num_rational::Ratio::from_integer(t).into_raw()
}

impl Rational64 {
    pub fn zero() -> (r: Rational64)
        ensures
            r.frac() == Fraction::from_int(0),
    {
        let (n, d) = ratio_zero();
        proof { lemma_gcd_with_one(0); }
        Rational64 { numer: n, denom: d }
    }

    pub fn from_integer(t: i64) -> (r: Rational64)
        ensures
            r.frac() == Fraction::from_int(t as int),
    {
        let (n, d) = ratio_from_integer(t);
        proof { lemma_gcd_with_one(abs_int(t as int) as nat); }
        Rational64 { numer: n, denom: d }
    }

    pub fn is_positive(&self) -> (b: bool)
        ensures
            b == (self.spec_numer() > 0),
    {
        proof { use_type_invariant(self); }
        ratio_is_positive((self.numer, self.denom))
    }

    pub fn is_negative(&self) -> (b: bool)
        ensures
            b == (self.spec_numer() < 0),
    {
        proof { use_type_invariant(self); }
        ratio_is_negative((self.numer, self.denom))
    }

    pub fn neg(&self) -> (r: Rational64)
        requires
            self.spec_numer() != i64::MIN,
        ensures
            r.frac() == self.frac().neg(),
    {
        proof { use_type_invariant(self); }
        let (n, d) = ratio_neg((self.numer, self.denom));
        Rational64 { numer: n, denom: d }
    }

    pub fn abs(&self) -> (r: Rational64)
        requires
            self.spec_numer() != i64::MIN,
        ensures
            r.frac() == (Fraction { num: abs_int(self.frac().num), den: self.frac().den }),
    {
        proof { use_type_invariant(self); }
        let (n, d) = ratio_abs((self.numer, self.denom));
        Rational64 { numer: n, denom: d }
    }

    /// The sum, in lowest terms.
    pub fn add(&self, other: &Rational64) -> (r: Rational64)
        requires
            add_fits(self.frac(), other.frac()),
        ensures
            r.frac() == lowest_terms(self.frac().add(other.frac())),
            r.frac().eqv(self.frac().add(other.frac())),
    {
        proof {
            use_type_invariant(self);
            use_type_invariant(other);
        }
        let (n, d) = ratio_add((self.numer, self.denom), (other.numer, other.denom));
        proof {
            lemma_positive_product(self.frac().den, other.frac().den);
            lemma_lowest_terms(self.frac().add(other.frac()));
        }
        Rational64 { numer: n, denom: d }
    }

    /// The product with an integer, in lowest terms.
    pub fn mul_integer(&self, k: i64) -> (r: Rational64)
        requires
            mul_fits(self.frac(), k as int),
        ensures
            r.frac() == lowest_terms(self.frac().scale(k as int)),
            r.frac().eqv(self.frac().scale(k as int)),
    {
        proof { use_type_invariant(self); }
        let (n, d) = ratio_mul_integer((self.numer, self.denom), k);
        proof {
            lemma_lowest_terms(self.frac().scale(k as int));
        }
        Rational64 { numer: n, denom: d }
    }

    /// The quotient by an integer, in lowest terms.
    pub fn div_integer(&self, k: i64) -> (r: Rational64)
        requires
            div_fits(self.frac(), k as int),
        ensures
            r.frac() == lowest_terms(positive_form(self.frac().num, self.frac().den * k)),
            k > 0 ==> r.frac() == lowest_terms(self.frac().div_int(k as int)),
            r.frac().eqv(self.frac().div_int(k as int)),
    {
        proof { use_type_invariant(self); }
        let (n, d) = ratio_div_integer((self.numer, self.denom), k);
        proof {
            let f = self.frac().div_int(k as int);
            let pf = positive_form(f.num, f.den);
            assert(f.den != 0) by (nonlinear_arith)
                requires
                    f.den == self.frac().den * k,
                    self.frac().den > 0,
                    k != 0,
            ;
            assert(pf.valid());
            lemma_lowest_terms(pf);
            assert(pf.eqv(f)) by (nonlinear_arith)
                requires
                    pf == positive_form(f.num, f.den),
            ;
            lemma_eqv_trans(lowest_terms(pf), pf, f);
        }
        Rational64 { numer: n, denom: d }
    }
}

proof fn lemma_positive_product(a: int, b: int)
    requires
        a > 0,
        b > 0,
    ensures
        a * b > 0,
{
    assert(a * b > 0) by (nonlinear_arith)
        requires
            a > 0,
            b > 0,
    ;
}

/// Negating a sum gives the sum of the negations, part for part.
pub proof fn lemma_neg_add(a: Fraction, b: Fraction)
    ensures
        a.add(b).neg() == a.neg().add(b.neg()),
{
    vstd::arithmetic::mul::lemma_mul_unary_negation(a.num, b.den);
    vstd::arithmetic::mul::lemma_mul_unary_negation(b.num, a.den);
}

/// The sum of two fractions with positive denominators has a positive
/// denominator.
pub proof fn lemma_add_valid(a: Fraction, b: Fraction)
    requires
        a.valid(),
        b.valid(),
    ensures
        a.add(b).valid(),
{
    lemma_positive_product(a.den, b.den);
}

/// Adding the same amount to two amounts keeps them apart: equal sums come
/// only from equal amounts.
pub proof fn lemma_add_cancel_left(s: Fraction, x: Fraction, y: Fraction)
    requires
        s.valid(),
        x.valid(),
        y.valid(),
        s.add(x).eqv(s.add(y)),
    ensures
        x.eqv(y),
{
    let (sn, sd, xn, xd, yn, yd) = (s.num, s.den, x.num, x.den, y.num, y.den);
    let a = sd * yd;
    let b = sd * xd;
    assert((sn * xd + xn * sd) * a == sn * xd * a + xn * sd * a) by (nonlinear_arith);
    assert((sn * yd + yn * sd) * b == sn * yd * b + yn * sd * b) by (nonlinear_arith);
    assert(sn * xd * a == sn * yd * b) by (nonlinear_arith)
        requires
            a == sd * yd,
            b == sd * xd,
    ;
    assert(xn * sd * a == yn * sd * b);
    assert(sd * (sd * (xn * yd - yn * xd)) == 0) by (nonlinear_arith)
        requires
            xn * sd * a == yn * sd * b,
            a == sd * yd,
            b == sd * xd,
    ;
    assert(xn * yd - yn * xd == 0) by (nonlinear_arith)
        requires
            sd * (sd * (xn * yd - yn * xd)) == 0,
            sd > 0,
    ;
}

/// Rational equality is transitive.
pub proof fn lemma_eqv_trans(x: Fraction, y: Fraction, z: Fraction)
    requires
        y.valid(),
        x.eqv(y),
        y.eqv(z),
    ensures
        x.eqv(z),
{
    assert(x.num * z.den == z.num * x.den) by (nonlinear_arith)
        requires
            y.den > 0,
            x.num * y.den == y.num * x.den,
            y.num * z.den == z.num * y.den,
    {
        assert(x.num * z.den * y.den == y.num * x.den * z.den);
        assert(z.num * x.den * y.den == y.num * z.den * x.den);
    }
}

/// Adding the same amount to equal amounts gives equal sums.
pub proof fn lemma_eqv_add_left(x: Fraction, y: Fraction, c: Fraction)
    requires
        x.eqv(y),
    ensures
        x.add(c).eqv(y.add(c)),
{
    let m = y.den * c.den;
    let n = x.den * c.den;
    assert((x.num * c.den + c.num * x.den) * m == x.num * c.den * m + c.num * x.den * m)
        by (nonlinear_arith);
    assert((y.num * c.den + c.num * y.den) * n == y.num * c.den * n + c.num * y.den * n)
        by (nonlinear_arith);
    assert(x.num * c.den * m == (x.num * y.den) * (c.den * c.den)) by (nonlinear_arith)
        requires
            m == y.den * c.den,
    ;
    assert(y.num * c.den * n == (y.num * x.den) * (c.den * c.den)) by (nonlinear_arith)
        requires
            n == x.den * c.den,
    ;
    assert(c.num * x.den * m == c.num * y.den * n) by (nonlinear_arith)
        requires
            m == y.den * c.den,
            n == x.den * c.den,
    ;
}

/// Adding an amount to itself three times gives `f` when the amount is a
/// third of `f`.
pub proof fn lemma_three_thirds(t: Fraction, f: Fraction)
    requires
        t.valid(),
        f.valid(),
        t.num * 3 * f.den == f.num * t.den,
    ensures
        t.add(t).add(t).eqv(f),
{
    assert((((t.num * t.den + t.num * t.den) * t.den + t.num * (t.den * t.den)) * f.den) == f.num * (
    t.den * t.den * t.den)) by (nonlinear_arith)
        requires
            t.num * 3 * f.den == f.num * t.den,
    ;
}

impl Rational64 {
    /// `a + b + c`, added left to right.
    pub fn add3(a: &Rational64, b: &Rational64, c: &Rational64) -> (r: Rational64)
        requires
            sum3_fits(a.frac(), b.frac(), c.frac()),
        ensures
            r.frac() == lowest_terms(lowest_terms(a.frac().add(b.frac())).add(c.frac())),
            r.frac().eqv(a.frac().add(b.frac()).add(c.frac())),
    {
        proof {
            use_type_invariant(a);
            use_type_invariant(b);
            use_type_invariant(c);
        }
        let ab = a.add(b);
        let r = ab.add(c);
        proof {
            use_type_invariant(&ab);
            let (x, y, z, w) = (a.frac(), b.frac(), c.frac(), ab.frac());
            lemma_eqv_add_left(w, x.add(y), z);
            lemma_positive_product(w.den, z.den);
            lemma_eqv_trans(r.frac(), w.add(z), x.add(y).add(z));
        }
        r
    }
}

} // verus!
