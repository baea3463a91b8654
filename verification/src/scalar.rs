//! Fixed-point scalars: every quantity of the simulation is an integer count
//! of millionths, so that arithmetic is exact and can be reasoned about.
//!
//! Sums and differences are exact. Products and quotients are rounded by
//! Euclidean division (the remainder is never negative), square roots are
//! rounded down.
use vstd::prelude::*;
use vstd::std_specs::ops::AddSpecImpl;
use vstd::std_specs::ops::DivSpecImpl;
use vstd::std_specs::ops::MulSpecImpl;
use vstd::std_specs::ops::NegSpecImpl;
use vstd::std_specs::ops::SubSpecImpl;

verus! {

/// Raw count that stands for the number one.
pub const UNIT: i64 = 1_000_000;

/// Largest raw distance at which two scalars are still taken to be equal
/// by the geometric tests: one raw step.
pub const EPSILON: i64 = 1;

/// A number, held as a count of millionths.
#[derive(Clone, Copy, Debug, PartialEq, Eq, Structural, PartialOrd, Ord, Hash)]
pub struct Scalar {
    pub raw: i64,
}

impl View for Scalar {
    type V = int;

    /// The raw count as a mathematical integer.
    open spec fn view(&self) -> int {
        self.raw as int
    }
}

impl Scalar {
    /// The scalar that stands for the whole number `n`.
    pub fn whole(n: i32) -> (r: Scalar)
        ensures
            r@ == n * UNIT,
    {
        assert(n as int * UNIT as int == n as int * 1_000_000) by (nonlinear_arith)
            requires
                UNIT == 1_000_000,
        ;
        let wide: i128 = (n as i128) * (UNIT as i128);
        Scalar { raw: wide as i64 }
    }

    /// Square root, rounded down to the nearest millionth.
    pub fn sqrt(self) -> (r: Scalar)
        requires
            self@ >= 0,
        ensures
            r@ == root(self@ * UNIT),
    {
        assert(self.raw as int * UNIT as int == self.raw as int * 1_000_000) by (nonlinear_arith)
            requires
                UNIT == 1_000_000,
        ;
        let wide: u128 = (self.raw as u128) * (UNIT as u128);
        let r = floor_root(wide);
        assert(r <= 0x7fff_ffff_ffff_ffff) by (nonlinear_arith)
            requires
                r * r <= wide,
                wide <= 0x7fff_ffff_ffff_ffff * 1_000_000,
                0 <= r,
        {
            if r > 0x7fff_ffff_ffff_ffff {
                assert(r * r >= 0x8000_0000_0000_0000 * 0x8000_0000_0000_0000);
            }
        }
        Scalar { raw: r as i64 }
    }
}

impl std::ops::Neg for Scalar {
    type Output = Scalar;

    fn neg(self) -> (r: Scalar) {
        Scalar { raw: -self.raw }
    }
}

impl NegSpecImpl for Scalar {
    open spec fn obeys_neg_spec() -> bool {
        true
    }

    open spec fn neg_req(self) -> bool {
        fits(-self@)
    }

    open spec fn neg_spec(self) -> Scalar {
        scalar(-self@)
    }
}

impl std::ops::Add<Scalar> for Scalar {
    type Output = Scalar;

    fn add(self, rhs: Scalar) -> (r: Scalar) {
        Scalar { raw: self.raw + rhs.raw }
    }
}

impl AddSpecImpl<Scalar> for Scalar {
    open spec fn obeys_add_spec() -> bool {
        true
    }

    open spec fn add_req(self, rhs: Scalar) -> bool {
        fits(self@ + rhs@)
    }

    open spec fn add_spec(self, rhs: Scalar) -> Scalar {
        scalar(self@ + rhs@)
    }
}

impl std::ops::Sub<Scalar> for Scalar {
    type Output = Scalar;

    fn sub(self, rhs: Scalar) -> (r: Scalar) {
        Scalar { raw: self.raw - rhs.raw }
    }
}

impl SubSpecImpl<Scalar> for Scalar {
    open spec fn obeys_sub_spec() -> bool {
        true
    }

    open spec fn sub_req(self, rhs: Scalar) -> bool {
        fits(self@ - rhs@)
    }

    open spec fn sub_spec(self, rhs: Scalar) -> Scalar {
        scalar(self@ - rhs@)
    }
}

impl std::ops::Mul<Scalar> for Scalar {
    type Output = Scalar;

    fn mul(self, rhs: Scalar) -> (r: Scalar) {
        let wide = wide_product(self.raw, rhs.raw);
        Scalar { raw: wide as i64 }
    }
}

impl MulSpecImpl<Scalar> for Scalar {
    open spec fn obeys_mul_spec() -> bool {
        true
    }

    open spec fn mul_req(self, rhs: Scalar) -> bool {
        fits(product(self@, rhs@))
    }

    open spec fn mul_spec(self, rhs: Scalar) -> Scalar {
        scalar(product(self@, rhs@))
    }
}

impl std::ops::Div<Scalar> for Scalar {
    type Output = Scalar;

    fn div(self, rhs: Scalar) -> (r: Scalar) {
        let wide = wide_ratio(self.raw, rhs.raw);
        Scalar { raw: wide as i64 }
    }
}

impl DivSpecImpl<Scalar> for Scalar {
    open spec fn obeys_div_spec() -> bool {
        true
    }

    open spec fn div_req(self, rhs: Scalar) -> bool {
        rhs@ != 0 && fits(ratio(self@, rhs@))
    }

    open spec fn div_spec(self, rhs: Scalar) -> Scalar {
        scalar(ratio(self@, rhs@))
    }
}

/// The raw counts that a `Scalar` can hold.
pub open spec fn fits(v: int) -> bool {
    i64::MIN <= v <= i64::MAX
}

/// The scalar with raw count `v`, for `v` that `fits`.
pub open spec fn scalar(v: int) -> Scalar {
    Scalar { raw: v as i64 }
}

/// Raw count of the product of two scalars with raw counts `a` and `b`.
pub open spec fn product(a: int, b: int) -> int {
    (a * b) / (UNIT as int)
}

/// Raw count of the quotient of two scalars with raw counts `a` and `b`.
pub open spec fn ratio(a: int, b: int) -> int
    recommends
        b != 0,
{
    (a * (UNIT as int)) / b
}

/// `r` is the square root of `n`, rounded down.
pub open spec fn is_root(n: int, r: int) -> bool {
    0 <= r && r * r <= n < (r + 1) * (r + 1)
}

/// The square root of `n`, rounded down, for `n >= 0`.
pub open spec fn root(n: int) -> int {
    choose|r: int| is_root(n, r)
}

/// A number has at most one rounded-down square root, so `root` names it.
pub proof fn lemma_root_unique(n: int, r: int)
    requires
        is_root(n, r),
    ensures
        root(n) == r,
{
    let s = root(n);
    assert(is_root(n, s));
    assert(s == r) by (nonlinear_arith)
        requires
            0 <= r,
            r * r <= n,
            n < (r + 1) * (r + 1),
            0 <= s,
            s * s <= n,
            n < (s + 1) * (s + 1),
    {
        if s < r {
            assert((s + 1) * (s + 1) <= r * r);
        } else if r < s {
            assert((r + 1) * (r + 1) <= s * s);
        }
    }
}

/// Every number that is not negative has a rounded-down square root, and
/// `root` is it.
pub proof fn lemma_root_exists(n: int)
    requires
        n >= 0,
    ensures
        is_root(n, root(n)),
    decreases n,
{
    if n == 0 {
        assert(is_root(0, 0));
    } else {
        lemma_root_exists(n - 1);
        let r = root(n - 1);
        if (r + 1) * (r + 1) <= n {
            assert(is_root(n, r + 1)) by (nonlinear_arith)
                requires
                    0 <= r,
                    r * r <= n - 1,
                    n - 1 < (r + 1) * (r + 1),
                    (r + 1) * (r + 1) <= n,
            ;
        } else {
            assert(is_root(n, r));
        }
    }
}

/// The product of two raw counts stays within 126 bits.
pub proof fn lemma_product_bound(a: int, b: int)
    requires
        fits(a),
        fits(b),
    ensures
        -0x4000_0000_0000_0000_0000_0000_0000_0000 < a * b <= 0x4000_0000_0000_0000_0000_0000_0000_0000,
{
    assert(-0x4000_0000_0000_0000_0000_0000_0000_0000 < a * b
        <= 0x4000_0000_0000_0000_0000_0000_0000_0000) by (nonlinear_arith)
        requires
            -0x8000_0000_0000_0000 <= a <= 0x7fff_ffff_ffff_ffff,
            -0x8000_0000_0000_0000 <= b <= 0x7fff_ffff_ffff_ffff,
    {
        if a >= 0 && b >= 0 {
            assert(a * b <= 0x7fff_ffff_ffff_ffff * 0x7fff_ffff_ffff_ffff);
        } else if a < 0 && b < 0 {
            assert((-a) * (-b) <= 0x8000_0000_0000_0000 * 0x8000_0000_0000_0000);
        } else if a < 0 {
            assert((-a) * b <= 0x8000_0000_0000_0000 * 0x7fff_ffff_ffff_ffff);
        } else {
            assert(a * (-b) <= 0x7fff_ffff_ffff_ffff * 0x8000_0000_0000_0000);
        }
    }
}

/// Euclidean quotient of two wide integers.
pub fn wide_quotient(a: i128, b: i128) -> (q: i128)
    requires
        b != 0,
        a != i128::MIN,
    ensures
        q == a as int / b as int,
{
    proof {
        lemma_quotient_bound(a as int, b as int);
    }
    a.checked_div_euclid(b).unwrap()
}

/// A Euclidean quotient is no larger in magnitude than its dividend.
pub proof fn lemma_quotient_bound(a: int, b: int)
    requires
        b != 0,
    ensures
        a >= 0 ==> -a <= a / b <= a,
        a < 0 ==> a <= a / b <= -a,
{
    assert(a >= 0 ==> -a <= a / b <= a) by (nonlinear_arith)
        requires
            b != 0,
    {
        if a >= 0 {
            let q = a / b;
            let r = a % b;
            assert(a == q * b + r);
            assert(0 <= r);
            if b > 0 {
                assert(r < b);
                if q < 0 {
                    assert(q * b <= -b);
                }
                if q > a {
                    assert(q * b >= q);
                }
            } else {
                assert(r < -b);
                if q > 0 {
                    assert(q * b <= b);
                }
                if q < -a {
                    assert(q * b >= -q);
                }
            }
        }
    }
    assert(a < 0 ==> a <= a / b <= -a) by (nonlinear_arith)
        requires
            b != 0,
    {
        if a < 0 {
            let q = a / b;
            let r = a % b;
            assert(a == q * b + r);
            assert(0 <= r);
            if b > 0 {
                assert(r < b);
                if q > 0 {
                    assert(q * b >= b);
                }
                if q < a {
                    assert(q * b <= q);
                    assert(q + r < a + b);
                }
            } else {
                assert(r < -b);
                if q < 0 {
                    assert(q * b >= -b);
                }
                if q > -a {
                    assert(q * b <= -q);
                }
            }
        }
    }
}

/// Where `f` is at most `b` in magnitude, `c * f / b` is at most `c` in
/// magnitude.
pub proof fn lemma_quotient_within(c: int, f: int, b: int)
    requires
        b > 0,
        -b <= f <= b,
    ensures
        c >= 0 ==> -c <= (c * f) / b <= c,
        c < 0 ==> c <= (c * f) / b <= -c,
{
    let a = c * f;
    let q = a / b;
    let r = a % b;
    assert(a == q * b + r && 0 <= r < b) by (nonlinear_arith)
        requires
            b > 0,
            q == a / b,
            r == a % b,
    ;
    assert((c >= 0 ==> -c <= q <= c) && (c < 0 ==> c <= q <= -c)) by (nonlinear_arith)
        requires
            b > 0,
            -b <= f <= b,
            a == c * f,
            a == q * b + r,
            0 <= r < b,
    {
        if c >= 0 {
            assert(c * f <= c * b);
            assert(c * f >= -(c * b));
            if q > c {
                assert(q * b >= (c + 1) * b);
            }
            if q < -c {
                assert(q * b <= (-c - 1) * b);
            }
        } else {
            assert(c * f <= (-c) * b);
            assert(c * f >= c * b);
            if q > -c {
                assert(q * b >= (-c + 1) * b);
            }
            if q < c {
                assert(q * b <= (c - 1) * b);
            }
        }
    }
}

/// The scalar with the given wide raw count, if one exists.
pub fn narrow(v: i128) -> (r: Option<Scalar>)
    ensures
        fits(v as int) ==> r == Some(scalar(v as int)),
        !fits(v as int) ==> r.is_none(),
{
    if v < i64::MIN as i128 || v > i64::MAX as i128 {
        None
    } else {
        Some(Scalar { raw: v as i64 })
    }
}

/// Wide raw count of the product of two scalars.
pub fn wide_product(a: i64, b: i64) -> (p: i128)
    ensures
        p == product(a as int, b as int),
        -0x4000_0000_0000_0000_0000_0000_0000_0000 <= p <= 0x4000_0000_0000_0000_0000_0000_0000_0000,
{
    proof {
        lemma_product_bound(a as int, b as int);
        lemma_quotient_bound(a as int * b as int, UNIT as int);
    }
    let w: i128 = (a as i128) * (b as i128);
    wide_quotient(w, UNIT as i128)
}

/// Wide raw count of the quotient of two scalars.
pub fn wide_ratio(a: i64, b: i64) -> (q: i128)
    requires
        b != 0,
    ensures
        q == ratio(a as int, b as int),
{
    assert(a as int * UNIT as int == a as int * 1_000_000) by (nonlinear_arith)
        requires
            UNIT == 1_000_000,
    ;
    let w: i128 = (a as i128) * (UNIT as i128);
    wide_quotient(w, b as i128)
}

/// Square root of a wide natural number, rounded down.
pub fn floor_root(n: u128) -> (r: u128)
    ensures
        is_root(n as int, r as int),
        r == root(n as int),
        r < 0x1_0000_0000_0000_0000,
{
    let mut lo: u128 = 0;
    let mut hi: u128 = 0x1_0000_0000_0000_0000;
    while hi - lo > 1
        invariant
            lo < hi <= 0x1_0000_0000_0000_0000,
            lo * lo <= n < hi * hi,
        decreases hi - lo,
    {
        let mid: u128 = lo + (hi - lo) / 2;
        assert(mid * mid <= 0xffff_ffff_ffff_ffff * 0xffff_ffff_ffff_ffff) by (nonlinear_arith)
            requires
                0 <= mid <= 0xffff_ffff_ffff_ffff,
        ;
        if mid * mid <= n {
            lo = mid;
        } else {
            hi = mid;
        }
    }
    proof {
        assert(hi == lo + 1);
        lemma_root_unique(n as int, lo as int);
    }
    lo
}

} // verus!
