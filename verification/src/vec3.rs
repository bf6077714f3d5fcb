use crate::algebra::{lemma_dot_self_positive, lemma_unit_vector_length};
use crate::scalar::{
    away_div, div_fixed, fits, is_isqrt, isqrt, isqrt_u128, lemma_isqrt_exists,
    lemma_product_bound, mul_fixed, ratio, times, trunc_div, Scalar, ONE,
};
use vstd::prelude::*;

verus! {

/// Three mathematical integers: what a `Vec3` stands for in contracts.
/// Each is a raw count of millionths, without any bound.
pub struct Triple {
    pub x: int,
    pub y: int,
    pub z: int,
}

/// A vector of three fixed-point components. One type serves as a position,
/// as a direction and as a colour; which it is follows from where it is used.
#[derive(Clone, Copy, Debug, PartialEq, Eq, Structural)]
pub struct Vec3 {
    pub x: Scalar,
    pub y: Scalar,
    pub z: Scalar,
}

impl View for Vec3 {
    type V = Triple;

    open spec fn view(&self) -> Triple {
        Triple { x: self.x as int, y: self.y as int, z: self.z as int }
    }
}

/// The triple with the given components.
pub open spec fn triple(x: int, y: int, z: int) -> Triple {
    Triple { x, y, z }
}

/// Whether each component can be held in a `Scalar`.
pub open spec fn triple_fits(t: Triple) -> bool {
    fits(t.x) && fits(t.y) && fits(t.z)
}

/// The `Vec3` that holds a triple whose components fit.
pub open spec fn narrow(t: Triple) -> Vec3 {
    Vec3 { x: t.x as i64, y: t.y as i64, z: t.z as i64 }
}

/// Componentwise sum.
pub open spec fn plus(a: Triple, b: Triple) -> Triple {
    Triple { x: a.x + b.x, y: a.y + b.y, z: a.z + b.z }
}

/// Componentwise difference.
pub open spec fn minus(a: Triple, b: Triple) -> Triple {
    Triple { x: a.x - b.x, y: a.y - b.y, z: a.z - b.z }
}

/// The opposite vector.
pub open spec fn negated(a: Triple) -> Triple {
    Triple { x: -a.x, y: -a.y, z: -a.z }
}

/// Each component multiplied by the fixed-point number `s`.
pub open spec fn scaled(a: Triple, s: int) -> Triple {
    Triple { x: times(a.x, s), y: times(a.y, s), z: times(a.z, s) }
}

/// Each component divided by the nonzero fixed-point number `s`.
pub open spec fn shrunk(a: Triple, s: int) -> Triple {
    Triple { x: ratio(a.x, s), y: ratio(a.y, s), z: ratio(a.z, s) }
}

/// The sum of the products of the raw components, before any rounding.
pub open spec fn dot_exact(a: Triple, b: Triple) -> int {
    a.x * b.x + a.y * b.y + a.z * b.z
}

/// The dot product as a fixed-point number: the exact sum, rounded once and
/// away from zero, so that the dot product of a nonzero vector with itself is
/// never zero.
pub open spec fn dot_of(a: Triple, b: Triple) -> int {
    away_div(dot_exact(a, b), ONE as int)
}

/// The cross product; each component is an exact difference of products,
/// rounded once.
pub open spec fn cross_of(a: Triple, b: Triple) -> Triple {
    Triple {
        x: trunc_div(a.y * b.z - a.z * b.y, ONE as int),
        y: trunc_div(a.z * b.x - a.x * b.z, ONE as int),
        z: trunc_div(a.x * b.y - a.y * b.x, ONE as int),
    }
}

/// The squared Euclidean length of the raw components, before any rounding.
pub open spec fn norm_squared(a: Triple) -> int {
    dot_exact(a, a)
}

/// The Euclidean length as a fixed-point number, rounded down.
pub open spec fn norm(a: Triple) -> int {
    isqrt(norm_squared(a))
}

/// Each component multiplied by the whole number `k`.
pub open spec fn magnified(a: Triple, k: int) -> Triple {
    Triple { x: a.x * k, y: a.y * k, z: a.z * k }
}

/// The whole number by which a vector of squared length `n` is magnified
/// before it is divided by its length: two to the 32nd where the vector is
/// shorter than that, so that the length of a short vector is known to many
/// more places than the result has.
pub open spec fn magnification(n: int) -> int {
    if n < 0x1_0000_0000_0000_0000 {
        0x1_0000_0000
    } else {
        1
    }
}

/// The vector scaled to length one: the magnified vector divided by its own
/// length, which points the same way.
pub open spec fn unit(a: Triple) -> Triple {
    let b = magnified(a, magnification(norm_squared(a)));
    shrunk(b, norm(b))
}

impl Vec3 {
    /// The vector with the given components.
    pub fn new(x: Scalar, y: Scalar, z: Scalar) -> (v: Vec3)
        ensures
            v.x == x,
            v.y == y,
            v.z == z,
    {
        Vec3 { x, y, z }
    }

    /// The squared length, as a fixed-point number. It is rounded up, so that
    /// it is zero for the zero vector alone.
    pub fn length_squared(&self) -> (r: Scalar)
        requires
            fits(dot_of(self@, self@)),
        ensures
            r == dot_of(self@, self@),
            r >= 0,
            r == 0 <==> (self.x == 0 && self.y == 0 && self.z == 0),
    {
        proof {
            lemma_dot_self_positive(self@);
        }
        dot(self, self)
    }

    /// The length, rounded down to a whole number of millionths.
    pub fn length(&self) -> (r: Scalar)
        requires
            fits(norm(self@)),
        ensures
            r == norm(self@),
    {
        let l: u64 = self.raw_length();
        l as i64
    }

    /// The vector scaled to length one, which it has to within four
    /// millionths, however short or long the vector is. Its length is taken
    /// at a finer resolution than that of `length`, so the result is not
    /// always the vector divided by `length`. The zero vector has no
    /// direction and is excluded.
    pub fn unit_vector(&self) -> (r: Vec3)
        requires
            norm_squared(self@) > 0,
        ensures
            r@ == unit(self@),
            -ONE <= r.x <= ONE,
            -ONE <= r.y <= ONE,
            -ONE <= r.z <= ONE,
            ONE - 4 <= norm(r@) <= ONE,
            ONE - 7 <= dot_of(r@, r@) <= ONE + 1,
    {
        let n: u128 = self.raw_norm_squared();
        proof {
            lemma_unit_vector_length(self@);
        }
        if n < 0x1_0000_0000_0000_0000 {
            let ghost b = magnified(self@, 0x1_0000_0000);
            proof {
                lemma_magnified_norm(self@, 0x1_0000_0000);
            }
            let l: u64 = isqrt_u128(n * 0x1_0000_0000_0000_0000);
            proof {
                lemma_component_bound(b, l as int);
                lemma_root_is_positive(norm_squared(b), l as int);
            }
            Vec3 {
                x: unit_component(self.x as i128 * 0x1_0000_0000, l),
                y: unit_component(self.y as i128 * 0x1_0000_0000, l),
                z: unit_component(self.z as i128 * 0x1_0000_0000, l),
            }
        } else {
            let ghost b = magnified(self@, 1);
            proof {
                lemma_magnified_norm(self@, 1);
            }
            let l: u64 = isqrt_u128(n);
            proof {
                lemma_component_bound(b, l as int);
                lemma_root_is_positive(norm_squared(b), l as int);
            }
            Vec3 {
                x: unit_component(self.x as i128, l),
                y: unit_component(self.y as i128, l),
                z: unit_component(self.z as i128, l),
            }
        }
    }

    fn raw_norm_squared(&self) -> (n: u128)
        ensures
            n == norm_squared(self@),
    {
        let sx: u128 = square(self.x);
        let sy: u128 = square(self.y);
        let sz: u128 = square(self.z);
        sx + sy + sz
    }

    fn raw_length(&self) -> (l: u64)
        ensures
            l == norm(self@),
            is_isqrt(norm_squared(self@), l as int),
    {
        isqrt_u128(self.raw_norm_squared())
    }
}

fn square(c: Scalar) -> (s: u128)
    ensures
        s == c * c,
        s <= 0x4000_0000_0000_0000_0000_0000_0000_0000,
{
    proof {
        lemma_product_bound(c as int, c as int);
        assert(c * c >= 0) by (nonlinear_arith);
    }
    let w: i128 = (c as i128) * (c as i128);
    w as u128
}

fn unit_component(c: i128, l: u64) -> (r: Scalar)
    requires
        l > 0,
        -l <= c <= l,
    ensures
        r == ratio(c as int, l as int),
        -ONE <= r <= ONE,
{
    let p: i128 = c * (ONE as i128);
    let q: i128 = p / (l as i128);
    proof {
        lemma_ratio_within_one(c as int, l as int);
    }
    q as i64
}

/// No component of a vector is longer than the vector.
pub proof fn lemma_component_bound(a: Triple, l: int)
    requires
        is_isqrt(norm_squared(a), l),
    ensures
        -l <= a.x <= l,
        -l <= a.y <= l,
        -l <= a.z <= l,
{
    assert(a.x * a.x >= 0 && a.y * a.y >= 0 && a.z * a.z >= 0) by (nonlinear_arith);
    lemma_square_bound(a.x, a.y * a.y + a.z * a.z, l);
    lemma_square_bound(a.y, a.x * a.x + a.z * a.z, l);
    lemma_square_bound(a.z, a.x * a.x + a.y * a.y, l);
}

/// A number divided by one at least as large in magnitude lies between minus
/// one and one.
pub proof fn lemma_ratio_within_one(c: int, l: int)
    requires
        0 < l,
        -l <= c <= l,
    ensures
        -ONE <= ratio(c, l) <= ONE,
{
    let m: int = if c >= 0 {
        c * 1_000_000
    } else {
        -(c * 1_000_000)
    };
    assert(0 <= m / l <= 1_000_000) by (nonlinear_arith)
        requires
            0 <= m <= l * 1_000_000,
            l > 0,
    ;
}

/// The square root of a positive number is positive.
pub proof fn lemma_root_is_positive(n: int, l: int)
    requires
        0 < n,
        is_isqrt(n, l),
    ensures
        0 < l,
{
    if l == 0 {
        assert((l + 1) * (l + 1) == 1) by (nonlinear_arith)
            requires
                l == 0,
        ;
    }
}

/// Magnifying a vector multiplies its squared length by the square of the
/// factor.
pub proof fn lemma_magnified_norm(a: Triple, k: int)
    ensures
        norm_squared(magnified(a, k)) == norm_squared(a) * (k * k),
        k != 0 && norm_squared(a) > 0 ==> norm_squared(magnified(a, k)) > 0,
{
    assert((a.x * k) * (a.x * k) + (a.y * k) * (a.y * k) + (a.z * k) * (a.z * k) == (a.x * a.x
        + a.y * a.y + a.z * a.z) * (k * k)) by (nonlinear_arith);
    assert(k != 0 && norm_squared(a) > 0 ==> norm_squared(a) * (k * k) > 0) by (nonlinear_arith);
}

/// Each component of a unit vector lies between minus one and one.
pub proof fn lemma_unit_range(a: Triple)
    requires
        norm_squared(a) > 0,
    ensures
        -ONE <= unit(a).x <= ONE,
        -ONE <= unit(a).y <= ONE,
        -ONE <= unit(a).z <= ONE,
{
    let b = magnified(a, magnification(norm_squared(a)));
    lemma_magnified_norm(a, magnification(norm_squared(a)));
    lemma_isqrt_exists(norm_squared(b));
    let l = norm(b);
    lemma_root_is_positive(norm_squared(b), l);
    lemma_component_bound(b, l);
    lemma_ratio_within_one(b.x, l);
    lemma_ratio_within_one(b.y, l);
    lemma_ratio_within_one(b.z, l);
}

proof fn lemma_square_bound(c: int, rest: int, l: int)
    by (nonlinear_arith)
    requires
        0 <= l,
        0 <= rest,
        c * c + rest < (l + 1) * (l + 1),
    ensures
        -l <= c <= l,
{
}

impl vstd::std_specs::ops::AddSpecImpl for Vec3 {
    open spec fn obeys_add_spec() -> bool {
        true
    }

    open spec fn add_req(self, rhs: Vec3) -> bool {
        triple_fits(plus(self@, rhs@))
    }

    open spec fn add_spec(self, rhs: Vec3) -> Vec3 {
        narrow(plus(self@, rhs@))
    }
}

impl core::ops::Add for Vec3 {
    type Output = Vec3;

    /// The sum of two vectors, where each component of it can be held.
    fn add(self, rhs: Vec3) -> (r: Vec3)
        ensures
            r@ == plus(self@, rhs@),
    {
        Vec3 { x: self.x + rhs.x, y: self.y + rhs.y, z: self.z + rhs.z }
    }
}

impl vstd::std_specs::ops::SubSpecImpl for Vec3 {
    open spec fn obeys_sub_spec() -> bool {
        true
    }

    open spec fn sub_req(self, rhs: Vec3) -> bool {
        triple_fits(minus(self@, rhs@))
    }

    open spec fn sub_spec(self, rhs: Vec3) -> Vec3 {
        narrow(minus(self@, rhs@))
    }
}

impl core::ops::Sub for Vec3 {
    type Output = Vec3;

    /// The difference of two vectors, where each component of it can be held.
    fn sub(self, rhs: Vec3) -> (r: Vec3)
        ensures
            r@ == minus(self@, rhs@),
    {
        Vec3 { x: self.x - rhs.x, y: self.y - rhs.y, z: self.z - rhs.z }
    }
}

impl vstd::std_specs::ops::NegSpecImpl for Vec3 {
    open spec fn obeys_neg_spec() -> bool {
        true
    }

    open spec fn neg_req(self) -> bool {
        triple_fits(negated(self@))
    }

    open spec fn neg_spec(self) -> Vec3 {
        narrow(negated(self@))
    }
}

impl core::ops::Neg for Vec3 {
    type Output = Vec3;

    /// The opposite vector, where each component of it can be held.
    fn neg(self) -> (r: Vec3)
        ensures
            r@ == negated(self@),
    {
        Vec3 { x: -self.x, y: -self.y, z: -self.z }
    }
}

impl vstd::std_specs::ops::MulSpecImpl<Scalar> for Vec3 {
    open spec fn obeys_mul_spec() -> bool {
        true
    }

    open spec fn mul_req(self, rhs: Scalar) -> bool {
        triple_fits(scaled(self@, rhs as int))
    }

    open spec fn mul_spec(self, rhs: Scalar) -> Vec3 {
        narrow(scaled(self@, rhs as int))
    }
}

impl core::ops::Mul<Scalar> for Vec3 {
    type Output = Vec3;

    /// The vector times a fixed-point number, each component rounded toward
    /// zero.
    fn mul(self, rhs: Scalar) -> (r: Vec3)
        ensures
            r@ == scaled(self@, rhs as int),
    {
        Vec3 {
            x: mul_fixed(self.x, rhs),
            y: mul_fixed(self.y, rhs),
            z: mul_fixed(self.z, rhs),
        }
    }
}

impl vstd::std_specs::ops::MulSpecImpl<Vec3> for Scalar {
    open spec fn obeys_mul_spec() -> bool {
        true
    }

    open spec fn mul_req(self, rhs: Vec3) -> bool {
        triple_fits(scaled(rhs@, self as int))
    }

    open spec fn mul_spec(self, rhs: Vec3) -> Vec3 {
        narrow(scaled(rhs@, self as int))
    }
}

impl core::ops::Mul<Vec3> for Scalar {
    type Output = Vec3;

    /// A fixed-point number times a vector: the same as the vector times the
    /// number.
    fn mul(self, rhs: Vec3) -> (r: Vec3)
        ensures
            r@ == scaled(rhs@, self as int),
    {
        rhs * self
    }
}

impl vstd::std_specs::ops::DivSpecImpl<Scalar> for Vec3 {
    open spec fn obeys_div_spec() -> bool {
        true
    }

    open spec fn div_req(self, rhs: Scalar) -> bool {
        rhs != 0 && triple_fits(shrunk(self@, rhs as int))
    }

    open spec fn div_spec(self, rhs: Scalar) -> Vec3 {
        narrow(shrunk(self@, rhs as int))
    }
}

impl core::ops::Div<Scalar> for Vec3 {
    type Output = Vec3;

    /// The vector divided by a nonzero fixed-point number, each component
    /// rounded toward zero.
    fn div(self, rhs: Scalar) -> (r: Vec3)
        ensures
            r@ == shrunk(self@, rhs as int),
    {
        Vec3 {
            x: div_fixed(self.x, rhs),
            y: div_fixed(self.y, rhs),
            z: div_fixed(self.z, rhs),
        }
    }
}

/// The dot product of two vectors: the sum of the products of their
/// components, rounded once and away from zero.
pub fn dot(u: &Vec3, v: &Vec3) -> (r: Scalar)
    requires
        fits(dot_of(u@, v@)),
    ensures
        r == dot_of(u@, v@),
        u@ == v@ ==> r >= 0 && (r == 0 <==> norm_squared(u@) == 0),
{
    proof {
        lemma_dot_self_positive(u@);
        lemma_product_bound(u.x as int, v.x as int);
        lemma_product_bound(u.y as int, v.y as int);
        lemma_product_bound(u.z as int, v.z as int);
    }
    let px: i128 = (u.x as i128) * (v.x as i128);
    let py: i128 = (u.y as i128) * (v.y as i128);
    let pz: i128 = (u.z as i128) * (v.z as i128);
    let s: i128 = px + py + pz;
    let q: i128 = s / (ONE as i128);
    let left: i128 = s - q * (ONE as i128);
    if left > 0 {
        (q + 1) as i64
    } else if left < 0 {
        (q - 1) as i64
    } else {
        q as i64
    }
}

/// The cross product of two vectors, each component rounded toward zero
/// once.
pub fn cross(u: &Vec3, v: &Vec3) -> (r: Vec3)
    requires
        triple_fits(cross_of(u@, v@)),
    ensures
        r@ == cross_of(u@, v@),
{
    Vec3 {
        x: cross_component(u.y, v.z, u.z, v.y),
        y: cross_component(u.z, v.x, u.x, v.z),
        z: cross_component(u.x, v.y, u.y, v.x),
    }
}

fn cross_component(a: Scalar, b: Scalar, c: Scalar, d: Scalar) -> (r: Scalar)
    requires
        fits(trunc_div(a * b - c * d, ONE as int)),
    ensures
        r == trunc_div(a * b - c * d, ONE as int),
{
    proof {
        lemma_product_bound(a as int, b as int);
        lemma_product_bound(c as int, d as int);
    }
    let p: i128 = (a as i128) * (b as i128);
    let q: i128 = (c as i128) * (d as i128);
    ((p - q) / (ONE as i128)) as i64
}

} // verus!
