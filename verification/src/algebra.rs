use crate::scalar::{
    is_isqrt, lemma_isqrt_exists, lemma_square_monotone, lemma_trunc_div_negated, ratio, ONE,
};
use crate::vec3::{
    cross_of, dot_exact, dot_of, lemma_component_bound, lemma_magnified_norm,
    lemma_root_is_positive, magnification, magnified, minus, narrow, negated, norm,
    norm_squared, plus, shrunk, triple_fits, unit, Triple, Vec3,
};
use vstd::prelude::*;

verus! {

/// Adding a vector and taking it away again gives back the first vector:
/// `(a + b) - b == a`, wherever the sum can be held.
pub proof fn lemma_add_then_sub(a: Vec3, b: Vec3)
    requires
        triple_fits(plus(a@, b@)),
    ensures
        minus(plus(a@, b@), b@) == a@,
        triple_fits(minus(narrow(plus(a@, b@))@, b@)),
        narrow(minus(narrow(plus(a@, b@))@, b@)) == a,
{
}

/// The dot product does not depend on the order of its arguments.
pub proof fn lemma_dot_commutes(a: Triple, b: Triple)
    ensures
        dot_exact(a, b) == dot_exact(b, a),
        dot_of(a, b) == dot_of(b, a),
{
    assert(a.x * b.x == b.x * a.x) by (nonlinear_arith);
    assert(a.y * b.y == b.y * a.y) by (nonlinear_arith);
    assert(a.z * b.z == b.z * a.z) by (nonlinear_arith);
}

/// Exchanging the arguments of the cross product changes its sign:
/// `cross(a, b) == -cross(b, a)`.
pub proof fn lemma_cross_antisymmetric(a: Triple, b: Triple)
    ensures
        cross_of(a, b) == negated(cross_of(b, a)),
{
    assert(a.y * b.z - a.z * b.y == -(b.y * a.z - b.z * a.y)) by (nonlinear_arith);
    assert(a.z * b.x - a.x * b.z == -(b.z * a.x - b.x * a.z)) by (nonlinear_arith);
    assert(a.x * b.y - a.y * b.x == -(b.x * a.y - b.y * a.x)) by (nonlinear_arith);
    lemma_trunc_div_negated(b.y * a.z - b.z * a.y, ONE as int);
    lemma_trunc_div_negated(b.z * a.x - b.x * a.z, ONE as int);
    lemma_trunc_div_negated(b.x * a.y - b.y * a.x, ONE as int);
}

/// The dot product of a vector with itself is never negative, and it is zero
/// for the zero vector alone.
pub proof fn lemma_dot_self_positive(a: Triple)
    ensures
        dot_exact(a, a) >= 0,
        dot_of(a, a) >= 0,
        dot_of(a, a) == 0 <==> (a.x == 0 && a.y == 0 && a.z == 0),
        dot_of(a, a) > 0 <==> norm_squared(a) > 0,
{
    lemma_square_positive(a.x);
    lemma_square_positive(a.y);
    lemma_square_positive(a.z);
}

/// A square is never negative, and it is zero for zero alone.
proof fn lemma_square_positive(c: int)
    by (nonlinear_arith)
    ensures
        c * c >= 0,
        c * c == 0 <==> c == 0,
{
}

/// The absolute value.
pub open spec fn magnitude(c: int) -> int {
    if c < 0 {
        -c
    } else {
        c
    }
}

/// The quotient of a non-negative number by a positive one, with what the
/// division leaves over.
proof fn lemma_quotient(p: int, l: int)
    by (nonlinear_arith)
    requires
        0 <= p,
        0 < l,
    ensures
        0 <= p / l,
        (p / l) * l <= p < (p / l) * l + l,
{
}

/// The square of a number that falls short of `p` by less than `l`.
proof fn lemma_square_near(p: int, q: int, l: int)
    by (nonlinear_arith)
    requires
        0 <= q <= p,
        p - q <= l - 1,
    ensures
        q * q <= p * p,
        q * q >= p * p - 2 * p * (l - 1),
{
}

/// What one component of a unit vector contributes to its squared length.
/// Here `w` is the magnitude of the component of the unit vector.
proof fn lemma_unit_component(c: int, l: int)
    requires
        0 < l,
        -l <= c <= l,
    ensures
        ratio(c, l) * ratio(c, l) * (l * l) <= 1_000_000_000_000 * (c * c),
        ratio(c, l) * ratio(c, l) * (l * l) >= 1_000_000_000_000 * (c * c) - 2_000_000 * (
        magnitude(c) * (l - 1)),
{
    let m = magnitude(c);
    let p = m * 1_000_000;
    let w = p / l;
    lemma_quotient(p, l);
    assert(ratio(c, l) == w || ratio(c, l) == -w);
    assert(ratio(c, l) * ratio(c, l) == w * w) by (nonlinear_arith)
        requires
            ratio(c, l) == w || ratio(c, l) == -w,
    ;
    let q = w * l;
    lemma_square_near(p, q, l);
    assert(q * q == w * w * (l * l)) by (nonlinear_arith)
        requires
            q == w * l,
    ;
    assert(p * p == 1_000_000_000_000 * (c * c)) by (nonlinear_arith)
        requires
            p == m * 1_000_000,
            m == c || m == -c,
    ;
    assert(2 * p * (l - 1) == 2_000_000 * (m * (l - 1))) by (nonlinear_arith)
        requires
            p == m * 1_000_000,
    ;
}

/// From bounds on the square of `l * r` to bounds on `r`.
proof fn lemma_unit_root(m: int, r: int, n: int, l: int, t: int)
    requires
        0 < l,
        is_isqrt(n, l),
        is_isqrt(m, r),
        0 <= t <= 3 * l,
        m * (l * l) <= 1_000_000_000_000 * n,
        m * (l * l) >= 1_000_000_000_000 * n - 2_000_000 * (t * (l - 1)),
    ensures
        999_996 <= r,
        r * l <= 1_000_000 * (l + 1),
{
    // from above
    assert((l * r) * (l * r) <= m * (l * l)) by (nonlinear_arith)
        requires
            r * r <= m,
    ;
    assert((1_000_000 * (l + 1)) * (1_000_000 * (l + 1)) == 1_000_000_000_000 * ((l + 1) * (l
        + 1))) by (nonlinear_arith);
    if l * r > 1_000_000 * (l + 1) {
        lemma_square_monotone(1_000_000 * (l + 1), l * r);
    }
    assert(r * l == l * r) by (nonlinear_arith);
    // from below
    assert(t * (l - 1) <= 3 * (l * l) - 3 * l) by (nonlinear_arith)
        requires
            0 <= t <= 3 * l,
            0 < l,
    ;
    assert(m * (l * l) >= 999_994_000_000 * (l * l));
    assert((r + 1) * (r + 1) * (l * l) > 999_994_000_000 * (l * l)) by (nonlinear_arith)
        requires
            m < (r + 1) * (r + 1),
            m * (l * l) >= 999_994_000_000 * (l * l),
            0 < l,
    ;
    if r + 1 <= 999_996 {
        assert((r + 1) * (r + 1) <= 999_996 * 999_996) by (nonlinear_arith)
            requires
                0 <= r + 1 <= 999_996,
        ;
        assert((r + 1) * (r + 1) * (l * l) <= 999_994_000_000 * (l * l)) by (nonlinear_arith)
            requires
                (r + 1) * (r + 1) <= 999_994_000_000,
                0 < l,
        ;
    }
}

/// A vector divided by its own length has length one, up to rounding: never
/// more than four millionths less, and more by at most one part in the length
/// that it was divided by.
proof fn lemma_shrunk_length(b: Triple)
    requires
        norm_squared(b) > 0,
    ensures
        ONE - 4 <= norm(shrunk(b, norm(b))),
        norm(shrunk(b, norm(b))) * norm(b) <= ONE * (norm(b) + 1),
        norm_squared(shrunk(b, norm(b))) * (norm(b) * norm(b)) <= 1_000_000_000_000
            * norm_squared(b),
{
    let n = norm_squared(b);
    lemma_isqrt_exists(n);
    let l = norm(b);
    lemma_root_is_positive(n, l);
    lemma_component_bound(b, l);
    let u = shrunk(b, l);
    lemma_unit_component(b.x, l);
    lemma_unit_component(b.y, l);
    lemma_unit_component(b.z, l);
    let m = norm_squared(u);
    assert(m == u.x * u.x + u.y * u.y + u.z * u.z);
    assert(m >= 0) by (nonlinear_arith)
        requires
            m == u.x * u.x + u.y * u.y + u.z * u.z,
    ;
    lemma_isqrt_exists(m);
    let r = norm(u);
    let t = magnitude(b.x) + magnitude(b.y) + magnitude(b.z);
    assert(m * (l * l) == u.x * u.x * (l * l) + u.y * u.y * (l * l) + u.z * u.z * (l * l))
        by (nonlinear_arith)
        requires
            m == u.x * u.x + u.y * u.y + u.z * u.z,
    ;
    assert(t * (l - 1) == magnitude(b.x) * (l - 1) + magnitude(b.y) * (l - 1) + magnitude(b.z)
        * (l - 1)) by (nonlinear_arith)
        requires
            t == magnitude(b.x) + magnitude(b.y) + magnitude(b.z),
    ;
    lemma_unit_root(m, r, n, l, t);
}

/// A unit vector has length one, up to rounding: for every nonzero vector,
/// however short or long, the length of its unit vector is at most one and
/// at most four millionths less, and its dot product with itself is at most
/// one millionth more than one and at most seven less.
pub proof fn lemma_unit_vector_length(a: Triple)
    requires
        norm_squared(a) > 0,
    ensures
        ONE - 4 <= norm(unit(a)) <= ONE,
        ONE - 7 <= dot_of(unit(a), unit(a)) <= ONE + 1,
{
    let k = magnification(norm_squared(a));
    let b = magnified(a, k);
    lemma_magnified_norm(a, k);
    let n = norm_squared(b);
    assert(n >= 0x1_0000_0000_0000_0000) by (nonlinear_arith)
        requires
            n == norm_squared(a) * (k * k),
            (norm_squared(a) >= 1 && k == 0x1_0000_0000) || (norm_squared(a)
                >= 0x1_0000_0000_0000_0000 && k == 1),
    ;
    lemma_isqrt_exists(n);
    let l = norm(b);
    if l < 0x1_0000_0000 {
        assert((l + 1) * (l + 1) <= 0x1_0000_0000_0000_0000) by (nonlinear_arith)
            requires
                0 <= l + 1 <= 0x1_0000_0000,
        ;
    }
    lemma_shrunk_length(b);
    let r = norm(unit(a));
    assert(r <= 1_000_000) by (nonlinear_arith)
        requires
            r * l <= 1_000_000 * (l + 1),
            l >= 0x1_0000_0000,
    ;
    let m = norm_squared(unit(a));
    lemma_dot_self_positive(unit(a));
    lemma_isqrt_exists(m);
    assert(m >= 999_996 * 999_996) by (nonlinear_arith)
        requires
            r * r <= m,
            999_996 <= r,
    ;
    assert(m <= 1_000_001_000_000) by (nonlinear_arith)
        requires
            m * (l * l) <= 1_000_000_000_000 * n,
            n < (l + 1) * (l + 1),
            l >= 0x1_0000_0000,
    ;
}

} // verus!
