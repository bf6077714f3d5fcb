use crate::color::{Color, Point3};
use crate::ray::{sky, Ray};
use crate::scalar::{Scalar, ONE};
use crate::vec3::{dot_exact, minus, norm_squared, triple, Triple};
use vstd::prelude::*;

verus! {

/// The largest magnitude of a coordinate, and of a radius, that the
/// intersection test takes: one thousand units.
pub const COORD_MAX: Scalar = 1_000_000_000;

/// Whether each component lies within `bound` of zero.
pub open spec fn within(t: Triple, bound: int) -> bool {
    &&& -bound <= t.x <= bound
    &&& -bound <= t.y <= bound
    &&& -bound <= t.z <= bound
}

/// The discriminant of the quadratic `a t^2 + b t + c` whose roots are the
/// parameters at which the ray meets the sphere. It is computed on the raw
/// components, without rounding, so only its sign has a meaning.
pub open spec fn discriminant(center: Triple, radius: int, origin: Triple, direction: Triple) -> int {
    let oc = minus(origin, center);
    let a = dot_exact(direction, direction);
    let b = 2 * dot_exact(oc, direction);
    let c = dot_exact(oc, oc) - radius * radius;
    b * b - 4 * a * c
}

/// Whether the line of the ray crosses the sphere. A line that only touches
/// it does not.
pub open spec fn hits(center: Triple, radius: int, origin: Triple, direction: Triple) -> bool {
    discriminant(center, radius, origin, direction) > 0
}

/// The centre of the one sphere of the scene.
pub open spec fn sphere_center() -> Triple {
    triple(0, 0, -ONE)
}

/// The radius of the one sphere of the scene.
pub open spec fn sphere_radius() -> int {
    500_000
}

/// The colour seen along a ray: red where it meets the sphere, the sky
/// elsewhere.
pub open spec fn shade(origin: Triple, direction: Triple) -> Triple {
    if hits(sphere_center(), sphere_radius(), origin, direction) {
        triple(ONE as int, 0, 0)
    } else {
        sky(direction)
    }
}

/// A line that touches the sphere in one point, so that the discriminant is
/// zero, does not count as crossing it.
pub proof fn lemma_tangent_misses(center: Triple, radius: int, origin: Triple, direction: Triple)
    requires
        discriminant(center, radius, origin, direction) == 0,
    ensures
        !hits(center, radius, origin, direction),
{
}

proof fn lemma_product_within(x: int, y: int, bx: int, by: int)
    by (nonlinear_arith)
    requires
        -bx <= x <= bx,
        -by <= y <= by,
    ensures
        -(bx * by) <= x * y <= bx * by,
{
}

proof fn lemma_discriminant_sign(a: int, h: int, c: int)
    by (nonlinear_arith)
    ensures
        (2 * h) * (2 * h) - 4 * a * c == 4 * (h * h - a * c),
{
}

fn dot3(ax: i128, ay: i128, az: i128, bx: i128, by: i128, bz: i128) -> (r: i128)
    requires
        -2_000_000_000 <= ax <= 2_000_000_000,
        -2_000_000_000 <= ay <= 2_000_000_000,
        -2_000_000_000 <= az <= 2_000_000_000,
        -2_000_000_000 <= bx <= 2_000_000_000,
        -2_000_000_000 <= by <= 2_000_000_000,
        -2_000_000_000 <= bz <= 2_000_000_000,
    ensures
        r == ax * bx + ay * by + az * bz,
{
    proof {
        lemma_product_within(ax as int, bx as int, 2_000_000_000, 2_000_000_000);
        lemma_product_within(ay as int, by as int, 2_000_000_000, 2_000_000_000);
        lemma_product_within(az as int, bz as int, 2_000_000_000, 2_000_000_000);
    }
    ax * bx + ay * by + az * bz
}

/// Whether the line of `ray` crosses the sphere with the given centre and
/// radius. A tangent line counts as a miss.
pub fn hit_sphere(center: Point3, radius: Scalar, ray: &Ray) -> (hit: bool)
    requires
        within(center@, COORD_MAX as int),
        -COORD_MAX <= radius <= COORD_MAX,
        within(ray.origin@, COORD_MAX as int),
        within(ray.direction@, COORD_MAX as int),
    ensures
        hit == hits(center@, radius as int, ray.origin@, ray.direction@),
{
    let ocx: i128 = ray.origin.x as i128 - center.x as i128;
    let ocy: i128 = ray.origin.y as i128 - center.y as i128;
    let ocz: i128 = ray.origin.z as i128 - center.z as i128;
    let dx: i128 = ray.direction.x as i128;
    let dy: i128 = ray.direction.y as i128;
    let dz: i128 = ray.direction.z as i128;
    proof {
        lemma_product_within(dx as int, dx as int, 1_000_000_000, 1_000_000_000);
        lemma_product_within(dy as int, dy as int, 1_000_000_000, 1_000_000_000);
        lemma_product_within(dz as int, dz as int, 1_000_000_000, 1_000_000_000);
        lemma_product_within(ocx as int, dx as int, 2_000_000_000, 1_000_000_000);
        lemma_product_within(ocy as int, dy as int, 2_000_000_000, 1_000_000_000);
        lemma_product_within(ocz as int, dz as int, 2_000_000_000, 1_000_000_000);
        lemma_product_within(ocx as int, ocx as int, 2_000_000_000, 2_000_000_000);
        lemma_product_within(ocy as int, ocy as int, 2_000_000_000, 2_000_000_000);
        lemma_product_within(ocz as int, ocz as int, 2_000_000_000, 2_000_000_000);
        lemma_product_within(radius as int, radius as int, 1_000_000_000, 1_000_000_000);
    }
    let a: i128 = dot3(dx, dy, dz, dx, dy, dz);
    let h: i128 = dot3(ocx, ocy, ocz, dx, dy, dz);
    let rr: i128 = dot3(radius as i128, 0, 0, radius as i128, 0, 0);
    let c: i128 = dot3(ocx, ocy, ocz, ocx, ocy, ocz) - rr;
    proof {
        lemma_product_within(
            h as int,
            h as int,
            6_000_000_000_000_000_000,
            6_000_000_000_000_000_000,
        );
        lemma_product_within(
            a as int,
            c as int,
            3_000_000_000_000_000_000,
            13_000_000_000_000_000_000,
        );
        lemma_discriminant_sign(a as int, h as int, c as int);
    }
    h * h > a * c
}

/// The colour seen along `ray` in the scene of one sphere before the sky.
pub fn ray_color(ray: &Ray) -> (c: Color)
    requires
        within(ray.origin@, COORD_MAX as int),
        within(ray.direction@, COORD_MAX as int),
        norm_squared(ray.direction@) > 0,
    ensures
        c@ == shade(ray.origin@, ray.direction@),
{
    let sphere_center: Point3 = Point3::new(0, 0, -ONE);
    let sphere_radius: Scalar = 500_000;

    if hit_sphere(sphere_center, sphere_radius, ray) {
        return Color::red();
    }
    ray.ray_color()
}

} // verus!
