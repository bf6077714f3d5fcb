use crate::color::{Color, Point3};
use crate::scalar::{mul_fixed, times, Scalar, ONE};
use crate::vec3::{
    lemma_unit_range, norm_squared, plus, scaled, triple, triple_fits, unit, Triple, Vec3,
};
use vstd::prelude::*;

verus! {

/// One half, as a fixed-point number.
pub const HALF: Scalar = 500_000;

/// A half-line: the points `origin + t * direction`. The direction need not
/// have length one.
#[derive(Debug)]
pub struct Ray {
    pub origin: Point3,
    pub direction: Vec3,
}

/// How far up a direction points, from zero (straight down) to one (straight
/// up): half of one more than the height of its unit vector.
pub open spec fn blend(direction: Triple) -> int {
    times(HALF as int, unit(direction).y + ONE)
}

/// The colour of the sky in a direction: white below, blue above, mixed in
/// between by `blend`.
pub open spec fn sky(direction: Triple) -> Triple {
    let t = blend(direction);
    plus(
        scaled(triple(ONE as int, ONE as int, ONE as int), ONE - t),
        scaled(triple(500_000, 700_000, ONE as int), t),
    )
}

/// The sky is a mixture: `blend` lies between zero and one, red runs from one
/// half to one, green from seven tenths to one, and blue is one.
pub proof fn lemma_sky_range(direction: Triple)
    requires
        norm_squared(direction) > 0,
    ensures
        0 <= blend(direction) <= ONE,
        sky(direction).x == ONE - blend(direction) + times(500_000, blend(direction)),
        sky(direction).y == ONE - blend(direction) + times(700_000, blend(direction)),
        sky(direction).z == ONE,
        500_000 <= sky(direction).x <= ONE,
        700_000 <= sky(direction).y <= ONE,
{
    lemma_unit_range(direction);
}

impl Ray {
    /// The point of the ray at parameter `t`, which may be negative.
    pub fn at(&self, t: Scalar) -> (p: Point3)
        requires
            triple_fits(scaled(self.direction@, t as int)),
            triple_fits(plus(self.origin@, scaled(self.direction@, t as int))),
        ensures
            p@ == plus(self.origin@, scaled(self.direction@, t as int)),
    {
        self.origin + self.direction * t
    }

    /// The colour of the background behind the ray, which depends on its
    /// direction alone.
    pub fn ray_color(&self) -> (c: Color)
        requires
            norm_squared(self.direction@) > 0,
        ensures
            c@ == sky(self.direction@),
    {
        proof {
            lemma_sky_range(self.direction@);
        }
        let unit_direction: Vec3 = self.direction.unit_vector();
        let t: Scalar = mul_fixed(HALF, unit_direction.y + ONE);
        (ONE - t) * Color::white() + t * Color { x: 500_000, y: 700_000, z: ONE }
    }
}

} // verus!
