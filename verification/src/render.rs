use crate::color::{color_bytes, Color, Point3};
use crate::ray::Ray;
use crate::scalar::{
    div_fixed, lemma_ratio_unit_interval, lemma_times_fraction, ratio, trunc_div, Scalar, ONE,
};
use crate::scene::{ray_color, shade};
use crate::vec3::{minus, norm_squared, plus, scaled, shrunk, triple, Triple, Vec3};
use vstd::prelude::*;

verus! {

/// The width of the image and of the viewport, in the parts of which the
/// height has `ASPECT_HEIGHT`: the aspect ratio is 16 to 9.
pub const ASPECT_WIDTH: i64 = 16;

/// The height of the image and of the viewport, in the parts of which the
/// width has `ASPECT_WIDTH`.
pub const ASPECT_HEIGHT: i64 = 9;

/// The number of pixels in a row of the image.
pub const IMG_WIDTH: i32 = 400;

/// The number of rows of the image: the height that belongs to `IMG_WIDTH`.
pub const IMG_HEIGHT: i32 = 225;

/// The number of bytes that one frame takes: four for each pixel.
pub const FRAME_BYTES: usize = 360_000;

/// The whole number of rows of an image of the given width: the width
/// divided by the aspect ratio of 16 to 9, rounded down.
pub open spec fn image_height_of(width: int) -> int {
    (width * 9) / 16
}

/// The height of the viewport: two units.
pub open spec fn viewport_height() -> int {
    2 * ONE
}

/// The width of the viewport: its height times the aspect ratio of 16 to 9,
/// rounded toward zero.
pub open spec fn viewport_width() -> int {
    trunc_div(viewport_height() * 16, 9)
}

/// The distance from the eye to the viewport: one unit.
pub open spec fn focal_length() -> int {
    ONE as int
}

/// The eye.
pub open spec fn eye() -> Triple {
    triple(0, 0, 0)
}

/// The span of the viewport from its left edge to its right edge.
pub open spec fn horizontal() -> Triple {
    triple(viewport_width(), 0, 0)
}

/// The span of the viewport from its lower edge to its upper edge.
pub open spec fn vertical() -> Triple {
    triple(0, viewport_height(), 0)
}

/// The lower left corner of the viewport, which lies one focal length before
/// the eye and is centred on it.
pub open spec fn lower_left_corner() -> Triple {
    minus(
        minus(minus(eye(), shrunk(horizontal(), 2 * ONE)), shrunk(vertical(), 2 * ONE)),
        triple(0, 0, focal_length()),
    )
}

/// The direction from the eye through the viewport at column `i`, counted
/// from the left, and row `j`, counted from the bottom.
pub open spec fn pixel_direction(i: int, j: int) -> Triple {
    let u = ratio(i * ONE, (IMG_WIDTH - 1) * ONE);
    let v = ratio(j * ONE, (IMG_HEIGHT - 1) * ONE);
    minus(plus(plus(lower_left_corner(), scaled(horizontal(), u)), scaled(vertical(), v)), eye())
}

/// The colour of the pixel at column `i` and row `j`, the rows counted from
/// the bottom.
pub open spec fn pixel_color(i: int, j: int) -> Triple {
    shade(eye(), pixel_direction(i, j))
}

/// The four bytes of the pixel that is emitted as number `k`. Pixels follow
/// each other row by row, the top row first and each row from left to right.
pub open spec fn pixel_bytes(k: int) -> Seq<u8> {
    color_bytes(pixel_color(k % (IMG_WIDTH as int), IMG_HEIGHT - 1 - k / (IMG_WIDTH as int)))
}

/// The byte at position `p` of a frame, in which each pixel takes four bytes.
pub open spec fn image_byte(p: int) -> u8 {
    pixel_bytes(p / 4)[p % 4]
}

/// Whether `after` is what drawing into `before` leaves: the image in the
/// first `FRAME_BYTES` bytes, and what lies behind them untouched.
pub open spec fn drawn(before: Seq<u8>, after: Seq<u8>) -> bool {
    &&& after.len() == before.len()
    &&& forall|p: int|
        0 <= p < FRAME_BYTES && p < after.len() ==> #[trigger] after[p] == image_byte(p)
    &&& forall|p: int| FRAME_BYTES <= p < after.len() ==> #[trigger] after[p] == before[p]
}

/// The height that belongs to the width of the image is `IMG_HEIGHT`.
pub proof fn lemma_image_height()
    ensures
        image_height_of(IMG_WIDTH as int) == IMG_HEIGHT,
{
}

/// Drawing depends on nothing but the length of the frame: a frame that was
/// drawn into is left as it is by drawing into it again, and two frames of
/// one length hold the same bytes of the image once each was drawn into.
pub proof fn lemma_draw_repeatable(
    first: Seq<u8>,
    once: Seq<u8>,
    twice: Seq<u8>,
    other: Seq<u8>,
    other_once: Seq<u8>,
)
    requires
        drawn(first, once),
        drawn(once, twice),
        drawn(other, other_once),
        other.len() == first.len(),
    ensures
        twice == once,
        forall|p: int| 0 <= p < FRAME_BYTES && p < once.len() ==> other_once[p] == once[p],
{
    assert forall|p: int| 0 <= p < once.len() implies twice[p] == once[p] by {
        if p < FRAME_BYTES {
            assert(twice[p] == image_byte(p));
            assert(once[p] == image_byte(p));
        }
    }
    assert(twice =~= once);
    assert forall|p: int| 0 <= p < FRAME_BYTES && p < once.len() implies other_once[p]
        == once[p] by {
        assert(other_once[p] == image_byte(p));
        assert(once[p] == image_byte(p));
    }
}

/// Every direction through the viewport points forward and stays within two
/// units of the eye.
pub proof fn lemma_pixel_direction(i: int, j: int)
    requires
        0 <= i < IMG_WIDTH,
        0 <= j < IMG_HEIGHT,
    ensures
        pixel_direction(i, j).z == -ONE,
        -1_777_777 <= pixel_direction(i, j).x <= 1_777_778,
        -ONE <= pixel_direction(i, j).y <= ONE,
        norm_squared(pixel_direction(i, j)) > 0,
{
    let u = ratio(i * ONE, (IMG_WIDTH - 1) * ONE);
    let v = ratio(j * ONE, (IMG_HEIGHT - 1) * ONE);
    lemma_ratio_unit_interval(i * ONE, (IMG_WIDTH - 1) * ONE);
    lemma_ratio_unit_interval(j * ONE, (IMG_HEIGHT - 1) * ONE);
    lemma_times_fraction(viewport_width(), u);
    lemma_times_fraction(viewport_height(), v);
    let d = pixel_direction(i, j);
    assert(d.x * d.x >= 0 && d.y * d.y >= 0) by (nonlinear_arith);
}

/// The number of rows of an image of the given width, for an aspect ratio of
/// 16 to 9.
pub fn image_height(width: i32) -> (height: i32)
    ensures
        height == image_height_of(width as int),
{
    let ninefold: i64 = width as i64 * ASPECT_HEIGHT;
    let rows: i64 = ninefold / ASPECT_WIDTH;
    if ninefold < 0 && rows * ASPECT_WIDTH != ninefold {
        (rows - 1) as i32
    } else {
        rows as i32
    }
}

/// The eye and the viewport through which it looks.
pub struct Camera {
    pub origin: Point3,
    pub horizontal: Vec3,
    pub vertical: Vec3,
    pub lower_left_corner: Point3,
}

impl Camera {
    /// Whether the camera is the one of this scene.
    pub open spec fn well_formed(&self) -> bool {
        &&& self.origin@ == eye()
        &&& self.horizontal@ == horizontal()
        &&& self.vertical@ == vertical()
        &&& self.lower_left_corner@ == lower_left_corner()
    }

    /// The camera of this scene.
    pub fn new() -> (camera: Camera)
        ensures
            camera.well_formed(),
    {
        let viewport_height: Scalar = 2 * ONE;
        let viewport_width: Scalar = viewport_height * ASPECT_WIDTH / ASPECT_HEIGHT;
        let focal_length: Scalar = ONE;

        let origin: Point3 = Point3::zeroed();
        let horizontal: Vec3 = Vec3::new(viewport_width, 0, 0);
        let vertical: Vec3 = Vec3::new(0, viewport_height, 0);
        let lower_left_corner: Point3 = origin - horizontal / (2 * ONE) - vertical / (2 * ONE)
            - Vec3::new(0, 0, focal_length);
        Camera { origin, horizontal, vertical, lower_left_corner }
    }

    /// The ray from the eye through the pixel at column `i` and row `j`, the
    /// rows counted from the bottom.
    pub fn get_ray(&self, i: i32, j: i32) -> (ray: Ray)
        requires
            self.well_formed(),
            0 <= i < IMG_WIDTH,
            0 <= j < IMG_HEIGHT,
        ensures
            ray.origin@ == eye(),
            ray.direction@ == pixel_direction(i as int, j as int),
    {
        let u: Scalar = div_fixed(i as i64 * ONE, (IMG_WIDTH as i64 - 1) * ONE);
        let v: Scalar = div_fixed(j as i64 * ONE, (IMG_HEIGHT as i64 - 1) * ONE);
        Ray {
            origin: self.origin,
            direction: self.lower_left_corner + u * self.horizontal + v * self.vertical
                - self.origin,
        }
    }

    /// The colour of the pixel at column `i` and row `j`, the rows counted
    /// from the bottom.
    pub fn pixel(&self, i: i32, j: i32) -> (color: Color)
        requires
            self.well_formed(),
            0 <= i < IMG_WIDTH,
            0 <= j < IMG_HEIGHT,
        ensures
            color@ == pixel_color(i as int, j as int),
    {
        let r: Ray = self.get_ray(i, j);
        proof {
            lemma_pixel_direction(i as int, j as int);
        }
        ray_color(&r)
    }
}

fn store_pixel(frame: &mut [u8], k: usize, pixel: &[u8; 4])
    requires
        4 * k + 4 <= old(frame)@.len(),
    ensures
        final(frame)@.len() == old(frame)@.len(),
        forall|p: int|
            0 <= p < old(frame)@.len() ==> final(frame)@[p] == if 4 * k <= p < 4 * k + 4 {
                pixel@[p - 4 * k]
            } else {
                old(frame)@[p]
            },
{
    assert(frame@.len() <= usize::MAX) by {
        assert(frame.len() == frame@.len());
    }
    frame[4 * k] = pixel[0];
    frame[4 * k + 1] = pixel[1];
    frame[4 * k + 2] = pixel[2];
    frame[4 * k + 3] = pixel[3];
}

/// Renders the scene into `frame`, four bytes to a pixel, the top row first.
/// Bytes behind the image are left as they were.
pub fn draw(frame: &mut [u8])
    requires
        old(frame)@.len() >= FRAME_BYTES,
    ensures
        drawn(old(frame)@, final(frame)@),
{
    let camera = Camera::new();
    let mut k: usize = 0;
    let mut j: i32 = IMG_HEIGHT;
    while j > 0
        invariant
            camera.well_formed(),
            0 <= j <= IMG_HEIGHT,
            k == (IMG_HEIGHT - j) * IMG_WIDTH,
            frame@.len() == old(frame)@.len(),
            frame@.len() >= FRAME_BYTES,
            forall|p: int| 0 <= p < 4 * k ==> frame@[p] == image_byte(p),
            forall|p: int| 4 * k <= p < frame@.len() ==> frame@[p] == old(frame)@[p],
        decreases j,
    {
        j -= 1;
        let mut i: i32 = 0;
        while i < IMG_WIDTH
            invariant
                camera.well_formed(),
                0 <= j < IMG_HEIGHT,
                0 <= i <= IMG_WIDTH,
                k == (IMG_HEIGHT - 1 - j) * IMG_WIDTH + i,
                frame@.len() == old(frame)@.len(),
                frame@.len() >= FRAME_BYTES,
                forall|p: int| 0 <= p < 4 * k ==> frame@[p] == image_byte(p),
                forall|p: int| 4 * k <= p < frame@.len() ==> frame@[p] == old(frame)@[p],
            decreases IMG_WIDTH - i,
        {
            let pixel_color = camera.pixel(i, j);
            let pixel = pixel_color.as_u8_buffer();
            assert(pixel@ == pixel_bytes(k as int));
            let ghost before = frame@;
            store_pixel(frame, k, &pixel);
            assert forall|p: int| 0 <= p < 4 * (k + 1) implies frame@[p] == image_byte(p) by {
                if p >= 4 * k {
                    assert(p / 4 == k && p % 4 == p - 4 * k);
                } else {
                    assert(frame@[p] == before[p]);
                }
            }
            k += 1;
            i += 1;
        }
    }
}

} // verus!
