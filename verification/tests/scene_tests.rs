use raytracer::color::{Color, Point3};
use raytracer::ray::Ray;
use raytracer::scalar::ONE;
use raytracer::scene::{hit_sphere, ray_color, COORD_MAX};
use raytracer::vec3::Vec3;

fn sphere() -> (Point3, i64) {
    (Point3::new(0, 0, -ONE), ONE / 2)
}

fn from_origin(x: i64, y: i64, z: i64) -> Ray {
    Ray { origin: Point3::zeroed(), direction: Vec3::new(x, y, z) }
}

#[test]
fn ray_at_walks_along_the_direction() {
    let ray = Ray {
        origin: Point3::new(ONE, 2 * ONE, 3 * ONE),
        direction: Vec3::new(500_000, -250_000, 0),
    };
    assert_eq!(ray.at(0), ray.origin);
    assert_eq!(ray.at(ONE), Point3::new(1_500_000, 1_750_000, 3 * ONE));
    assert_eq!(ray.at(-3 * ONE), Point3::new(-500_000, 2_750_000, 3 * ONE));
}

#[test]
fn central_ray_hits_the_sphere() {
    let (center, radius) = sphere();
    assert!(hit_sphere(center, radius, &from_origin(0, 0, -ONE)));
}

#[test]
fn far_ray_misses_the_sphere() {
    let (center, radius) = sphere();
    assert!(!hit_sphere(center, radius, &from_origin(10 * ONE, 10 * ONE, -ONE)));
}

#[test]
fn tangent_ray_is_a_miss() {
    let (center, radius) = sphere();
    let tangent = Ray { origin: Point3::new(ONE / 2, 0, 0), direction: Vec3::new(0, 0, -ONE) };
    assert!(!hit_sphere(center, radius, &tangent));
    let inside = Ray { origin: Point3::new(ONE / 2 - 1, 0, 0), direction: Vec3::new(0, 0, -ONE) };
    assert!(hit_sphere(center, radius, &inside));
    let outside = Ray { origin: Point3::new(ONE / 2 + 1, 0, 0), direction: Vec3::new(0, 0, -ONE) };
    assert!(!hit_sphere(center, radius, &outside));
}

#[test]
fn tangent_ray_from_the_origin_is_a_miss() {
    // A sphere of radius 3 about (5, 0, 0) touches the line through the
    // origin along (4, 3, 0).
    let center = Point3::new(5 * ONE, 0, 0);
    assert!(!hit_sphere(center, 3 * ONE, &from_origin(4, 3, 0)));
    assert!(!hit_sphere(center, 3 * ONE, &from_origin(4 * ONE, 3 * ONE, 0)));
    assert!(hit_sphere(center, 3 * ONE + 1, &from_origin(4 * ONE, 3 * ONE, 0)));
    assert!(!hit_sphere(center, 3 * ONE - 1, &from_origin(4 * ONE, 3 * ONE, 0)));
}

#[test]
fn hit_test_looks_along_the_whole_line() {
    // The sphere lies behind the origin of this ray, on its line.
    let (center, radius) = sphere();
    assert!(hit_sphere(center, radius, &from_origin(0, 0, ONE)));
}

#[test]
fn hit_test_ignores_the_length_of_the_direction() {
    let (center, radius) = sphere();
    for scale in [1, 7, 1_000, ONE, 1_000 * ONE] {
        assert!(hit_sphere(center, radius, &from_origin(0, 0, -scale)));
        assert!(hit_sphere(center, radius, &from_origin(scale / 4, 0, -scale)));
        assert!(!hit_sphere(center, radius, &from_origin(scale, scale, -scale)));
    }
}

#[test]
fn hit_test_of_a_ray_without_direction_is_a_miss() {
    let (center, radius) = sphere();
    assert!(!hit_sphere(center, radius, &from_origin(0, 0, 0)));
}

#[test]
fn hit_test_at_the_largest_coordinates() {
    let m = COORD_MAX;
    let center = Point3::new(m, m, m);
    let ray = Ray { origin: Point3::new(-m, -m, -m), direction: Vec3::new(m, m, m) };
    assert!(hit_sphere(center, m, &ray));
    assert!(hit_sphere(center, -m, &ray));
    assert!(hit_sphere(center, 1, &ray));
    assert!(!hit_sphere(center, 0, &ray));
    let aside = Ray { origin: Point3::new(-m, -m, -m), direction: Vec3::new(m, -m, m) };
    assert!(!hit_sphere(center, m, &aside));
}

#[test]
fn straight_up_is_blue_and_straight_down_is_white() {
    assert_eq!(ray_color(&from_origin(0, ONE, 0)), Color::new(500_000, 700_000, ONE));
    assert_eq!(ray_color(&from_origin(0, -ONE, 0)), Color::white());
    assert_eq!(from_origin(0, ONE, 0).ray_color(), Color::new(500_000, 700_000, ONE));
    assert_eq!(from_origin(0, -ONE, 0).ray_color(), Color::new(ONE, ONE, ONE));
}

#[test]
fn level_ray_is_halfway_between_white_and_blue() {
    assert_eq!(ray_color(&from_origin(ONE, 0, 0)), Color::new(750_000, 850_000, ONE));
    assert_eq!(from_origin(0, 0, -ONE).ray_color(), Color::new(750_000, 850_000, ONE));
}

#[test]
fn sky_colour_of_a_slanted_ray() {
    assert_eq!(
        ray_color(&from_origin(10 * ONE, 10 * ONE, -ONE)),
        Color::new(573_664, 744_198, ONE)
    );
    assert_eq!(from_origin(ONE, ONE, ONE).ray_color(), Color::new(605_662, 763_397, ONE));
}

#[test]
fn ray_that_hits_is_red() {
    assert_eq!(ray_color(&from_origin(0, 0, -ONE)), Color::red());
    assert_eq!(ray_color(&from_origin(0, 0, -ONE)), Color::new(ONE, 0, 0));
    // Without the sphere the same ray sees the sky.
    assert_eq!(from_origin(0, 0, -ONE).ray_color(), Color::new(750_000, 850_000, ONE));
}

#[test]
fn sky_does_not_depend_on_the_origin() {
    let direction = Vec3::new(300_000, 900_000, -ONE);
    let here = Ray { origin: Point3::zeroed(), direction };
    let there = Ray { origin: Point3::new(40 * ONE, -3 * ONE, 900 * ONE), direction };
    assert_eq!(here.ray_color(), there.ray_color());
    assert_eq!(ray_color(&here), ray_color(&there));
}
