use raytracer::color::Color;
use raytracer::ray::Ray;
use raytracer::render::{
    draw, image_height, Camera, ASPECT_HEIGHT, ASPECT_WIDTH, FRAME_BYTES, IMG_HEIGHT, IMG_WIDTH,
};
use raytracer::scalar::ONE;
use raytracer::scene::ray_color;
use raytracer::vec3::Vec3;

fn rendered() -> Vec<u8> {
    let mut frame = vec![0u8; FRAME_BYTES];
    draw(&mut frame);
    frame
}

fn pixel_of(frame: &[u8], i: usize, row: usize) -> [u8; 4] {
    let k = row * (IMG_WIDTH as usize) + i;
    [frame[4 * k], frame[4 * k + 1], frame[4 * k + 2], frame[4 * k + 3]]
}

#[test]
fn image_is_400_by_225() {
    assert_eq!(IMG_WIDTH, 400);
    assert_eq!(IMG_HEIGHT, 225);
    assert_eq!(image_height(400), 225);
    assert_eq!(image_height(IMG_WIDTH), IMG_HEIGHT);
    assert_eq!(FRAME_BYTES, 400 * 225 * 4);
}

#[test]
fn image_height_of_other_widths() {
    assert_eq!(image_height(16), 9);
    assert_eq!(image_height(1920), 1080);
    assert_eq!(image_height(256), 144);
    assert_eq!(image_height(1000), 562);
    assert_eq!(image_height(1), 0);
    assert_eq!(image_height(0), 0);
    assert_eq!(image_height(15), 8);
    assert_eq!(image_height(17), 9);
    assert_eq!(image_height(254_007), 142_878);
    assert_eq!(image_height(-16), -9);
    assert_eq!(image_height(-1), -1);
    assert_eq!(image_height(i32::MAX), 1_207_959_551);
    assert_eq!(image_height(i32::MIN), -1_207_959_552);
}

#[test]
fn camera_looks_through_a_16_by_9_viewport() {
    let camera = Camera::new();
    assert_eq!((ASPECT_WIDTH, ASPECT_HEIGHT), (16, 9));
    assert_eq!(camera.origin, Vec3::new(0, 0, 0));
    assert_eq!(camera.horizontal, Vec3::new(3_555_555, 0, 0));
    assert_eq!(camera.vertical, Vec3::new(0, 2 * ONE, 0));
    assert_eq!(camera.lower_left_corner, Vec3::new(-1_777_777, -ONE, -ONE));
}

#[test]
fn camera_rays_through_the_corners() {
    let camera = Camera::new();
    let ray: Ray = camera.get_ray(0, 0);
    assert_eq!(ray.origin, Vec3::new(0, 0, 0));
    assert_eq!(ray.direction, Vec3::new(-1_777_777, -ONE, -ONE));
    assert_eq!(camera.get_ray(399, 224).direction, Vec3::new(1_777_778, ONE, -ONE));
    assert_eq!(camera.get_ray(0, 224).direction, Vec3::new(-1_777_777, ONE, -ONE));
    assert_eq!(camera.get_ray(399, 0).direction, Vec3::new(1_777_778, -ONE, -ONE));
    assert_eq!(camera.get_ray(200, 112).direction, Vec3::new(4_455, 0, -ONE));
}

#[test]
fn camera_pixel_is_the_colour_of_its_ray() {
    let camera = Camera::new();
    for (i, j) in [(0, 0), (399, 224), (200, 112), (100, 112), (17, 201)] {
        assert_eq!(camera.pixel(i, j), ray_color(&camera.get_ray(i, j)));
    }
    assert_eq!(camera.pixel(0, 224), Color::new(639_949, 783_969, ONE));
    assert_eq!(camera.pixel(0, 0), Color::new(860_051, 916_030, ONE));
    assert_eq!(camera.pixel(100, 112), Color::new(750_000, 850_000, ONE));
    assert_eq!(camera.pixel(200, 112), Color::red());
}

#[test]
fn draw_starts_with_the_top_row() {
    let frame = rendered();
    assert_eq!(pixel_of(&frame, 0, 0), [163, 200, 255, 255]);
    assert_eq!(pixel_of(&frame, 399, 0), [163, 200, 255, 255]);
    assert_eq!(pixel_of(&frame, 0, 224), [220, 234, 255, 255]);
    assert_eq!(pixel_of(&frame, 399, 224), [220, 234, 255, 255]);
    assert_eq!(&frame[..4], &[163, 200, 255, 255]);
    assert_eq!(&frame[FRAME_BYTES - 4..], &[220, 234, 255, 255]);
}

#[test]
fn draw_shows_the_sphere_in_the_middle() {
    let frame = rendered();
    assert_eq!(pixel_of(&frame, 200, 112), [255, 0, 0, 255]);
    assert_eq!(pixel_of(&frame, 199, 112), [255, 0, 0, 255]);
    assert_eq!(pixel_of(&frame, 150, 112), [255, 0, 0, 255]);
    assert_eq!(pixel_of(&frame, 260, 112), [255, 0, 0, 255]);
    assert_eq!(pixel_of(&frame, 100, 112), [191, 217, 255, 255]);
    let red = frame.chunks_exact(4).filter(|p| p[0] == 255 && p[1] == 0 && p[2] == 0).count();
    assert_eq!(red, 13_162);
}

#[test]
fn draw_writes_every_pixel_as_the_camera_sees_it() {
    let frame = rendered();
    let camera = Camera::new();
    let mut k: usize = 0;
    let mut j = IMG_HEIGHT;
    while j > 0 {
        j -= 1;
        let mut i = 0;
        while i < IMG_WIDTH {
            let expected = camera.pixel(i, j).as_u8_buffer();
            assert_eq!(&frame[4 * k..4 * k + 4], &expected, "column {} row {}", i, j);
            k += 1;
            i += 1;
        }
    }
    assert_eq!(4 * k, FRAME_BYTES);
    let total: u64 = frame.iter().map(|b| *b as u64).sum();
    assert_eq!(total, 77_294_695);
}

#[test]
fn draw_overwrites_what_was_there() {
    let mut frame = vec![0x5Au8; FRAME_BYTES];
    draw(&mut frame);
    assert_eq!(frame, rendered());
}

#[test]
fn draw_twice_gives_the_same_bytes() {
    let mut frame = vec![0u8; FRAME_BYTES];
    draw(&mut frame);
    let once = frame.clone();
    draw(&mut frame);
    assert_eq!(frame, once);
}

#[test]
fn draw_leaves_the_bytes_behind_the_image() {
    let mut frame = vec![0xA7u8; FRAME_BYTES + 10];
    draw(&mut frame);
    assert_eq!(&frame[..FRAME_BYTES], &rendered()[..]);
    assert_eq!(&frame[FRAME_BYTES..], &[0xA7u8; 10]);
}

#[test]
fn draw_is_mirrored_left_to_right() {
    let frame = rendered();
    for row in [0usize, 50, 112, 224] {
        for i in 0..200usize {
            assert_eq!(pixel_of(&frame, i, row), pixel_of(&frame, 399 - i, row));
        }
    }
}
