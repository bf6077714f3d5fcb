use raytracer::scalar::ONE;
use raytracer::vec3::{cross, dot, Vec3};

fn a() -> Vec3 {
    Vec3::new(1_500_000, -2_300_001, 700_003)
}

fn b() -> Vec3 {
    Vec3::new(-400_007, 900_001, 1_100_009)
}

#[test]
fn new_keeps_the_components() {
    let v = Vec3::new(1, -2, 3);
    assert_eq!((v.x, v.y, v.z), (1, -2, 3));
    assert_eq!(v, Vec3 { x: 1, y: -2, z: 3 });
}

#[test]
fn addition_and_subtraction_are_componentwise() {
    assert_eq!(a() + b(), Vec3::new(1_099_993, -1_400_000, 1_800_012));
    assert_eq!(a() - b(), Vec3::new(1_900_007, -3_200_002, -400_006));
    assert_eq!(-a(), Vec3::new(-1_500_000, 2_300_001, -700_003));
}

#[test]
fn adding_then_subtracting_gives_back_the_vector() {
    assert_eq!((a() + b()) - b(), a());
    assert_eq!((b() + a()) - a(), b());
    let far = Vec3::new(i64::MAX - 5, i64::MIN + 5, 0);
    let step = Vec3::new(5, -5, i64::MAX);
    assert_eq!((far + step) - step, far);
}

#[test]
fn scalar_multiplication_in_both_orders() {
    assert_eq!(a() * 1_500_000, Vec3::new(2_250_000, -3_450_001, 1_050_004));
    assert_eq!(1_500_000 * a(), Vec3::new(2_250_000, -3_450_001, 1_050_004));
    assert_eq!(a() * -300_000, Vec3::new(-450_000, 690_000, -210_000));
    assert_eq!(-300_000 * a(), Vec3::new(-450_000, 690_000, -210_000));
    assert_eq!(a() * ONE, a());
    assert_eq!(a() * 0, Vec3::new(0, 0, 0));
}

#[test]
fn scalar_division() {
    assert_eq!(a() / (3 * ONE), Vec3::new(500_000, -766_667, 233_334));
    assert_eq!(a() / -700_000, Vec3::new(-2_142_857, 3_285_715, -1_000_004));
    assert_eq!(a() / ONE, a());
}

#[test]
fn dot_product_value() {
    let u = Vec3::new(ONE, 2 * ONE, 3 * ONE);
    let v = Vec3::new(4 * ONE, 5 * ONE, 6 * ONE);
    assert_eq!(dot(&u, &v), 32 * ONE);
    assert_eq!(dot(&a(), &b()), -1_900_005);
}

#[test]
fn dot_product_rounds_away_from_zero() {
    let x = Vec3::new(1, 0, 0);
    assert_eq!(dot(&a(), &x), 2);
    assert_eq!(dot(&x, &Vec3::new(-1, 0, 0)), -1);
    assert_eq!(dot(&Vec3::new(1, 2, 3), &Vec3::new(4, 5, 6)), 1);
    assert_eq!(dot(&Vec3::new(-1, 2, 3), &Vec3::new(4, 5, 6)), 1);
    assert_eq!(dot(&Vec3::new(ONE, 0, 0), &Vec3::new(-7, 9, 9)), -7);
    assert_eq!(dot(&Vec3::new(0, 5, 0), &Vec3::new(5, 0, 5)), 0);
}

#[test]
fn dot_product_of_a_vector_with_itself_is_zero_for_zero_alone() {
    let zero = Vec3::new(0, 0, 0);
    assert_eq!(dot(&zero, &zero), 0);
    assert_eq!(zero.length_squared(), 0);
    for v in [
        Vec3::new(1, 0, 0),
        Vec3::new(0, -1, 0),
        Vec3::new(1, 1, 0),
        Vec3::new(999, 0, 0),
        Vec3::new(1_000, 0, 0),
    ] {
        assert_eq!(dot(&v, &v), 1, "{:?}", v);
        assert_eq!(v.length_squared(), 1, "{:?}", v);
    }
    assert_eq!(dot(&Vec3::new(1_001, 0, 0), &Vec3::new(1_001, 0, 0)), 2);
    assert_eq!(Vec3::new(ONE, 0, 0).length_squared(), ONE);
    assert!(a().length_squared() > 0 && b().length_squared() > 0);
}

#[test]
fn dot_product_commutes() {
    assert_eq!(dot(&a(), &b()), dot(&b(), &a()));
    let u = Vec3::new(7, -11, 13);
    assert_eq!(dot(&u, &a()), dot(&a(), &u));
}

#[test]
fn cross_product_value() {
    let x = Vec3::new(ONE, 0, 0);
    let y = Vec3::new(0, ONE, 0);
    let z = Vec3::new(0, 0, ONE);
    assert_eq!(cross(&x, &y), z);
    assert_eq!(cross(&y, &z), x);
    assert_eq!(cross(&z, &x), y);
    assert_eq!(cross(&a(), &b()), Vec3::new(-3_160_025, -1_930_019, 429_984));
    assert_eq!(cross(&a(), &a()), Vec3::new(0, 0, 0));
}

#[test]
fn cross_product_changes_sign_when_swapped() {
    assert_eq!(cross(&a(), &b()), -cross(&b(), &a()));
    assert_eq!(cross(&b(), &a()), Vec3::new(3_160_025, 1_930_019, -429_984));
}

#[test]
fn length_and_squared_length() {
    let v = Vec3::new(3 * ONE, 4 * ONE, 0);
    assert_eq!(v.length_squared(), 25 * ONE);
    assert_eq!(v.length(), 5 * ONE);
    assert_eq!(a().length_squared(), 8_030_009);
    assert_eq!(a().length(), 2_833_727);
    assert_eq!(Vec3::new(0, 0, 0).length(), 0);
    assert_eq!(Vec3::new(ONE, ONE, ONE).length(), 1_732_050);
}

#[test]
fn unit_vector_value() {
    assert_eq!(Vec3::new(3 * ONE, 4 * ONE, 0).unit_vector(), Vec3::new(600_000, 800_000, 0));
    assert_eq!(Vec3::new(-3 * ONE, 0, 4 * ONE).unit_vector(), Vec3::new(-600_000, 0, 800_000));
    assert_eq!(Vec3::new(0, 0, -7).unit_vector(), Vec3::new(0, 0, -ONE));
    assert_eq!(a().unit_vector(), Vec3::new(529_338, -811_652, 247_025));
    assert_eq!(
        Vec3::new(ONE, ONE, ONE).unit_vector(),
        Vec3::new(577_350, 577_350, 577_350)
    );
}

#[test]
fn unit_vector_of_whole_ratios_is_exact() {
    assert_eq!(Vec3::new(7, -24, 0).unit_vector(), Vec3::new(280_000, -960_000, 0));
    assert_eq!(Vec3::new(7 * ONE, -24 * ONE, 0).unit_vector(), Vec3::new(280_000, -960_000, 0));
    assert_eq!(Vec3::new(0, 0, 1).unit_vector(), Vec3::new(0, 0, ONE));
}

#[test]
fn unit_vector_has_length_one_up_to_rounding() {
    let vectors = vec![
        a(),
        b(),
        Vec3::new(1, 0, 0),
        Vec3::new(1, 1, 0),
        Vec3::new(-1, 1, -1),
        Vec3::new(123, 456, 789),
        Vec3::new(3 * ONE, 4 * ONE, 0),
        Vec3::new(ONE, ONE, ONE),
        Vec3::new(-1_777_777, ONE, -ONE),
        Vec3::new(10 * ONE, 10 * ONE, -ONE),
        Vec3::new(999_999_999, 999_999_999, 999_999_999),
        Vec3::new(4_294_967_295, 0, 1),
        Vec3::new(4_294_967_296, 1, 0),
        Vec3::new(i64::MAX, i64::MIN, i64::MAX),
    ];
    for v in vectors {
        let unit = v.unit_vector();
        let length = unit.length();
        assert!(ONE - 4 <= length && length <= ONE, "{:?}", v);
        let squared = dot(&unit, &unit);
        assert!(ONE - 7 <= squared && squared <= ONE + 1, "{:?}", v);
        assert_eq!(squared, unit.length_squared());
    }
    assert_eq!(a().unit_vector().length(), 999_999);
    assert_eq!(Vec3::new(3 * ONE, 4 * ONE, 0).unit_vector().length(), ONE);
}

#[test]
fn unit_vector_of_a_short_vector_is_as_fine_as_of_a_long_one() {
    let tiny = Vec3::new(1, 1, 0);
    assert_eq!(tiny.length(), 1);
    assert_eq!(tiny.unit_vector(), Vec3::new(707_106, 707_106, 0));
    assert_eq!(tiny.unit_vector(), Vec3::new(ONE, ONE, 0).unit_vector());
    assert_eq!(tiny.unit_vector().length(), 999_998);
    assert_eq!(dot(&tiny.unit_vector(), &tiny.unit_vector()), 999_998);
    let small = Vec3::new(123, 456, 789);
    assert_eq!(small.length(), 919);
    assert_eq!(small.unit_vector(), Vec3::new(133_759, 495_890, 858_021));
    assert_eq!(small.unit_vector(), Vec3::new(123 * ONE, 456 * ONE, 789 * ONE).unit_vector());
    assert_eq!(small.unit_vector().length(), 999_999);
}

#[test]
fn unit_vector_takes_the_largest_components() {
    let v = Vec3::new(i64::MIN, 0, 0);
    assert_eq!(v.unit_vector(), Vec3::new(-ONE, 0, 0));
    let w = Vec3::new(i64::MAX, i64::MAX, i64::MAX);
    assert_eq!(w.unit_vector(), Vec3::new(577_350, 577_350, 577_350));
}
