use raytracer::math::square;

#[test]
fn square_of_integers() {
    assert_eq!(square(0u32), 0);
    assert_eq!(square(3u32), 9);
    assert_eq!(square(-4i64), 16);
    assert_eq!(square(255u16), 65025);
    assert_eq!(square(15u8), 225);
}

#[test]
fn square_of_fractions() {
    assert_eq!(square(0.5f32), 0.25);
    assert_eq!(square(-1.5f64), 2.25);
}
