use raytracer::color::Color;
use raytracer::ieee::truncate;

#[test]
fn truncate_drops_the_fraction() {
    assert_eq!(truncate(0.0f32.to_bits()), 0);
    assert_eq!(truncate(0.999f32.to_bits()), 0);
    assert_eq!(truncate(1.0f32.to_bits()), 1);
    assert_eq!(truncate(1.5f32.to_bits()), 1);
    assert_eq!(truncate(1.999f32.to_bits()), 1);
    assert_eq!(truncate(127.5f32.to_bits()), 127);
    assert_eq!(truncate(254.99f32.to_bits()), 254);
    assert_eq!(truncate(255.0f32.to_bits()), 255);
    assert_eq!(truncate(255.99f32.to_bits()), 255);
}

#[test]
fn truncate_stops_at_the_ends_of_the_scale() {
    assert_eq!(truncate(256.0f32.to_bits()), 255);
    assert_eq!(truncate(1.0e9f32.to_bits()), 255);
    assert_eq!(truncate(f32::MAX.to_bits()), 255);
    assert_eq!(truncate(f32::INFINITY.to_bits()), 255);
    assert_eq!(truncate((-0.0f32).to_bits()), 0);
    assert_eq!(truncate((-0.5f32).to_bits()), 0);
    assert_eq!(truncate((-1.0f32).to_bits()), 0);
    assert_eq!(truncate((-300.0f32).to_bits()), 0);
    assert_eq!(truncate(f32::NEG_INFINITY.to_bits()), 0);
}

#[test]
fn truncate_of_nan_is_zero() {
    assert_eq!(truncate(f32::NAN.to_bits()), 0);
    assert_eq!(truncate(0x7f80_0001), 0);
    assert_eq!(truncate(0x7fff_ffff), 0);
    assert_eq!(truncate(0xffc0_0000), 0);
}

#[test]
fn truncate_of_tiny_numbers_is_zero() {
    assert_eq!(truncate(1), 0);
    assert_eq!(truncate(f32::MIN_POSITIVE.to_bits()), 0);
    assert_eq!(truncate(0x007f_ffff), 0);
}

#[test]
fn truncate_of_every_whole_number_on_the_scale() {
    for n in 0..=255u8 {
        assert_eq!(truncate(f32::from(n).to_bits()), n);
        assert_eq!(truncate((f32::from(n) + 0.5).to_bits()), n);
    }
}

#[test]
fn truncate_as_the_cast_does() {
    let mut bits: u32 = 0;
    loop {
        assert_eq!(truncate(bits), f32::from_bits(bits) as u8);
        match bits.checked_add(4099) {
            Some(next) => bits = next,
            None => break,
        }
    }
}

#[test]
fn truncate_as_the_cast_does_across_the_scale() {
    for bits in 0x3f7f_ff00u32..0x3f80_0100 {
        assert_eq!(truncate(bits), f32::from_bits(bits) as u8);
    }
    for bits in 0x437e_ff00u32..0x4380_0100 {
        assert_eq!(truncate(bits), f32::from_bits(bits) as u8);
    }
    for bits in 0x7f7f_ff00u32..0x7f80_0100 {
        assert_eq!(truncate(bits), f32::from_bits(bits) as u8);
    }
}

#[test]
fn colour_from_scaled_channels() {
    let c = Color::from_scaled(127.5f32.to_bits(), 255.0f32.to_bits(), 0.0f32.to_bits());
    assert_eq!(c, Color { r: 127, g: 255, b: 0 });
    let c = Color::from_scaled(63.75f32.to_bits(), 191.25f32.to_bits(), 254.999f32.to_bits());
    assert_eq!(c, Color { r: 63, g: 191, b: 254 });
}

#[test]
fn colour_from_channels_off_the_scale() {
    let c = Color::from_scaled((-3.0f32).to_bits(), 300.0f32.to_bits(), f32::NAN.to_bits());
    assert_eq!(c, Color { r: 0, g: 255, b: 0 });
}
