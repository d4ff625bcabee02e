use raytracer::intersect::{sphere_hit, triangle_hit};

type V = [f32; 3];

fn b(x: f32) -> u32 {
    x.to_bits()
}

fn dot(p: V, q: V) -> f32 {
    p[0] * q[0] + p[1] * q[1] + p[2] * q[2]
}

fn minus(p: V, q: V) -> V {
    [p[0] - q[0], p[1] - q[1], p[2] - q[2]]
}

/// The ray from `pos` along `dir` against the sphere around `centre`.
fn ray_sphere(pos: V, dir: V, centre: V, radius: f32) -> Option<f32> {
    let d = minus(centre, pos);
    let a = dot(dir, dir);
    let h = dot(dir, d);
    let c = dot(d, d) - radius * radius;
    let discriminant = h * h - a * c;
    let near_root = (h - discriminant.sqrt()) / a;
    sphere_hit(b(a), b(discriminant), b(near_root)).map(f32::from_bits)
}

/// The ray from `pos` along `dir` against the triangle `v0 v1 v2`.
fn ray_triangle(pos: V, dir: V, v0: V, v1: V, v2: V) -> Option<f32> {
    let [a, bb, c] = minus(v0, v1);
    let [d, e, f] = minus(v0, v2);
    let [g, h, i] = dir;
    let [j, k, l] = minus(v0, pos);
    let m = a * (e * i - h * f) + bb * (g * f - d * i) + c * (d * h - e * g);
    let beta = (j * (e * i - h * f) + k * (g * f - d * i) + l * (d * h - e * g)) / m;
    let gamma = (i * (a * k - j * bb) + h * (j * c - a * l) + g * (bb * l - k * c)) / m;
    let t = -1.0 * (f * (a * k - j * bb) + e * (j * c - a * l) + d * (bb * l - k * c)) / m;
    triangle_hit(b(m), b(beta), b(gamma), b(gamma + beta), b(t)).map(f32::from_bits)
}

#[test]
fn sphere_without_direction_is_missed() {
    assert_eq!(sphere_hit(b(0.0), b(0.0), b(f32::NAN)), None);
    assert_eq!(sphere_hit(b(0.0), b(4.0), b(f32::NEG_INFINITY)), None);
    assert_eq!(sphere_hit(b(-0.0), b(1.0), b(3.0)), None);
    assert_eq!(ray_sphere([0.0, 0.0, 0.0], [0.0, 0.0, 0.0], [0.0, 0.0, -2.0], 0.5), None);
    assert_eq!(ray_sphere([1.0, 2.0, 3.0], [0.0, 0.0, 0.0], [1.0, 2.0, 3.0], 1.0), None);
    assert_eq!(ray_sphere([0.0, 0.0, 0.0], [0.0, -0.0, 0.0], [0.0, 0.0, 0.0], 0.0), None);
}

#[test]
fn sphere_with_negative_discriminant_is_missed() {
    assert_eq!(sphere_hit(b(1.0), b(-0.25), b(f32::NAN)), None);
    assert_eq!(sphere_hit(b(1.0), b(-1.0e-30), b(2.0)), None);
    assert_eq!(sphere_hit(b(2.0), b(f32::NEG_INFINITY), b(2.0)), None);
    assert_eq!(ray_sphere([0.0, 0.0, 0.0], [0.0, 1.0, 0.0], [0.0, 0.0, -2.0], 0.5), None);
}

#[test]
fn sphere_around_the_origin_is_met_behind() {
    let r: f32 = 0.5;
    let (a, h, c): (f32, f32, f32) = (1.0, 0.0, -r * r);
    let discriminant = h * h - a * c;
    let root = (h - discriminant.sqrt()) / a;
    assert_eq!(sphere_hit(b(a), b(discriminant), b(root)), Some(b(-0.5)));
    let o: V = [3.0, -1.0, 2.0];
    assert_eq!(ray_sphere(o, [1.0, 0.0, 0.0], o, 0.5), Some(-0.5));
    assert_eq!(ray_sphere(o, [0.0, -1.0, 0.0], o, 2.0), Some(-2.0));
    assert_eq!(ray_sphere(o, [0.0, 0.0, 1.0], o, 0.25), Some(-0.25));
    assert_eq!(ray_sphere(o, [0.6, 0.0, -0.8], o, 4.0), Some(-4.0));
}

#[test]
fn sphere_ahead_is_met_at_its_near_side() {
    let (d, r): (f32, f32) = (4.0, 1.5);
    let (a, h, c): (f32, f32, f32) = (1.0, d, d * d - r * r);
    let discriminant = h * h - a * c;
    let root = (h - discriminant.sqrt()) / a;
    assert_eq!(sphere_hit(b(a), b(discriminant), b(root)), Some(b(2.5)));
    assert_eq!(ray_sphere([0.0, 0.0, 0.0], [0.0, 0.0, -1.0], [0.0, 0.0, -4.0], 1.5), Some(2.5));
    assert_eq!(ray_sphere([0.0, 0.0, 0.0], [0.0, 0.0, -1.0], [0.0, 0.0, -1.0], 0.5), Some(0.5));
    assert_eq!(ray_sphere([1.0, 1.0, 1.0], [1.0, 0.0, 0.0], [9.0, 1.0, 1.0], 2.0), Some(6.0));
}

#[test]
fn sphere_grazed_is_met() {
    assert_eq!(sphere_hit(b(1.0), b(0.0), b(2.0)), Some(b(2.0)));
    assert_eq!(sphere_hit(b(1.0), b(-0.0), b(2.0)), Some(b(2.0)));
    assert_eq!(ray_sphere([0.0, 0.0, 0.0], [0.0, 0.0, -1.0], [0.5, 0.0, -3.0], 0.5), Some(3.0));
    assert_eq!(ray_sphere([0.0, 0.0, 0.0], [0.0, 0.0, -1.0], [0.0, 0.0, -3.0], 0.0), Some(3.0));
}

#[test]
fn sphere_hit_hands_the_root_on_unchanged() {
    assert_eq!(sphere_hit(b(3.0), b(9.0), 0x1234_5678), Some(0x1234_5678));
    assert_eq!(sphere_hit(b(3.0), b(9.0), b(-7.0)), Some(b(-7.0)));
}

#[test]
fn triangle_met_inside() {
    assert_eq!(triangle_hit(b(-1.0), b(0.25), b(0.25), b(0.5), b(1.0)), Some(b(1.0)));
    let hit = ray_triangle(
        [0.25, 0.25, 1.0],
        [0.0, 0.0, -1.0],
        [0.0, 0.0, 0.0],
        [1.0, 0.0, 0.0],
        [0.0, 1.0, 0.0],
    );
    assert_eq!(hit, Some(1.0));
}

#[test]
fn triangle_missed_outside() {
    assert_eq!(triangle_hit(b(-1.0), b(2.25), b(2.25), b(4.5), b(1.0)), None);
    let hit = ray_triangle(
        [0.25, 0.25, 1.0],
        [2.0, 2.0, -1.0],
        [0.0, 0.0, 0.0],
        [1.0, 0.0, 0.0],
        [0.0, 1.0, 0.0],
    );
    assert_eq!(hit, None);
}

#[test]
fn triangle_met_whichever_way_it_winds() {
    let hit = ray_triangle(
        [0.25, 0.25, 1.0],
        [0.0, 0.0, -1.0],
        [0.0, 0.0, 0.0],
        [0.0, 1.0, 0.0],
        [1.0, 0.0, 0.0],
    );
    assert_eq!(hit, Some(1.0));
    let miss = ray_triangle(
        [0.75, 0.75, 1.0],
        [0.0, 0.0, -1.0],
        [0.0, 0.0, 0.0],
        [0.0, 1.0, 0.0],
        [1.0, 0.0, 0.0],
    );
    assert_eq!(miss, None);
}

#[test]
fn triangle_without_area_or_along_the_plane_is_missed() {
    assert_eq!(triangle_hit(b(0.0), b(f32::NAN), b(f32::NAN), b(f32::NAN), b(f32::NAN)), None);
    assert_eq!(triangle_hit(b(-0.0), b(0.25), b(0.25), b(0.5), b(1.0)), None);
    assert_eq!(
        triangle_hit(b(0.0), b(f32::INFINITY), b(f32::NEG_INFINITY), b(f32::NAN), b(1.0)),
        None
    );
    let flat = ray_triangle(
        [0.25, 0.25, 1.0],
        [0.0, 0.0, -1.0],
        [0.0, 0.0, 0.0],
        [1.0, 0.0, 0.0],
        [2.0, 0.0, 0.0],
    );
    assert_eq!(flat, None);
    let along = ray_triangle(
        [-1.0, 0.25, 0.0],
        [1.0, 0.0, 0.0],
        [0.0, 0.0, 0.0],
        [1.0, 0.0, 0.0],
        [0.0, 1.0, 0.0],
    );
    assert_eq!(along, None);
}

#[test]
fn triangle_bounds_on_beta() {
    assert_eq!(triangle_hit(b(2.0), b(0.0), b(0.0), b(0.0), b(3.0)), Some(b(3.0)));
    assert_eq!(triangle_hit(b(2.0), b(1.0), b(0.0), b(1.0), b(3.0)), Some(b(3.0)));
    assert_eq!(triangle_hit(b(2.0), b(1.0000001), b(0.0), b(1.0), b(3.0)), None);
    assert_eq!(triangle_hit(b(2.0), b(-1.0e-9), b(0.5), b(0.5), b(3.0)), None);
    assert_eq!(triangle_hit(b(2.0), b(-0.0), b(0.5), b(0.5), b(3.0)), Some(b(3.0)));
}

#[test]
fn triangle_bounds_on_gamma_and_the_sum() {
    assert_eq!(triangle_hit(b(2.0), b(0.5), b(0.5), b(1.0), b(3.0)), Some(b(3.0)));
    assert_eq!(triangle_hit(b(2.0), b(0.5), b(-0.25), b(0.25), b(3.0)), None);
    assert_eq!(triangle_hit(b(2.0), b(0.5), b(0.75), b(1.25), b(3.0)), None);
    assert_eq!(triangle_hit(b(2.0), b(0.5), b(0.5), b(1.0000001), b(3.0)), None);
}

#[test]
fn triangle_hit_does_not_look_at_the_sign_of_the_distance() {
    assert_eq!(triangle_hit(b(1.0), b(0.25), b(0.25), b(0.5), b(-4.0)), Some(b(-4.0)));
    let behind = ray_triangle(
        [0.25, 0.25, 1.0],
        [0.0, 0.0, 1.0],
        [0.0, 0.0, 0.0],
        [1.0, 0.0, 0.0],
        [0.0, 1.0, 0.0],
    );
    assert_eq!(behind, Some(-1.0));
}

#[test]
fn triangle_with_weights_that_are_no_numbers_is_not_turned_down() {
    let nan = b(f32::NAN);
    assert_eq!(triangle_hit(b(1.0), nan, nan, nan, b(2.0)), Some(b(2.0)));
}
