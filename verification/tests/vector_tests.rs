use starscape::fixed::SCALE;
use starscape::vector::Vector3;

const S: i64 = SCALE;

#[test]
fn dot_exact() {
    let a = Vector3::new(2 * S, 3 * S, 4 * S);
    let b = Vector3::new(5 * S, 6 * S, 7 * S);
    assert_eq!(a.dot(&b), 56 * S);
}

#[test]
fn cross_unit_axes() {
    let x = Vector3::new(S, 0, 0);
    let y = Vector3::new(0, S, 0);
    let c = x.cross(&y);
    assert_eq!((c.x, c.y, c.z), (0, 0, S));
}

#[test]
fn cross_orthogonal_to_both_factors() {
    let v = Vector3::new(3 * S, -2 * S, 5 * S);
    let w = Vector3::new(S, 7 * S, -4 * S);
    let c = v.cross(&w);
    // the unscaled cross product is exactly orthogonal; the executable one
    // truncates each component by under one raw unit, so the dot product is
    // bounded by the sum of |v|'s components in whole units
    assert!(v.dot(&c).abs() <= 10);
    assert!(w.dot(&c).abs() <= 12);
}

#[test]
fn magnitude_pythagorean() {
    let v = Vector3::new(3 * S, 4 * S, 0);
    assert_eq!(v.mag(), 5 * S);
}

#[test]
fn normalized_magnitude_is_one() {
    // within four raw units below SCALE, as the library's law states
    let v = Vector3::new(3 * S, 4 * S, 0);
    let n = v.normalized();
    let m = n.mag();
    assert!(SCALE - 4 <= m && m <= SCALE, "magnitude of normalized vector: {m}");

    let w = Vector3::new(-7 * S + 123, 2 * S - 45, 11 * S + 9);
    let nw = w.normalized();
    let mw = nw.mag();
    assert!(SCALE - 4 <= mw && mw <= SCALE, "magnitude of normalized vector: {mw}");
}

#[test]
fn add_negate_times_zero() {
    let a = Vector3::new(1000, -2000, 3000);
    let b = Vector3::new(11, 22, -33);
    let sum = a.add(&b);
    assert_eq!((sum.x, sum.y, sum.z), (1011, -1978, 2967));
    let neg = a.negate();
    assert_eq!((neg.x, neg.y, neg.z), (-1000, 2000, -3000));
    let half = a.times(S / 2);
    assert_eq!((half.x, half.y, half.z), (500, -1000, 1500));
    let z = Vector3::zero();
    assert_eq!((z.x, z.y, z.z), (0, 0, 0));
}
