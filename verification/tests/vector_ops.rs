//! Vector arithmetic: exact fixed-point results for every operation.

use racy::vector::Vector;
use racy::fx::sqrt_fx;

#[test]
fn equal_operator() {
    let a = Vector { x: 65536, y: 131072, z: 196608 };
    let b = Vector { x: 65536, y: 131072, z: 196608 };
    assert_eq!(a, b);
}

#[test]
fn add_operator() {
    let a = Vector { x: 65536, y: 131072, z: 196608 };
    let b = Vector { x: 65536, y: 131072, z: 196608 };
    assert_eq!(a.add(&b), Vector { x: 131072, y: 262144, z: 393216 });
}

#[test]
fn sub_operator() {
    let a = Vector { x: 65536, y: 131072, z: 196608 };
    let b = Vector { x: 65536, y: 131072, z: 196608 };
    assert_eq!(a.sub(&b), Vector { x: 0, y: 0, z: 0 });
}

#[test]
fn mul_operator() {
    let a = Vector { x: 65536, y: 131072, z: 196608 };
    assert_eq!(a.mul(196608), Vector { x: 196608, y: 393216, z: 589824 });
}

#[test]
fn add_assign_operator() {
    let mut a = Vector { x: 65536, y: 131072, z: 196608 };
    a.add_assign(&Vector { x: 65536, y: 131072, z: 196608 });
    assert_eq!(a, Vector { x: 131072, y: 262144, z: 393216 });
}

#[test]
fn sub_assign_operator() {
    let mut a = Vector { x: 65536, y: 131072, z: 196608 };
    a.sub_assign(&Vector { x: 65536, y: 131072, z: 196608 });
    assert_eq!(a, Vector { x: 0, y: 0, z: 0 });
}

#[test]
fn mul_assign_operator() {
    let mut a = Vector { x: 65536, y: 131072, z: 196608 };
    a.mul_assign(131072);
    assert_eq!(a, Vector { x: 131072, y: 262144, z: 393216 });
}

#[test]
fn div_assign_operator() {
    let mut a = Vector { x: 65536, y: 131072, z: 196608 };
    a.div_assign(131072);
    assert_eq!(a, Vector { x: 32768, y: 65536, z: 98304 });
}

#[test]
fn length_squared() {
    let a = Vector { x: 65536, y: 131072, z: 196608 };
    // 14 in fixed point
    assert_eq!(a.length_squared(), 917504);
}

#[test]
fn length() {
    let a = Vector { x: 65536, y: 131072, z: 196608 };
    assert_eq!(a.length(), sqrt_fx(a.length_squared()));
}

#[test]
fn normalize() {
    let mut a = Vector { x: 65536, y: 131072, z: 196608 };
    a.normalize();
    // unit length up to the fixed-point scale's rounding
    assert_eq!(a.length(), 65534);
    assert!((a.length() - 65536i64).abs() <= 4);
}

#[test]
fn normalized() {
    let a = Vector { x: 65536, y: 131072, z: 196608 };
    let n = a.normalized();
    assert_eq!(n, Vector { x: 17515, y: 35030, z: 52545 });
    assert!((n.length() - 65536i64).abs() <= 4);
}

#[test]
fn normalize_zero_vector_yields_sentinel() {
    let mut a = Vector { x: 0, y: 0, z: 0 };
    a.normalize();
    assert_eq!(a, Vector { x: 0, y: 0, z: 0 });
    // a vector too short for the scale floors to the same sentinel
    let b = Vector { x: 1, y: 1, z: 1 };
    assert_eq!(b.normalized(), Vector { x: 0, y: 0, z: 0 });
}

#[test]
fn random_norm_has_unit_length() {
    for _ in 0..200 {
        let v = Vector::random_norm();
        let ls = v.length_squared();
        assert!((ls - 65536i64).abs() <= 64, "squared length {} strays from one", ls);
    }
}

#[test]
fn div_operator() {
    let a = Vector { x: 65536, y: 131072, z: 196608 };
    assert_eq!(a.div(131072), Vector { x: 32768, y: 65536, z: 98304 });
}

#[test]
fn component_mul_operator() {
    let a = Vector { x: 65536, y: 131072, z: 196608 };
    let b = Vector { x: 32768, y: 32768, z: -65536 };
    assert_eq!(a.component_mul(&b), Vector { x: 32768, y: 65536, z: -196608 });
}
