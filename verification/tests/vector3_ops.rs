use vector3::Vector3;

#[test]
fn construction_and_axis_decomposition() {
    assert_eq!(Vector3 { x: 0, y: 0, z: 0 }, Vector3::origin());
    let v = Vector3::new(1, 2, 3);
    assert_eq!(Vector3 { x: 1, y: 0, z: 0 }, v.x());
    assert_eq!(Vector3 { x: 0, y: 2, z: 0 }, v.y());
    assert_eq!(Vector3 { x: 0, y: 0, z: 3 }, v.z());
    assert_eq!(1, v.x().x);
    assert_eq!(0, v.x().y);
}

#[test]
fn invert_twice_restores() {
    let mut v = Vector3::new(1, 2, 3);
    assert_eq!(Vector3 { x: -1, y: -2, z: -3 }, *v.inplace_invert());
    assert_eq!(Vector3 { x: 1, y: 2, z: 3 }, *v.inplace_invert());
    let w = Vector3::new(-4, 0, 9);
    assert_eq!(w, w.invert().invert());
}

#[test]
fn magnitudes() {
    let v = Vector3::new(1, 2, 3);
    assert_eq!(14, v.squared_magnitude());
    assert_eq!(3, v.magnitude());
    let w = Vector3::new(3, 4, 0);
    assert_eq!(25, w.squared_magnitude());
    assert_eq!(5, w.magnitude());
    assert_eq!(0, Vector3::origin().magnitude());
    let n = Vector3::new(-3, -4, 0);
    assert_eq!(5, n.magnitude());
}

#[test]
fn magnitude_at_extreme_components() {
    let hi = Vector3::new(i64::MAX, 0, 0);
    assert_eq!(i64::MAX as u128 * i64::MAX as u128, hi.squared_magnitude());
    assert_eq!(i64::MAX as u64, hi.magnitude());
    let lo = Vector3::new(i64::MIN, 0, 0);
    assert_eq!(9223372036854775808u64, lo.magnitude());
    let big = Vector3::new(-(1i64 << 47), 0, 0);
    assert_eq!(Vector3 { x: -65536, y: 0, z: 0 }, big.normalize());
}

#[test]
fn normalize_axis_aligned() {
    let v = Vector3::new(0, 0, 5);
    assert_eq!(Vector3 { x: 0, y: 0, z: 65536 }, v.normalize());
    let w = Vector3::new(-7, 0, 0);
    assert_eq!(Vector3 { x: -65536, y: 0, z: 0 }, w.normalize());
    let mut m = Vector3::new(0, 9, 0);
    assert_eq!(Vector3 { x: 0, y: 65536, z: 0 }, *m.inplace_normalize());
}

#[test]
fn normalize_zero_vector_is_no_op() {
    assert_eq!(Vector3::origin(), Vector3::origin().normalize());
    let mut v = Vector3::origin();
    v.inplace_normalize();
    assert_eq!(Vector3::origin(), v);
}

#[test]
fn normalize_keeps_direction_in_fixed_point() {
    // magnitude of (2, 3, 6) is exactly 7, so each component becomes the
    // truncated quotient of c * 65536 by 7
    let v = Vector3::new(2, 3, 6);
    assert_eq!(7, v.magnitude());
    let n = v.normalize();
    assert_eq!(Vector3 { x: 18724, y: 28086, z: 56173 }, n);
    assert_eq!(65534, n.magnitude());
}

#[test]
fn normalize_magnitude_near_unit() {
    // the length of a normalized nonzero vector stays within a few counts
    // of the unit length 65536
    let n = Vector3::new(1, 2, 3).normalize();
    assert_eq!(Vector3 { x: 17515, y: 35030, z: 52545 }, n);
    assert!(65532 <= n.magnitude() && n.magnitude() <= 65537);
    let m = Vector3::new(3, 4, 0).normalize();
    assert_eq!(Vector3 { x: 39321, y: 52428, z: 0 }, m);
    assert_eq!(65535, m.magnitude());
}

#[test]
fn scalar_operations() {
    let mut v = Vector3::new(3, 3, 3);

    // Addition
    assert_eq!(Vector3 { x: 6, y: 6, z: 6 }, *v.inplace_scalar_add(3));
    assert_eq!(Vector3 { x: 9, y: 9, z: 9 }, v.scalar_add(3));
    assert_eq!(Vector3 { x: 6, y: 6, z: 6 }, v);

    // Subtraction
    assert_eq!(Vector3 { x: 2, y: 2, z: 2 }, *v.inplace_scalar_sub(4));
    assert_eq!(Vector3 { x: 1, y: 1, z: 1 }, v.scalar_sub(1));
    assert_eq!(Vector3 { x: 2, y: 2, z: 2 }, v);

    // Multiplication
    assert_eq!(Vector3 { x: -6, y: -6, z: -6 }, *v.inplace_scalar_mul(-3));
    assert_eq!(Vector3 { x: 12, y: 12, z: 12 }, v.scalar_mul(-2));
    assert_eq!(Vector3 { x: -6, y: -6, z: -6 }, v);

    // Division
    assert_eq!(Vector3 { x: -3, y: -3, z: -3 }, *v.inplace_scalar_div(2));
    assert_eq!(Vector3 { x: 1, y: 1, z: 1 }, v.scalar_div(-3));
    assert_eq!(Vector3 { x: -3, y: -3, z: -3 }, v);
}

#[test]
fn scalar_division_truncates_toward_zero() {
    let v = Vector3::new(7, -7, 8);
    assert_eq!(Vector3 { x: 3, y: -3, z: 4 }, v.scalar_div(2));
    assert_eq!(Vector3 { x: -3, y: 3, z: -4 }, v.scalar_div(-2));
}

#[test]
fn chaining_operations() {
    let mut v = Vector3::new(3, 3, 3);
    assert_eq!(
        Vector3 { x: 1, y: 1, z: 1 },
        *v.inplace_scalar_add(3)
            .inplace_scalar_sub(3)
            .inplace_scalar_mul(2)
            .inplace_scalar_div(6)
    );
    assert_eq!(
        Vector3 { x: -37837, y: -37837, z: -37837 },
        *v.inplace_invert().inplace_normalize()
    );
}

#[test]
fn vector_operations() {
    let mut a = Vector3::new(1, 1, 1);
    let b = Vector3::new(2, 2, 2);

    // Addition
    assert_eq!(Vector3 { x: 3, y: 3, z: 3 }, a.vector_add(&b));
    assert_eq!(a.vector_add(&b), b.vector_add(&a));
    a.inplace_vector_add(&b);
    a.inplace_vector_add(&b);
    assert_eq!(Vector3 { x: 5, y: 5, z: 5 }, a);
    a = Vector3::new(1, 1, 1);

    // Subtraction
    assert_eq!(Vector3 { x: -1, y: -1, z: -1 }, a.vector_sub(&b));
    a.inplace_vector_sub(&b);
    a.inplace_vector_sub(&b);
    assert_eq!(Vector3 { x: -3, y: -3, z: -3 }, a);
    a = Vector3::new(1, 1, 1);

    // Multiplication
    assert_eq!(Vector3 { x: 2, y: 2, z: 2 }, a.vector_mul(&b));
    a.inplace_vector_mul(&b);
    a.inplace_vector_mul(&b);
    assert_eq!(Vector3 { x: 4, y: 4, z: 4 }, a);
    a = Vector3::new(8, 8, 8);

    // Division
    assert_eq!(Vector3 { x: 4, y: 4, z: 4 }, a.vector_div(&b));
    a.inplace_vector_div(&b);
    a.inplace_vector_div(&b);
    assert_eq!(Vector3 { x: 2, y: 2, z: 2 }, a);
}

#[test]
fn vector_division_truncates_componentwise() {
    let a = Vector3::new(7, -9, 10);
    let b = Vector3::new(2, 4, -3);
    assert_eq!(Vector3 { x: 3, y: -2, z: -3 }, a.vector_div(&b));
}

#[test]
fn products() {
    let a = Vector3::new(1, 2, 3);
    let b = Vector3::new(3, 2, 1);
    assert_eq!(3 + 4 + 3, a.dot_product(&b));
    assert_eq!(Vector3 { x: -4, y: 8, z: -4 }, a.cross_product(&b));

    let e1 = Vector3::new(1, 0, 0);
    let e2 = Vector3::new(0, 1, 0);
    assert_eq!(Vector3 { x: 0, y: 0, z: 1 }, e1.cross_product(&e2));
}

#[test]
fn product_symmetries() {
    let a = Vector3::new(4, -5, 6);
    let b = Vector3::new(-2, 7, 3);
    assert_eq!(a.dot_product(&b), b.dot_product(&a));
    assert_eq!(a.cross_product(&b), b.cross_product(&a).invert());
}

#[test]
fn scalar_mul_div_round_trip() {
    let v = Vector3::new(5, -7, 9);
    assert_eq!(v, v.scalar_mul(3).scalar_div(3));
    assert_eq!(v, v.scalar_mul(-4).scalar_div(-4));
}

#[test]
fn ordering_is_lexicographic() {
    let a = Vector3::new(1, 9, 9);
    let b = Vector3::new(2, 0, 0);
    assert!(a < b);
    assert!(Vector3::new(1, 2, 3) < Vector3::new(1, 2, 4));
    assert_eq!(Vector3::new(1, 2, 3), Vector3::new(1, 2, 3));
}
