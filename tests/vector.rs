use theo4_blatt1::vector::{Vector3D, VectorError};

fn a() -> Vector3D<f64> {
    Vector3D::new(2.0, 3.0, 4.0)
}

fn b() -> Vector3D<f64> {
    Vector3D::new(1.0, 2.0, 1.5)
}

fn c() -> Vector3D<f64> {
    Vector3D::new(1.0, 1.0, 2.5)
}

fn null() -> Vector3D<f64> {
    Vector3D::new(0.0, 0.0, 0.0)
}

#[test]
fn test_add() {
    assert_eq!(a(), b() + c());
    assert_eq!(a(), a() + null());
}

#[test]
fn test_sub() {
    assert_eq!(b(), a() - c());
    assert_eq!(a(), a() - null());
}

#[test]
fn test_neg() {
    assert_eq!(Vector3D::new(-2.0, -3.0, -4.0), -a());
}

#[test]
fn test_mul_vector_f() {
    assert_eq!(Vector3D::new(6.0, 9.0, 12.0), a() * 3.0);
    assert_eq!(null(), null() * 42.0);
    assert_eq!(null(), b() * 0.0);
}

#[test]
fn test_mul_vector_vector() {
    assert_eq!(14.0, a() * b());
    assert_eq!(0.0, c() * null());
}

#[test]
fn norm_squared_is_dot_with_self() {
    assert_eq!(29.0, a().norm_squared());
    assert_eq!(a() * a(), a().norm_squared());
    assert_eq!(0.0, null().norm_squared());
    let v: Vector3D<i64> = Vector3D::new(3, -4, 12);
    assert_eq!(169, v.norm_squared());
}

#[test]
fn integer_vector_algebra() {
    let p: Vector3D<i64> = Vector3D::new(2, -3, 4);
    let q: Vector3D<i64> = Vector3D::new(-7, 5, 1);
    let r: Vector3D<i64> = Vector3D::new(10, 0, -6);
    assert_eq!(p + q, q + p);
    assert_eq!(Vector3D::new(-5, 2, 5), p + q);
    assert_eq!((p + q) + r, p + (q + r));
    assert_eq!(p, p + Vector3D::null_vector());
    assert_eq!(Vector3D::null_vector(), p - p);
    assert_eq!((p + q) * 3, p * 3 + q * 3);
    assert_eq!(Vector3D::new(6, -9, 12), p * 3);
    assert_eq!(p, -(-p));
    assert_eq!(-6, p * Vector3D::new(1, 4, 1));
    assert_eq!(0, p * Vector3D::null_vector());
}

#[test]
fn null_vector_and_default() {
    let z: Vector3D<i64> = Vector3D::null_vector();
    assert!(z.is_null());
    assert_eq!(z, Vector3D::default());
    assert!(!Vector3D::new(0, 0, 1).is_null());
    assert!(!Vector3D::new(-1, 0, 0).is_null());
}

#[test]
fn vector_error_kind() {
    let e = VectorError::VectorNull;
    assert_eq!(e, VectorError::VectorNull);
}
