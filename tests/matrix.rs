use canvas_geometry::error::MatrixError;
use canvas_geometry::matrix::DOMMatrix;

fn bits(x: f64) -> u64 {
    x.to_bits()
}

fn value(b: u64) -> f64 {
    f64::from_bits(b)
}

fn css(m: &DOMMatrix) -> String {
    let texts: Vec<String> = m._to_float_array().iter().map(|b| format!("{}", value(*b))).collect();
    m.to_css_string(&texts)
}

fn six(v: [f64; 6]) -> [u64; 6] {
    [bits(v[0]), bits(v[1]), bits(v[2]), bits(v[3]), bits(v[4]), bits(v[5])]
}

#[test]
fn identity_text_and_flags() {
    let m = DOMMatrix::identity();
    assert_eq!(css(&m), "matrix(1, 0, 0, 1, 0, 0)");
    assert!(m.get_is_identity());
    assert!(m.is_2d());
}

#[test]
fn identity_coefficients() {
    let m = DOMMatrix::identity();
    let expected = [1.0, 0.0, 0.0, 0.0, 0.0, 1.0, 0.0, 0.0, 0.0, 0.0, 1.0, 0.0, 0.0, 0.0, 0.0, 1.0];
    let got: Vec<f64> = m._to_float_array().iter().map(|b| value(*b)).collect();
    assert_eq!(got, expected.to_vec());
}

#[test]
fn matrix3d_text() {
    let mut m = DOMMatrix::identity();
    m.set_m13(bits(2.5));
    assert!(!m.is_2d());
    assert_eq!(
        css(&m),
        "matrix3d(1, 0, 2.5, 0, 0, 1, 0, 0, 0, 0, 1, 0, 0, 0, 0, 1)"
    );
}

#[test]
fn from_values6_layout() {
    let m = DOMMatrix::from_values6(six([1.0, 2.0, 3.0, 4.0, 5.0, 6.0]));
    assert!(m.is_2d());
    assert_eq!(value(m.get_a()), 1.0);
    assert_eq!(value(m.get_b()), 2.0);
    assert_eq!(value(m.get_c()), 3.0);
    assert_eq!(value(m.get_d()), 4.0);
    assert_eq!(value(m.get_e()), 5.0);
    assert_eq!(value(m.get_f()), 6.0);
    assert_eq!(value(m.get_m21()), 3.0);
    assert_eq!(value(m.get_m42()), 6.0);
    assert_eq!(value(m.get_m33()), 1.0);
    assert_eq!(css(&m), "matrix(1, 2, 3, 4, 5, 6)");
    assert!(!m.get_is_identity());
}

#[test]
fn from_values16_flatness() {
    let mut v = [0u64; 16];
    for (i, x) in [1.0, 0.0, 0.0, 0.0, 0.0, 1.0, 0.0, 0.0, 0.0, 0.0, 1.0, 0.0, 7.0, 8.0, 0.0, 1.0]
        .iter()
        .enumerate()
    {
        v[i] = bits(*x);
    }
    let flat = DOMMatrix::from_values16(v);
    assert!(flat.is_2d());
    assert_eq!(value(flat.get_e()), 7.0);
    v[10] = bits(2.0);
    let deep = DOMMatrix::from_values16(v);
    assert!(!deep.is_2d());
    assert_eq!(value(deep.get_m33()), 2.0);
}

#[test]
fn from_values_lengths() {
    let m = DOMMatrix::from_values(six([1.0, 0.0, 0.0, 1.0, 3.0, 4.0]).to_vec()).unwrap();
    assert!(m.is_2d());
    assert_eq!(value(m.get_f()), 4.0);
    let sixteen: Vec<u64> = (0..16).map(|i| bits(i as f64)).collect();
    let m = DOMMatrix::from_values(sixteen.clone()).unwrap();
    assert_eq!(m._to_float_array(), sixteen);
    assert!(!m.is_2d());
    assert_eq!(
        DOMMatrix::from_values(vec![bits(1.0); 5]).unwrap_err(),
        MatrixError::InvalidArgument { count: 5 }
    );
    assert_eq!(
        DOMMatrix::from_float_array(vec![]).unwrap_err(),
        MatrixError::InvalidArgument { count: 0 }
    );
}

#[test]
fn out_of_plane_setters_recompute_flag() {
    let mut m = DOMMatrix::identity();
    m.set_m13(bits(1.0));
    assert!(!m.is_2d());
    m.set_m13(bits(0.0));
    assert!(m.is_2d());
    m.set_m44(bits(-1.0));
    assert!(!m.is_2d());
    m.set_m44(bits(1.0));
    assert!(m.is_2d());
    m.set_m34(bits(-0.0));
    assert!(m.is_2d());
}

#[test]
fn affine_setters_keep_flag() {
    let mut m = DOMMatrix::identity();
    m.set_a(bits(9.0));
    m.set_m42(bits(f64::NAN));
    assert!(m.is_2d());
    m.set_m14(bits(3.0));
    assert!(!m.is_2d());
    m.set_e(bits(0.0));
    assert!(!m.is_2d());
    assert_eq!(value(m.get_m11()), 9.0);
}

#[test]
fn perturbed_matrix_cannot_be_inverted() {
    let mut m = DOMMatrix::identity();
    m.set_m13(bits(0.25));
    assert!(!m.is_2d());
    let before = m;
    let det = bits(1.0);
    assert_eq!(m.apply_inverse(det, six([1.0, 0.0, 0.0, 1.0, 0.0, 0.0])), Err(MatrixError::NotSupported));
    assert!(m.__eq__(&before));
}

#[test]
fn singular_inverse_is_nan() {
    let mut m = DOMMatrix::from_values6(six([1.0, 0.0, 1.0, 0.0, 0.0, 0.0]));
    let (a, b, c, d) = (value(m.get_a()), value(m.get_b()), value(m.get_c()), value(m.get_d()));
    let det = a * d - b * c;
    assert_eq!(det, 0.0);
    assert_eq!(m.apply_inverse(bits(det), [0; 6]), Ok(()));
    assert!(!m.is_2d());
    assert!(m._to_float_array().iter().all(|b| value(*b).is_nan()));
}

#[test]
fn regular_inverse_takes_the_six() {
    let mut m = DOMMatrix::from_values6(six([2.0, 0.0, 0.0, 2.0, 4.0, 6.0]));
    let inverse = six([0.5, 0.0, 0.0, 0.5, -2.0, -3.0]);
    assert_eq!(m.apply_inverse(bits(4.0), inverse), Ok(()));
    assert!(m.is_2d());
    assert_eq!(css(&m), "matrix(0.5, 0, 0, 0.5, -2, -3)");
}

#[test]
fn negative_zero_determinant_is_singular() {
    let mut m = DOMMatrix::from_values6(six([0.0, 0.0, 0.0, 0.0, 0.0, 0.0]));
    assert_eq!(m.apply_inverse(bits(-0.0), [0; 6]), Ok(()));
    assert!(!m.is_2d());
}

#[test]
fn equality_is_bitwise() {
    let a = DOMMatrix::identity();
    let b = DOMMatrix::identity();
    assert!(a.__eq__(&b));
    let mut c = DOMMatrix::identity();
    c.set_e(bits(-0.0));
    assert!(!a.__eq__(&c));
    assert!(c.get_is_identity());
    let mut d = DOMMatrix::identity();
    d.compose(a._to_float_array().try_into().unwrap(), false);
    assert!(!a.__eq__(&d));
}

#[test]
fn compose_flag_rule() {
    let id: [u64; 16] = DOMMatrix::identity()._to_float_array().try_into().unwrap();
    let mut m = DOMMatrix::identity();
    m.compose(id, true);
    assert!(m.is_2d());
    m.compose(id, false);
    assert!(!m.is_2d());
    m.compose(id, true);
    assert!(!m.is_2d());
    let mut p = id;
    p[12] = bits(5.0);
    m.compose(p, true);
    assert_eq!(value(m.get_e()), 5.0);
}

#[test]
fn from_matrix_recomputes_flag() {
    let mut m = DOMMatrix::identity();
    m.compose(DOMMatrix::identity()._to_float_array().try_into().unwrap(), false);
    let copy = DOMMatrix::from_matrix(&m);
    assert!(copy.is_2d());
    assert_eq!(copy._to_float_array(), m._to_float_array());
}

#[test]
fn structured_form() {
    let mut m = DOMMatrix::from_values6(six([1.0, 2.0, 3.0, 4.0, 5.0, 6.0]));
    m.set_m34(bits(7.0));
    let entries = m.to_json_entries();
    let names: Vec<&str> = entries.iter().map(|(n, _)| n.as_str()).collect();
    assert_eq!(
        names,
        vec![
            "a", "b", "c", "d", "e", "f", "m11", "m12", "m13", "m14", "m21", "m22", "m23", "m24", "m31",
            "m32", "m33", "m34", "m41", "m42", "m43", "m44", "is2D", "isIdentity"
        ]
    );
    let values: Vec<f64> = entries.iter().map(|(_, b)| value(*b)).collect();
    assert_eq!(&values[0..6], &[1.0, 2.0, 3.0, 4.0, 5.0, 6.0]);
    assert_eq!(values[6 + 4], 3.0);
    assert_eq!(values[6 + 11], 7.0);
    assert_eq!(values[6 + 13], 6.0);
    assert_eq!(values[22], 0.0);
    assert_eq!(values[23], 0.0);
    let id = DOMMatrix::identity().to_json_entries();
    assert_eq!(value(id[22].1), 1.0);
    assert_eq!(value(id[23].1), 1.0);
}
