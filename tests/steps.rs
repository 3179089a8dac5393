use canvas_geometry::steps::{
    axis_rotation_is_2d, is_zero_vector, rotation_angles, rotation_is_2d, scale_factors, scale_is_2d, translation_is_2d,
};

fn bits(x: f64) -> u64 {
    x.to_bits()
}

#[test]
fn translation_flag() {
    assert!(translation_is_2d(bits(0.0)));
    assert!(translation_is_2d(bits(-0.0)));
    assert!(!translation_is_2d(bits(1.0)));
    assert!(!translation_is_2d(bits(f64::NAN)));
}

#[test]
fn scale_defaults() {
    assert_eq!(scale_factors(None, None, None), (bits(1.0), bits(1.0), bits(1.0)));
    assert_eq!(scale_factors(Some(bits(2.0)), None, None), (bits(2.0), bits(2.0), bits(1.0)));
    assert_eq!(
        scale_factors(Some(bits(2.0)), Some(bits(3.0)), Some(bits(4.0))),
        (bits(2.0), bits(3.0), bits(4.0))
    );
    assert_eq!(scale_factors(None, Some(bits(3.0)), None), (bits(1.0), bits(3.0), bits(1.0)));
}

#[test]
fn scale_flag() {
    assert!(scale_is_2d(bits(1.0), bits(0.0)));
    assert!(!scale_is_2d(bits(2.0), bits(0.0)));
    assert!(!scale_is_2d(bits(1.0), bits(5.0)));
}

#[test]
fn single_angle_turns_about_z() {
    assert_eq!(rotation_angles(bits(90.0), None, None), (bits(0.0), bits(0.0), bits(90.0)));
    assert_eq!(
        rotation_angles(bits(10.0), Some(bits(20.0)), None),
        (bits(10.0), bits(20.0), bits(0.0))
    );
    assert_eq!(
        rotation_angles(bits(10.0), None, Some(bits(30.0))),
        (bits(10.0), bits(0.0), bits(30.0))
    );
}

#[test]
fn rotation_flags() {
    assert!(rotation_is_2d(bits(0.0), bits(0.0)));
    assert!(!rotation_is_2d(bits(45.0), bits(0.0)));
    assert!(!rotation_is_2d(bits(0.0), bits(-1.0)));
    assert!(axis_rotation_is_2d(bits(0.0), bits(-0.0)));
    assert!(!axis_rotation_is_2d(bits(1.0), bits(0.0)));
}

#[test]
fn zero_vector_has_no_direction() {
    assert!(is_zero_vector(bits(0.0), bits(-0.0)));
    assert!(!is_zero_vector(bits(0.0), bits(1.0)));
    assert!(!is_zero_vector(bits(-3.0), bits(0.0)));
}
