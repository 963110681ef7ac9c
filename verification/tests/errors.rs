use wrld::error::LayoutError;
use wrld::schema::{is_matrix_tag, require_repr_c, Annotation};

#[test]
fn an_unknown_tag_is_named() {
    let error = LayoutError::UnknownTag { tag: "vec3".to_string() };
    assert_eq!(error.message(), "Cannot get type for \"vec3\"");
}

#[test]
fn a_taken_location_is_named() {
    assert_eq!(
        LayoutError::DuplicateSlot { slot: 0 }.message(),
        "Cannot have two time the same location in the same struct: location 0"
    );
    assert_eq!(
        LayoutError::DuplicateSlot { slot: 7 }.message(),
        "Cannot have two time the same location in the same struct: location 7"
    );
    assert_eq!(
        LayoutError::DuplicateSlot { slot: 10 }.message(),
        "Cannot have two time the same location in the same struct: location 10"
    );
    assert_eq!(
        LayoutError::DuplicateSlot { slot: 1090 }.message(),
        "Cannot have two time the same location in the same struct: location 1090"
    );
    assert_eq!(
        LayoutError::DuplicateSlot { slot: u32::MAX }.message(),
        "Cannot have two time the same location in the same struct: location 4294967295"
    );
}

#[test]
fn the_matrices_that_a_component_type_allows_are_listed() {
    let error = LayoutError::IncompatibleMatrixType {
        dimension_tag: "mat4x3".to_string(),
        component_type: "u8".to_string(),
        alternatives: vec!["mat4x2".to_string(), "mat4x4".to_string()],
    };
    assert_eq!(
        error.message(),
        "Matrix mat4x3 cannot be use with u8 ! Available matrix are mat4x2 or mat4x4 for u8"
    );
    let one = LayoutError::IncompatibleMatrixType {
        dimension_tag: "mat2x3".to_string(),
        component_type: "f64x".to_string(),
        alternatives: vec!["mat2".to_string()],
    };
    assert_eq!(
        one.message(),
        "Matrix mat2x3 cannot be use with f64x ! Available matrix are mat2 for f64x"
    );
    let none = LayoutError::IncompatibleMatrixType {
        dimension_tag: "mat2x2".to_string(),
        component_type: "bool".to_string(),
        alternatives: vec![],
    };
    assert_eq!(
        none.message(),
        "Matrix mat2x2 cannot be use with bool ! Available matrix are  for bool"
    );
}

#[test]
fn an_unsupported_shape_is_reported() {
    assert_eq!(
        LayoutError::UnsupportedSchemaShape.message(),
        "The annotations are not of a shape that has a layout"
    );
}

#[test]
fn matrix_attributes_begin_with_mat() {
    assert!(is_matrix_tag("mat4x4"));
    assert!(is_matrix_tag("mat"));
    assert!(is_matrix_tag("material"));
    assert!(!is_matrix_tag("ma"));
    assert!(!is_matrix_tag(""));
    assert!(!is_matrix_tag("f32x2"));
    assert!(!is_matrix_tag("amat4x4"));
    assert!(!is_matrix_tag("Mat4x4"));
}

#[test]
fn an_attribute_with_a_component_type_is_a_matrix() {
    assert_eq!(
        Annotation::new("f32x2".to_string(), 3, None),
        Annotation::Scalar { tag: "f32x2".to_string(), slot: 3 }
    );
    assert_eq!(
        Annotation::new("mat4x2".to_string(), 3, Some("u8".to_string())),
        Annotation::Matrix {
            dimension_tag: "mat4x2".to_string(),
            component_type: "u8".to_string(),
            start_slot: 3
        }
    );
}

fn attrs(list: &[(&str, &str)]) -> Vec<(String, String)> {
    list.iter().map(|(name, argument)| (name.to_string(), argument.to_string())).collect()
}

#[test]
fn a_record_type_must_declare_its_representation() {
    assert_eq!(require_repr_c(&attrs(&[("repr", "C")])), Ok(()));
    assert_eq!(require_repr_c(&attrs(&[("repr", "transparent")])), Ok(()));
    assert_eq!(require_repr_c(&attrs(&[("derive", "Debug"), ("repr", "C")])), Ok(()));
    assert_eq!(require_repr_c(&attrs(&[])), Err(LayoutError::UnsupportedSchemaShape));
    assert_eq!(
        require_repr_c(&attrs(&[("repr", "packed")])),
        Err(LayoutError::UnsupportedSchemaShape)
    );
    assert_eq!(
        require_repr_c(&attrs(&[("derive", "C"), ("repr", "c")])),
        Err(LayoutError::UnsupportedSchemaShape)
    );
}
