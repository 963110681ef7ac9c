use wrld::converter::{
    convert_mat_type_to_wgou, convert_type_to_wgpu, formats, get_allowed_type, get_type, has_type,
    matrix_row_type, TypeToWGPU, WGPUData,
};
use wrld::error::LayoutError;
use wrld::format::VertexFormat;

fn table() -> Vec<(&'static str, u64, VertexFormat)> {
    vec![
        ("u32", 4, VertexFormat::Uint32),
        ("f32", 4, VertexFormat::Float32),
        ("s32", 4, VertexFormat::Sint32),
        ("f64", 8, VertexFormat::Float64),
        ("u8x2", 2, VertexFormat::Uint8x2),
        ("u8x4", 4, VertexFormat::Uint8x4),
        ("s8x2", 2, VertexFormat::Sint8x2),
        ("s8x4", 4, VertexFormat::Sint8x4),
        ("un8x2", 2, VertexFormat::Unorm8x2),
        ("un8x4", 4, VertexFormat::Unorm8x4),
        ("sn8x2", 2, VertexFormat::Snorm8x2),
        ("sn8x4", 4, VertexFormat::Snorm8x4),
        ("u16x2", 4, VertexFormat::Uint16x2),
        ("u16x4", 8, VertexFormat::Uint16x4),
        ("s16x2", 4, VertexFormat::Sint16x2),
        ("s16x4", 8, VertexFormat::Sint16x4),
        ("un16x2", 4, VertexFormat::Unorm16x2),
        ("un16x4", 8, VertexFormat::Unorm16x4),
        ("sn16x2", 4, VertexFormat::Snorm16x2),
        ("sn16x4", 8, VertexFormat::Snorm16x4),
        ("f16x2", 4, VertexFormat::Float16x2),
        ("f16x4", 8, VertexFormat::Float16x4),
        ("f32x2", 8, VertexFormat::Float32x2),
        ("f32x3", 12, VertexFormat::Float32x3),
        ("f32x4", 16, VertexFormat::Float32x4),
        ("u32x2", 8, VertexFormat::Uint32x2),
        ("u32x3", 12, VertexFormat::Uint32x3),
        ("u32x4", 16, VertexFormat::Uint32x4),
        ("s32x2", 8, VertexFormat::Sint32x2),
        ("s32x3", 12, VertexFormat::Sint32x3),
        ("s32x4", 16, VertexFormat::Sint32x4),
        ("f64x2", 16, VertexFormat::Float64x2),
        ("f64x3", 24, VertexFormat::Float64x3),
        ("f64x4", 32, VertexFormat::Float64x4),
    ]
}

#[test]
fn every_tag_names_its_format_and_size() {
    for (tag, size, format) in table() {
        assert_eq!(get_type(tag), Ok(TypeToWGPU { offset: size, ty: format }), "{}", tag);
        assert!(has_type(tag));
        assert_eq!(format.tag(), tag);
        assert_eq!(format.size(), size);
    }
}

#[test]
fn catalog_order_is_that_of_the_table() {
    let expected: Vec<VertexFormat> = table().into_iter().map(|entry| entry.2).collect();
    assert_eq!(formats(), expected);
}

#[test]
fn tags_are_unique() {
    let tags: Vec<&str> = formats().iter().map(|format| format.tag()).collect();
    for (i, left) in tags.iter().enumerate() {
        for right in tags.iter().skip(i + 1) {
            assert_ne!(left, right);
        }
    }
}

#[test]
fn double_float_rows_are_sized_by_their_components() {
    assert_eq!(get_type("f64x3").unwrap().offset, 3 * 8);
    assert_eq!(get_type("f16x2").unwrap().offset, 2 * 2);
    assert_eq!(get_type("f16x4").unwrap().offset, 4 * 2);
}

#[test]
fn unknown_tag_is_reported_by_name() {
    assert_eq!(get_type("f33"), Err(LayoutError::UnknownTag { tag: "f33".to_string() }));
    assert_eq!(get_type(""), Err(LayoutError::UnknownTag { tag: String::new() }));
    assert_eq!(get_type("u8"), Err(LayoutError::UnknownTag { tag: "u8".to_string() }));
    assert_eq!(get_type("F32"), Err(LayoutError::UnknownTag { tag: "F32".to_string() }));
    assert_eq!(get_type("f32x"), Err(LayoutError::UnknownTag { tag: "f32x".to_string() }));
    assert_eq!(get_type("mat4x2"), Err(LayoutError::UnknownTag { tag: "mat4x2".to_string() }));
}

#[test]
fn has_type_tells_tags_from_other_names() {
    assert!(has_type("f32x2"));
    assert!(has_type("u32"));
    assert!(!has_type("f32x5"));
    assert!(!has_type("repr"));
    assert!(!has_type("mat4x4"));
    assert!(!has_type(" f32"));
}

#[test]
fn related_tags_contain_the_name() {
    assert_eq!(get_allowed_type("u8"), vec!["u8x2", "u8x4"]);
    assert_eq!(get_allowed_type("f32"), vec!["f32", "f32x2", "f32x3", "f32x4"]);
    assert_eq!(get_allowed_type("n8"), vec!["un8x2", "un8x4", "sn8x2", "sn8x4"]);
    assert_eq!(get_allowed_type("f64x4"), vec!["f64x4"]);
    assert_eq!(get_allowed_type("x3"), vec!["f32x3", "u32x3", "s32x3", "f64x3"]);
}

#[test]
fn related_tags_of_a_stranger_are_none() {
    assert!(get_allowed_type("i8").is_empty());
    assert!(get_allowed_type("f32x22").is_empty());
    assert!(get_allowed_type("u 8").is_empty());
}

#[test]
fn every_tag_contains_the_empty_name() {
    let all: Vec<&str> = table().into_iter().map(|entry| entry.0).collect();
    assert_eq!(get_allowed_type(""), all);
}

#[test]
fn related_tags_agree_with_substring_search() {
    for part in ["u", "s", "f", "x", "16", "2", "32x", "un", "sn1", "4", "zz"] {
        let expected: Vec<&str> =
            table().into_iter().map(|entry| entry.0).filter(|tag| tag.contains(part)).collect();
        assert_eq!(get_allowed_type(part), expected, "{}", part);
    }
}

#[test]
fn a_tag_is_bound_to_its_location() {
    assert_eq!(
        convert_type_to_wgpu(&"f32x3".to_string(), 7),
        Ok(WGPUData {
            wgpu_type: TypeToWGPU { offset: 12, ty: VertexFormat::Float32x3 },
            shader_location: 7
        })
    );
    assert_eq!(
        convert_type_to_wgpu(&"vec3".to_string(), 7),
        Err(LayoutError::UnknownTag { tag: "vec3".to_string() })
    );
}

fn rows(name: &str, slot: u32, ty: &str) -> Result<Vec<WGPUData>, LayoutError> {
    let mut ty_text = ty.to_string();
    let rows = convert_mat_type_to_wgou(&name.to_string(), slot, &mut ty_text);
    assert_eq!(ty_text, ty);
    rows
}

#[test]
fn a_matrix_has_one_row_for_each_of_its_rows() {
    let entry = TypeToWGPU { offset: 2, ty: VertexFormat::Uint8x2 };
    assert_eq!(
        rows("mat4x2", 0, "u8"),
        Ok(vec![
            WGPUData { wgpu_type: entry, shader_location: 0 },
            WGPUData { wgpu_type: entry, shader_location: 1 },
            WGPUData { wgpu_type: entry, shader_location: 2 },
            WGPUData { wgpu_type: entry, shader_location: 3 },
        ])
    );
}

#[test]
fn matrix_rows_and_widths() {
    for (count, digit) in [(2u32, '2'), (3, '3'), (4, '4')] {
        for (width, size, format) in [
            ("2", 8u64, VertexFormat::Float32x2),
            ("3", 12, VertexFormat::Float32x3),
            ("4", 16, VertexFormat::Float32x4),
        ] {
            let name = format!("mat{}x{}", digit, width);
            let located = rows(&name, 5, "f32").unwrap();
            assert_eq!(located.len() as u32, count);
            for (i, row) in located.iter().enumerate() {
                assert_eq!(row.shader_location, 5 + i as u32);
                assert_eq!(row.wgpu_type, TypeToWGPU { offset: size, ty: format });
            }
        }
    }
}

#[test]
fn a_matrix_without_rows_is_empty() {
    assert_eq!(rows("mat0x2", 3, "u8"), Ok(vec![]));
    assert_eq!(rows("mat0x2", u32::MAX, "u8"), Ok(vec![]));
}

#[test]
fn a_row_width_that_the_component_type_lacks_is_refused() {
    assert_eq!(
        rows("mat4x3", 0, "u8"),
        Err(LayoutError::IncompatibleMatrixType {
            dimension_tag: "mat4x3".to_string(),
            component_type: "u8".to_string(),
            alternatives: vec!["mat4x2".to_string(), "mat4x4".to_string()],
        })
    );
    assert_eq!(
        rows("mat2x2", 0, "f16x"),
        Err(LayoutError::IncompatibleMatrixType {
            dimension_tag: "mat2x2".to_string(),
            component_type: "f16x".to_string(),
            alternatives: vec!["mat22".to_string(), "mat24".to_string()],
        })
    );
    assert_eq!(
        rows("mat3x9", 0, "f32"),
        Err(LayoutError::IncompatibleMatrixType {
            dimension_tag: "mat3x9".to_string(),
            component_type: "f32".to_string(),
            alternatives: vec![
                "mat3".to_string(),
                "mat3x2".to_string(),
                "mat3x3".to_string(),
                "mat3x4".to_string()
            ],
        })
    );
    assert_eq!(
        rows("mat4x4", 0, "bool"),
        Err(LayoutError::IncompatibleMatrixType {
            dimension_tag: "mat4x4".to_string(),
            component_type: "bool".to_string(),
            alternatives: vec![],
        })
    );
}

#[test]
fn a_matrix_tag_without_a_row_count_is_refused() {
    assert_eq!(rows("", 0, "u8"), Err(LayoutError::UnsupportedSchemaShape));
    assert_eq!(rows("x2", 0, "u8"), Err(LayoutError::UnsupportedSchemaShape));
    assert_eq!(rows("matrix", 0, "u8"), Err(LayoutError::UnsupportedSchemaShape));
    assert_eq!(rows("matAx2", 0, "u8"), Err(LayoutError::UnsupportedSchemaShape));
    assert_eq!(rows("mat+x2", 0, "u8"), Err(LayoutError::UnsupportedSchemaShape));
}

#[test]
fn the_third_character_from_the_end_counts_the_rows() {
    assert_eq!(rows("4x2", 0, "u8").unwrap().len(), 4);
    assert_eq!(rows("anything9x4", 0, "u16").unwrap().len(), 9);
}

#[test]
fn rows_stay_within_the_locations() {
    let last = rows("mat2x2", u32::MAX - 1, "u8").unwrap();
    assert_eq!(last.len(), 2);
    assert_eq!(last[0].shader_location, u32::MAX - 1);
    assert_eq!(last[1].shader_location, u32::MAX);
    assert_eq!(rows("mat2x2", u32::MAX, "u8"), Err(LayoutError::UnsupportedSchemaShape));
    assert_eq!(rows("mat4x4", u32::MAX - 2, "f32"), Err(LayoutError::UnsupportedSchemaShape));
    assert_eq!(rows("mat1x2", u32::MAX, "u8").unwrap().len(), 1);
}

#[test]
fn the_row_format_is_asked_before_the_locations() {
    assert!(matches!(
        rows("mat4x3", u32::MAX, "u8"),
        Err(LayoutError::IncompatibleMatrixType { .. })
    ));
}

#[test]
fn a_matrix_row_type_is_the_component_type_with_the_width() {
    assert_eq!(
        matrix_row_type(&"mat3x4".to_string(), &"sn16".to_string()),
        Ok((3, TypeToWGPU { offset: 8, ty: VertexFormat::Snorm16x4 }))
    );
    assert_eq!(
        matrix_row_type(&"m".to_string(), &"sn16".to_string()),
        Err(LayoutError::UnsupportedSchemaShape)
    );
}
