use wrld::packed::{
    derive_wrld_buffer_data, equals, into_packed, into_packed_ref, project, project_many, raw_bytes,
};
use wrld::schema::{Annotation, Field};

fn scalar(tag: &str, slot: u32) -> Annotation {
    Annotation::Scalar { tag: tag.to_string(), slot }
}

fn matrix(dimension_tag: &str, component_type: &str, start_slot: u32) -> Annotation {
    Annotation::Matrix {
        dimension_tag: dimension_tag.to_string(),
        component_type: component_type.to_string(),
        start_slot,
    }
}

fn field(name: &str, ty: &str, annotations: Vec<Annotation>) -> Field {
    Field { name: name.to_string(), ty: ty.to_string(), annotations }
}

fn schema() -> Vec<Field> {
    vec![
        field("uv", "[f32; 2]", vec![]),
        field("position", "[f32; 2]", vec![scalar("f32x2", 0)]),
        field("data", "String", vec![]),
        field("color", "[f32; 4]", vec![scalar("f32x4", 1)]),
    ]
}

fn names(fields: &[&Field]) -> Vec<String> {
    fields.iter().map(|f| f.name.clone()).collect()
}

#[test]
fn the_packed_schema_keeps_the_annotated_fields_in_order() {
    let fields = schema();
    let packed = project(&fields);
    assert_eq!(names(&packed), vec!["position", "color"]);
    assert_eq!(packed[0], &fields[1]);
    assert_eq!(packed[1], &fields[3]);
}

#[test]
fn a_schema_without_annotations_packs_to_nothing() {
    let fields = vec![field("a", "u8", vec![]), field("b", "u8", vec![])];
    assert!(project(&fields).is_empty());
    assert!(project(&vec![]).is_empty());
}

#[test]
fn an_annotation_that_the_catalog_lacks_keeps_no_field() {
    let fields = vec![
        field("a", "u8", vec![scalar("repr", 0)]),
        field("b", "u8", vec![scalar("nothing", 1), scalar("u32", 2)]),
        field("c", "u8", vec![scalar("u32", 3), scalar("nothing", 4)]),
        field("d", "u8", vec![matrix("mat4x3", "u8", 5)]),
        field("e", "u8", vec![matrix("mat4x4", "u8", 5)]),
        field("f", "u8", vec![matrix("mat", "u8", 5)]),
    ];
    assert_eq!(names(&project(&fields)), vec!["b", "c", "e"]);
    assert!(!fields[0].is_packed());
    assert!(fields[1].is_packed());
    assert!(fields[4].is_packed());
    assert!(scalar("u32", 0).is_recognized());
    assert!(!scalar("u33", 0).is_recognized());
    assert!(matrix("mat2x2", "f64", 0).is_recognized());
    assert!(!matrix("mat2x3", "f16", 0).is_recognized());
}

#[test]
fn the_packed_record_copies_the_annotated_fields() {
    let value = vec![vec![1u8, 2], vec![3, 4, 5], vec![6], vec![7, 8, 9, 10]];
    assert_eq!(
        into_packed_ref(&schema(), &value),
        Some(vec![vec![3u8, 4, 5], vec![7, 8, 9, 10]])
    );
    assert_eq!(
        into_packed(&schema(), value.clone()),
        Some(vec![vec![3u8, 4, 5], vec![7, 8, 9, 10]])
    );
    assert_eq!(value.len(), 4);
}

#[test]
fn a_record_of_another_shape_has_no_packed_record() {
    assert_eq!(into_packed_ref(&schema(), &vec![vec![1u8]]), None);
    assert_eq!(into_packed_ref(&schema(), &vec![]), None);
    assert_eq!(into_packed(&schema(), vec![vec![]; 5]), None);
    assert_eq!(into_packed(&vec![], vec![]), Some(vec![]));
}

#[test]
fn a_packed_record_equals_the_record_it_was_taken_from() {
    let fields = schema();
    let value = vec![vec![1u8, 2], vec![3, 4, 5], vec![6], vec![7, 8, 9, 10]];
    let packed = into_packed_ref(&fields, &value).unwrap();
    assert!(equals(&packed, &fields, &value));
}

#[test]
fn a_packed_record_differs_from_another_record() {
    let fields = schema();
    let value = vec![vec![1u8, 2], vec![3, 4, 5], vec![6], vec![7, 8, 9, 10]];
    let packed = into_packed_ref(&fields, &value).unwrap();
    let mut other = value.clone();
    other[3][0] = 0;
    assert!(!equals(&packed, &fields, &other));
    let mut shorter = value.clone();
    shorter[1].pop();
    assert!(!equals(&packed, &fields, &shorter));
    assert!(!equals(&packed, &fields, &vec![vec![3u8, 4, 5], vec![7, 8, 9, 10]]));
    assert!(!equals(&vec![vec![3u8, 4, 5]], &fields, &value));
    assert!(!equals(&vec![vec![7u8, 8, 9, 10], vec![3, 4, 5]], &fields, &value));
}

#[test]
fn fields_that_are_not_packed_do_not_count_for_equality() {
    let fields = schema();
    let value = vec![vec![1u8, 2], vec![3, 4, 5], vec![6], vec![7, 8, 9, 10]];
    let packed = into_packed_ref(&fields, &value).unwrap();
    let mut other = value.clone();
    other[0] = vec![9, 9, 9];
    other[2] = vec![];
    assert!(equals(&packed, &fields, &other));
}

#[test]
fn records_are_packed_one_by_one() {
    let fields = schema();
    let values = vec![
        vec![vec![0u8], vec![1], vec![2], vec![3]],
        vec![vec![4u8], vec![5], vec![6], vec![7]],
        vec![vec![8u8], vec![9], vec![10], vec![11]],
    ];
    assert_eq!(
        project_many(&fields, &values),
        Some(vec![vec![vec![1u8], vec![3]], vec![vec![5], vec![7]], vec![vec![9], vec![11]]])
    );
    assert_eq!(project_many(&fields, &vec![]), Some(vec![]));
    let mut broken = values.clone();
    broken[1].pop();
    assert_eq!(project_many(&fields, &broken), None);
}

#[test]
fn the_bytes_are_those_of_the_fields_in_order() {
    let packed = vec![
        vec![vec![1u8, 2], vec![3]],
        vec![vec![], vec![4, 5, 6]],
        vec![],
        vec![vec![7], vec![8], vec![9]],
    ];
    assert_eq!(raw_bytes(&packed), vec![1, 2, 3, 4, 5, 6, 7, 8, 9]);
    assert!(raw_bytes(&vec![]).is_empty());
}

#[test]
fn records_of_one_size_give_that_size_each() {
    let packed = vec![vec![vec![0u8; 8], vec![0; 16]]; 7];
    assert_eq!(raw_bytes(&packed).len(), 7 * 24);
}

#[test]
fn the_companion_is_named_after_the_record_type() {
    let fields = schema();
    let derived = derive_wrld_buffer_data("Vertex", &fields);
    assert_eq!(derived.name, "VertexPackedData");
    assert_eq!(derived.const_into, "vertex_const_into");
    assert_eq!(derived.mutate, "mutate_vertex");
    assert_eq!(names(&derived.fields), vec!["position", "color"]);
    let types: Vec<&str> = derived.fields.iter().map(|f| f.ty.as_str()).collect();
    assert_eq!(types, vec!["[f32; 2]", "[f32; 4]"]);
}
