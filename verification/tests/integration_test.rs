use wrld::format::{VertexFormat, VertexStepMode};
use wrld::layout::{derive_wrld_desc, derive_wrld_desc_instance, VertexAttribute};
use wrld::naming::mutate_name;
use wrld::packed::{derive_wrld_buffer_data, project_many, raw_bytes};
use wrld::schema::{Annotation, Field};

#[derive(Debug)]
#[allow(dead_code)]
struct Vertex {
    position: [f32; 2],
    color: [f32; 4],
}

#[derive(Debug)]
struct VertexDBD {
    position: [f32; 2],
    data: &'static str,
    color: [f32; 4],
}

struct VertexDIBD {
    position: [f32; 2],
    data: &'static str,
    color: [f32; 4],
}

const DESC_DATA: [VertexDBD; 2] = [
    VertexDBD { position: [0.0, 0.0], data: "hello", color: [1.0, 0.5, 0.5, 1.0] },
    VertexDBD { position: [1.0, 0.0], data: "hello", color: [1.0, 0.5, 0.5, 1.0] },
];

const DESC_INSTANCE_DATA: [VertexDIBD; 2] = [
    VertexDIBD { position: [0.0, 0.0], data: "hello", color: [1.0, 0.5, 0.5, 1.0] },
    VertexDIBD { position: [1.0, 0.0], data: "hello", color: [1.0, 0.5, 0.5, 1.0] },
];

fn tagged(name: &str, ty: &str, tag: &str, slot: u32) -> Field {
    Field {
        name: name.to_string(),
        ty: ty.to_string(),
        annotations: vec![Annotation::new(tag.to_string(), slot, None)],
    }
}

fn untagged(name: &str, ty: &str) -> Field {
    Field { name: name.to_string(), ty: ty.to_string(), annotations: vec![] }
}

fn vertex_schema() -> Vec<Field> {
    vec![tagged("position", "[f32; 2]", "f32x2", 0), tagged("color", "[f32; 4]", "f32x4", 1)]
}

fn vertex_with_data_schema() -> Vec<Field> {
    vec![
        tagged("position", "[f32; 2]", "f32x2", 0),
        untagged("data", "&'static str"),
        tagged("color", "[f32; 4]", "f32x4", 1),
    ]
}

fn floats(values: &[f32]) -> Vec<u8> {
    let mut bytes = Vec::new();
    for value in values {
        bytes.extend_from_slice(&value.to_ne_bytes());
    }
    bytes
}

fn record(position: [f32; 2], data: &str, color: [f32; 4]) -> Vec<Vec<u8>> {
    vec![floats(&position), data.as_bytes().to_vec(), floats(&color)]
}

fn expected_attributes() -> Vec<VertexAttribute> {
    vec![
        VertexAttribute { offset: 0, format: VertexFormat::Float32x2, shader_location: 0 },
        VertexAttribute { offset: 8, format: VertexFormat::Float32x4, shader_location: 1 },
    ]
}

#[test]
fn desc() {
    println!(
        "Vertex data struct \n{:?}\n",
        Vertex { position: [0.0, 0.0], color: [1.0, 0.5, 0.5, 1.0] }
    );
    let layout = derive_wrld_desc(&vertex_schema(), VertexStepMode::Vertex).unwrap();
    println!("Description of Vertex struct \n{:?}\n", layout);
    assert_eq!(layout.array_stride, 24);
    assert_eq!(layout.step_mode, VertexStepMode::Vertex);
    assert_eq!(layout.attributes, expected_attributes());
}

#[test]
fn desc_instance() {
    let layout = derive_wrld_desc_instance(&vertex_schema()).unwrap();
    println!("Instance description of Vertex struct \n{:?}\n", layout);
    assert_eq!(layout.array_stride, 24);
    assert_eq!(layout.step_mode, VertexStepMode::Instance);
    assert_eq!(layout.attributes, expected_attributes());
}

#[test]
fn desc_buffer_data() {
    println!("Vertex data struct array \n{:?}\n", DESC_DATA);
    let schema = vertex_with_data_schema();
    let derived = derive_wrld_buffer_data("VertexDBD", &schema);
    assert_eq!(derived.mutate, "mutate_vertex_d_b_d");
    let records: Vec<Vec<Vec<u8>>> =
        DESC_DATA.iter().map(|v| record(v.position, v.data, v.color)).collect();
    let bytes = raw_bytes(&project_many(&schema, &records).unwrap());
    println!("Result of mutate vertex desc buffer data : \n{:?}\n", bytes);
    let packed: [f32; 12] = [0.0, 0.0, 1.0, 0.5, 0.5, 1.0, 1.0, 0.0, 1.0, 0.5, 0.5, 1.0];
    let expected: &[u8] = bytemuck::cast_slice(&packed);
    assert_eq!(bytes, expected);
    let layout = derive_wrld_desc(&schema, VertexStepMode::Vertex).unwrap();
    assert_eq!(bytes.len() as u64, 2 * layout.array_stride);
}

#[test]
fn desc_instance_buffer_data() {
    let schema = vertex_with_data_schema();
    assert_eq!(mutate_name("VertexDIBD"), "mutate_vertex_d_i_b_d");
    let records: Vec<Vec<Vec<u8>>> =
        DESC_INSTANCE_DATA.iter().map(|v| record(v.position, v.data, v.color)).collect();
    let bytes = raw_bytes(&project_many(&schema, &records).unwrap());
    println!("Result of mutate vertex desc instance buffer data : \n{:?}\n", bytes);
    let packed: [f32; 12] = [0.0, 0.0, 1.0, 0.5, 0.5, 1.0, 1.0, 0.0, 1.0, 0.5, 0.5, 1.0];
    let expected: &[u8] = bytemuck::cast_slice(&packed);
    assert_eq!(bytes, expected);
    let layout = derive_wrld_desc_instance(&schema).unwrap();
    assert_eq!(layout.step_mode, VertexStepMode::Instance);
    assert_eq!(bytes.len() as u64, 2 * layout.array_stride);
}
