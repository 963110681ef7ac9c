use wrld::converter::formats;
use wrld::format::{VertexFormat, VertexStepMode};

fn api_format(format: VertexFormat) -> wgpu::VertexFormat {
    match format {
        VertexFormat::Uint32 => wgpu::VertexFormat::Uint32,
        VertexFormat::Float32 => wgpu::VertexFormat::Float32,
        VertexFormat::Sint32 => wgpu::VertexFormat::Sint32,
        VertexFormat::Float64 => wgpu::VertexFormat::Float64,
        VertexFormat::Uint8x2 => wgpu::VertexFormat::Uint8x2,
        VertexFormat::Uint8x4 => wgpu::VertexFormat::Uint8x4,
        VertexFormat::Sint8x2 => wgpu::VertexFormat::Sint8x2,
        VertexFormat::Sint8x4 => wgpu::VertexFormat::Sint8x4,
        VertexFormat::Unorm8x2 => wgpu::VertexFormat::Unorm8x2,
        VertexFormat::Unorm8x4 => wgpu::VertexFormat::Unorm8x4,
        VertexFormat::Snorm8x2 => wgpu::VertexFormat::Snorm8x2,
        VertexFormat::Snorm8x4 => wgpu::VertexFormat::Snorm8x4,
        VertexFormat::Uint16x2 => wgpu::VertexFormat::Uint16x2,
        VertexFormat::Uint16x4 => wgpu::VertexFormat::Uint16x4,
        VertexFormat::Sint16x2 => wgpu::VertexFormat::Sint16x2,
        VertexFormat::Sint16x4 => wgpu::VertexFormat::Sint16x4,
        VertexFormat::Unorm16x2 => wgpu::VertexFormat::Unorm16x2,
        VertexFormat::Unorm16x4 => wgpu::VertexFormat::Unorm16x4,
        VertexFormat::Snorm16x2 => wgpu::VertexFormat::Snorm16x2,
        VertexFormat::Snorm16x4 => wgpu::VertexFormat::Snorm16x4,
        VertexFormat::Float16x2 => wgpu::VertexFormat::Float16x2,
        VertexFormat::Float16x4 => wgpu::VertexFormat::Float16x4,
        VertexFormat::Float32x2 => wgpu::VertexFormat::Float32x2,
        VertexFormat::Float32x3 => wgpu::VertexFormat::Float32x3,
        VertexFormat::Float32x4 => wgpu::VertexFormat::Float32x4,
        VertexFormat::Uint32x2 => wgpu::VertexFormat::Uint32x2,
        VertexFormat::Uint32x3 => wgpu::VertexFormat::Uint32x3,
        VertexFormat::Uint32x4 => wgpu::VertexFormat::Uint32x4,
        VertexFormat::Sint32x2 => wgpu::VertexFormat::Sint32x2,
        VertexFormat::Sint32x3 => wgpu::VertexFormat::Sint32x3,
        VertexFormat::Sint32x4 => wgpu::VertexFormat::Sint32x4,
        VertexFormat::Float64x2 => wgpu::VertexFormat::Float64x2,
        VertexFormat::Float64x3 => wgpu::VertexFormat::Float64x3,
        VertexFormat::Float64x4 => wgpu::VertexFormat::Float64x4,
    }
}

#[test]
fn formats_take_the_bytes_that_the_graphics_api_reads() {
    for format in formats() {
        assert_eq!(format.size(), api_format(format).size(), "{:?}", format);
    }
}

#[test]
fn formats_bear_the_names_of_the_graphics_api() {
    for format in formats() {
        assert_eq!(format.name(), format!("{:?}", api_format(format)));
    }
}

#[test]
fn step_modes_bear_the_names_of_the_graphics_api() {
    assert_eq!(VertexStepMode::Vertex.name(), format!("{:?}", wgpu::VertexStepMode::Vertex));
    assert_eq!(VertexStepMode::Instance.name(), format!("{:?}", wgpu::VertexStepMode::Instance));
}
