//! Vertex formats and step modes, as the graphics API enumerates them.

use vstd::prelude::*;

verus! {

/// The format of one vertex attribute.
#[derive(Clone, Copy, Debug, PartialEq, Eq, Structural)]
pub enum VertexFormat {
    Uint32,
    Float32,
    Sint32,
    Float64,
    Uint8x2,
    Uint8x4,
    Sint8x2,
    Sint8x4,
    Unorm8x2,
    Unorm8x4,
    Snorm8x2,
    Snorm8x4,
    Uint16x2,
    Uint16x4,
    Sint16x2,
    Sint16x4,
    Unorm16x2,
    Unorm16x4,
    Snorm16x2,
    Snorm16x4,
    Float16x2,
    Float16x4,
    Float32x2,
    Float32x3,
    Float32x4,
    Uint32x2,
    Uint32x3,
    Uint32x4,
    Sint32x2,
    Sint32x3,
    Sint32x4,
    Float64x2,
    Float64x3,
    Float64x4,
}

/// How often the buffer advances: once per vertex or once per instance.
#[derive(Clone, Copy, Debug, PartialEq, Eq, Structural)]
pub enum VertexStepMode {
    Vertex,
    Instance,
}

impl VertexFormat {
    /// Number of components in one value of the format.
    pub open spec fn components(self) -> nat {
        match self {
            VertexFormat::Uint32
            | VertexFormat::Float32
            | VertexFormat::Sint32
            | VertexFormat::Float64 => 1,
            VertexFormat::Uint8x2
            | VertexFormat::Sint8x2
            | VertexFormat::Unorm8x2
            | VertexFormat::Snorm8x2
            | VertexFormat::Uint16x2
            | VertexFormat::Sint16x2
            | VertexFormat::Unorm16x2
            | VertexFormat::Snorm16x2
            | VertexFormat::Float16x2
            | VertexFormat::Float32x2
            | VertexFormat::Uint32x2
            | VertexFormat::Sint32x2
            | VertexFormat::Float64x2 => 2,
            VertexFormat::Float32x3
            | VertexFormat::Uint32x3
            | VertexFormat::Sint32x3
            | VertexFormat::Float64x3 => 3,
            VertexFormat::Uint8x4
            | VertexFormat::Sint8x4
            | VertexFormat::Unorm8x4
            | VertexFormat::Snorm8x4
            | VertexFormat::Uint16x4
            | VertexFormat::Sint16x4
            | VertexFormat::Unorm16x4
            | VertexFormat::Snorm16x4
            | VertexFormat::Float16x4
            | VertexFormat::Float32x4
            | VertexFormat::Uint32x4
            | VertexFormat::Sint32x4
            | VertexFormat::Float64x4 => 4,
        }
    }

    /// Width of one component in bytes. A half float takes two bytes.
    pub open spec fn component_width(self) -> nat {
        match self {
            VertexFormat::Uint8x2
            | VertexFormat::Uint8x4
            | VertexFormat::Sint8x2
            | VertexFormat::Sint8x4
            | VertexFormat::Unorm8x2
            | VertexFormat::Unorm8x4
            | VertexFormat::Snorm8x2
            | VertexFormat::Snorm8x4 => 1,
            VertexFormat::Uint16x2
            | VertexFormat::Uint16x4
            | VertexFormat::Sint16x2
            | VertexFormat::Sint16x4
            | VertexFormat::Unorm16x2
            | VertexFormat::Unorm16x4
            | VertexFormat::Snorm16x2
            | VertexFormat::Snorm16x4
            | VertexFormat::Float16x2
            | VertexFormat::Float16x4 => 2,
            VertexFormat::Uint32
            | VertexFormat::Float32
            | VertexFormat::Sint32
            | VertexFormat::Float32x2
            | VertexFormat::Float32x3
            | VertexFormat::Float32x4
            | VertexFormat::Uint32x2
            | VertexFormat::Uint32x3
            | VertexFormat::Uint32x4
            | VertexFormat::Sint32x2
            | VertexFormat::Sint32x3
            | VertexFormat::Sint32x4 => 4,
            VertexFormat::Float64
            | VertexFormat::Float64x2
            | VertexFormat::Float64x3
            | VertexFormat::Float64x4 => 8,
        }
    }

    /// Packed size in bytes: component count times component width.
    pub open spec fn byte_size(self) -> nat {
        self.components() * self.component_width()
    }

    /// The name under which the graphics API lists the format.
    pub open spec fn name_of(self) -> Seq<char> {
        match self {
            VertexFormat::Uint32 => "Uint32"@,
            VertexFormat::Float32 => "Float32"@,
            VertexFormat::Sint32 => "Sint32"@,
            VertexFormat::Float64 => "Float64"@,
            VertexFormat::Uint8x2 => "Uint8x2"@,
            VertexFormat::Uint8x4 => "Uint8x4"@,
            VertexFormat::Sint8x2 => "Sint8x2"@,
            VertexFormat::Sint8x4 => "Sint8x4"@,
            VertexFormat::Unorm8x2 => "Unorm8x2"@,
            VertexFormat::Unorm8x4 => "Unorm8x4"@,
            VertexFormat::Snorm8x2 => "Snorm8x2"@,
            VertexFormat::Snorm8x4 => "Snorm8x4"@,
            VertexFormat::Uint16x2 => "Uint16x2"@,
            VertexFormat::Uint16x4 => "Uint16x4"@,
            VertexFormat::Sint16x2 => "Sint16x2"@,
            VertexFormat::Sint16x4 => "Sint16x4"@,
            VertexFormat::Unorm16x2 => "Unorm16x2"@,
            VertexFormat::Unorm16x4 => "Unorm16x4"@,
            VertexFormat::Snorm16x2 => "Snorm16x2"@,
            VertexFormat::Snorm16x4 => "Snorm16x4"@,
            VertexFormat::Float16x2 => "Float16x2"@,
            VertexFormat::Float16x4 => "Float16x4"@,
            VertexFormat::Float32x2 => "Float32x2"@,
            VertexFormat::Float32x3 => "Float32x3"@,
            VertexFormat::Float32x4 => "Float32x4"@,
            VertexFormat::Uint32x2 => "Uint32x2"@,
            VertexFormat::Uint32x3 => "Uint32x3"@,
            VertexFormat::Uint32x4 => "Uint32x4"@,
            VertexFormat::Sint32x2 => "Sint32x2"@,
            VertexFormat::Sint32x3 => "Sint32x3"@,
            VertexFormat::Sint32x4 => "Sint32x4"@,
            VertexFormat::Float64x2 => "Float64x2"@,
            VertexFormat::Float64x3 => "Float64x3"@,
            VertexFormat::Float64x4 => "Float64x4"@,
        }
    }

    /// The name under which the graphics API lists the format.
    pub fn name(&self) -> (name: &'static str)
        ensures
            name@ == self.name_of(),
    {
        match self {
            VertexFormat::Uint32 => "Uint32",
            VertexFormat::Float32 => "Float32",
            VertexFormat::Sint32 => "Sint32",
            VertexFormat::Float64 => "Float64",
            VertexFormat::Uint8x2 => "Uint8x2",
            VertexFormat::Uint8x4 => "Uint8x4",
            VertexFormat::Sint8x2 => "Sint8x2",
            VertexFormat::Sint8x4 => "Sint8x4",
            VertexFormat::Unorm8x2 => "Unorm8x2",
            VertexFormat::Unorm8x4 => "Unorm8x4",
            VertexFormat::Snorm8x2 => "Snorm8x2",
            VertexFormat::Snorm8x4 => "Snorm8x4",
            VertexFormat::Uint16x2 => "Uint16x2",
            VertexFormat::Uint16x4 => "Uint16x4",
            VertexFormat::Sint16x2 => "Sint16x2",
            VertexFormat::Sint16x4 => "Sint16x4",
            VertexFormat::Unorm16x2 => "Unorm16x2",
            VertexFormat::Unorm16x4 => "Unorm16x4",
            VertexFormat::Snorm16x2 => "Snorm16x2",
            VertexFormat::Snorm16x4 => "Snorm16x4",
            VertexFormat::Float16x2 => "Float16x2",
            VertexFormat::Float16x4 => "Float16x4",
            VertexFormat::Float32x2 => "Float32x2",
            VertexFormat::Float32x3 => "Float32x3",
            VertexFormat::Float32x4 => "Float32x4",
            VertexFormat::Uint32x2 => "Uint32x2",
            VertexFormat::Uint32x3 => "Uint32x3",
            VertexFormat::Uint32x4 => "Uint32x4",
            VertexFormat::Sint32x2 => "Sint32x2",
            VertexFormat::Sint32x3 => "Sint32x3",
            VertexFormat::Sint32x4 => "Sint32x4",
            VertexFormat::Float64x2 => "Float64x2",
            VertexFormat::Float64x3 => "Float64x3",
            VertexFormat::Float64x4 => "Float64x4",
        }
    }

    /// The number of components in one value of the format.
    pub fn component_count(&self) -> (count: u64)
        ensures
            count == self.components(),
            1 <= count <= 4,
    {
        match self {
            VertexFormat::Uint32
            | VertexFormat::Float32
            | VertexFormat::Sint32
            | VertexFormat::Float64 => 1,
            VertexFormat::Uint8x2
            | VertexFormat::Sint8x2
            | VertexFormat::Unorm8x2
            | VertexFormat::Snorm8x2
            | VertexFormat::Uint16x2
            | VertexFormat::Sint16x2
            | VertexFormat::Unorm16x2
            | VertexFormat::Snorm16x2
            | VertexFormat::Float16x2
            | VertexFormat::Float32x2
            | VertexFormat::Uint32x2
            | VertexFormat::Sint32x2
            | VertexFormat::Float64x2 => 2,
            VertexFormat::Float32x3
            | VertexFormat::Uint32x3
            | VertexFormat::Sint32x3
            | VertexFormat::Float64x3 => 3,
            VertexFormat::Uint8x4
            | VertexFormat::Sint8x4
            | VertexFormat::Unorm8x4
            | VertexFormat::Snorm8x4
            | VertexFormat::Uint16x4
            | VertexFormat::Sint16x4
            | VertexFormat::Unorm16x4
            | VertexFormat::Snorm16x4
            | VertexFormat::Float16x4
            | VertexFormat::Float32x4
            | VertexFormat::Uint32x4
            | VertexFormat::Sint32x4
            | VertexFormat::Float64x4 => 4,
        }
    }

    /// The width of one component, in bytes.
    pub fn component_bytes(&self) -> (width: u64)
        ensures
            width == self.component_width(),
            1 <= width <= 8,
    {
        match self {
            VertexFormat::Uint8x2
            | VertexFormat::Uint8x4
            | VertexFormat::Sint8x2
            | VertexFormat::Sint8x4
            | VertexFormat::Unorm8x2
            | VertexFormat::Unorm8x4
            | VertexFormat::Snorm8x2
            | VertexFormat::Snorm8x4 => 1,
            VertexFormat::Uint16x2
            | VertexFormat::Uint16x4
            | VertexFormat::Sint16x2
            | VertexFormat::Sint16x4
            | VertexFormat::Unorm16x2
            | VertexFormat::Unorm16x4
            | VertexFormat::Snorm16x2
            | VertexFormat::Snorm16x4
            | VertexFormat::Float16x2
            | VertexFormat::Float16x4 => 2,
            VertexFormat::Uint32
            | VertexFormat::Float32
            | VertexFormat::Sint32
            | VertexFormat::Float32x2
            | VertexFormat::Float32x3
            | VertexFormat::Float32x4
            | VertexFormat::Uint32x2
            | VertexFormat::Uint32x3
            | VertexFormat::Uint32x4
            | VertexFormat::Sint32x2
            | VertexFormat::Sint32x3
            | VertexFormat::Sint32x4 => 4,
            VertexFormat::Float64
            | VertexFormat::Float64x2
            | VertexFormat::Float64x3
            | VertexFormat::Float64x4 => 8,
        }
    }

    /// The packed size of one value of the format, in bytes.
    pub fn size(&self) -> (bytes: u64)
        ensures
            bytes == self.byte_size(),
            1 <= bytes <= 32,
    {
        let count: u64 = self.component_count();
        let width: u64 = self.component_bytes();
        assert(1 <= count * width <= 32) by (nonlinear_arith)
            requires
                1 <= count <= 4,
                1 <= width <= 8,
        ;
        count * width
    }
}

impl VertexStepMode {
    /// The name under which the graphics API lists the step mode.
    pub open spec fn name_of(self) -> Seq<char> {
        match self {
            VertexStepMode::Vertex => "Vertex"@,
            VertexStepMode::Instance => "Instance"@,
        }
    }

    /// The name under which the graphics API lists the step mode.
    pub fn name(&self) -> (name: &'static str)
        ensures
            name@ == self.name_of(),
    {
        match self {
            VertexStepMode::Vertex => "Vertex",
            VertexStepMode::Instance => "Instance",
        }
    }
}

/// Every format takes at least one byte and at most thirty-two.
pub proof fn lemma_byte_size_bounds(format: VertexFormat)
    ensures
        1 <= format.byte_size() <= 32,
{
    let count = format.components();
    let width = format.component_width();
    assert(1 <= count * width <= 32) by (nonlinear_arith)
        requires
            1 <= count <= 4,
            1 <= width <= 8,
    ;
}

} // verus!
