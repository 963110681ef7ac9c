//! The schema of a record: its fields in declaration order, each with the
//! annotations it carries.

use crate::error::{LayoutError, LayoutErrorView};
use crate::text::{chars_occur_at, chars_of, is_prefix, str_eq};
use vstd::prelude::*;

verus! {

/// What an annotation asks of the layout.
#[derive(Debug, PartialEq, Eq)]
pub enum Annotation {
    /// One attribute: the format that `tag` names, at shader location `slot`.
    Scalar { tag: String, slot: u32 },
    /// A matrix `matRxC` of component type `component_type`: `R` attributes at
    /// consecutive shader locations from `start_slot` on.
    Matrix { dimension_tag: String, component_type: String, start_slot: u32 },
}

/// The mathematical content of an [`Annotation`].
pub enum AnnotationView {
    Scalar { tag: Seq<char>, slot: u32 },
    Matrix { dimension_tag: Seq<char>, component_type: Seq<char>, start_slot: u32 },
}

impl View for Annotation {
    type V = AnnotationView;

    open spec fn view(&self) -> AnnotationView {
        match self {
            Annotation::Scalar { tag, slot } => AnnotationView::Scalar { tag: tag@, slot: *slot },
            Annotation::Matrix { dimension_tag, component_type, start_slot } => {
                AnnotationView::Matrix {
                    dimension_tag: dimension_tag@,
                    component_type: component_type@,
                    start_slot: *start_slot,
                }
            },
        }
    }
}

/// One field of a record: its name, its declared type as written, and its
/// annotations in the order in which they are written.
#[derive(Debug, PartialEq, Eq)]
pub struct Field {
    pub name: String,
    pub ty: String,
    pub annotations: Vec<Annotation>,
}

/// The mathematical content of a [`Field`].
pub struct FieldView {
    pub name: Seq<char>,
    pub ty: Seq<char>,
    pub annotations: Seq<AnnotationView>,
}

/// The contents of a list of annotations.
pub open spec fn annotation_views(annotations: Seq<Annotation>) -> Seq<AnnotationView> {
    Seq::new(annotations.len(), |i: int| annotations[i]@)
}

impl View for Field {
    type V = FieldView;

    open spec fn view(&self) -> FieldView {
        FieldView {
            name: self.name@,
            ty: self.ty@,
            annotations: annotation_views(self.annotations@),
        }
    }
}

/// The contents of a list of fields.
pub open spec fn field_views(fields: Seq<Field>) -> Seq<FieldView> {
    Seq::new(fields.len(), |i: int| fields[i]@)
}

/// The annotations of a schema, field after field.
pub open spec fn annotations_of(fields: Seq<FieldView>) -> Seq<AnnotationView>
    decreases fields.len(),
{
    if fields.len() == 0 {
        Seq::empty()
    } else {
        fields[0].annotations + annotations_of(fields.skip(1))
    }
}

/// Whether an attribute name announces a matrix: it begins with `mat`.
pub open spec fn names_matrix(name: Seq<char>) -> bool {
    is_prefix(name, "mat"@)
}

/// Whether an attribute name announces a matrix, whose arguments are a
/// component type and a starting location. Any other attribute takes a
/// location alone.
pub fn is_matrix_tag(name: &str) -> (matrix: bool)
    ensures
        matrix == names_matrix(name@),
{
    let name_chars = chars_of(name);
    let prefix = chars_of("mat");
    chars_occur_at(&name_chars, &prefix, 0)
}

impl Annotation {
    /// The annotation that an attribute stands for. `name` is the attribute's
    /// name and `data` its location. An attribute with a component type is a
    /// matrix; one without is a plain format tag.
    pub fn new(name: String, data: u32, ty: Option<String>) -> (annotation: Annotation)
        ensures
            annotation@ == match ty {
                None => AnnotationView::Scalar { tag: name@, slot: data },
                Some(component_type) => AnnotationView::Matrix {
                    dimension_tag: name@,
                    component_type: component_type@,
                    start_slot: data,
                },
            },
    {
        match ty {
            None => Annotation::Scalar { tag: name, slot: data },
            Some(component_type) => Annotation::Matrix {
                dimension_tag: name,
                component_type,
                start_slot: data,
            },
        }
    }
}

/// Whether an attribute of a record type declares a representation whose
/// fields lie in declaration order: `repr(C)` or `repr(transparent)`.
pub open spec fn declares_layout(attribute: (Seq<char>, Seq<char>)) -> bool {
    attribute.0 == "repr"@ && (attribute.1 == "C"@ || attribute.1 == "transparent"@)
}

/// The names and arguments of a list of attributes.
pub open spec fn attribute_views(attributes: Seq<(String, String)>) -> Seq<(Seq<char>, Seq<char>)> {
    Seq::new(attributes.len(), |i: int| (attributes[i].0@, attributes[i].1@))
}

/// Checks that a record type declares a representation whose fields lie in
/// declaration order, as a layout takes them to lie. Each attribute is given
/// by its name and its argument. A type without `repr(C)` or
/// `repr(transparent)` is refused.
pub fn require_repr_c(attrs: &Vec<(String, String)>) -> (checked: Result<(), LayoutError>)
    ensures
        checked is Ok == (exists|k: int|
            0 <= k < attrs.len() && declares_layout(#[trigger] attribute_views(attrs@)[k])),
        checked matches Err(error) ==> error@ == LayoutErrorView::UnsupportedSchemaShape,
{
    let mut i: usize = 0;
    while i < attrs.len()
        invariant
            i <= attrs.len(),
            forall|k: int| 0 <= k < i ==> !declares_layout(#[trigger] attribute_views(attrs@)[k]),
        decreases attrs.len() - i,
    {
        let name = attrs[i].0.as_str();
        let argument = attrs[i].1.as_str();
        if str_eq(name, "repr") && (str_eq(argument, "C") || str_eq(argument, "transparent")) {
            assert(declares_layout(attribute_views(attrs@)[i as int]));
            return Ok(());
        }
        i += 1;
    }
    Err(LayoutError::UnsupportedSchemaShape)
}

} // verus!
