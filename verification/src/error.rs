//! The ways in which a schema can fail to compile into a layout.

use crate::text::{decimal, join_strings, joined, push_decimal, string_of, strings_view};
use vstd::prelude::*;
use vstd::string::*;

verus! {

/// Why a schema has no layout. Every error aborts the whole compilation.
#[derive(Debug, PartialEq, Eq)]
pub enum LayoutError {
    /// A format tag that the catalog does not hold.
    UnknownTag { tag: String },
    /// A matrix whose row width the catalog lacks for the component type.
    /// `alternatives` lists the matrix tags that the component type does allow.
    IncompatibleMatrixType {
        dimension_tag: String,
        component_type: String,
        alternatives: Vec<String>,
    },
    /// Two attributes of one schema claim the same shader location.
    DuplicateSlot { slot: u32 },
    /// An annotation that is not of the shape the compiler works on: a matrix
    /// tag without a row count, or rows whose locations leave the `u32` range.
    UnsupportedSchemaShape,
}

/// The mathematical content of a [`LayoutError`].
pub enum LayoutErrorView {
    UnknownTag { tag: Seq<char> },
    IncompatibleMatrixType {
        dimension_tag: Seq<char>,
        component_type: Seq<char>,
        alternatives: Seq<Seq<char>>,
    },
    DuplicateSlot { slot: u32 },
    UnsupportedSchemaShape,
}

impl View for LayoutError {
    type V = LayoutErrorView;

    open spec fn view(&self) -> LayoutErrorView {
        match self {
            LayoutError::UnknownTag { tag } => LayoutErrorView::UnknownTag { tag: tag@ },
            LayoutError::IncompatibleMatrixType { dimension_tag, component_type, alternatives } => {
                LayoutErrorView::IncompatibleMatrixType {
                    dimension_tag: dimension_tag@,
                    component_type: component_type@,
                    alternatives: strings_view(alternatives@),
                }
            },
            LayoutError::DuplicateSlot { slot } => LayoutErrorView::DuplicateSlot { slot: *slot },
            LayoutError::UnsupportedSchemaShape => LayoutErrorView::UnsupportedSchemaShape,
        }
    }
}

/// The text that reports an error to the user.
pub open spec fn message_of(error: LayoutErrorView) -> Seq<char> {
    match error {
        LayoutErrorView::UnknownTag { tag } => "Cannot get type for \""@ + tag + "\""@,
        LayoutErrorView::IncompatibleMatrixType { dimension_tag, component_type, alternatives } => {
            "Matrix "@ + dimension_tag + " cannot be use with "@ + component_type
                + " ! Available matrix are "@ + joined(alternatives, " or "@) + " for "@
                + component_type
        },
        LayoutErrorView::DuplicateSlot { slot } => {
            "Cannot have two time the same location in the same struct: location "@ + decimal(
                slot as nat,
            )
        },
        LayoutErrorView::UnsupportedSchemaShape => {
            "The annotations are not of a shape that has a layout"@
        },
    }
}

impl LayoutError {
    /// The text that reports the error to the user. It names the tag, the
    /// matrix with its component type and every matrix that the component
    /// type allows, or the shader location.
    pub fn message(&self) -> (text: String)
        ensures
            text@ == message_of(self@),
    {
        match self {
            LayoutError::UnknownTag { tag } => {
                let mut text = "Cannot get type for \"".to_owned();
                text.append(tag.as_str());
                text.append("\"");
                text
            },
            LayoutError::IncompatibleMatrixType { dimension_tag, component_type, alternatives } => {
                let mut text = "Matrix ".to_owned();
                text.append(dimension_tag.as_str());
                text.append(" cannot be use with ");
                text.append(component_type.as_str());
                text.append(" ! Available matrix are ");
                let list = join_strings(alternatives, " or ");
                text.append(list.as_str());
                text.append(" for ");
                text.append(component_type.as_str());
                text
            },
            LayoutError::DuplicateSlot { slot } => {
                let start = "Cannot have two time the same location in the same struct: location ";
                let mut text = start.to_owned();
                let mut digits: Vec<char> = Vec::new();
                push_decimal(&mut digits, *slot);
                let number = string_of(&digits);
                text.append(number.as_str());
                text
            },
            LayoutError::UnsupportedSchemaShape => {
                "The annotations are not of a shape that has a layout".to_owned()
            },
        }
    }
}

} // verus!
