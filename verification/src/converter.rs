//! The format catalog: which tag names which vertex format, and the
//! conversion of annotations into located formats.

use crate::error::{LayoutError, LayoutErrorView};
use crate::format::VertexFormat;
use crate::text::{
    chars_of, chars_replace_all, digit_of, digit_value, is_digit, is_substring, replace_all,
    str_contains, str_eq, string_of, strings_view, strs_view,
};
use vstd::prelude::*;
use vstd::string::*;

verus! {

/// A catalog entry: a vertex format and the bytes it takes in the buffer.
#[derive(Clone, Copy, Debug, PartialEq, Eq, Structural)]
pub struct TypeToWGPU {
    pub offset: u64,
    pub ty: VertexFormat,
}

/// A catalog entry bound to a shader location.
#[derive(Clone, Copy, Debug, PartialEq, Eq, Structural)]
pub struct WGPUData {
    pub wgpu_type: TypeToWGPU,
    pub shader_location: u32,
}

/// The tag that names a format in annotations.
pub open spec fn tag_of(format: VertexFormat) -> Seq<char> {
    match format {
        VertexFormat::Uint32 => "u32"@,
        VertexFormat::Float32 => "f32"@,
        VertexFormat::Sint32 => "s32"@,
        VertexFormat::Float64 => "f64"@,
        VertexFormat::Uint8x2 => "u8x2"@,
        VertexFormat::Uint8x4 => "u8x4"@,
        VertexFormat::Sint8x2 => "s8x2"@,
        VertexFormat::Sint8x4 => "s8x4"@,
        VertexFormat::Unorm8x2 => "un8x2"@,
        VertexFormat::Unorm8x4 => "un8x4"@,
        VertexFormat::Snorm8x2 => "sn8x2"@,
        VertexFormat::Snorm8x4 => "sn8x4"@,
        VertexFormat::Uint16x2 => "u16x2"@,
        VertexFormat::Uint16x4 => "u16x4"@,
        VertexFormat::Sint16x2 => "s16x2"@,
        VertexFormat::Sint16x4 => "s16x4"@,
        VertexFormat::Unorm16x2 => "un16x2"@,
        VertexFormat::Unorm16x4 => "un16x4"@,
        VertexFormat::Snorm16x2 => "sn16x2"@,
        VertexFormat::Snorm16x4 => "sn16x4"@,
        VertexFormat::Float16x2 => "f16x2"@,
        VertexFormat::Float16x4 => "f16x4"@,
        VertexFormat::Float32x2 => "f32x2"@,
        VertexFormat::Float32x3 => "f32x3"@,
        VertexFormat::Float32x4 => "f32x4"@,
        VertexFormat::Uint32x2 => "u32x2"@,
        VertexFormat::Uint32x3 => "u32x3"@,
        VertexFormat::Uint32x4 => "u32x4"@,
        VertexFormat::Sint32x2 => "s32x2"@,
        VertexFormat::Sint32x3 => "s32x3"@,
        VertexFormat::Sint32x4 => "s32x4"@,
        VertexFormat::Float64x2 => "f64x2"@,
        VertexFormat::Float64x3 => "f64x3"@,
        VertexFormat::Float64x4 => "f64x4"@,
    }
}

/// The formats of the catalog, in the order in which the catalog is walked.
pub open spec fn catalog_formats() -> Seq<VertexFormat> {
    seq![
        VertexFormat::Uint32,
        VertexFormat::Float32,
        VertexFormat::Sint32,
        VertexFormat::Float64,
        VertexFormat::Uint8x2,
        VertexFormat::Uint8x4,
        VertexFormat::Sint8x2,
        VertexFormat::Sint8x4,
        VertexFormat::Unorm8x2,
        VertexFormat::Unorm8x4,
        VertexFormat::Snorm8x2,
        VertexFormat::Snorm8x4,
        VertexFormat::Uint16x2,
        VertexFormat::Uint16x4,
        VertexFormat::Sint16x2,
        VertexFormat::Sint16x4,
        VertexFormat::Unorm16x2,
        VertexFormat::Unorm16x4,
        VertexFormat::Snorm16x2,
        VertexFormat::Snorm16x4,
        VertexFormat::Float16x2,
        VertexFormat::Float16x4,
        VertexFormat::Float32x2,
        VertexFormat::Float32x3,
        VertexFormat::Float32x4,
        VertexFormat::Uint32x2,
        VertexFormat::Uint32x3,
        VertexFormat::Uint32x4,
        VertexFormat::Sint32x2,
        VertexFormat::Sint32x3,
        VertexFormat::Sint32x4,
        VertexFormat::Float64x2,
        VertexFormat::Float64x3,
        VertexFormat::Float64x4,
    ]
}

/// The tags of the catalog, in the order in which the catalog is walked.
pub open spec fn catalog_tags() -> Seq<Seq<char>> {
    catalog_formats().map_values(|format: VertexFormat| tag_of(format))
}

/// Whether the catalog holds `tag`.
pub open spec fn in_catalog(tag: Seq<char>) -> bool {
    exists|format: VertexFormat| tag_of(format) == tag
}

/// The format that `tag` names; meaningful where the catalog holds `tag`.
pub open spec fn format_of(tag: Seq<char>) -> VertexFormat {
    choose|format: VertexFormat| tag_of(format) == tag
}

/// The catalog entry of a format: the format with its packed size.
pub open spec fn entry_of(format: VertexFormat) -> TypeToWGPU {
    TypeToWGPU { offset: format.byte_size() as u64, ty: format }
}

/// The catalog tags that contain `part` as a contiguous run of characters,
/// in catalog order.
pub open spec fn related_tags(part: Seq<char>) -> Seq<Seq<char>> {
    catalog_tags().filter(|tag: Seq<char>| is_substring(tag, part))
}

impl VertexFormat {
    /// The tag that names the format in annotations.
    pub fn tag(&self) -> (tag: &'static str)
        ensures
            tag@ == tag_of(*self),
    {
        match self {
            VertexFormat::Uint32 => "u32",
            VertexFormat::Float32 => "f32",
            VertexFormat::Sint32 => "s32",
            VertexFormat::Float64 => "f64",
            VertexFormat::Uint8x2 => "u8x2",
            VertexFormat::Uint8x4 => "u8x4",
            VertexFormat::Sint8x2 => "s8x2",
            VertexFormat::Sint8x4 => "s8x4",
            VertexFormat::Unorm8x2 => "un8x2",
            VertexFormat::Unorm8x4 => "un8x4",
            VertexFormat::Snorm8x2 => "sn8x2",
            VertexFormat::Snorm8x4 => "sn8x4",
            VertexFormat::Uint16x2 => "u16x2",
            VertexFormat::Uint16x4 => "u16x4",
            VertexFormat::Sint16x2 => "s16x2",
            VertexFormat::Sint16x4 => "s16x4",
            VertexFormat::Unorm16x2 => "un16x2",
            VertexFormat::Unorm16x4 => "un16x4",
            VertexFormat::Snorm16x2 => "sn16x2",
            VertexFormat::Snorm16x4 => "sn16x4",
            VertexFormat::Float16x2 => "f16x2",
            VertexFormat::Float16x4 => "f16x4",
            VertexFormat::Float32x2 => "f32x2",
            VertexFormat::Float32x3 => "f32x3",
            VertexFormat::Float32x4 => "f32x4",
            VertexFormat::Uint32x2 => "u32x2",
            VertexFormat::Uint32x3 => "u32x3",
            VertexFormat::Uint32x4 => "u32x4",
            VertexFormat::Sint32x2 => "s32x2",
            VertexFormat::Sint32x3 => "s32x3",
            VertexFormat::Sint32x4 => "s32x4",
            VertexFormat::Float64x2 => "f64x2",
            VertexFormat::Float64x3 => "f64x3",
            VertexFormat::Float64x4 => "f64x4",
        }
    }
}

/// The formats of the catalog, in catalog order.
pub fn formats() -> (all: Vec<VertexFormat>)
    ensures
        all@ == catalog_formats(),
{
    let all = vec![
        VertexFormat::Uint32,
        VertexFormat::Float32,
        VertexFormat::Sint32,
        VertexFormat::Float64,
        VertexFormat::Uint8x2,
        VertexFormat::Uint8x4,
        VertexFormat::Sint8x2,
        VertexFormat::Sint8x4,
        VertexFormat::Unorm8x2,
        VertexFormat::Unorm8x4,
        VertexFormat::Snorm8x2,
        VertexFormat::Snorm8x4,
        VertexFormat::Uint16x2,
        VertexFormat::Uint16x4,
        VertexFormat::Sint16x2,
        VertexFormat::Sint16x4,
        VertexFormat::Unorm16x2,
        VertexFormat::Unorm16x4,
        VertexFormat::Snorm16x2,
        VertexFormat::Snorm16x4,
        VertexFormat::Float16x2,
        VertexFormat::Float16x4,
        VertexFormat::Float32x2,
        VertexFormat::Float32x3,
        VertexFormat::Float32x4,
        VertexFormat::Uint32x2,
        VertexFormat::Uint32x3,
        VertexFormat::Uint32x4,
        VertexFormat::Sint32x2,
        VertexFormat::Sint32x3,
        VertexFormat::Sint32x4,
        VertexFormat::Float64x2,
        VertexFormat::Float64x3,
        VertexFormat::Float64x4,
    ];
    assert(all@ =~= catalog_formats());
    all
}

/// Every format stands in the catalog.
pub proof fn lemma_catalog_complete(format: VertexFormat)
    ensures
        catalog_formats().contains(format),
{
    let all = catalog_formats();
    match format {
        VertexFormat::Uint32 => assert(all[0] == format),
        VertexFormat::Float32 => assert(all[1] == format),
        VertexFormat::Sint32 => assert(all[2] == format),
        VertexFormat::Float64 => assert(all[3] == format),
        VertexFormat::Uint8x2 => assert(all[4] == format),
        VertexFormat::Uint8x4 => assert(all[5] == format),
        VertexFormat::Sint8x2 => assert(all[6] == format),
        VertexFormat::Sint8x4 => assert(all[7] == format),
        VertexFormat::Unorm8x2 => assert(all[8] == format),
        VertexFormat::Unorm8x4 => assert(all[9] == format),
        VertexFormat::Snorm8x2 => assert(all[10] == format),
        VertexFormat::Snorm8x4 => assert(all[11] == format),
        VertexFormat::Uint16x2 => assert(all[12] == format),
        VertexFormat::Uint16x4 => assert(all[13] == format),
        VertexFormat::Sint16x2 => assert(all[14] == format),
        VertexFormat::Sint16x4 => assert(all[15] == format),
        VertexFormat::Unorm16x2 => assert(all[16] == format),
        VertexFormat::Unorm16x4 => assert(all[17] == format),
        VertexFormat::Snorm16x2 => assert(all[18] == format),
        VertexFormat::Snorm16x4 => assert(all[19] == format),
        VertexFormat::Float16x2 => assert(all[20] == format),
        VertexFormat::Float16x4 => assert(all[21] == format),
        VertexFormat::Float32x2 => assert(all[22] == format),
        VertexFormat::Float32x3 => assert(all[23] == format),
        VertexFormat::Float32x4 => assert(all[24] == format),
        VertexFormat::Uint32x2 => assert(all[25] == format),
        VertexFormat::Uint32x3 => assert(all[26] == format),
        VertexFormat::Uint32x4 => assert(all[27] == format),
        VertexFormat::Sint32x2 => assert(all[28] == format),
        VertexFormat::Sint32x3 => assert(all[29] == format),
        VertexFormat::Sint32x4 => assert(all[30] == format),
        VertexFormat::Float64x2 => assert(all[31] == format),
        VertexFormat::Float64x3 => assert(all[32] == format),
        VertexFormat::Float64x4 => assert(all[33] == format),
    }
}

/// No two formats share a tag.
pub proof fn lemma_tag_names_one_format(left: VertexFormat, right: VertexFormat)
    requires
        tag_of(left) == tag_of(right),
    ensures
        left == right,
{
    reveal_strlit("u32");
    reveal_strlit("f32");
    reveal_strlit("s32");
    reveal_strlit("f64");
    reveal_strlit("u8x2");
    reveal_strlit("u8x4");
    reveal_strlit("s8x2");
    reveal_strlit("s8x4");
    reveal_strlit("un8x2");
    reveal_strlit("un8x4");
    reveal_strlit("sn8x2");
    reveal_strlit("sn8x4");
    reveal_strlit("u16x2");
    reveal_strlit("u16x4");
    reveal_strlit("s16x2");
    reveal_strlit("s16x4");
    reveal_strlit("un16x2");
    reveal_strlit("un16x4");
    reveal_strlit("sn16x2");
    reveal_strlit("sn16x4");
    reveal_strlit("f16x2");
    reveal_strlit("f16x4");
    reveal_strlit("f32x2");
    reveal_strlit("f32x3");
    reveal_strlit("f32x4");
    reveal_strlit("u32x2");
    reveal_strlit("u32x3");
    reveal_strlit("u32x4");
    reveal_strlit("s32x2");
    reveal_strlit("s32x3");
    reveal_strlit("s32x4");
    reveal_strlit("f64x2");
    reveal_strlit("f64x3");
    reveal_strlit("f64x4");
    let tag = tag_of(left);
    assert(tag.len() == tag_of(right).len());
    if tag.len() >= 3 {
        assert(tag[0] == tag_of(right)[0]);
        assert(tag[1] == tag_of(right)[1]);
        assert(tag[2] == tag_of(right)[2]);
    }
    if tag.len() >= 4 {
        assert(tag[tag.len() - 1] == tag_of(right)[tag.len() - 1]);
        assert(tag[tag.len() - 2] == tag_of(right)[tag.len() - 2]);
        assert(tag[tag.len() - 3] == tag_of(right)[tag.len() - 3]);
    }
}

/// A tag of the catalog names the format it was taken from.
pub proof fn lemma_format_of_tag(format: VertexFormat)
    ensures
        in_catalog(tag_of(format)),
        format_of(tag_of(format)) == format,
{
    lemma_tag_names_one_format(format_of(tag_of(format)), format);
}

/// Looks `name` up in the catalog. The entry holds the format that the tag
/// names and its packed size; a tag that the catalog lacks is reported by
/// name.
pub fn get_type(name: &str) -> (found: Result<TypeToWGPU, LayoutError>)
    ensures
        match found {
            Ok(entry) => in_catalog(name@) && entry == entry_of(format_of(name@)),
            Err(error) => !in_catalog(name@) && error@ == (LayoutErrorView::UnknownTag {
                tag: name@,
            }),
        },
{
    let all = formats();
    let mut i: usize = 0;
    while i < all.len()
        invariant
            all@ == catalog_formats(),
            i <= all.len(),
            forall|k: int| 0 <= k < i ==> tag_of(#[trigger] all@[k]) != name@,
        decreases all.len() - i,
    {
        let format = all[i];
        if str_eq(format.tag(), name) {
            proof {
                lemma_format_of_tag(format);
            }
            return Ok(TypeToWGPU { offset: format.size(), ty: format });
        }
        i += 1;
    }
    proof {
        assert forall|format: VertexFormat| tag_of(format) != name@ by {
            lemma_catalog_complete(format);
            let k = choose|k: int| 0 <= k < all@.len() && all@[k] == format;
            assert(tag_of(all@[k]) != name@);
        }
    }
    Err(LayoutError::UnknownTag { tag: name.to_owned() })
}

/// Whether the catalog holds `name`.
pub fn has_type(name: &str) -> (held: bool)
    ensures
        held == in_catalog(name@),
{
    get_type(name).is_ok()
}

/// The catalog tags that contain `name`, in catalog order. They serve to
/// suggest what was meant where a tag is not accepted.
pub fn get_allowed_type(name: &str) -> (related: Vec<&'static str>)
    ensures
        strs_view(related@) == related_tags(name@),
{
    let all = formats();
    let mut related: Vec<&'static str> = Vec::new();
    let ghost pred = |tag: Seq<char>| is_substring(tag, name@);
    let mut i: usize = 0;
    proof {
        reveal(Seq::filter);
        assert(catalog_tags().take(0) =~= Seq::<Seq<char>>::empty());
        assert(strs_view(related@) =~= catalog_tags().take(0).filter(pred));
    }
    while i < all.len()
        invariant
            all@ == catalog_formats(),
            i <= all.len(),
            pred == |tag: Seq<char>| is_substring(tag, name@),
            strs_view(related@) == catalog_tags().take(i as int).filter(pred),
        decreases all.len() - i,
    {
        let tag: &'static str = all[i].tag();
        let ghost before = related@;
        let keep = str_contains(tag, name);
        if keep {
            related.push(tag);
        }
        proof {
            let tags = catalog_tags();
            assert(tags.take(i + 1) =~= tags.take(i as int).push(tags[i as int]));
            tags.take(i as int).lemma_filter_push(tags[i as int], pred);
            assert(tags[i as int] == tag@);
            assert(pred(tag@) == keep);
            if keep {
                assert(strs_view(related@) =~= strs_view(before).push(tag@));
            }
        }
        i += 1;
    }
    proof {
        assert(catalog_tags().take(all.len() as int) =~= catalog_tags());
    }
    related
}

/// Binds the format that `name` names to a shader location.
pub fn convert_type_to_wgpu(name: &String, shader_location: u32) -> (found: Result<
    WGPUData,
    LayoutError,
>)
    ensures
        match found {
            Ok(data) => in_catalog(name@) && data == (WGPUData {
                wgpu_type: entry_of(format_of(name@)),
                shader_location,
            }),
            Err(error) => !in_catalog(name@) && error@ == (LayoutErrorView::UnknownTag {
                tag: name@,
            }),
        },
{
    match get_type(name.as_str()) {
        Ok(wgpu_type) => Ok(WGPUData { wgpu_type, shader_location }),
        Err(error) => Err(error),
    }
}

/// Whether a matrix tag tells its row count: it has at least three
/// characters, and the third from the end is a decimal digit.
pub open spec fn matrix_shape(name: Seq<char>) -> bool {
    name.len() >= 3 && is_digit(name[name.len() - 3])
}

/// The number of rows of a matrix tag: `R` in `matRxC`.
pub open spec fn matrix_rows(name: Seq<char>) -> nat
    recommends
        matrix_shape(name),
{
    digit_value(name[name.len() - 3])
}

/// The tag of one row of a matrix: the component type followed by the last
/// two characters of the matrix tag, `xC` in `matRxC`.
pub open spec fn matrix_row_tag(name: Seq<char>, ty: Seq<char>) -> Seq<char>
    recommends
        matrix_shape(name),
{
    ty + name.subrange(name.len() - 2, name.len() as int)
}

/// The start of every matrix tag with the rows of `name`: `mat` and the row
/// count.
pub open spec fn matrix_prefix(name: Seq<char>) -> Seq<char>
    recommends
        matrix_shape(name),
{
    "mat"@.push(name[name.len() - 3])
}

/// The matrix tags with the rows of `name` that the component type `ty`
/// allows: every catalog tag that contains `ty`, with `ty` replaced by the
/// start of the matrix tag.
pub open spec fn matrix_alternatives(name: Seq<char>, ty: Seq<char>) -> Seq<Seq<char>>
    recommends
        matrix_shape(name),
{
    related_tags(ty).map_values(|tag: Seq<char>| replace_all(tag, ty, matrix_prefix(name)))
}

/// What a matrix annotation expands to: one located row format for each row,
/// at consecutive shader locations from `shader_location` on.
pub open spec fn matrix_expansion(name: Seq<char>, shader_location: u32, ty: Seq<char>) -> Result<
    Seq<WGPUData>,
    LayoutErrorView,
> {
    if !matrix_shape(name) {
        Err(LayoutErrorView::UnsupportedSchemaShape)
    } else if !in_catalog(matrix_row_tag(name, ty)) {
        Err(
            LayoutErrorView::IncompatibleMatrixType {
                dimension_tag: name,
                component_type: ty,
                alternatives: matrix_alternatives(name, ty),
            },
        )
    } else if shader_location + matrix_rows(name) > u32::MAX + 1 {
        Err(LayoutErrorView::UnsupportedSchemaShape)
    } else {
        Ok(
            Seq::new(
                matrix_rows(name),
                |row: int|
                    WGPUData {
                        wgpu_type: entry_of(format_of(matrix_row_tag(name, ty))),
                        shader_location: (shader_location + row) as u32,
                    },
            ),
        )
    }
}

/// A matrix `matRxC` whose row format the catalog holds expands into exactly
/// `R` rows of that format, at the shader locations `shader_location`,
/// `shader_location + 1`, up to `shader_location + R - 1`.
pub proof fn lemma_matrix_arity(name: Seq<char>, shader_location: u32, ty: Seq<char>)
    requires
        matrix_shape(name),
        in_catalog(matrix_row_tag(name, ty)),
        shader_location + matrix_rows(name) <= u32::MAX + 1,
    ensures
        matrix_expansion(name, shader_location, ty) is Ok,
        matrix_expansion(name, shader_location, ty)->Ok_0.len() == matrix_rows(name),
        forall|row: int|
            0 <= row < matrix_rows(name) ==> {
                let located = #[trigger] matrix_expansion(name, shader_location, ty)->Ok_0[row];
                &&& located.shader_location == shader_location + row
                &&& located.wgpu_type == entry_of(format_of(matrix_row_tag(name, ty)))
            },
{
}

/// The matrix tags with the rows of `name` that the component type allows.
fn alternatives_for(name: &Vec<char>, ty: &str) -> (alternatives: Vec<String>)
    requires
        matrix_shape(name@),
    ensures
        strings_view(alternatives@) == matrix_alternatives(name@, ty@),
{
    let related = get_allowed_type(ty);
    let from = chars_of(ty);
    let mut to = chars_of("mat");
    to.push(name[name.len() - 3]);
    let mut alternatives: Vec<String> = Vec::new();
    let mut i: usize = 0;
    while i < related.len()
        invariant
            i <= related.len(),
            matrix_shape(name@),
            from@ == ty@,
            to@ == matrix_prefix(name@),
            strs_view(related@) == related_tags(ty@),
            strings_view(alternatives@) == strs_view(related@).take(i as int).map_values(
                |tag: Seq<char>| replace_all(tag, ty@, matrix_prefix(name@)),
            ),
        decreases related.len() - i,
    {
        let tag = chars_of(related[i]);
        let replaced = chars_replace_all(&tag, &from, &to);
        let ghost before = alternatives@;
        alternatives.push(string_of(&replaced));
        proof {
            let tags = strs_view(related@);
            assert(tags.take(i + 1) =~= tags.take(i as int).push(tags[i as int]));
            assert(strings_view(alternatives@) =~= strings_view(before).push(replaced@));
            assert(strings_view(alternatives@) =~= tags.take(i + 1).map_values(
                |tag: Seq<char>| replace_all(tag, ty@, matrix_prefix(name@)),
            ));
        }
        i += 1;
    }
    proof {
        assert(strs_view(related@).take(related.len() as int) == strs_view(related@));
    }
    alternatives
}

/// The row count `R` and the row format of a matrix `matRxC` of component
/// type `ty`: the format that `ty` followed by `xC` names.
pub fn matrix_row_type(name: &String, ty: &String) -> (row: Result<(u32, TypeToWGPU), LayoutError>)
    ensures
        match row {
            Ok((count, entry)) => {
                &&& matrix_shape(name@)
                &&& in_catalog(matrix_row_tag(name@, ty@))
                &&& count == matrix_rows(name@)
                &&& count <= 9
                &&& entry == entry_of(format_of(matrix_row_tag(name@, ty@)))
            },
            Err(error) => {
                &&& !(matrix_shape(name@) && in_catalog(matrix_row_tag(name@, ty@)))
                &&& error@ == if matrix_shape(name@) {
                    LayoutErrorView::IncompatibleMatrixType {
                        dimension_tag: name@,
                        component_type: ty@,
                        alternatives: matrix_alternatives(name@, ty@),
                    }
                } else {
                    LayoutErrorView::UnsupportedSchemaShape
                }
            },
        },
{
    let name_chars = chars_of(name.as_str());
    let len: usize = name_chars.len();
    if len < 3 {
        return Err(LayoutError::UnsupportedSchemaShape);
    }
    let count: u32 = match digit_of(name_chars[len - 3]) {
        Some(count) => count,
        None => {
            return Err(LayoutError::UnsupportedSchemaShape);
        },
    };
    let mut row_chars = chars_of(ty.as_str());
    row_chars.push(name_chars[len - 2]);
    row_chars.push(name_chars[len - 1]);
    let row = string_of(&row_chars);
    proof {
        assert(row@ =~= matrix_row_tag(name@, ty@));
    }
    match get_type(row.as_str()) {
        Ok(entry) => Ok((count, entry)),
        Err(_) => {
            let alternatives = alternatives_for(&name_chars, ty.as_str());
            Err(
                LayoutError::IncompatibleMatrixType {
                    dimension_tag: name.clone(),
                    component_type: ty.clone(),
                    alternatives,
                },
            )
        },
    }
}

/// Expands a matrix annotation `matRxC` of component type `ty` into its `R`
/// rows. Each row has the format that `ty` followed by `xC` names, and the
/// rows take consecutive shader locations from `shader_location` on.
pub fn convert_mat_type_to_wgou(name: &String, shader_location: u32, ty: &mut String) -> (rows:
    Result<Vec<WGPUData>, LayoutError>)
    ensures
        final(ty)@ == old(ty)@,
        match rows {
            Ok(located) => matrix_expansion(name@, shader_location, old(ty)@) == Ok::<
                Seq<WGPUData>,
                LayoutErrorView,
            >(located@),
            Err(error) => matrix_expansion(name@, shader_location, old(ty)@) == Err::<
                Seq<WGPUData>,
                LayoutErrorView,
            >(error@),
        },
{
    let (count, wgpu_type) = match matrix_row_type(name, ty) {
        Ok(row) => row,
        Err(error) => {
            return Err(error);
        },
    };
    if count > 0 && shader_location > u32::MAX - (count - 1) {
        return Err(LayoutError::UnsupportedSchemaShape);
    }
    let mut located: Vec<WGPUData> = Vec::new();
    let mut i: u32 = 0;
    while i < count
        invariant
            i <= count <= 9,
            shader_location + count <= u32::MAX + 1,
            located@.len() == i,
            forall|row: int|
                0 <= row < i ==> #[trigger] located@[row] == (WGPUData {
                    wgpu_type,
                    shader_location: (shader_location + row) as u32,
                }),
        decreases count - i,
    {
        located.push(WGPUData { wgpu_type, shader_location: shader_location + i });
        i += 1;
    }
    proof {
        assert(located@ =~= matrix_expansion(name@, shader_location, ty@)->Ok_0);
    }
    Ok(located)
}

} // verus!
