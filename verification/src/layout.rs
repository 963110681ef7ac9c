//! The layout compiler: from a schema to the byte stride and the attribute
//! list of a vertex buffer.
//!
//! The annotations are taken in declaration order. Each one expands into
//! located rows, one for a plain tag and one per row for a matrix. Each row
//! becomes an attribute at the running offset, which then advances by the
//! row's size. A shader location may be used once in a schema.

use crate::converter::{
    convert_mat_type_to_wgou, convert_type_to_wgpu, entry_of, format_of, in_catalog,
    lemma_matrix_arity, matrix_expansion, matrix_row_tag, matrix_rows, matrix_shape, WGPUData,
};
use crate::error::{LayoutError, LayoutErrorView};
use crate::format::{lemma_byte_size_bounds, VertexFormat, VertexStepMode};
use crate::schema::{
    annotation_views, annotations_of, field_views, Annotation, AnnotationView, Field, FieldView,
};
use vstd::prelude::*;
use vstd::set_lib::{lemma_int_range, lemma_len_subset, set_int_range};

verus! {

/// One attribute of a vertex buffer: where its bytes start in a record, how
/// they are read, and the shader location that receives them.
#[derive(Clone, Copy, Debug, PartialEq, Eq, Structural)]
pub struct VertexAttribute {
    pub offset: u64,
    pub format: VertexFormat,
    pub shader_location: u32,
}

/// The layout of a vertex buffer: the distance in bytes between two records
/// and the attributes of a record, in the order in which they were declared.
#[derive(Debug, PartialEq, Eq)]
pub struct VertexBufferLayout {
    pub array_stride: u64,
    pub step_mode: VertexStepMode,
    pub attributes: Vec<VertexAttribute>,
}

/// The mathematical content of a [`VertexBufferLayout`].
pub struct VertexBufferLayoutView {
    pub array_stride: u64,
    pub step_mode: VertexStepMode,
    pub attributes: Seq<VertexAttribute>,
}

impl VertexBufferLayoutView {
    /// The attributes of the layout and where they end.
    pub open spec fn placement(self) -> Placement {
        Placement { stride: self.array_stride as nat, attributes: self.attributes }
    }
}

impl View for VertexBufferLayout {
    type V = VertexBufferLayoutView;

    open spec fn view(&self) -> VertexBufferLayoutView {
        VertexBufferLayoutView {
            array_stride: self.array_stride,
            step_mode: self.step_mode,
            attributes: self.attributes@,
        }
    }
}

/// The attributes placed so far and the offset at which the next one starts.
pub struct Placement {
    pub stride: nat,
    pub attributes: Seq<VertexAttribute>,
}

/// The placement before any annotation has been read.
pub open spec fn nothing_placed() -> Placement {
    Placement { stride: 0, attributes: Seq::empty() }
}

/// The shader locations of a list of attributes, in order.
pub open spec fn slots_of(attributes: Seq<VertexAttribute>) -> Seq<u32> {
    Seq::new(attributes.len(), |i: int| attributes[i].shader_location)
}

/// The bytes that a list of attributes takes: the sum of their formats' sizes.
pub open spec fn total_size(attributes: Seq<VertexAttribute>) -> nat
    decreases attributes.len(),
{
    if attributes.len() == 0 {
        0
    } else {
        total_size(attributes.drop_last()) + attributes.last().format.byte_size()
    }
}

/// The located rows that an annotation expands to: one for a tag of the
/// catalog, one per matrix row for a matrix.
pub open spec fn rows_of(annotation: AnnotationView) -> Result<Seq<WGPUData>, LayoutErrorView> {
    match annotation {
        AnnotationView::Scalar { tag, slot } => {
            if in_catalog(tag) {
                Ok(seq![WGPUData { wgpu_type: entry_of(format_of(tag)), shader_location: slot }])
            } else {
                Err(LayoutErrorView::UnknownTag { tag })
            }
        },
        AnnotationView::Matrix { dimension_tag, component_type, start_slot } => matrix_expansion(
            dimension_tag,
            start_slot,
            component_type,
        ),
    }
}

/// Places one row: it becomes an attribute at the running offset, unless its
/// shader location is taken.
pub open spec fn place_row(placed: Placement, row: WGPUData) -> Result<Placement, LayoutErrorView> {
    if slots_of(placed.attributes).contains(row.shader_location) {
        Err(LayoutErrorView::DuplicateSlot { slot: row.shader_location })
    } else {
        Ok(
            Placement {
                stride: (placed.stride + row.wgpu_type.offset) as nat,
                attributes: placed.attributes.push(
                    VertexAttribute {
                        offset: placed.stride as u64,
                        format: row.wgpu_type.ty,
                        shader_location: row.shader_location,
                    },
                ),
            },
        )
    }
}

/// Places rows one after the other, up to the first that fails.
pub open spec fn place_rows(placed: Placement, rows: Seq<WGPUData>) -> Result<
    Placement,
    LayoutErrorView,
>
    decreases rows.len(),
{
    if rows.len() == 0 {
        Ok(placed)
    } else {
        match place_row(placed, rows[0]) {
            Err(error) => Err(error),
            Ok(next) => place_rows(next, rows.skip(1)),
        }
    }
}

/// Places the rows of one annotation.
pub open spec fn place_annotation(placed: Placement, annotation: AnnotationView) -> Result<
    Placement,
    LayoutErrorView,
> {
    match rows_of(annotation) {
        Err(error) => Err(error),
        Ok(rows) => place_rows(placed, rows),
    }
}

/// Places annotations one after the other, up to the first that fails.
pub open spec fn place_annotations(placed: Placement, annotations: Seq<AnnotationView>) -> Result<
    Placement,
    LayoutErrorView,
>
    decreases annotations.len(),
{
    if annotations.len() == 0 {
        Ok(placed)
    } else {
        match place_annotation(placed, annotations[0]) {
            Err(error) => Err(error),
            Ok(next) => place_annotations(next, annotations.skip(1)),
        }
    }
}

/// The layout of a schema: its annotations placed in declaration order, or
/// the error of the first annotation that cannot be placed.
pub open spec fn layout_of(fields: Seq<FieldView>) -> Result<Placement, LayoutErrorView> {
    place_annotations(nothing_placed(), annotations_of(fields))
}

/// A row as the catalog gives it: its size is that of its format.
pub open spec fn catalog_row(row: WGPUData) -> bool {
    row.wgpu_type == entry_of(row.wgpu_type.ty)
}

/// A placement without gaps or shared locations: every attribute starts
/// where the one before it ends, the first at zero, the stride is where the
/// last one ends, and no shader location occurs twice.
pub open spec fn tightly_packed(placed: Placement) -> bool {
    &&& slots_of(placed.attributes).no_duplicates()
    &&& placed.stride == total_size(placed.attributes)
    &&& forall|i: int|
        0 <= i < placed.attributes.len() ==> (#[trigger] placed.attributes[i]).offset
            == total_size(placed.attributes.take(i))
}

/// The attributes of a list take at most thirty-two bytes each.
pub proof fn lemma_total_size_bound(attributes: Seq<VertexAttribute>)
    ensures
        total_size(attributes) <= 32 * attributes.len(),
    decreases attributes.len(),
{
    if attributes.len() > 0 {
        lemma_total_size_bound(attributes.drop_last());
        lemma_byte_size_bounds(attributes.last().format);
    }
}

/// Shader locations that are all different are at most as many as `u32` has
/// values.
pub proof fn lemma_distinct_slots_bound(slots: Seq<u32>)
    requires
        slots.no_duplicates(),
    ensures
        slots.len() <= 0x1_0000_0000,
{
    let numbers = Seq::new(slots.len(), |i: int| slots[i] as int);
    assert(numbers.no_duplicates());
    numbers.unique_seq_to_set();
    lemma_int_range(0, 0x1_0000_0000);
    assert(numbers.to_set().subset_of(set_int_range(0, 0x1_0000_0000))) by {
        assert forall|n: int| numbers.to_set().contains(n) implies set_int_range(
            0,
            0x1_0000_0000,
        ).contains(n) by {
            let i = choose|i: int| 0 <= i < numbers.len() && numbers[i] == n;
            assert(numbers[i] == slots[i] as int);
        }
    }
    lemma_len_subset(numbers.to_set(), set_int_range(0, 0x1_0000_0000));
}

/// The stride of a tightly packed placement fits in forty bits.
pub proof fn lemma_tight_stride_bound(placed: Placement)
    requires
        tightly_packed(placed),
    ensures
        placed.stride <= 0x20_0000_0000,
        placed.attributes.len() <= 0x1_0000_0000,
{
    lemma_total_size_bound(placed.attributes);
    lemma_distinct_slots_bound(slots_of(placed.attributes));
}

/// Shader locations that are all different stay so when one that is not
/// among them is added.
pub proof fn lemma_fresh_slot_stays_distinct(slots: Seq<u32>, slot: u32)
    requires
        slots.no_duplicates(),
        !slots.contains(slot),
    ensures
        slots.push(slot).no_duplicates(),
{
    let after = slots.push(slot);
    assert forall|i: int, j: int|
        0 <= i < after.len() && 0 <= j < after.len() && i != j implies after[i] != after[j] by {
        if i < slots.len() && j < slots.len() {
            assert(slots[i] != slots[j]);
        } else if i < slots.len() {
            assert(slots[i] == after[i]);
        } else {
            assert(slots[j] == after[j]);
        }
    }
}

/// Placing a catalog row keeps a placement tightly packed.
pub proof fn lemma_place_row_tight(placed: Placement, row: WGPUData)
    requires
        tightly_packed(placed),
        catalog_row(row),
        place_row(placed, row) is Ok,
    ensures
        tightly_packed(place_row(placed, row)->Ok_0),
{
    let next = place_row(placed, row)->Ok_0;
    let count = placed.attributes.len() as int;
    lemma_tight_stride_bound(placed);
    lemma_byte_size_bounds(row.wgpu_type.ty);
    assert(next.attributes.drop_last() == placed.attributes);
    assert(slots_of(next.attributes) == slots_of(placed.attributes).push(row.shader_location));
    lemma_fresh_slot_stays_distinct(slots_of(placed.attributes), row.shader_location);
    assert forall|i: int| 0 <= i < next.attributes.len() implies (
    #[trigger] next.attributes[i]).offset == total_size(next.attributes.take(i)) by {
        if i < count {
            assert(next.attributes.take(i) == placed.attributes.take(i));
            assert(next.attributes[i] == placed.attributes[i]);
        } else {
            assert(next.attributes.take(i) == placed.attributes);
        }
    }
}

/// Placing catalog rows keeps a placement tightly packed.
pub proof fn lemma_place_rows_tight(placed: Placement, rows: Seq<WGPUData>)
    requires
        tightly_packed(placed),
        forall|i: int| 0 <= i < rows.len() ==> catalog_row(#[trigger] rows[i]),
        place_rows(placed, rows) is Ok,
    ensures
        tightly_packed(place_rows(placed, rows)->Ok_0),
    decreases rows.len(),
{
    if rows.len() > 0 {
        lemma_place_row_tight(placed, rows[0]);
        let next = place_row(placed, rows[0])->Ok_0;
        assert forall|i: int| 0 <= i < rows.skip(1).len() implies catalog_row(
            #[trigger] rows.skip(1)[i],
        ) by {
            assert(rows.skip(1)[i] == rows[i + 1]);
        }
        lemma_place_rows_tight(next, rows.skip(1));
    }
}

/// The rows that an annotation expands to are rows of the catalog.
pub proof fn lemma_rows_of_catalog(annotation: AnnotationView)
    requires
        rows_of(annotation) is Ok,
    ensures
        forall|i: int|
            0 <= i < rows_of(annotation)->Ok_0.len() ==> catalog_row(
                #[trigger] rows_of(annotation)->Ok_0[i],
            ),
{
}

/// Placing annotations keeps a placement tightly packed.
pub proof fn lemma_place_annotations_tight(placed: Placement, annotations: Seq<AnnotationView>)
    requires
        tightly_packed(placed),
        place_annotations(placed, annotations) is Ok,
    ensures
        tightly_packed(place_annotations(placed, annotations)->Ok_0),
    decreases annotations.len(),
{
    if annotations.len() > 0 {
        lemma_rows_of_catalog(annotations[0]);
        lemma_place_rows_tight(placed, rows_of(annotations[0])->Ok_0);
        lemma_place_annotations_tight(
            place_annotation(placed, annotations[0])->Ok_0,
            annotations.skip(1),
        );
    }
}

/// Placing two lists of annotations in a row is placing the first and then,
/// where that succeeds, the second.
pub proof fn lemma_place_annotations_concat(
    placed: Placement,
    first: Seq<AnnotationView>,
    second: Seq<AnnotationView>,
)
    ensures
        place_annotations(placed, first + second) == match place_annotations(placed, first) {
            Err(error) => Err(error),
            Ok(next) => place_annotations(next, second),
        },
    decreases first.len(),
{
    if first.len() == 0 {
        assert(first + second == second);
    } else {
        let all = first + second;
        assert(all[0] == first[0]);
        assert(all.skip(1) == first.skip(1) + second);
        match place_annotation(placed, first[0]) {
            Err(error) => {},
            Ok(next) => {
                lemma_place_annotations_concat(next, first.skip(1), second);
            },
        }
    }
}

/// Whether `slot` is among `shader_locations`.
fn location_taken(shader_locations: &Vec<u32>, slot: u32) -> (taken: bool)
    ensures
        taken == shader_locations@.contains(slot),
{
    let mut i: usize = 0;
    while i < shader_locations.len()
        invariant
            i <= shader_locations.len(),
            forall|k: int| 0 <= k < i ==> shader_locations@[k] != slot,
        decreases shader_locations.len() - i,
    {
        if shader_locations[i] == slot {
            return true;
        }
        i += 1;
    }
    false
}

/// Records one located format as an attribute at `offset`, and its shader
/// location as taken. A location that is taken already is refused, and
/// nothing is recorded.
pub fn process_wgpu_type(
    format: &WGPUData,
    shader_locations: &mut Vec<u32>,
    attrs: &mut Vec<VertexAttribute>,
    offset: &u64,
) -> (placed: Result<(), LayoutError>)
    ensures
        placed is Err == old(shader_locations)@.contains(format.shader_location),
        match placed {
            Ok(_) => {
                &&& final(shader_locations)@ == old(shader_locations)@.push(
                    format.shader_location,
                )
                &&& final(attrs)@ == old(attrs)@.push(
                    VertexAttribute {
                        offset: *offset,
                        format: format.wgpu_type.ty,
                        shader_location: format.shader_location,
                    },
                )
            },
            Err(error) => {
                &&& error@ == LayoutErrorView::DuplicateSlot { slot: format.shader_location }
                &&& final(shader_locations)@ == old(shader_locations)@
                &&& final(attrs)@ == old(attrs)@
            },
        },
{
    let shader_location = format.shader_location;
    if location_taken(shader_locations, shader_location) {
        return Err(LayoutError::DuplicateSlot { slot: shader_location });
    }
    shader_locations.push(shader_location);
    attrs.push(VertexAttribute { offset: *offset, format: format.wgpu_type.ty, shader_location });
    Ok(())
}

/// Places the rows of one annotation, advancing the offset by each row's
/// size.
fn place_located(
    rows: &Vec<WGPUData>,
    shader_locations: &mut Vec<u32>,
    attrs: &mut Vec<VertexAttribute>,
    offset: &mut u64,
) -> (placed: Result<(), LayoutError>)
    requires
        old(shader_locations)@ == slots_of(old(attrs)@),
        tightly_packed(Placement { stride: *old(offset) as nat, attributes: old(attrs)@ }),
        forall|i: int| 0 <= i < rows@.len() ==> catalog_row(#[trigger] rows@[i]),
    ensures
        match placed {
            Ok(_) => {
                &&& place_rows(
                    Placement { stride: *old(offset) as nat, attributes: old(attrs)@ },
                    rows@,
                ) == Ok::<Placement, LayoutErrorView>(
                    Placement { stride: *final(offset) as nat, attributes: final(attrs)@ },
                )
                &&& final(shader_locations)@ == slots_of(final(attrs)@)
                &&& tightly_packed(
                    Placement { stride: *final(offset) as nat, attributes: final(attrs)@ },
                )
            },
            Err(error) => place_rows(
                Placement { stride: *old(offset) as nat, attributes: old(attrs)@ },
                rows@,
            ) == Err::<Placement, LayoutErrorView>(error@),
        },
{
    let ghost start = Placement { stride: *old(offset) as nat, attributes: old(attrs)@ };
    let mut i: usize = 0;
    proof {
        assert(rows@.skip(0) == rows@);
    }
    while i < rows.len()
        invariant
            i <= rows.len(),
            start == (Placement { stride: *old(offset) as nat, attributes: old(attrs)@ }),
            forall|k: int| 0 <= k < rows@.len() ==> catalog_row(#[trigger] rows@[k]),
            shader_locations@ == slots_of(attrs@),
            tightly_packed(Placement { stride: *offset as nat, attributes: attrs@ }),
            place_rows(
                Placement { stride: *offset as nat, attributes: attrs@ },
                rows@.skip(i as int),
            ) == place_rows(start, rows@),
        decreases rows.len() - i,
    {
        let ghost current = Placement { stride: *offset as nat, attributes: attrs@ };
        let ghost rest = rows@.skip(i as int);
        let row = rows[i];
        proof {
            assert(rest[0] == row);
            assert(rest.skip(1) == rows@.skip(i + 1));
            assert(catalog_row(rows@[i as int]));
            lemma_tight_stride_bound(current);
            lemma_byte_size_bounds(row.wgpu_type.ty);
        }
        match process_wgpu_type(&row, shader_locations, attrs, offset) {
            Ok(_) => {},
            Err(error) => {
                proof {
                    assert(place_row(current, row) == Err::<Placement, LayoutErrorView>(error@));
                    assert(place_rows(current, rest) == Err::<Placement, LayoutErrorView>(
                        error@,
                    ));
                }
                return Err(error);
            },
        }
        *offset = *offset + row.wgpu_type.offset;
        proof {
            let next = Placement { stride: *offset as nat, attributes: attrs@ };
            assert(place_row(current, row) == Ok::<Placement, LayoutErrorView>(next));
            lemma_place_row_tight(current, row);
            assert(slots_of(attrs@) == slots_of(current.attributes).push(row.shader_location));
        }
        i += 1;
    }
    Ok(())
}

/// The located rows of one annotation.
fn located_rows(annotation: &Annotation) -> (rows: Result<Vec<WGPUData>, LayoutError>)
    ensures
        match rows {
            Ok(located) => rows_of(annotation@) == Ok::<Seq<WGPUData>, LayoutErrorView>(
                located@,
            ),
            Err(error) => rows_of(annotation@) == Err::<Seq<WGPUData>, LayoutErrorView>(error@),
        },
{
    match annotation {
        Annotation::Scalar { tag, slot } => {
            match convert_type_to_wgpu(tag, *slot) {
                Ok(located) => {
                    let rows = vec![located];
                    assert(rows@ == seq![located]);
                    Ok(rows)
                },
                Err(error) => Err(error),
            }
        },
        Annotation::Matrix { dimension_tag, component_type, start_slot } => {
            let mut ty = component_type.clone();
            convert_mat_type_to_wgou(dimension_tag, *start_slot, &mut ty)
        },
    }
}

/// Compiles a schema into the layout of its vertex buffer.
///
/// The attributes follow the annotations in declaration order, a matrix
/// giving one attribute per row. Each attribute starts where the one before
/// it ends, and the stride is where the last one ends. The first annotation
/// that cannot be placed decides the error, and no layout is returned.
pub fn derive_wrld_desc(fields: &Vec<Field>, step_mode: VertexStepMode) -> (compiled: Result<
    VertexBufferLayout,
    LayoutError,
>)
    ensures
        match compiled {
            Ok(layout) => {
                &&& layout_of(field_views(fields@)) == Ok::<Placement, LayoutErrorView>(
                    layout@.placement(),
                )
                &&& layout.step_mode == step_mode
                &&& tightly_packed(layout@.placement())
            },
            Err(error) => layout_of(field_views(fields@)) == Err::<Placement, LayoutErrorView>(
                error@,
            ),
        },
{
    let ghost views = field_views(fields@);
    let mut attrs: Vec<VertexAttribute> = Vec::new();
    let mut offset: u64 = 0;
    let mut shader_locations: Vec<u32> = Vec::new();
    let mut i: usize = 0;
    proof {
        assert(views.skip(0) == views);
        assert(slots_of(attrs@) == shader_locations@);
        assert(attrs@ == nothing_placed().attributes);
    }
    while i < fields.len()
        invariant
            i <= fields.len(),
            views == field_views(fields@),
            shader_locations@ == slots_of(attrs@),
            tightly_packed(Placement { stride: offset as nat, attributes: attrs@ }),
            place_annotations(
                Placement { stride: offset as nat, attributes: attrs@ },
                annotations_of(views.skip(i as int)),
            ) == layout_of(views),
        decreases fields.len() - i,
    {
        let field = &fields[i];
        let ghost annotations = annotation_views(field.annotations@);
        let ghost later = annotations_of(views.skip(i + 1));
        let mut j: usize = 0;
        proof {
            assert(views.skip(i as int)[0] == field@);
            assert(views.skip(i as int).skip(1) == views.skip(i + 1));
            assert(annotations.skip(0) == annotations);
        }
        while j < field.annotations.len()
            invariant
                j <= field.annotations.len(),
                views == field_views(fields@),
                annotations == annotation_views(field.annotations@),
                shader_locations@ == slots_of(attrs@),
                tightly_packed(Placement { stride: offset as nat, attributes: attrs@ }),
                place_annotations(
                    Placement { stride: offset as nat, attributes: attrs@ },
                    annotations.skip(j as int) + later,
                ) == layout_of(views),
            decreases field.annotations.len() - j,
        {
            let ghost current = Placement { stride: offset as nat, attributes: attrs@ };
            let ghost rest = annotations.skip(j as int) + later;
            proof {
                assert(rest[0] == field.annotations@[j as int]@);
                assert(rest.skip(1) == annotations.skip(j + 1) + later);
            }
            let rows = match located_rows(&field.annotations[j]) {
                Ok(rows) => rows,
                Err(error) => {
                    proof {
                        assert(place_annotation(current, rest[0]) == Err::<
                            Placement,
                            LayoutErrorView,
                        >(error@));
                        assert(place_annotations(current, rest) == Err::<
                            Placement,
                            LayoutErrorView,
                        >(error@));
                    }
                    return Err(error);
                },
            };
            proof {
                lemma_rows_of_catalog(field.annotations@[j as int]@);
            }
            match place_located(&rows, &mut shader_locations, &mut attrs, &mut offset) {
                Ok(_) => {
                    proof {
                        let next = Placement { stride: offset as nat, attributes: attrs@ };
                        assert(place_annotation(current, rest[0]) == Ok::<
                            Placement,
                            LayoutErrorView,
                        >(next));
                    }
                },
                Err(error) => {
                    proof {
                        assert(place_annotation(current, rest[0]) == Err::<
                            Placement,
                            LayoutErrorView,
                        >(error@));
                        assert(place_annotations(current, rest) == Err::<
                            Placement,
                            LayoutErrorView,
                        >(error@));
                    }
                    return Err(error);
                },
            }
            j += 1;
        }
        proof {
            assert(annotations.skip(j as int) + later == later);
        }
        i += 1;
    }
    proof {
        assert(annotations_of(views.skip(i as int)) == Seq::<AnnotationView>::empty());
    }
    Ok(VertexBufferLayout { array_stride: offset, step_mode, attributes: attrs })
}

/// Compiles a schema into the layout of a buffer that advances once per
/// instance.
pub fn derive_wrld_desc_instance(fields: &Vec<Field>) -> (compiled: Result<
    VertexBufferLayout,
    LayoutError,
>)
    ensures
        match compiled {
            Ok(layout) => {
                &&& layout_of(field_views(fields@)) == Ok::<Placement, LayoutErrorView>(
                    layout@.placement(),
                )
                &&& layout.step_mode == VertexStepMode::Instance
                &&& tightly_packed(layout@.placement())
            },
            Err(error) => layout_of(field_views(fields@)) == Err::<Placement, LayoutErrorView>(
                error@,
            ),
        },
{
    derive_wrld_desc(fields, VertexStepMode::Instance)
}

/// The sum of the sizes that the tags of plain annotations name.
pub open spec fn tag_sizes(annotations: Seq<AnnotationView>) -> nat
    decreases annotations.len(),
{
    if annotations.len() == 0 {
        0
    } else {
        let size = match annotations[0] {
            AnnotationView::Scalar { tag, .. } => format_of(tag).byte_size(),
            AnnotationView::Matrix { .. } => 0,
        };
        size + tag_sizes(annotations.skip(1))
    }
}

/// The rows of all the annotations that expand, annotation after annotation.
pub open spec fn all_rows(annotations: Seq<AnnotationView>) -> Seq<WGPUData>
    decreases annotations.len(),
{
    if annotations.len() == 0 {
        Seq::empty()
    } else {
        let rows = match rows_of(annotations[0]) {
            Ok(rows) => rows,
            Err(_) => Seq::empty(),
        };
        rows + all_rows(annotations.skip(1))
    }
}

/// The shader locations of a list of rows, in order.
pub open spec fn row_slots(rows: Seq<WGPUData>) -> Seq<u32> {
    Seq::new(rows.len(), |i: int| rows[i].shader_location)
}

/// The layout of a schema is tightly packed.
///
/// The first attribute starts at zero, every other attribute starts where
/// the one before it ends, and the stride is the sum of the attributes'
/// sizes. No shader location occurs twice.
pub proof fn lemma_layout_tightly_packed(fields: Seq<FieldView>)
    requires
        layout_of(fields) is Ok,
    ensures
        tightly_packed(layout_of(fields)->Ok_0),
        layout_of(fields)->Ok_0.stride == total_size(layout_of(fields)->Ok_0.attributes),
        layout_of(fields)->Ok_0.stride <= 0x20_0000_0000,
        slots_of(layout_of(fields)->Ok_0.attributes).no_duplicates(),
{
    assert(tightly_packed(nothing_placed()));
    lemma_place_annotations_tight(nothing_placed(), annotations_of(fields));
    lemma_tight_stride_bound(layout_of(fields)->Ok_0);
}

/// In the layout of a schema, an attribute starts exactly where the one
/// before it ends; the first starts at zero and the stride is where the last
/// one ends.
pub proof fn lemma_offsets_follow(fields: Seq<FieldView>, i: int)
    requires
        layout_of(fields) is Ok,
        0 <= i < layout_of(fields)->Ok_0.attributes.len(),
    ensures
        ({
            let placed = layout_of(fields)->Ok_0;
            let attributes = placed.attributes;
            &&& i == 0 ==> attributes[i].offset == 0
            &&& i + 1 < attributes.len() ==> attributes[i + 1].offset == attributes[i].offset
                + attributes[i].format.byte_size()
            &&& i + 1 == attributes.len() ==> placed.stride == attributes[i].offset
                + attributes[i].format.byte_size()
        }),
{
    lemma_layout_tightly_packed(fields);
    let attributes = layout_of(fields)->Ok_0.attributes;
    assert(attributes.take(i + 1).drop_last() == attributes.take(i));
    assert(attributes.take(i + 1).last() == attributes[i]);
    assert(total_size(attributes.take(i + 1)) == total_size(attributes.take(i))
        + attributes[i].format.byte_size());
    if i + 1 == attributes.len() {
        assert(attributes.take(i + 1) == attributes);
    }
}

/// Where the plain annotations of a list are placed, the offset advances by
/// the sum of the sizes that their tags name.
pub proof fn lemma_scalars_advance(placed: Placement, annotations: Seq<AnnotationView>)
    requires
        forall|k: int| 0 <= k < annotations.len() ==> #[trigger] annotations[k] is Scalar,
        place_annotations(placed, annotations) is Ok,
    ensures
        place_annotations(placed, annotations)->Ok_0.stride == placed.stride + tag_sizes(
            annotations,
        ),
    decreases annotations.len(),
{
    if annotations.len() > 0 {
        assert(annotations[0] is Scalar);
        let rows = rows_of(annotations[0])->Ok_0;
        let next = place_row(placed, rows[0])->Ok_0;
        assert(rows.len() == 1);
        assert(rows.skip(1).len() == 0);
        assert(place_rows(next, rows.skip(1)) == Ok::<Placement, LayoutErrorView>(next));
        assert(place_rows(placed, rows) == Ok::<Placement, LayoutErrorView>(next));
        assert(place_annotation(placed, annotations[0]) == Ok::<Placement, LayoutErrorView>(
            next,
        ));
        lemma_byte_size_bounds(rows[0].wgpu_type.ty);
        let rest = annotations.skip(1);
        assert forall|k: int| 0 <= k < rest.len() implies #[trigger] rest[k] is Scalar by {
            assert(annotations[k + 1] is Scalar);
        }
        lemma_scalars_advance(next, annotations.skip(1));
    }
}

/// The stride of a schema of plain annotations is the sum of the sizes that
/// its tags name.
pub proof fn lemma_stride_additivity(fields: Seq<FieldView>)
    requires
        forall|k: int|
            0 <= k < annotations_of(fields).len() ==> #[trigger] annotations_of(
                fields,
            )[k] is Scalar,
        layout_of(fields) is Ok,
    ensures
        layout_of(fields)->Ok_0.stride == tag_sizes(annotations_of(fields)),
{
    lemma_scalars_advance(nothing_placed(), annotations_of(fields));
}

/// Rows that are placed keep their shader locations, in order.
pub proof fn lemma_place_rows_slots(placed: Placement, rows: Seq<WGPUData>)
    requires
        place_rows(placed, rows) is Ok,
    ensures
        slots_of(place_rows(placed, rows)->Ok_0.attributes) == slots_of(placed.attributes)
            + row_slots(rows),
    decreases rows.len(),
{
    if rows.len() == 0 {
        assert(slots_of(placed.attributes) + row_slots(rows) == slots_of(placed.attributes));
    } else {
        let next = place_row(placed, rows[0])->Ok_0;
        lemma_place_rows_slots(next, rows.skip(1));
        assert(slots_of(next.attributes) == slots_of(placed.attributes).push(
            rows[0].shader_location,
        ));
        assert(slots_of(next.attributes) + row_slots(rows.skip(1)) == slots_of(
            placed.attributes,
        ) + row_slots(rows));
    }
}

/// Annotations that are placed keep the shader locations of their rows, in
/// order.
pub proof fn lemma_place_annotations_slots(placed: Placement, annotations: Seq<AnnotationView>)
    requires
        place_annotations(placed, annotations) is Ok,
    ensures
        slots_of(place_annotations(placed, annotations)->Ok_0.attributes) == slots_of(
            placed.attributes,
        ) + row_slots(all_rows(annotations)),
    decreases annotations.len(),
{
    if annotations.len() == 0 {
        assert(slots_of(placed.attributes) + row_slots(all_rows(annotations)) == slots_of(
            placed.attributes,
        ));
    } else {
        let rows = rows_of(annotations[0])->Ok_0;
        let next = place_rows(placed, rows)->Ok_0;
        lemma_place_rows_slots(placed, rows);
        lemma_place_annotations_slots(next, annotations.skip(1));
        assert(row_slots(all_rows(annotations)) == row_slots(rows) + row_slots(
            all_rows(annotations.skip(1)),
        ));
        assert(slots_of(next.attributes) + row_slots(all_rows(annotations.skip(1))) == slots_of(
            placed.attributes,
        ) + row_slots(all_rows(annotations)));
    }
}

/// Rows fail to be placed only for a shader location that is taken.
pub proof fn lemma_place_rows_error(placed: Placement, rows: Seq<WGPUData>)
    requires
        place_rows(placed, rows) is Err,
    ensures
        place_rows(placed, rows)->Err_0 is DuplicateSlot,
    decreases rows.len(),
{
    if rows.len() > 0 {
        if place_row(placed, rows[0]) is Ok {
            lemma_place_rows_error(place_row(placed, rows[0])->Ok_0, rows.skip(1));
        }
    }
}

/// Annotations that all expand fail to be placed only for a shader location
/// that is taken.
pub proof fn lemma_place_annotations_error(placed: Placement, annotations: Seq<AnnotationView>)
    requires
        forall|k: int| 0 <= k < annotations.len() ==> rows_of(#[trigger] annotations[k]) is Ok,
        place_annotations(placed, annotations) is Err,
    ensures
        place_annotations(placed, annotations)->Err_0 is DuplicateSlot,
    decreases annotations.len(),
{
    if annotations.len() > 0 {
        assert(rows_of(annotations[0]) is Ok);
        let rows = rows_of(annotations[0])->Ok_0;
        if place_rows(placed, rows) is Err {
            lemma_place_rows_error(placed, rows);
        } else {
            assert forall|k: int| 0 <= k < annotations.skip(1).len() implies rows_of(
                #[trigger] annotations.skip(1)[k],
            ) is Ok by {
                assert(rows_of(annotations[k + 1]) is Ok);
            }
            lemma_place_annotations_error(place_rows(placed, rows)->Ok_0, annotations.skip(1));
        }
    }
}

/// Rows that are placed keep their formats, in order.
pub proof fn lemma_place_rows_formats(placed: Placement, rows: Seq<WGPUData>)
    requires
        place_rows(placed, rows) is Ok,
    ensures
        place_rows(placed, rows)->Ok_0.attributes.len() == placed.attributes.len() + rows.len(),
        forall|k: int|
            0 <= k < rows.len() ==> (#[trigger] place_rows(placed, rows)->Ok_0.attributes[
                placed.attributes.len() + k
            ]).format == rows[k].wgpu_type.ty,
    decreases rows.len(),
{
    if rows.len() > 0 {
        let next = place_row(placed, rows[0])->Ok_0;
        let done = place_rows(placed, rows)->Ok_0;
        lemma_place_rows_formats(next, rows.skip(1));
        lemma_place_rows_slots(next, rows.skip(1));
        assert forall|k: int| 0 <= k < rows.len() implies (#[trigger] done.attributes[
            placed.attributes.len() + k
        ]).format == rows[k].wgpu_type.ty by {
            if k > 0 {
                assert(done.attributes[next.attributes.len() + (k - 1)].format == rows.skip(1)[k
                    - 1].wgpu_type.ty);
            } else {
                lemma_place_rows_keeps(next, rows.skip(1), placed.attributes.len() as int);
            }
        }
    }
}

/// Placing rows leaves the attributes that were placed before as they are.
pub proof fn lemma_place_rows_keeps(placed: Placement, rows: Seq<WGPUData>, at: int)
    requires
        place_rows(placed, rows) is Ok,
        0 <= at < placed.attributes.len(),
    ensures
        at < place_rows(placed, rows)->Ok_0.attributes.len(),
        place_rows(placed, rows)->Ok_0.attributes[at] == placed.attributes[at],
    decreases rows.len(),
{
    if rows.len() > 0 {
        lemma_place_rows_keeps(place_row(placed, rows[0])->Ok_0, rows.skip(1), at);
    }
}

/// Placing annotations leaves the attributes that were placed before as
/// they are.
pub proof fn lemma_place_annotations_keeps(
    placed: Placement,
    annotations: Seq<AnnotationView>,
    at: int,
)
    requires
        place_annotations(placed, annotations) is Ok,
        0 <= at < placed.attributes.len(),
    ensures
        at < place_annotations(placed, annotations)->Ok_0.attributes.len(),
        place_annotations(placed, annotations)->Ok_0.attributes[at] == placed.attributes[at],
    decreases annotations.len(),
{
    if annotations.len() > 0 {
        let rows = rows_of(annotations[0])->Ok_0;
        lemma_place_rows_keeps(placed, rows, at);
        lemma_place_annotations_keeps(place_rows(placed, rows)->Ok_0, annotations.skip(1), at);
    }
}

/// Annotations that are placed keep the formats of their rows, in order.
pub proof fn lemma_place_annotations_formats(placed: Placement, annotations: Seq<AnnotationView>)
    requires
        place_annotations(placed, annotations) is Ok,
    ensures
        place_annotations(placed, annotations)->Ok_0.attributes.len() == placed.attributes.len()
            + all_rows(annotations).len(),
        forall|k: int|
            0 <= k < all_rows(annotations).len() ==> (#[trigger] place_annotations(
                placed,
                annotations,
            )->Ok_0.attributes[placed.attributes.len() + k]).format == all_rows(
                annotations,
            )[k].wgpu_type.ty,
    decreases annotations.len(),
{
    if annotations.len() > 0 {
        let rows = rows_of(annotations[0])->Ok_0;
        let next = place_rows(placed, rows)->Ok_0;
        let done = place_annotations(placed, annotations)->Ok_0;
        let later = all_rows(annotations.skip(1));
        lemma_place_rows_formats(placed, rows);
        lemma_place_annotations_formats(next, annotations.skip(1));
        assert(all_rows(annotations) == rows + later);
        let all = all_rows(annotations);
        assert forall|k: int| 0 <= k < all.len() implies (#[trigger] done.attributes[
            placed.attributes.len() + k
        ]).format == all[k].wgpu_type.ty by {
            if k < rows.len() {
                lemma_place_annotations_keeps(
                    next,
                    annotations.skip(1),
                    placed.attributes.len() + k,
                );
            } else {
                assert(done.attributes[next.attributes.len() + (k - rows.len())].format
                    == later[k - rows.len()].wgpu_type.ty);
            }
        }
    }
}

/// Annotations are placed exactly where each of them expands and no shader
/// location is claimed twice, by their rows or by what was placed before.
pub proof fn lemma_place_annotations_succeeds(placed: Placement, annotations: Seq<AnnotationView>)
    requires
        slots_of(placed.attributes).no_duplicates(),
    ensures
        place_annotations(placed, annotations) is Ok <==> {
            &&& forall|k: int|
                0 <= k < annotations.len() ==> rows_of(#[trigger] annotations[k]) is Ok
            &&& (slots_of(placed.attributes) + row_slots(all_rows(annotations))).no_duplicates()
        },
    decreases annotations.len(),
{
    let claimed = slots_of(placed.attributes) + row_slots(all_rows(annotations));
    if annotations.len() == 0 {
        assert(claimed == slots_of(placed.attributes));
    } else {
        let rest = annotations.skip(1);
        let later = all_rows(rest);
        if rows_of(annotations[0]) is Ok {
            let rows = rows_of(annotations[0])->Ok_0;
            assert(all_rows(annotations) == rows + later);
            assert(claimed == slots_of(placed.attributes) + row_slots(rows) + row_slots(later));
            if place_rows(placed, rows) is Ok {
                let next = place_rows(placed, rows)->Ok_0;
                lemma_place_rows_slots(placed, rows);
                lemma_place_rows_distinct(placed, rows);
                lemma_place_annotations_succeeds(next, rest);
                if forall|k: int|
                    0 <= k < annotations.len() ==> rows_of(#[trigger] annotations[k]) is Ok {
                    assert forall|k: int| 0 <= k < rest.len() implies rows_of(
                        #[trigger] rest[k],
                    ) is Ok by {
                        assert(rows_of(annotations[k + 1]) is Ok);
                    }
                }
                if forall|k: int| 0 <= k < rest.len() ==> rows_of(#[trigger] rest[k]) is Ok {
                    assert forall|k: int| 0 <= k < annotations.len() implies rows_of(
                        #[trigger] annotations[k],
                    ) is Ok by {
                        if k > 0 {
                            assert(rows_of(rest[k - 1]) is Ok);
                        }
                    }
                }
            } else {
                let first = slots_of(placed.attributes) + row_slots(rows);
                if claimed.no_duplicates() {
                    assert(first.no_duplicates()) by {
                        assert forall|a: int, b: int|
                            0 <= a < first.len() && 0 <= b < first.len() && a != b implies first[a]
                            != first[b] by {
                            assert(claimed[a] == first[a]);
                            assert(claimed[b] == first[b]);
                        }
                    }
                    lemma_place_rows_succeeds(placed, rows);
                }
            }
        } else {
            assert(!(rows_of(annotations[0]) is Ok));
        }
    }
}

/// Rows that are placed onto distinct shader locations leave them distinct.
pub proof fn lemma_place_rows_distinct(placed: Placement, rows: Seq<WGPUData>)
    requires
        slots_of(placed.attributes).no_duplicates(),
        place_rows(placed, rows) is Ok,
    ensures
        slots_of(place_rows(placed, rows)->Ok_0.attributes).no_duplicates(),
    decreases rows.len(),
{
    if rows.len() > 0 {
        let next = place_row(placed, rows[0])->Ok_0;
        let before = slots_of(placed.attributes);
        assert(slots_of(next.attributes) == before.push(rows[0].shader_location));
        lemma_fresh_slot_stays_distinct(before, rows[0].shader_location);
        lemma_place_rows_distinct(next, rows.skip(1));
    }
}

/// Rows are placed where no shader location is claimed twice, by them or by
/// what was placed before.
pub proof fn lemma_place_rows_succeeds(placed: Placement, rows: Seq<WGPUData>)
    requires
        (slots_of(placed.attributes) + row_slots(rows)).no_duplicates(),
    ensures
        place_rows(placed, rows) is Ok,
    decreases rows.len(),
{
    let claimed = slots_of(placed.attributes) + row_slots(rows);
    let count = placed.attributes.len() as int;
    if rows.len() > 0 {
        if slots_of(placed.attributes).contains(rows[0].shader_location) {
            let at = choose|at: int|
                0 <= at < count && slots_of(placed.attributes)[at] == rows[0].shader_location;
            assert(claimed[at] == claimed[count]);
        }
        let next = place_row(placed, rows[0])->Ok_0;
        assert(slots_of(next.attributes) + row_slots(rows.skip(1)) == claimed);
        lemma_place_rows_succeeds(next, rows.skip(1));
    }
}

/// A schema has a layout exactly where each of its annotations expands and
/// no two of their rows claim the same shader location. The attributes then
/// are the rows in declaration order: each has the format and the shader
/// location of its row, and starts where the attributes before it end.
pub proof fn lemma_layout_follows_rows(fields: Seq<FieldView>)
    ensures
        layout_of(fields) is Ok <==> {
            &&& forall|k: int|
                0 <= k < annotations_of(fields).len() ==> rows_of(
                    #[trigger] annotations_of(fields)[k],
                ) is Ok
            &&& row_slots(all_rows(annotations_of(fields))).no_duplicates()
        },
        layout_of(fields) is Ok ==> {
            let attributes = layout_of(fields)->Ok_0.attributes;
            let rows = all_rows(annotations_of(fields));
            &&& attributes.len() == rows.len()
            &&& forall|k: int|
                0 <= k < rows.len() ==> {
                    &&& (#[trigger] attributes[k]).format == rows[k].wgpu_type.ty
                    &&& attributes[k].shader_location == rows[k].shader_location
                    &&& attributes[k].offset == total_size(attributes.take(k))
                }
        },
{
    let annotations = annotations_of(fields);
    let rows = all_rows(annotations);
    assert(slots_of(nothing_placed().attributes) + row_slots(rows) == row_slots(rows));
    lemma_place_annotations_succeeds(nothing_placed(), annotations);
    if layout_of(fields) is Ok {
        let attributes = layout_of(fields)->Ok_0.attributes;
        lemma_layout_tightly_packed(fields);
        lemma_place_annotations_formats(nothing_placed(), annotations);
        lemma_place_annotations_slots(nothing_placed(), annotations);
        assert(slots_of(attributes) == row_slots(rows));
        assert forall|k: int| 0 <= k < rows.len() implies {
            &&& (#[trigger] attributes[k]).format == rows[k].wgpu_type.ty
            &&& attributes[k].shader_location == rows[k].shader_location
            &&& attributes[k].offset == total_size(attributes.take(k))
        } by {
            assert(attributes[nothing_placed().attributes.len() + k].format
                == rows[k].wgpu_type.ty);
            assert(slots_of(attributes)[k] == row_slots(rows)[k]);
        }
    }
}

/// A schema in which two rows claim the same shader location is refused for
/// a shared location, where the annotations up to the second of the two rows
/// all expand. `upto` counts the annotations that hold the two rows.
pub proof fn lemma_shared_slot_fails(fields: Seq<FieldView>, upto: int, first: int, second: int)
    requires
        0 <= upto <= annotations_of(fields).len(),
        forall|k: int| 0 <= k < upto ==> rows_of(#[trigger] annotations_of(fields)[k]) is Ok,
        0 <= first < second < all_rows(annotations_of(fields).take(upto)).len(),
        all_rows(annotations_of(fields).take(upto))[first].shader_location == all_rows(
            annotations_of(fields).take(upto),
        )[second].shader_location,
    ensures
        layout_of(fields) is Err,
        layout_of(fields)->Err_0 is DuplicateSlot,
{
    let annotations = annotations_of(fields);
    let early = annotations.take(upto);
    let slots = row_slots(all_rows(early));
    assert(annotations == early + annotations.skip(upto));
    lemma_place_annotations_concat(nothing_placed(), early, annotations.skip(upto));
    assert(slots_of(nothing_placed().attributes) + slots == slots);
    lemma_place_annotations_succeeds(nothing_placed(), early);
    assert(slots[first] == slots[second]);
    assert(place_annotations(nothing_placed(), early) is Err);
    assert forall|k: int| 0 <= k < early.len() implies rows_of(#[trigger] early[k]) is Ok by {
        assert(rows_of(annotations[k]) is Ok);
    }
    lemma_place_annotations_error(nothing_placed(), early);
}

/// A schema with a plain annotation whose tag the catalog lacks has no
/// layout. Where the annotations before it can be placed, the error names
/// that tag.
pub proof fn lemma_unknown_tag_fails(fields: Seq<FieldView>, at: int)
    requires
        0 <= at < annotations_of(fields).len(),
        annotations_of(fields)[at] is Scalar,
        !in_catalog(annotations_of(fields)[at]->tag),
    ensures
        layout_of(fields) is Err,
        place_annotations(nothing_placed(), annotations_of(fields).take(at)) is Ok ==> layout_of(
            fields,
        ) == Err::<Placement, LayoutErrorView>(
            LayoutErrorView::UnknownTag { tag: annotations_of(fields)[at]->tag },
        ),
{
    let annotations = annotations_of(fields);
    assert(annotations == annotations.take(at) + annotations.skip(at));
    lemma_place_annotations_concat(nothing_placed(), annotations.take(at), annotations.skip(at));
    assert(annotations.skip(at)[0] == annotations[at]);
}

/// Rows whose shader locations are free and all different are all placed,
/// in order and with their formats.
pub proof fn lemma_place_rows_fresh(placed: Placement, rows: Seq<WGPUData>)
    requires
        row_slots(rows).no_duplicates(),
        forall|k: int|
            0 <= k < rows.len() ==> !slots_of(placed.attributes).contains(
                (#[trigger] rows[k]).shader_location,
            ),
    ensures
        place_rows(placed, rows) is Ok,
        place_rows(placed, rows)->Ok_0.attributes.len() == placed.attributes.len() + rows.len(),
        forall|k: int|
            0 <= k < rows.len() ==> {
                let attribute = #[trigger] place_rows(placed, rows)->Ok_0.attributes[
                    placed.attributes.len() + k
                ];
                &&& attribute.format == rows[k].wgpu_type.ty
                &&& attribute.shader_location == rows[k].shader_location
            },
        forall|k: int|
            0 <= k < placed.attributes.len() ==> #[trigger] place_rows(
                placed,
                rows,
            )->Ok_0.attributes[k] == placed.attributes[k],
    decreases rows.len(),
{
    if rows.len() > 0 {
        let next = place_row(placed, rows[0])->Ok_0;
        let rest = rows.skip(1);
        assert(!slots_of(placed.attributes).contains(rows[0].shader_location));
        assert(row_slots(rest).no_duplicates()) by {
            assert forall|a: int, b: int|
                0 <= a < rest.len() && 0 <= b < rest.len() && a != b implies row_slots(rest)[a]
                != row_slots(rest)[b] by {
                assert(row_slots(rows)[a + 1] != row_slots(rows)[b + 1]);
            }
        }
        assert forall|k: int| 0 <= k < rest.len() implies !slots_of(next.attributes).contains(
            (#[trigger] rest[k]).shader_location,
        ) by {
            let slot = rest[k].shader_location;
            assert(rest[k] == rows[k + 1]);
            if slots_of(next.attributes).contains(slot) {
                let at = choose|at: int|
                    0 <= at < slots_of(next.attributes).len() && slots_of(next.attributes)[at]
                        == slot;
                if at < placed.attributes.len() {
                    assert(slots_of(placed.attributes)[at] == slot);
                } else {
                    assert(row_slots(rows)[0] != row_slots(rows)[k + 1]);
                }
            }
        }
        lemma_place_rows_fresh(next, rest);
        let done = place_rows(placed, rows)->Ok_0;
        assert forall|k: int| 0 <= k < rows.len() implies {
            let attribute = #[trigger] done.attributes[placed.attributes.len() + k];
            &&& attribute.format == rows[k].wgpu_type.ty
            &&& attribute.shader_location == rows[k].shader_location
        } by {
            if k > 0 {
                assert(rest[k - 1] == rows[k]);
                assert(done.attributes[next.attributes.len() + (k - 1)].format
                    == rest[k - 1].wgpu_type.ty);
            } else {
                assert(done.attributes[placed.attributes.len() as int]
                    == next.attributes[placed.attributes.len() as int]);
            }
        }
        assert forall|k: int| 0 <= k < placed.attributes.len() implies #[trigger] done.attributes[k]
            == placed.attributes[k] by {
            assert(done.attributes[k] == next.attributes[k]);
        }
    }
}

/// A schema whose one annotation is a matrix `matRxC` with a row format of
/// the catalog has exactly `R` attributes. They have the row format and the
/// shader locations `start_slot`, `start_slot + 1`, up to `start_slot + R - 1`.
pub proof fn lemma_matrix_alone(
    fields: Seq<FieldView>,
    dimension_tag: Seq<char>,
    component_type: Seq<char>,
    start_slot: u32,
)
    requires
        annotations_of(fields) == seq![
            AnnotationView::Matrix { dimension_tag, component_type, start_slot },
        ],
        matrix_shape(dimension_tag),
        in_catalog(matrix_row_tag(dimension_tag, component_type)),
        start_slot + matrix_rows(dimension_tag) <= u32::MAX + 1,
    ensures
        layout_of(fields) is Ok,
        layout_of(fields)->Ok_0.attributes.len() == matrix_rows(dimension_tag),
        forall|row: int|
            0 <= row < matrix_rows(dimension_tag) ==> {
                let attribute = #[trigger] layout_of(fields)->Ok_0.attributes[row];
                &&& attribute.shader_location == start_slot + row
                &&& attribute.format == format_of(matrix_row_tag(dimension_tag, component_type))
            },
{
    let annotation = AnnotationView::Matrix { dimension_tag, component_type, start_slot };
    let annotations = annotations_of(fields);
    lemma_matrix_arity(dimension_tag, start_slot, component_type);
    let rows = rows_of(annotation)->Ok_0;
    assert(row_slots(rows).no_duplicates());
    lemma_place_rows_fresh(nothing_placed(), rows);
    let done = place_rows(nothing_placed(), rows)->Ok_0;
    assert(annotations[0] == annotation);
    assert(annotations.skip(1).len() == 0);
    assert(place_annotations(done, annotations.skip(1)) == Ok::<Placement, LayoutErrorView>(
        done,
    ));
    assert(place_annotation(nothing_placed(), annotations[0]) == Ok::<
        Placement,
        LayoutErrorView,
    >(done));
    assert forall|row: int| 0 <= row < matrix_rows(dimension_tag) implies {
        let attribute = #[trigger] layout_of(fields)->Ok_0.attributes[row];
        &&& attribute.shader_location == start_slot + row
        &&& attribute.format == format_of(matrix_row_tag(dimension_tag, component_type))
    } by {
        assert(done.attributes[nothing_placed().attributes.len() + row].format
            == rows[row].wgpu_type.ty);
    }
}

} // verus!
