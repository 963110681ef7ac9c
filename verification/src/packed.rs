//! The packed companion of a record: the fields that carry layout
//! annotations, in declaration order, and the conversions between a record
//! and its companion.
//!
//! A record value is given by the bytes of each of its fields, one entry per
//! field of the schema. Its packed companion keeps the entries of the fields
//! that carry a layout annotation, unchanged and in the same order.

use crate::converter::{has_type, in_catalog, matrix_row_tag, matrix_row_type, matrix_shape};
use crate::naming::{const_into_name, mutate_name, packed_type_name, snake_of};
use crate::schema::{field_views, Annotation, AnnotationView, Field, FieldView};
use vstd::prelude::*;

verus! {

/// Whether an annotation is one that the catalog knows: a tag of the
/// catalog, or a matrix whose row format the catalog holds.
pub open spec fn recognized(annotation: AnnotationView) -> bool {
    match annotation {
        AnnotationView::Scalar { tag, .. } => in_catalog(tag),
        AnnotationView::Matrix { dimension_tag, component_type, .. } => matrix_shape(
            dimension_tag,
        ) && in_catalog(matrix_row_tag(dimension_tag, component_type)),
    }
}

/// Whether a field carries at least one annotation that the catalog knows.
pub open spec fn carries_layout(field: FieldView) -> bool {
    exists|k: int| 0 <= k < field.annotations.len() && recognized(#[trigger] field.annotations[k])
}

/// The positions in a schema of the fields that carry a layout annotation,
/// in rising order.
pub open spec fn packed_positions(fields: Seq<FieldView>) -> Seq<int>
    decreases fields.len(),
{
    if fields.len() == 0 {
        Seq::empty()
    } else if carries_layout(fields.last()) {
        packed_positions(fields.drop_last()).push(fields.len() - 1)
    } else {
        packed_positions(fields.drop_last())
    }
}

/// The packed schema: the fields that carry a layout annotation, in
/// declaration order.
pub open spec fn packed_fields(fields: Seq<FieldView>) -> Seq<FieldView> {
    packed_positions(fields).map_values(|position: int| fields[position])
}

/// The packed companion of a record: the values of the fields that carry a
/// layout annotation, in declaration order.
pub open spec fn packed_record(fields: Seq<FieldView>, record: Seq<Seq<u8>>) -> Seq<Seq<u8>> {
    packed_positions(fields).map_values(|position: int| record[position])
}

/// Whether `packed` holds, field by field, what `record` holds in the fields
/// that carry a layout annotation.
pub open spec fn agrees_with_record(
    packed: Seq<Seq<u8>>,
    fields: Seq<FieldView>,
    record: Seq<Seq<u8>>,
) -> bool {
    record.len() == fields.len() && packed == packed_record(fields, record)
}

/// The bytes of a list of packed records: record after record, and in each
/// record field after field.
pub open spec fn bytes_of(records: Seq<Seq<Seq<u8>>>) -> Seq<u8> {
    records.map_values(|record: Seq<Seq<u8>>| record.flatten()).flatten()
}

/// The contents of a list of field references.
pub open spec fn referred_views(fields: Seq<&Field>) -> Seq<FieldView> {
    Seq::new(fields.len(), |i: int| fields[i]@)
}

/// The packed positions are those of the fields that carry a layout
/// annotation: each such field has its position among them, they hold no
/// other, and they rise.
pub proof fn lemma_packed_positions(fields: Seq<FieldView>)
    ensures
        packed_positions(fields).len() <= fields.len(),
        forall|k: int|
            0 <= k < packed_positions(fields).len() ==> {
                let position = #[trigger] packed_positions(fields)[k];
                0 <= position < fields.len() && carries_layout(fields[position])
            },
        forall|k: int, l: int|
            0 <= k < l < packed_positions(fields).len() ==> packed_positions(fields)[k]
                < packed_positions(fields)[l],
        forall|position: int|
            0 <= position < fields.len() && carries_layout(#[trigger] fields[position])
                ==> packed_positions(fields).contains(position),
    decreases fields.len(),
{
    if fields.len() > 0 {
        let before = fields.drop_last();
        lemma_packed_positions(before);
        let positions = packed_positions(fields);
        assert forall|position: int|
            0 <= position < fields.len() && carries_layout(
                #[trigger] fields[position],
            ) implies positions.contains(position) by {
            if position < before.len() {
                assert(carries_layout(before[position]));
                let k = choose|k: int|
                    0 <= k < packed_positions(before).len() && packed_positions(before)[k]
                        == position;
                assert(positions[k] == position);
            } else {
                assert(positions[positions.len() - 1] == position);
            }
        }
    }
}

impl Annotation {
    /// Whether the catalog knows the annotation.
    pub fn is_recognized(&self) -> (known: bool)
        ensures
            known == recognized(self@),
    {
        match self {
            Annotation::Scalar { tag, .. } => has_type(tag.as_str()),
            Annotation::Matrix { dimension_tag, component_type, .. } => matrix_row_type(
                dimension_tag,
                component_type,
            ).is_ok(),
        }
    }
}

impl Field {
    /// Whether the field carries at least one annotation that the catalog
    /// knows, so that the packed companion keeps it.
    pub fn is_packed(&self) -> (kept: bool)
        ensures
            kept == carries_layout(self@),
    {
        let mut i: usize = 0;
        while i < self.annotations.len()
            invariant
                i <= self.annotations.len(),
                forall|k: int| 0 <= k < i ==> !recognized(#[trigger] self@.annotations[k]),
            decreases self.annotations.len() - i,
        {
            if self.annotations[i].is_recognized() {
                assert(recognized(self@.annotations[i as int]));
                return true;
            }
            i += 1;
        }
        false
    }
}

/// The packed schema of a schema: its fields that carry a layout annotation,
/// in declaration order.
pub fn project<'a>(fields: &'a Vec<Field>) -> (packed: Vec<&'a Field>)
    ensures
        referred_views(packed@) == packed_fields(field_views(fields@)),
{
    let ghost views = field_views(fields@);
    let mut packed: Vec<&'a Field> = Vec::new();
    let mut i: usize = 0;
    proof {
        assert(referred_views(packed@) == packed_positions(views.take(0)).map_values(
            |position: int| views[position],
        ));
    }
    while i < fields.len()
        invariant
            i <= fields.len(),
            views == field_views(fields@),
            referred_views(packed@) == packed_positions(views.take(i as int)).map_values(
                |position: int| views[position],
            ),
        decreases fields.len() - i,
    {
        let ghost before = packed@;
        let field = &fields[i];
        let kept = field.is_packed();
        if kept {
            packed.push(field);
        }
        proof {
            assert(views.take(i + 1).drop_last() == views.take(i as int));
            assert(views.take(i + 1).last() == field@);
            if kept {
                assert(referred_views(packed@) == referred_views(before).push(field@));
            }
            assert(referred_views(packed@) == packed_positions(views.take(i + 1)).map_values(
                |position: int| views[position],
            ));
        }
        i += 1;
    }
    proof {
        assert(views.take(fields.len() as int) == views);
    }
    packed
}

/// What is derived for a record type beside its layout: the packed
/// companion type, with its name and its fields, and the names of the two
/// helper macros.
#[derive(Debug, PartialEq, Eq)]
pub struct BufferData<'a> {
    /// The name of the packed companion type.
    pub name: String,
    /// The fields of the packed companion type, in declaration order.
    pub fields: Vec<&'a Field>,
    /// The name of the macro that packs one constant record.
    pub const_into: String,
    /// The name of the macro that turns records into the bytes of their
    /// packed companions.
    pub mutate: String,
}

/// Derives the packed companion of the record type `ident` with the given
/// fields: it is named after the record type, and it keeps the fields that
/// carry a layout annotation, in declaration order.
pub fn derive_wrld_buffer_data<'a>(ident: &str, fields: &'a Vec<Field>) -> (derived: BufferData<'a>)
    ensures
        derived.name@ == ident@ + "PackedData"@,
        referred_views(derived.fields@) == packed_fields(field_views(fields@)),
        derived.const_into@ == snake_of(ident@) + "_const_into"@,
        derived.mutate@ == "mutate_"@ + snake_of(ident@),
{
    BufferData {
        name: packed_type_name(ident),
        fields: project(fields),
        const_into: const_into_name(ident),
        mutate: mutate_name(ident),
    }
}

/// A copy of `bytes`.
fn copy_bytes(bytes: &Vec<u8>) -> (copy: Vec<u8>)
    ensures
        copy@ == bytes@,
{
    let mut copy: Vec<u8> = Vec::new();
    let mut i: usize = 0;
    while i < bytes.len()
        invariant
            i <= bytes.len(),
            copy@ == bytes@.subrange(0, i as int),
        decreases bytes.len() - i,
    {
        copy.push(bytes[i]);
        i += 1;
    }
    proof {
        assert(bytes@.subrange(0, bytes.len() as int) == bytes@);
    }
    copy
}

/// The packed companion of the record `value`, whose entries are the values
/// of the schema's fields. `None` where `value` has not one entry for each
/// field.
pub fn into_packed_ref(fields: &Vec<Field>, value: &Vec<Vec<u8>>) -> (packed: Option<
    Vec<Vec<u8>>,
>)
    ensures
        packed is Some == (value.len() == fields.len()),
        packed matches Some(kept) ==> kept.deep_view() == packed_record(
            field_views(fields@),
            value.deep_view(),
        ),
{
    if value.len() != fields.len() {
        return None;
    }
    let ghost views = field_views(fields@);
    let ghost record = value.deep_view();
    let mut kept: Vec<Vec<u8>> = Vec::new();
    let mut i: usize = 0;
    proof {
        assert(kept.deep_view() == packed_positions(views.take(0)).map_values(
            |position: int| record[position],
        ));
    }
    while i < fields.len()
        invariant
            i <= fields.len(),
            value.len() == fields.len(),
            views == field_views(fields@),
            record == value.deep_view(),
            kept.deep_view() == packed_positions(views.take(i as int)).map_values(
                |position: int| record[position],
            ),
        decreases fields.len() - i,
    {
        let ghost before = kept.deep_view();
        let keep = fields[i].is_packed();
        if keep {
            kept.push(copy_bytes(&value[i]));
        }
        proof {
            assert(views.take(i + 1).drop_last() == views.take(i as int));
            assert(views.take(i + 1).last() == fields@[i as int]@);
            if keep {
                assert(kept.deep_view() == before.push(record[i as int]));
            }
            assert(kept.deep_view() == packed_positions(views.take(i + 1)).map_values(
                |position: int| record[position],
            ));
        }
        i += 1;
    }
    proof {
        assert(views.take(fields.len() as int) == views);
    }
    Some(kept)
}

/// The packed companion of the record `value`, taken by value. `None` where
/// `value` has not one entry for each field.
pub fn into_packed(fields: &Vec<Field>, value: Vec<Vec<u8>>) -> (packed: Option<Vec<Vec<u8>>>)
    ensures
        packed is Some == (value.len() == fields.len()),
        packed matches Some(kept) ==> kept.deep_view() == packed_record(
            field_views(fields@),
            value.deep_view(),
        ),
{
    into_packed_ref(fields, &value)
}

/// Whether two byte strings are the same.
fn bytes_equal(left: &Vec<u8>, right: &Vec<u8>) -> (same: bool)
    ensures
        same == (left@ == right@),
{
    if left.len() != right.len() {
        return false;
    }
    let mut i: usize = 0;
    while i < left.len()
        invariant
            left.len() == right.len(),
            i <= left.len(),
            forall|k: int| 0 <= k < i ==> left@[k] == right@[k],
        decreases left.len() - i,
    {
        if left[i] != right[i] {
            return false;
        }
        i += 1;
    }
    assert(left@ =~= right@);
    true
}

/// Whether the packed record `packed` holds, field by field, what `record`
/// holds in the fields that carry a layout annotation. A record that has not
/// one entry for each field equals no packed record.
pub fn equals(packed: &Vec<Vec<u8>>, fields: &Vec<Field>, record: &Vec<Vec<u8>>) -> (same: bool)
    ensures
        same == agrees_with_record(
            packed.deep_view(),
            field_views(fields@),
            record.deep_view(),
        ),
{
    let expected = match into_packed_ref(fields, record) {
        Some(expected) => expected,
        None => {
            return false;
        },
    };
    if packed.len() != expected.len() {
        assert(packed.deep_view().len() != expected.deep_view().len());
        return false;
    }
    let mut i: usize = 0;
    while i < packed.len()
        invariant
            packed.len() == expected.len(),
            record.len() == fields.len(),
            expected.deep_view() == packed_record(field_views(fields@), record.deep_view()),
            i <= packed.len(),
            forall|k: int| 0 <= k < i ==> packed@[k]@ == expected@[k]@,
        decreases packed.len() - i,
    {
        if !bytes_equal(&packed[i], &expected[i]) {
            proof {
                assert(packed.deep_view()[i as int] =~= packed@[i as int]@);
                assert(expected.deep_view()[i as int] =~= expected@[i as int]@);
            }
            return false;
        }
        i += 1;
    }
    proof {
        assert forall|k: int| 0 <= k < packed.len() implies packed.deep_view()[k]
            == expected.deep_view()[k] by {
            assert(packed.deep_view()[k] =~= packed@[k]@);
            assert(expected.deep_view()[k] =~= expected@[k]@);
        }
        assert(packed.deep_view() =~= expected.deep_view());
    }
    true
}

/// The packed companions of the records `values`, in the same order. `None`
/// where one of them has not one entry for each field.
pub fn project_many(fields: &Vec<Field>, values: &Vec<Vec<Vec<u8>>>) -> (packed: Option<
    Vec<Vec<Vec<u8>>>,
>)
    ensures
        packed is Some == (forall|k: int|
            0 <= k < values.len() ==> (#[trigger] values@[k]).len() == fields.len()),
        packed matches Some(all) ==> {
            &&& all.len() == values.len()
            &&& forall|k: int|
                0 <= k < values.len() ==> (#[trigger] all@[k]).deep_view() == packed_record(
                    field_views(fields@),
                    values@[k].deep_view(),
                )
        },
{
    let mut all: Vec<Vec<Vec<u8>>> = Vec::new();
    let mut i: usize = 0;
    while i < values.len()
        invariant
            i <= values.len(),
            all.len() == i,
            forall|k: int| 0 <= k < i ==> (#[trigger] values@[k]).len() == fields.len(),
            forall|k: int|
                0 <= k < i ==> (#[trigger] all@[k]).deep_view() == packed_record(
                    field_views(fields@),
                    values@[k].deep_view(),
                ),
        decreases values.len() - i,
    {
        match into_packed_ref(fields, &values[i]) {
            Some(kept) => {
                all.push(kept);
            },
            None => {
                return None;
            },
        }
        i += 1;
    }
    Some(all)
}

/// The bytes of the packed records `values`, as a buffer takes them: record
/// after record, and in each record field after field.
pub fn raw_bytes(values: &Vec<Vec<Vec<u8>>>) -> (bytes: Vec<u8>)
    ensures
        bytes@ == bytes_of(values.deep_view()),
{
    let ghost records = values.deep_view();
    let ghost flat = records.map_values(|record: Seq<Seq<u8>>| record.flatten());
    let mut bytes: Vec<u8> = Vec::new();
    let mut i: usize = 0;
    proof {
        assert(flat.take(0) == Seq::<Seq<u8>>::empty());
    }
    while i < values.len()
        invariant
            i <= values.len(),
            records == values.deep_view(),
            flat == records.map_values(|record: Seq<Seq<u8>>| record.flatten()),
            bytes@ == flat.take(i as int).flatten(),
        decreases values.len() - i,
    {
        let record = &values[i];
        let ghost start = bytes@;
        let mut j: usize = 0;
        proof {
            assert(records[i as int].take(0) == Seq::<Seq<u8>>::empty());
        }
        while j < record.len()
            invariant
                j <= record.len(),
                i < records.len(),
                record.deep_view() == records[i as int],
                bytes@ == start + records[i as int].take(j as int).flatten(),
            decreases record.len() - j,
        {
            let field = &record[j];
            let ghost done = bytes@;
            let mut k: usize = 0;
            while k < field.len()
                invariant
                    k <= field.len(),
                    bytes@ == done + field@.subrange(0, k as int),
                decreases field.len() - k,
            {
                bytes.push(field[k]);
                k += 1;
            }
            proof {
                let fields = records[i as int];
                assert(field@.subrange(0, field.len() as int) == field@);
                assert(fields[j as int] =~= field@);
                assert(fields.take(j + 1) == fields.take(j as int).push(field@));
                fields.take(j as int).lemma_flatten_push(field@);
            }
            j += 1;
        }
        proof {
            assert(records[i as int].take(record.len() as int) == records[i as int]);
            assert(flat.take(i + 1) == flat.take(i as int).push(records[i as int].flatten()));
            flat.take(i as int).lemma_flatten_push(records[i as int].flatten());
        }
        i += 1;
    }
    proof {
        assert(flat.take(values.len() as int) == flat);
    }
    bytes
}

/// A record's packed companion reproduces the record: it holds, field by
/// field and in declaration order, the values of the fields that carry a
/// layout annotation, and it compares equal to the record.
pub proof fn lemma_packed_reproduces(fields: Seq<FieldView>, record: Seq<Seq<u8>>)
    requires
        record.len() == fields.len(),
    ensures
        agrees_with_record(packed_record(fields, record), fields, record),
        packed_record(fields, record).len() == packed_fields(fields).len(),
        forall|k: int|
            0 <= k < packed_positions(fields).len() ==> #[trigger] packed_record(fields, record)[k]
                == record[packed_positions(fields)[k]],
{
}

/// Packed records that all take `size` bytes give `size` bytes each to the
/// buffer.
pub proof fn lemma_bytes_of_len(records: Seq<Seq<Seq<u8>>>, size: nat)
    requires
        forall|k: int| 0 <= k < records.len() ==> (#[trigger] records[k]).flatten().len() == size,
    ensures
        bytes_of(records).len() == records.len() * size,
    decreases records.len(),
{
    let flat = records.map_values(|record: Seq<Seq<u8>>| record.flatten());
    if records.len() == 0 {
        assert(flat.flatten() == Seq::<u8>::empty());
    } else {
        let before = records.drop_last();
        let flat_before = before.map_values(|record: Seq<Seq<u8>>| record.flatten());
        lemma_bytes_of_len(before, size);
        assert(flat == flat_before.push(records.last().flatten()));
        flat_before.lemma_flatten_push(records.last().flatten());
        assert(records.len() * size == before.len() * size + size) by (nonlinear_arith)
            requires
                records.len() == before.len() + 1,
        ;
    }
}

} // verus!
