//! The stored record and the set of its updatable fields.

use vstd::prelude::*;

verus! {

/// The values of the updatable fields of a record. Each is a stored value or
/// null; a stored field is never missing.
#[derive(Debug, PartialEq, Eq)]
pub struct FieldValues {
    pub one: Option<String>,
    pub two: Option<String>,
}

/// The mathematical value of [`FieldValues`].
pub struct FieldsView {
    pub one: Option<Seq<char>>,
    pub two: Option<Seq<char>>,
}

impl View for FieldValues {
    type V = FieldsView;

    open spec fn view(&self) -> FieldsView {
        FieldsView { one: self.one.deep_view(), two: self.two.deep_view() }
    }
}

/// A record as the store holds it.
///
/// `id` is given by the store when the record is created. `internal_id` is the
/// merge key: the caller assigns it, it is unique, and it never changes.
#[derive(Debug, PartialEq, Eq)]
pub struct Record {
    pub id: i64,
    pub internal_id: i64,
    pub one: Option<String>,
    pub two: Option<String>,
}

/// The mathematical value of a [`Record`].
pub struct RecordView {
    pub id: int,
    pub internal_id: int,
    pub one: Option<Seq<char>>,
    pub two: Option<Seq<char>>,
}

impl View for Record {
    type V = RecordView;

    open spec fn view(&self) -> RecordView {
        RecordView {
            id: self.id as int,
            internal_id: self.internal_id as int,
            one: self.one.deep_view(),
            two: self.two.deep_view(),
        }
    }
}

impl RecordView {
    /// The updatable fields of the record.
    pub open spec fn fields(self) -> FieldsView {
        FieldsView { one: self.one, two: self.two }
    }

    /// The record with the identity given and the updatable fields `fields`.
    pub open spec fn assemble(id: int, internal_id: int, fields: FieldsView) -> RecordView {
        RecordView { id, internal_id, one: fields.one, two: fields.two }
    }
}

/// A copy of an optional string.
pub fn copy_text(text: &Option<String>) -> (copy: Option<String>)
    ensures
        copy == *text,
{
    match text {
        Some(s) => Some(s.clone()),
        None => None,
    }
}

impl Clone for FieldValues {
    fn clone(&self) -> (copy: FieldValues)
        ensures
            copy == *self,
    {
        FieldValues { one: copy_text(&self.one), two: copy_text(&self.two) }
    }
}

impl Record {
    /// The record with the identity given and the updatable fields `fields`.
    pub fn assemble(id: i64, internal_id: i64, fields: FieldValues) -> (record: Record)
        ensures
            record@ == RecordView::assemble(id as int, internal_id as int, fields@),
    {
        Record { id, internal_id, one: fields.one, two: fields.two }
    }

    /// A copy of the updatable fields of the record.
    pub fn fields(&self) -> (fields: FieldValues)
        ensures
            fields@ == self@.fields(),
    {
        FieldValues { one: copy_text(&self.one), two: copy_text(&self.two) }
    }

}

impl Clone for Record {
    fn clone(&self) -> (copy: Record)
        ensures
            copy == *self,
    {
        Record {
            id: self.id,
            internal_id: self.internal_id,
            one: copy_text(&self.one),
            two: copy_text(&self.two),
        }
    }
}

} // verus!
