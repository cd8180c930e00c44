//! The merge of a partial update with the stored record, if there is one.

use crate::patch::Patch;
use crate::record::{copy_text, FieldValues, FieldsView, Record, RecordView};
use crate::request::{RequestView, UpdateRequest};
use vstd::prelude::*;

verus! {

/// The stored value of each field, where a record exists.
pub open spec fn stored_one(existing: Option<FieldsView>) -> Option<Option<Seq<char>>> {
    match existing {
        Some(fields) => Some(fields.one),
        None => None,
    }
}

/// See [`stored_one`].
pub open spec fn stored_two(existing: Option<FieldsView>) -> Option<Option<Seq<char>>> {
    match existing {
        Some(fields) => Some(fields.two),
        None => None,
    }
}

/// The fields of the record after `request` has been merged with `existing`,
/// the fields of the stored record, or with nothing where no record exists.
/// Each field is merged on its own, by [`Patch::resolved`].
pub open spec fn resolve_fields(existing: Option<FieldsView>, request: RequestView) -> FieldsView {
    FieldsView {
        one: request.one.resolved(stored_one(existing)),
        two: request.two.resolved(stored_two(existing)),
    }
}

/// The updatable fields of a record that may not exist.
pub open spec fn fields_of(existing: Option<RecordView>) -> Option<FieldsView> {
    match existing {
        Some(record) => Some(record.fields()),
        None => None,
    }
}

/// The record after `request` has been merged with `existing`. The identity
/// is never merged: an existing record keeps its own, and a new record gets
/// the key `internal_id` and the identity `fresh_id` that the store gives it.
pub open spec fn resolve_record(
    existing: Option<RecordView>,
    internal_id: int,
    fresh_id: int,
    request: RequestView,
) -> RecordView {
    let fields = resolve_fields(fields_of(existing), request);
    match existing {
        Some(record) => RecordView::assemble(record.id, record.internal_id, fields),
        None => RecordView::assemble(fresh_id, internal_id, fields),
    }
}

fn resolve_text(patch: &Patch<String>, existing: Option<&Option<String>>) -> (value: Option<String>)
    ensures
        value.deep_view() == patch@.resolved(
            match existing {
                Some(stored) => Some(stored.deep_view()),
                None => None,
            },
        ),
{
    match patch {
        Patch::Present(value) => Some(value.clone()),
        Patch::ExplicitNull => None,
        Patch::Missing => match existing {
            Some(stored) => copy_text(stored),
            None => None,
        },
    }
}

/// Merges `request` with the stored record `existing`, or with nothing where
/// no record exists yet, and returns the values of the updatable fields to
/// be stored.
pub fn resolve(existing: Option<&Record>, request: &UpdateRequest) -> (fields: FieldValues)
    ensures
        fields@ == resolve_fields(
            match existing {
                Some(record) => Some(record@.fields()),
                None => None,
            },
            request@,
        ),
{
    match existing {
        Some(record) => FieldValues {
            one: resolve_text(request.one(), Some(&record.one)),
            two: resolve_text(request.two(), Some(&record.two)),
        },
        None => FieldValues {
            one: resolve_text(request.one(), None),
            two: resolve_text(request.two(), None),
        },
    }
}

/// A field that the request leaves out is null in a record that is being
/// created.
pub proof fn lemma_create_with_missing_is_null(request: RequestView)
    ensures
        request.one is Missing ==> resolve_fields(None, request).one is None,
        request.two is Missing ==> resolve_fields(None, request).two is None,
{
}

/// A field that the request leaves out keeps its stored value in an existing
/// record.
pub proof fn lemma_update_preserves_missing(existing: FieldsView, request: RequestView)
    ensures
        request.one is Missing ==> resolve_fields(Some(existing), request).one == existing.one,
        request.two is Missing ==> resolve_fields(Some(existing), request).two == existing.two,
{
}

/// A field that the request sets to null is stored as null, whatever was
/// stored before and whether or not a record existed.
pub proof fn lemma_explicit_null_clears(existing: Option<FieldsView>, request: RequestView)
    ensures
        request.one is ExplicitNull ==> resolve_fields(existing, request).one is None,
        request.two is ExplicitNull ==> resolve_fields(existing, request).two is None,
{
}

/// A field that the request sets to a value is stored with that value,
/// whatever was stored before.
pub proof fn lemma_present_overwrites(existing: Option<FieldsView>, request: RequestView)
    ensures
        request.one matches Patch::Present(value) ==> resolve_fields(existing, request).one
            == Some(value),
        request.two matches Patch::Present(value) ==> resolve_fields(existing, request).two
            == Some(value),
{
}

/// Merging the same request a second time, with the result of the first
/// merge, gives the result of the first merge again.
pub proof fn lemma_resolve_idempotent(existing: Option<FieldsView>, request: RequestView)
    ensures
        resolve_fields(Some(resolve_fields(existing, request)), request) == resolve_fields(
            existing,
            request,
        ),
{
}

/// The same, for whole records: the second merge finds the record that the
/// first has left, and leaves it as it is, identity included.
pub proof fn lemma_resolve_record_idempotent(
    existing: Option<RecordView>,
    internal_id: int,
    first_id: int,
    second_id: int,
    request: RequestView,
)
    ensures
        resolve_record(
            Some(resolve_record(existing, internal_id, first_id, request)),
            internal_id,
            second_id,
            request,
        ) == resolve_record(existing, internal_id, first_id, request),
{
}

/// Two requests that set different fields do not undo each other: where
/// one sets only the field `one` and the other only the field `two`, merging
/// them one after the other leaves both fields set to the new values, in
/// whichever order the two are merged.
pub proof fn lemma_disjoint_updates_commute(
    existing: Option<FieldsView>,
    first: RequestView,
    second: RequestView,
)
    requires
        first.one is Present,
        first.two is Missing,
        second.one is Missing,
        second.two is Present,
    ensures
        resolve_fields(Some(resolve_fields(existing, first)), second) == resolve_fields(
            Some(resolve_fields(existing, second)),
            first,
        ),
        resolve_fields(Some(resolve_fields(existing, first)), second) == (FieldsView {
            one: Some(first.one->Present_0),
            two: Some(second.two->Present_0),
        }),
{
}

} // verus!
