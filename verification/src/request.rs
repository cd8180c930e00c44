//! One partial update: a tri-state field for each updatable column.

use crate::error::Error;
use crate::patch::Patch;
use crate::wire::{decode_field, decoded_field, Payload, WireValueView};
use vstd::prelude::*;

verus! {

/// A partial update of one record: what the request says about each updatable
/// field. It is built once, when the request is decoded, and not changed
/// afterwards.
#[derive(Debug, PartialEq, Eq)]
pub struct UpdateRequest {
    one: Patch<String>,
    two: Patch<String>,
}

/// The mathematical value of an [`UpdateRequest`].
pub struct RequestView {
    pub one: Patch<Seq<char>>,
    pub two: Patch<Seq<char>>,
}

impl View for UpdateRequest {
    type V = RequestView;

    closed spec fn view(&self) -> RequestView {
        RequestView { one: self.one@, two: self.two@ }
    }
}

/// What a payload decodes to: the two fields, each decoded on its own, or
/// the rejection of the whole request where either is malformed. Keys other
/// than those of the two fields are not looked at.
pub open spec fn decoded_request(payload: Map<Seq<char>, WireValueView>) -> Result<
    RequestView,
    Error,
> {
    match (decoded_field::<String>(payload, "one"@), decoded_field::<String>(payload, "two"@)) {
        (Ok(one), Ok(two)) => Ok(RequestView { one, two }),
        _ => Err(Error::MalformedField),
    }
}

impl UpdateRequest {
    /// The request with the two fields given.
    pub fn new(one: Patch<String>, two: Patch<String>) -> (request: UpdateRequest)
        ensures
            request@ == (RequestView { one: one@, two: two@ }),
    {
        UpdateRequest { one, two }
    }

    /// The request whose fields are given in doubly optional form.
    pub fn from_nested(one: Option<Option<String>>, two: Option<Option<String>>) -> (request:
        UpdateRequest)
        ensures
            request@ == (RequestView {
                one: Patch::of_nested(one)@,
                two: Patch::of_nested(two)@,
            }),
    {
        UpdateRequest { one: Patch::from_nested(one), two: Patch::from_nested(two) }
    }

    /// Decodes a request from its payload. Each field is decoded on its own;
    /// if either is malformed the whole request is rejected, so that no
    /// partly decoded request is ever applied.
    pub fn decode(payload: &Payload) -> (request: Result<UpdateRequest, Error>)
        ensures
            request matches Ok(decoded) ==> decoded_request(payload@) == Ok::<RequestView, Error>(
                decoded@,
            ),
            request matches Err(error) ==> decoded_request(payload@) == Err::<RequestView, Error>(
                error,
            ),
    {
        let one = decode_field::<String>(payload, "one");
        let two = decode_field::<String>(payload, "two");
        match (one, two) {
            (Ok(one), Ok(two)) => Ok(UpdateRequest { one, two }),
            _ => Err(Error::MalformedField),
        }
    }

    /// What the request says about the field `one`.
    pub fn one(&self) -> (field: &Patch<String>)
        ensures
            field@ == self@.one,
    {
        &self.one
    }

    /// What the request says about the field `two`.
    pub fn two(&self) -> (field: &Patch<String>)
        ensures
            field@ == self@.two,
    {
        &self.two
    }
}

impl Clone for UpdateRequest {
    fn clone(&self) -> (copy: UpdateRequest)
        ensures
            copy == *self,
    {
        UpdateRequest { one: self.one.clone(), two: self.two.clone() }
    }
}

/// A request is rejected exactly where one of its two fields is malformed,
/// and then as a malformed field. Otherwise it holds what the two fields
/// decode to.
pub proof fn lemma_rejected_iff_malformed(payload: Map<Seq<char>, WireValueView>)
    ensures
        decoded_request(payload) is Err <==> decoded_field::<String>(payload, "one"@) is Err
            || decoded_field::<String>(payload, "two"@) is Err,
        decoded_request(payload) is Err ==> decoded_request(payload) == Err::<RequestView, Error>(
            Error::MalformedField,
        ),
        decoded_request(payload) matches Ok(request) ==> decoded_field::<String>(payload, "one"@)
            == Ok::<Patch<Seq<char>>, Error>(request.one) && decoded_field::<String>(
            payload,
            "two"@,
        ) == Ok::<Patch<Seq<char>>, Error>(request.two),
{
}

/// Keys other than those of the two fields are not looked at: two payloads
/// that hold the same under the two fields' keys decode to the same.
pub proof fn lemma_unrecognized_keys_are_ignored(
    payload: Map<Seq<char>, WireValueView>,
    other: Map<Seq<char>, WireValueView>,
)
    requires
        payload.contains_key("one"@) == other.contains_key("one"@),
        payload.contains_key("one"@) ==> payload["one"@] == other["one"@],
        payload.contains_key("two"@) == other.contains_key("two"@),
        payload.contains_key("two"@) ==> payload["two"@] == other["two"@],
    ensures
        decoded_request(payload) == decoded_request(other),
{
}

} // verus!
