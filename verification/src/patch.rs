//! The tri-state value of one field of a partial update, and the rule by
//! which it is merged with what is stored.

use vstd::prelude::*;

verus! {

/// What a partial update says about one field.
///
/// The three states are told apart by whether the field's key appeared in the
/// request at all, not by the value that came with it.
#[derive(Debug, PartialEq, Eq)]
pub enum Patch<T> {
    /// The field was supplied with a concrete value.
    Present(T),
    /// The field was supplied as null: the caller wants it cleared.
    ExplicitNull,
    /// The field was absent from the request: the caller says nothing about it.
    Missing,
}

impl<T: View> View for Patch<T> {
    type V = Patch<T::V>;

    open spec fn view(&self) -> Patch<T::V> {
        match self {
            Patch::Present(value) => Patch::Present(value@),
            Patch::ExplicitNull => Patch::ExplicitNull,
            Patch::Missing => Patch::Missing,
        }
    }
}

impl<T: Clone> Clone for Patch<T> {
    fn clone(&self) -> (copy: Patch<T>)
        ensures
            match (*self, copy) {
                (Patch::Present(value), Patch::Present(copied)) => cloned(value, copied),
                (Patch::ExplicitNull, Patch::ExplicitNull) => true,
                (Patch::Missing, Patch::Missing) => true,
                _ => false,
            },
    {
        match self {
            Patch::Present(value) => Patch::Present(value.clone()),
            Patch::ExplicitNull => Patch::ExplicitNull,
            Patch::Missing => Patch::Missing,
        }
    }
}

impl<T> Patch<T> {
    /// The tri-state reading of a doubly optional value: the outer level says
    /// whether the key was there, the inner one whether its value was non-null.
    pub open spec fn of_nested(nested: Option<Option<T>>) -> Patch<T> {
        match nested {
            Some(Some(value)) => Patch::Present(value),
            Some(None) => Patch::ExplicitNull,
            None => Patch::Missing,
        }
    }

    /// The doubly optional reading of a field, the inverse of [`Self::of_nested`].
    pub open spec fn nested(self) -> Option<Option<T>> {
        match self {
            Patch::Present(value) => Some(Some(value)),
            Patch::ExplicitNull => Some(None),
            Patch::Missing => None,
        }
    }

    /// The value that is stored once this field has been merged.
    ///
    /// `existing` is `None` where no record exists yet, and otherwise holds the
    /// field's stored value, itself `None` where that is null. A present value
    /// replaces what is stored and an explicit null clears it. A missing field
    /// keeps the stored value of an existing record, and is null in a record
    /// that is being created.
    pub open spec fn resolved(self, existing: Option<Option<T>>) -> Option<T> {
        match self {
            Patch::Present(value) => Some(value),
            Patch::ExplicitNull => None,
            Patch::Missing => match existing {
                Some(stored) => stored,
                None => None,
            },
        }
    }

    /// Builds the field from a doubly optional value.
    pub fn from_nested(nested: Option<Option<T>>) -> (patch: Patch<T>)
        ensures
            patch == Self::of_nested(nested),
    {
        match nested {
            Some(Some(value)) => Patch::Present(value),
            Some(None) => Patch::ExplicitNull,
            None => Patch::Missing,
        }
    }

    /// Builds the field from the value found under a key that was there:
    /// a null value reads as an explicit null, never as a missing field.
    pub fn from_supplied(value: Option<T>) -> (patch: Patch<T>)
        ensures
            patch == Self::of_nested(Some(value)),
    {
        match value {
            Some(value) => Patch::Present(value),
            None => Patch::ExplicitNull,
        }
    }

    /// Takes the field apart into its doubly optional form.
    pub fn into_nested(self) -> (nested: Option<Option<T>>)
        ensures
            nested == self.nested(),
    {
        match self {
            Patch::Present(value) => Some(Some(value)),
            Patch::ExplicitNull => Some(None),
            Patch::Missing => None,
        }
    }

    /// Whether the field carries a concrete value.
    pub fn is_present(&self) -> (yes: bool)
        ensures
            yes == (*self is Present),
    {
        match self {
            Patch::Present(_) => true,
            _ => false,
        }
    }

    /// Whether the field asks for the stored value to be cleared.
    pub fn is_explicit_null(&self) -> (yes: bool)
        ensures
            yes == (*self is ExplicitNull),
    {
        match self {
            Patch::ExplicitNull => true,
            _ => false,
        }
    }

    /// Whether the field was left out of the request.
    pub fn is_missing(&self) -> (yes: bool)
        ensures
            yes == (*self is Missing),
    {
        match self {
            Patch::Missing => true,
            _ => false,
        }
    }

    /// Merges the field into a record that is being created: a missing
    /// field and an explicit null both give null.
    pub fn resolve_on_create(self) -> (value: Option<T>)
        ensures
            value == self.resolved(None),
    {
        match self {
            Patch::Present(value) => Some(value),
            Patch::ExplicitNull => None,
            Patch::Missing => None,
        }
    }

    /// Merges the field into an existing record whose stored value is
    /// `stored`: a missing field keeps it, an explicit null clears it.
    pub fn resolve_on_update(self, stored: Option<T>) -> (value: Option<T>)
        ensures
            value == self.resolved(Some(stored)),
    {
        match self {
            Patch::Present(value) => Some(value),
            Patch::ExplicitNull => None,
            Patch::Missing => stored,
        }
    }

    /// Merges the field with what is stored, if anything is.
    pub fn resolve(self, existing: Option<Option<T>>) -> (value: Option<T>)
        ensures
            value == self.resolved(existing),
    {
        match existing {
            Some(stored) => self.resolve_on_update(stored),
            None => self.resolve_on_create(),
        }
    }

    /// Reading a field back from its doubly optional form gives the field
    /// again, and the other way round: the two forms hold the same three
    /// states, and the outer `None` is the only one that reads as missing.
    pub proof fn lemma_nested_round_trip(self, nested: Option<Option<T>>)
        ensures
            Self::of_nested(self.nested()) == self,
            Self::of_nested(nested).nested() == nested,
            Self::of_nested(nested) is Missing <==> nested is None,
            Self::of_nested(nested) is ExplicitNull <==> nested == Some(None::<T>),
    {
    }

    /// A missing field in a record that is being created is stored as null.
    pub proof fn lemma_missing_on_create_is_null()
        ensures
            Patch::<T>::Missing.resolved(None) == None::<T>,
    {
    }

    /// A missing field leaves the stored value of an existing record as it is.
    pub proof fn lemma_missing_on_update_keeps(stored: Option<T>)
        ensures
            Patch::<T>::Missing.resolved(Some(stored)) == stored,
    {
    }

    /// An explicit null is stored as null, whatever was stored before and
    /// whether or not a record existed.
    pub proof fn lemma_explicit_null_clears(existing: Option<Option<T>>)
        ensures
            Patch::<T>::ExplicitNull.resolved(existing) == None::<T>,
    {
    }

    /// A present value is stored as it is, whatever was stored before.
    pub proof fn lemma_present_overwrites(value: T, existing: Option<Option<T>>)
        ensures
            Patch::Present(value).resolved(existing) == Some(value),
    {
    }

    /// Merging the same field a second time changes nothing.
    pub proof fn lemma_resolved_twice(self, existing: Option<Option<T>>)
        ensures
            self.resolved(Some(self.resolved(existing))) == self.resolved(existing),
    {
    }
}

} // verus!
