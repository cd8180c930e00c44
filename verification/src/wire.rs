//! The loosely typed payload of a request, and the decoding of its fields.

use crate::error::Error;
use crate::patch::Patch;
use vstd::prelude::*;

verus! {

/// One value of a payload, as loosely typed as it arrived.
#[derive(Debug, PartialEq, Eq)]
pub enum WireValue {
    /// The null value.
    Null,
    /// A truth value.
    Bool(bool),
    /// A whole number.
    Integer(i64),
    /// A string.
    Text(String),
    /// A value of any other shape: a list, a nested map, a fraction.
    Other,
}

/// The mathematical value of a [`WireValue`].
pub enum WireValueView {
    Null,
    Bool(bool),
    Integer(int),
    Text(Seq<char>),
    Other,
}

impl View for WireValue {
    type V = WireValueView;

    open spec fn view(&self) -> WireValueView {
        match self {
            WireValue::Null => WireValueView::Null,
            WireValue::Bool(b) => WireValueView::Bool(*b),
            WireValue::Integer(n) => WireValueView::Integer(*n as int),
            WireValue::Text(s) => WireValueView::Text(s@),
            WireValue::Other => WireValueView::Other,
        }
    }
}

/// A type that a non-null payload value can be decoded to.
pub trait WireDecode: Sized + View {
    /// The value that `value` decodes to, or `None` where its shape does not
    /// fit this type. Null fits no type: it is dealt with before a value is
    /// decoded.
    spec fn decoded(value: WireValueView) -> Option<Self::V>;

    /// Decodes `value`, or returns `None` where its shape does not fit.
    fn decode(value: &WireValue) -> (out: Option<Self>)
        ensures
            out matches Some(v) ==> Self::decoded(value@) == Some(v@),
            out is None ==> Self::decoded(value@) is None,
    ;
}

impl WireDecode for String {
    open spec fn decoded(value: WireValueView) -> Option<Seq<char>> {
        match value {
            WireValueView::Text(s) => Some(s),
            _ => None,
        }
    }

    fn decode(value: &WireValue) -> (out: Option<String>) {
        match value {
            WireValue::Text(s) => Some(s.clone()),
            _ => None,
        }
    }
}

impl WireDecode for i64 {
    open spec fn decoded(value: WireValueView) -> Option<i64> {
        match value {
            WireValueView::Integer(n) if i64::MIN <= n <= i64::MAX => Some(n as i64),
            _ => None,
        }
    }

    fn decode(value: &WireValue) -> (out: Option<i64>) {
        match value {
            WireValue::Integer(n) => Some(*n),
            _ => None,
        }
    }
}

impl WireDecode for i32 {
    open spec fn decoded(value: WireValueView) -> Option<i32> {
        match value {
            WireValueView::Integer(n) if i32::MIN <= n <= i32::MAX => Some(n as i32),
            _ => None,
        }
    }

    fn decode(value: &WireValue) -> (out: Option<i32>) {
        match value {
            WireValue::Integer(n) => {
                if -2147483648 <= *n && *n <= 2147483647 {
                    Some(*n as i32)
                } else {
                    None
                }
            },
            _ => None,
        }
    }
}

impl WireDecode for bool {
    open spec fn decoded(value: WireValueView) -> Option<bool> {
        match value {
            WireValueView::Bool(b) => Some(b),
            _ => None,
        }
    }

    fn decode(value: &WireValue) -> (out: Option<bool>) {
        match value {
            WireValue::Bool(b) => Some(*b),
            _ => None,
        }
    }
}

/// A map-like payload: keys with loosely typed values.
///
/// A key that is set again takes the later value, so every key has at most
/// one value.
#[derive(Debug)]
pub struct Payload {
    entries: Vec<(String, WireValue)>,
}

/// The map that a sequence of entries stands for: a later entry replaces an
/// earlier one with the same key.
pub open spec fn entries_map(entries: Seq<(String, WireValue)>) -> Map<Seq<char>, WireValueView>
    decreases entries.len(),
{
    if entries.len() == 0 {
        Map::empty()
    } else {
        entries_map(entries.drop_last()).insert(entries.last().0@, entries.last().1@)
    }
}

impl View for Payload {
    type V = Map<Seq<char>, WireValueView>;

    closed spec fn view(&self) -> Map<Seq<char>, WireValueView> {
        entries_map(self.entries@)
    }
}

impl Payload {
    /// The payload without any key.
    pub fn new() -> (payload: Payload)
        ensures
            payload@ == Map::<Seq<char>, WireValueView>::empty(),
    {
        Payload { entries: Vec::new() }
    }

    /// Sets `key` to `value`, in place of any value it had.
    pub fn insert(&mut self, key: String, value: WireValue)
        ensures
            final(self)@ == old(self)@.insert(key@, value@),
    {
        self.entries.push((key, value));
        proof {
            assert(self.entries@.drop_last() == old(self).entries@);
        }
    }

    /// The value under `key`, or `None` where the payload has no such key.
    pub fn get(&self, key: &str) -> (found: Option<&WireValue>)
        ensures
            found matches Some(value) ==> self@.contains_key(key@) && self@[key@] == value@,
            found is None ==> !self@.contains_key(key@),
    {
        let wanted: String = key.to_owned();
        let mut found: Option<&WireValue> = None;
        let mut i: usize = 0;
        while i < self.entries.len()
            invariant
                i <= self.entries.len(),
                wanted@ == key@,
                found matches Some(value) ==> {
                    let seen = entries_map(self.entries@.take(i as int));
                    seen.contains_key(key@) && seen[key@] == value@
                },
                found is None ==> !entries_map(self.entries@.take(i as int)).contains_key(key@),
            decreases self.entries.len() - i,
        {
            proof {
                assert(self.entries@.take(i + 1).drop_last() == self.entries@.take(i as int));
            }
            if self.entries[i].0 == wanted {
                found = Some(&self.entries[i].1);
            }
            i = i + 1;
        }
        proof {
            assert(self.entries@.take(i as int) == self.entries@);
        }
        found
    }
}

/// What the field `name` of `payload` decodes to: missing where the key is
/// absent, an explicit null where its value is null, present where its
/// value fits the type `T`, and malformed otherwise.
pub open spec fn decoded_field<T: WireDecode>(
    payload: Map<Seq<char>, WireValueView>,
    name: Seq<char>,
) -> Result<Patch<T::V>, Error> {
    if !payload.contains_key(name) {
        Ok(Patch::Missing)
    } else if payload[name] is Null {
        Ok(Patch::ExplicitNull)
    } else {
        match T::decoded(payload[name]) {
            Some(value) => Ok(Patch::Present(value)),
            None => Err(Error::MalformedField),
        }
    }
}

/// The three shapes of a field decode to the three states, each to its own:
/// a field is missing exactly where its key is absent, an explicit null
/// exactly where its key is there with a null value, and present with a
/// value exactly where its key is there with a value that is not null and
/// decodes to that value. What is left, a value that is not null and does
/// not decode, is malformed.
pub proof fn lemma_shapes_decode_apart<T: WireDecode>(
    payload: Map<Seq<char>, WireValueView>,
    name: Seq<char>,
)
    ensures
        decoded_field::<T>(payload, name) == Ok::<Patch<T::V>, Error>(Patch::Missing)
            <==> !payload.contains_key(name),
        decoded_field::<T>(payload, name) == Ok::<Patch<T::V>, Error>(Patch::ExplicitNull)
            <==> payload.contains_key(name) && payload[name] is Null,
        forall|value: T::V|
            decoded_field::<T>(payload, name) == Ok::<Patch<T::V>, Error>(Patch::Present(value))
                <==> payload.contains_key(name) && !(payload[name] is Null) && T::decoded(
                payload[name],
            ) == Some(value),
        decoded_field::<T>(payload, name) is Err <==> payload.contains_key(name) && !(payload[name]
            is Null) && T::decoded(payload[name]) is None,
        decoded_field::<T>(payload, name) is Err ==> decoded_field::<T>(payload, name) == Err::<
            Patch<T::V>,
            Error,
        >(Error::MalformedField),
{
}

/// Decodes the field `name` of `payload`.
///
/// Whether the key is there is looked at first, and only a value that is
/// there and not null is decoded: so a missing field and an explicit null
/// never read as each other.
pub fn decode_field<T: WireDecode>(payload: &Payload, name: &str) -> (field: Result<
    Patch<T>,
    Error,
>)
    ensures
        field matches Ok(patch) ==> decoded_field::<T>(payload@, name@) == Ok::<Patch<T::V>, Error>(
            patch@,
        ),
        field matches Err(error) ==> decoded_field::<T>(payload@, name@) == Err::<
            Patch<T::V>,
            Error,
        >(error),
{
    match payload.get(name) {
        None => Ok(Patch::Missing),
        Some(WireValue::Null) => Ok(Patch::ExplicitNull),
        Some(value) => match T::decode(value) {
            Some(decoded) => Ok(Patch::Present(decoded)),
            None => Err(Error::MalformedField),
        },
    }
}

} // verus!
