use merge_upsert::error::Error;
use merge_upsert::patch::Patch;
use merge_upsert::request::UpdateRequest;
use merge_upsert::wire::{decode_field, Payload, WireDecode, WireValue};

fn payload_of(entries: Vec<(&str, WireValue)>) -> Payload {
    let mut payload = Payload::new();
    for (key, value) in entries {
        payload.insert(key.to_string(), value);
    }
    payload
}

fn text(value: &str) -> WireValue {
    WireValue::Text(value.to_string())
}

#[test]
fn some() {
    let payload = payload_of(vec![("field", WireValue::Integer(1))]);
    let field = decode_field::<i32>(&payload, "field").unwrap();
    assert_eq!(field, Patch::Present(1));
}

#[test]
fn explicit_null() {
    let payload = payload_of(vec![("field", WireValue::Null)]);
    let field = decode_field::<i32>(&payload, "field").unwrap();
    assert_eq!(field, Patch::ExplicitNull);
}

#[test]
fn missing() {
    let payload = payload_of(vec![]);
    let field = decode_field::<i32>(&payload, "field").unwrap();
    assert_eq!(field, Patch::Missing);
}

#[test]
fn three_shapes_decode_to_three_states() {
    let absent = payload_of(vec![("two", text("x"))]);
    let null = payload_of(vec![("one", WireValue::Null)]);
    let present = payload_of(vec![("one", text("v"))]);
    assert_eq!(decode_field::<String>(&absent, "one"), Ok(Patch::Missing));
    assert_eq!(decode_field::<String>(&null, "one"), Ok(Patch::ExplicitNull));
    assert_eq!(decode_field::<String>(&present, "one"), Ok(Patch::Present("v".to_string())));
    assert_ne!(decode_field::<String>(&absent, "one"), decode_field::<String>(&null, "one"));
}

#[test]
fn empty_string_is_present_not_null() {
    let payload = payload_of(vec![("one", text(""))]);
    assert_eq!(decode_field::<String>(&payload, "one"), Ok(Patch::Present(String::new())));
}

#[test]
fn wrong_shape_is_malformed() {
    let payload = payload_of(vec![
        ("number", WireValue::Integer(7)),
        ("flag", WireValue::Bool(true)),
        ("list", WireValue::Other),
        ("name", text("seven")),
    ]);
    assert_eq!(decode_field::<String>(&payload, "number"), Err(Error::MalformedField));
    assert_eq!(decode_field::<String>(&payload, "flag"), Err(Error::MalformedField));
    assert_eq!(decode_field::<String>(&payload, "list"), Err(Error::MalformedField));
    assert_eq!(decode_field::<i64>(&payload, "name"), Err(Error::MalformedField));
    assert_eq!(decode_field::<i64>(&payload, "flag"), Err(Error::MalformedField));
    assert_eq!(decode_field::<bool>(&payload, "number"), Err(Error::MalformedField));
    assert_eq!(decode_field::<bool>(&payload, "list"), Err(Error::MalformedField));
}

#[test]
fn each_type_decodes_its_own_shape() {
    let payload = payload_of(vec![
        ("number", WireValue::Integer(-7)),
        ("flag", WireValue::Bool(false)),
        ("name", text("seven")),
    ]);
    assert_eq!(decode_field::<i64>(&payload, "number"), Ok(Patch::Present(-7)));
    assert_eq!(decode_field::<i32>(&payload, "number"), Ok(Patch::Present(-7)));
    assert_eq!(decode_field::<bool>(&payload, "flag"), Ok(Patch::Present(false)));
    assert_eq!(decode_field::<String>(&payload, "name"), Ok(Patch::Present("seven".to_string())));
}

#[test]
fn integer_must_fit_the_type() {
    let payload = payload_of(vec![
        ("top", WireValue::Integer(2147483647)),
        ("over", WireValue::Integer(2147483648)),
        ("bottom", WireValue::Integer(-2147483648)),
        ("under", WireValue::Integer(-2147483649)),
    ]);
    assert_eq!(decode_field::<i32>(&payload, "top"), Ok(Patch::Present(i32::MAX)));
    assert_eq!(decode_field::<i32>(&payload, "over"), Err(Error::MalformedField));
    assert_eq!(decode_field::<i32>(&payload, "bottom"), Ok(Patch::Present(i32::MIN)));
    assert_eq!(decode_field::<i32>(&payload, "under"), Err(Error::MalformedField));
    assert_eq!(decode_field::<i64>(&payload, "over"), Ok(Patch::Present(2147483648)));
}

#[test]
fn null_decodes_to_no_value() {
    assert_eq!(<String as WireDecode>::decode(&WireValue::Null), None);
    assert_eq!(<i64 as WireDecode>::decode(&WireValue::Null), None);
    assert_eq!(<i32 as WireDecode>::decode(&WireValue::Null), None);
    assert_eq!(<bool as WireDecode>::decode(&WireValue::Null), None);
    assert_eq!(<String as WireDecode>::decode(&text("a")), Some("a".to_string()));
}

#[test]
fn later_value_replaces_earlier_one() {
    let mut payload = Payload::new();
    payload.insert("one".to_string(), text("first"));
    payload.insert("two".to_string(), text("other"));
    payload.insert("one".to_string(), WireValue::Null);
    assert_eq!(payload.get("one"), Some(&WireValue::Null));
    assert_eq!(payload.get("two"), Some(&text("other")));
    assert_eq!(payload.get("three"), None);
    assert_eq!(decode_field::<String>(&payload, "one"), Ok(Patch::ExplicitNull));
}

#[test]
fn keys_are_compared_exactly() {
    let payload = payload_of(vec![("One", text("a")), ("one ", text("b")), ("on", text("c"))]);
    assert_eq!(payload.get("one"), None);
    assert_eq!(decode_field::<String>(&payload, "one"), Ok(Patch::Missing));
}

#[test]
fn request_decodes_both_fields() {
    let payload = payload_of(vec![("one", text("1")), ("two", text("1"))]);
    let request = UpdateRequest::decode(&payload).unwrap();
    assert_eq!(request.one(), &Patch::Present("1".to_string()));
    assert_eq!(request.two(), &Patch::Present("1".to_string()));
}

#[test]
fn request_tells_null_from_missing() {
    let payload = payload_of(vec![("one", WireValue::Null)]);
    let request = UpdateRequest::decode(&payload).unwrap();
    assert_eq!(request.one(), &Patch::ExplicitNull);
    assert_eq!(request.two(), &Patch::Missing);
}

#[test]
fn empty_payload_is_a_request_that_says_nothing() {
    let request = UpdateRequest::decode(&Payload::new()).unwrap();
    assert_eq!(request, UpdateRequest::new(Patch::Missing, Patch::Missing));
}

#[test]
fn unrecognized_keys_are_ignored() {
    let payload = payload_of(vec![
        ("three", WireValue::Integer(3)),
        ("two", text("2")),
        ("id", WireValue::Other),
    ]);
    let request = UpdateRequest::decode(&payload).unwrap();
    assert_eq!(request, UpdateRequest::new(Patch::Missing, Patch::Present("2".to_string())));
}

#[test]
fn one_malformed_field_rejects_the_request() {
    let first = payload_of(vec![("one", WireValue::Integer(1)), ("two", text("2"))]);
    let second = payload_of(vec![("one", text("1")), ("two", WireValue::Bool(true))]);
    let both = payload_of(vec![("one", WireValue::Other), ("two", WireValue::Other)]);
    let alone = payload_of(vec![("two", WireValue::Integer(2))]);
    assert_eq!(UpdateRequest::decode(&first), Err(Error::MalformedField));
    assert_eq!(UpdateRequest::decode(&second), Err(Error::MalformedField));
    assert_eq!(UpdateRequest::decode(&both), Err(Error::MalformedField));
    assert_eq!(UpdateRequest::decode(&alone), Err(Error::MalformedField));
}

#[test]
fn request_from_nested_options() {
    let request = UpdateRequest::from_nested(Some(Some("a".to_string())), Some(None));
    assert_eq!(request.one(), &Patch::Present("a".to_string()));
    assert_eq!(request.two(), &Patch::ExplicitNull);
    let request = UpdateRequest::from_nested(None, None);
    assert_eq!(request, UpdateRequest::new(Patch::Missing, Patch::Missing));
}

#[test]
fn request_clone_is_equal() {
    let request = UpdateRequest::new(Patch::Present("a".to_string()), Patch::ExplicitNull);
    assert_eq!(request.clone(), request);
}
