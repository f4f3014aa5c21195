use serde_hyprlang::{to_string, Error, Payload, Serializer, Value};

fn field(name: &str, v: Value) -> (String, Value) {
    (name.to_string(), v)
}

#[test]
fn primitive_int_literal() {
    assert_eq!(to_string(&Value::Int(120)), Ok("120".to_string()));
}

#[test]
fn primitive_negative_int_literal() {
    assert_eq!(to_string(&Value::Int(-7)), Ok("-7".to_string()));
    assert_eq!(
        to_string(&Value::Int(i64::MIN)),
        Ok("-9223372036854775808".to_string())
    );
}

#[test]
fn primitive_unsigned_literal() {
    assert_eq!(to_string(&Value::Uint(0)), Ok("0".to_string()));
    assert_eq!(
        to_string(&Value::Uint(u64::MAX)),
        Ok("18446744073709551615".to_string())
    );
}

#[test]
fn primitive_bool_literal() {
    assert_eq!(to_string(&Value::Bool(true)), Ok("true".to_string()));
    assert_eq!(to_string(&Value::Bool(false)), Ok("false".to_string()));
}

#[test]
fn primitive_float_via_string_hook() {
    // Floating-point values ride on the primitive string hook once the host
    // has rendered them with its default numeric-to-text conversion.
    assert_eq!(
        to_string(&Value::Str(format!("{}", 5.56))),
        Ok("5.56".to_string())
    );
}

#[test]
fn string_with_comma_is_quoted() {
    assert_eq!(
        to_string(&Value::Str("one,two".to_string())),
        Ok("\"one,two\"".to_string())
    );
    assert_eq!(
        to_string(&Value::Str("plain text".to_string())),
        Ok("plain text".to_string())
    );
}

#[test]
fn char_comma_is_quoted() {
    assert_eq!(to_string(&Value::Char(',')), Ok("\",\"".to_string()));
    assert_eq!(to_string(&Value::Char('x')), Ok("x".to_string()));
}

#[test]
fn unit_renders_nothing() {
    assert_eq!(to_string(&Value::Unit), Ok("".to_string()));
}

#[test]
fn present_optional_renders_inner() {
    let v = Value::NamedGroup(vec![field(
        "name",
        Value::Optional(Some(Box::new(Value::Int(5)))),
    )]);
    assert_eq!(to_string(&v), Ok("name = 5\n".to_string()));
}

#[test]
fn absent_optional_renders_empty_rhs() {
    let v = Value::NamedGroup(vec![field("name", Value::Optional(None))]);
    assert_eq!(to_string(&v), Ok("name = \n".to_string()));
}

#[test]
fn grouping_keeps_position_of_absent_optional() {
    let v = Value::Grouping(vec![
        Value::Bool(false),
        Value::Optional(None),
        Value::Bool(true),
    ]);
    assert_eq!(to_string(&v), Ok("false, , true".to_string()));
}

#[test]
fn bare_tag_keeps_its_name() {
    let v = Value::Variant("Monochrome".to_string(), Payload::NoPayload);
    assert_eq!(to_string(&v), Ok("Monochrome".to_string()));
}

#[test]
fn payload_variants_drop_the_tag() {
    let single = Value::NamedGroup(vec![field(
        "x",
        Value::Variant(
            "Wrapped".to_string(),
            Payload::SinglePayload(Box::new(Value::Int(3))),
        ),
    )]);
    assert_eq!(to_string(&single), Ok("x = 3\n".to_string()));

    let ordered = Value::NamedGroup(vec![field(
        "x",
        Value::Variant(
            "Pair".to_string(),
            Payload::OrderedPayload(vec![Value::Uint(7), Value::Bool(true)]),
        ),
    )]);
    assert_eq!(to_string(&ordered), Ok("x = 7, true\n".to_string()));

    let named = Value::NamedGroup(vec![field(
        "x",
        Value::Variant(
            "Rec".to_string(),
            Payload::NamedPayload(vec![field("a", Value::Int(1))]),
        ),
    )]);
    assert_eq!(to_string(&named), Ok("x {\n    a = 1\n}\n\n".to_string()));
}

#[test]
fn nested_group_closes_with_blank_line_even_as_last_field() {
    let v = Value::NamedGroup(vec![field(
        "outer",
        Value::NamedGroup(vec![
            field("a", Value::Int(1)),
            field("inner", Value::NamedGroup(vec![field("b", Value::Int(2))])),
        ]),
    )]);
    let expect = "outer {\n    a = 1\n    inner {\n        b = 2\n    }\n\n}\n\n".to_string();
    assert_eq!(to_string(&v), Ok(expect));
}

#[test]
fn maps_rejected_from_every_entry_point() {
    let expect = Err(Error::NotSupported("Maps"));

    let mut s = Serializer::new();
    assert_eq!(s.serialize_map(None), expect);
    assert_eq!(s.serialize_map_key(&Value::Int(1)), expect);
    assert_eq!(s.serialize_map_value(&Value::Int(2)), expect);
    assert_eq!(s.serialize_map_entry(&Value::Int(1), &Value::Int(2)), expect);
    assert_eq!(s.serialize_map_end(), expect);
    // No text was ever written for the map.
    assert_eq!(s.finish(), "".to_string());
}

#[test]
fn sequence_inside_grouping_is_rejected() {
    let inner = Value::Sequence(vec![Value::Int(1), Value::Int(2)]);
    let v = Value::Grouping(vec![inner, Value::Bool(true)]);
    assert_eq!(
        to_string(&v),
        Err(Error::NotSupported(
            "A sequence (Array/List/etc) contained inside a Tupple"
        ))
    );

    // Even an empty sequence is rejected before anything is written.
    let v2 = Value::Grouping(vec![Value::Sequence(vec![])]);
    assert_eq!(
        to_string(&v2),
        Err(Error::NotSupported(
            "A sequence (Array/List/etc) contained inside a Tupple"
        ))
    );
}

#[test]
fn bytes_are_rejected() {
    let mut s = Serializer::new();
    assert_eq!(
        s.serialize_bytes(&[1u8, 2u8]),
        Err(Error::NotSupported("Byte arrays"))
    );
    assert_eq!(s.finish(), "".to_string());
}

#[test]
fn empty_grouping_is_an_internal_error() {
    let v = Value::Grouping(vec![]);
    assert_eq!(
        to_string(&v),
        Err(Error::UnexpectedSequence("".to_string()))
    );
}

#[test]
fn error_texts() {
    assert_eq!(
        Error::NotSupported("Maps").describe(),
        "Maps is not supported (yet)".to_string()
    );
    assert_eq!(
        Error::Message("boom".to_string()).describe(),
        "boom".to_string()
    );
    assert_eq!(
        Error::UnexpectedSequence("tail".to_string()).describe(),
        "Unexpected Sequence: \ntail".to_string()
    );
}

#[test]
fn grouping_of_named_group_renders_inline() {
    // A named group met inside a grouping renders as flat `key: value`
    // pairs, not as a braced block.
    let v = Value::NamedGroup(vec![field(
        "g",
        Value::Grouping(vec![
            Value::NamedGroup(vec![
                field("a", Value::Int(1)),
                field("b", Value::Bool(false)),
            ]),
            Value::Uint(9),
        ]),
    )]);
    assert_eq!(to_string(&v), Ok("g = a: 1, b: false, 9\n".to_string()));
}
