use serde_hyprlang::{to_string, Payload, Value};

fn field(name: &str, v: Value) -> (String, Value) {
    (name.to_string(), v)
}

fn simple_struct(first: &str, flag: bool, count: u64) -> Value {
    Value::NamedGroup(vec![
        field("first", Value::Str(first.to_string())),
        field(
            "second",
            Value::Grouping(vec![Value::Bool(flag), Value::Uint(count)]),
        ),
    ])
}

#[test]
fn simple_struct_serialize() {
    let h = simple_struct("Vaxry", true, 1);

    let res = to_string(&h);

    let expect = "first = Vaxry\nsecond = true, 1\n".to_string();

    assert_eq!(res, Ok(expect), "Failed to encode a simple struct");
}

#[test]
fn simple_sequence_serialize() {
    let t = Value::NamedGroup(vec![field(
        "exec",
        Value::Sequence(vec![
            Value::Grouping(vec![Value::Uint(4), Value::Str("Hewo".to_string())]),
            Value::Grouping(vec![Value::Uint(1), Value::Str("everynya".to_string())]),
        ]),
    )]);
    let res = to_string(&t);

    let expect = "exec = 4, Hewo\nexec = 1, everynya\n\n".to_string();

    assert_eq!(res, Ok(expect), "Failed to encode a simple sequence");
}

#[test]
fn simple_sequence_struct_serialize() {
    let t = Value::NamedGroup(vec![
        field("random_thing", Value::Int(120)),
        field(
            "keep_it_simple_stupid",
            Value::Sequence(vec![
                simple_struct("I wish", true, 3),
                simple_struct("I were", true, 1),
                simple_struct("a bird", false, 0),
            ]),
        ),
    ]);
    let res = to_string(&t);

    let expect = "random_thing = 120
keep_it_simple_stupid {
    first = I wish
    second = true, 3
}

keep_it_simple_stupid {
    first = I were
    second = true, 1
}

keep_it_simple_stupid {
    first = a bird
    second = false, 0
}


"
    .to_string();

    assert_eq!(
        res,
        Ok(expect),
        "Failed to encode a simple sequence of structs"
    );
}

#[test]
fn simple_nested_struct_serializer() {
    let t = Value::NamedGroup(vec![
        field("test", Value::Uint(6732)),
        field(
            "nested",
            Value::NamedGroup(vec![
                field("config", simple_struct("Oh my God!", false, 64)),
                field("other", Value::Bool(true)),
            ]),
        ),
    ]);
    let res = to_string(&t);

    let expect = "test = 6732
nested {
    config {
        first = Oh my God!
        second = false, 64
    }

    other = true
}

"
    .to_string();

    assert_eq!(res, Ok(expect), "Failed to encode a simple nesting of structs");
}

#[test]
fn simple_option_serialize() {
    // A field excluded by its own skip policy never reaches the encoder,
    // so the omitted one has no entry here at all.
    let t = Value::NamedGroup(vec![
        field("here", Value::Optional(Some(Box::new(Value::Int(-23))))),
        field("not_here", Value::Optional(None)),
        field("not_st", Value::Optional(None)),
        field(
            "st",
            Value::Optional(Some(Box::new(simple_struct("Not another one...", true, 777)))),
        ),
        field(
            "inside_tupple",
            Value::Grouping(vec![
                Value::Bool(false),
                Value::Optional(None),
                Value::Bool(true),
            ]),
        ),
        field(
            "inside_tupple_2",
            Value::Grouping(vec![
                Value::Optional(None),
                Value::Optional(Some(Box::new(Value::Str("Text".to_string())))),
                Value::Bool(false),
            ]),
        ),
    ]);
    let res = to_string(&t);

    let expect = "here = -23\nnot_here = \nnot_st = \nst {\n    first = Not another one...\n    second = true, 777\n}\n\ninside_tupple = false, , true\ninside_tupple_2 = , Text, false\n"
        .to_string();

    assert_eq!(
        res,
        Ok(expect),
        "Failed to encode a options and their nulls incorrectly"
    );
}

#[test]
fn simple_enum_serialization() {
    let t = Value::Variant(
        "Root".to_string(),
        Payload::NamedPayload(vec![
            field(
                "new_type",
                Value::Variant(
                    "NewTypeVarient".to_string(),
                    Payload::SinglePayload(Box::new(simple_struct(
                        "REDNote 小红书国际版",
                        false,
                        1989,
                    ))),
                ),
            ),
            field(
                "tupple",
                Value::Variant(
                    "TuppleVarient".to_string(),
                    Payload::OrderedPayload(vec![Value::Uint(75), Value::Bool(false)]),
                ),
            ),
            field(
                "st",
                Value::Variant(
                    "StructVarient".to_string(),
                    Payload::NamedPayload(vec![field(
                        "thing",
                        Value::Str(format!("{}", 5.56)),
                    )]),
                ),
            ),
        ]),
    );
    let res = to_string(&t);

    let expect = "new_type {
    first = REDNote 小红书国际版
    second = false, 1989
}

tupple = 75, false
st {
    thing = 5.56
}

"
    .to_string();

    assert_eq!(
        res,
        Ok(expect),
        "Failed to encode the different handled enums correctly"
    );
}
