use palmera::value::{json_to_sea, JsonMember, JsonNumber, JsonValue, TypedParam};

fn pi_bits() -> u64 {
    3.14f64.to_bits()
}

fn array() -> JsonValue {
    JsonValue::Array(vec![
        JsonValue::Number(JsonNumber::Integer(1)),
        JsonValue::Number(JsonNumber::Integer(2)),
    ])
}

fn equal(a: &JsonValue, b: &JsonValue) -> bool {
    match (a, b) {
        (JsonValue::Null, JsonValue::Null) => true,
        (JsonValue::Bool(x), JsonValue::Bool(y)) => x == y,
        (JsonValue::Number(JsonNumber::Integer(x)), JsonValue::Number(JsonNumber::Integer(y))) => x == y,
        (JsonValue::Number(JsonNumber::Float(x)), JsonValue::Number(JsonNumber::Float(y))) => x == y,
        (JsonValue::Number(JsonNumber::Oversized(x)), JsonValue::Number(JsonNumber::Oversized(y))) => x == y,
        (JsonValue::String(x), JsonValue::String(y)) => x == y,
        (JsonValue::Array(x), JsonValue::Array(y)) => {
            x.len() == y.len() && x.iter().zip(y.iter()).all(|(p, q)| equal(p, q))
        }
        (JsonValue::Object(x), JsonValue::Object(y)) => {
            x.len() == y.len()
                && x.iter().zip(y.iter()).all(|(p, q)| p.name == q.name && equal(&p.value, &q.value))
        }
        _ => false,
    }
}

#[test]
fn null_maps_to_null() {
    assert!(matches!(json_to_sea(&JsonValue::Null), TypedParam::Null));
}

#[test]
fn boolean_maps_to_boolean() {
    assert!(matches!(json_to_sea(&JsonValue::Bool(true)), TypedParam::Bool(true)));
    assert!(matches!(json_to_sea(&JsonValue::Bool(false)), TypedParam::Bool(false)));
}

#[test]
fn integral_number_maps_to_big_integer() {
    let p = json_to_sea(&JsonValue::Number(JsonNumber::Integer(42)));
    assert!(matches!(p, TypedParam::BigInt(42)));
    let p = json_to_sea(&JsonValue::Number(JsonNumber::Integer(i64::MIN)));
    assert!(matches!(p, TypedParam::BigInt(i64::MIN)));
}

#[test]
fn other_number_maps_to_double() {
    let p = json_to_sea(&JsonValue::Number(JsonNumber::Float(pi_bits())));
    match p {
        TypedParam::Double(bits) => assert_eq!(f64::from_bits(bits), 3.14),
        other => panic!("{:?}", other),
    }
}

#[test]
fn oversized_number_maps_to_its_literal() {
    let p = json_to_sea(&JsonValue::Number(JsonNumber::Oversized("1e999".to_string())));
    assert!(matches!(p, TypedParam::String(s) if s == "1e999"));
}

#[test]
fn string_maps_to_string() {
    let p = json_to_sea(&JsonValue::String("text".to_string()));
    assert!(matches!(p, TypedParam::String(s) if s == "text"));
}

#[test]
fn array_and_object_map_to_json() {
    match json_to_sea(&array()) {
        TypedParam::Json(v) => assert!(equal(&v, &array())),
        other => panic!("{:?}", other),
    }
    let object = JsonValue::Object(vec![
        JsonMember { name: "a".to_string(), value: array() },
        JsonMember { name: "b".to_string(), value: JsonValue::Null },
    ]);
    match json_to_sea(&object) {
        TypedParam::Json(v) => assert!(equal(&v, &object)),
        other => panic!("{:?}", other),
    }
}

#[test]
fn parameters_come_back_as_the_values_they_were() {
    let values = vec![
        JsonValue::Null,
        JsonValue::Bool(true),
        JsonValue::Number(JsonNumber::Integer(42)),
        JsonValue::Number(JsonNumber::Float(pi_bits())),
        JsonValue::String("text".to_string()),
        array(),
        JsonValue::Object(vec![JsonMember {
            name: "big".to_string(),
            value: JsonValue::Number(JsonNumber::Oversized("1e999".to_string())),
        }]),
    ];
    for v in values.iter() {
        assert!(equal(&json_to_sea(v).to_json(), v), "{:?}", v);
    }
}

#[test]
fn oversized_number_comes_back_as_text() {
    let v = JsonValue::Number(JsonNumber::Oversized("123456789012345678901234567890".to_string()));
    let back = json_to_sea(&v).to_json();
    assert!(equal(&back, &JsonValue::String("123456789012345678901234567890".to_string())));
}

#[test]
fn classify_prefers_integer_then_float_then_literal() {
    let n = JsonNumber::classify(Some(7), Some(7), Some(7.0f64.to_bits()), "7".to_string());
    assert!(matches!(n, JsonNumber::Integer(7)));
    let n = JsonNumber::classify(Some(-7), None, Some((-7.0f64).to_bits()), "-7".to_string());
    assert!(matches!(n, JsonNumber::Integer(-7)));
    let n = JsonNumber::classify(None, None, Some(2.5f64.to_bits()), "2.5".to_string());
    assert!(matches!(n, JsonNumber::Float(b) if f64::from_bits(b) == 2.5));
    let n = JsonNumber::classify(None, None, None, "1e999".to_string());
    assert!(matches!(n, JsonNumber::Oversized(s) if s == "1e999"));
}

#[test]
fn classify_keeps_the_digits_of_an_integer_beyond_range() {
    let literal = "18446744073709551615";
    let n = JsonNumber::classify(
        None,
        Some(u64::MAX),
        Some((u64::MAX as f64).to_bits()),
        literal.to_string(),
    );
    assert!(matches!(&n, JsonNumber::Oversized(s) if s == literal));
    let p = json_to_sea(&JsonValue::Number(n));
    assert!(matches!(p, TypedParam::String(s) if s == literal));
    let n = JsonNumber::classify(None, Some(9223372036854775808), None, "9223372036854775808".to_string());
    assert!(matches!(n, JsonNumber::Oversized(s) if s == "9223372036854775808"));
}

fn classified_by_the_parser(text: &str) -> JsonNumber {
    let v: serde_json::Value = serde_json::from_str(text).unwrap();
    let n = v.as_number().unwrap();
    JsonNumber::classify(n.as_i64(), n.as_u64(), n.as_f64().map(|f| f.to_bits()), n.to_string())
}

#[test]
fn classify_agrees_with_the_parser() {
    let p = json_to_sea(&JsonValue::Number(classified_by_the_parser("7")));
    assert!(matches!(p, TypedParam::BigInt(7)));
    let p = json_to_sea(&JsonValue::Number(classified_by_the_parser("-9223372036854775808")));
    assert!(matches!(p, TypedParam::BigInt(i64::MIN)));
    let p = json_to_sea(&JsonValue::Number(classified_by_the_parser("9223372036854775807")));
    assert!(matches!(p, TypedParam::BigInt(i64::MAX)));
    let p = json_to_sea(&JsonValue::Number(classified_by_the_parser("2.5")));
    assert!(matches!(p, TypedParam::Double(b) if f64::from_bits(b) == 2.5));
    let p = json_to_sea(&JsonValue::Number(classified_by_the_parser("18446744073709551615")));
    assert!(matches!(p, TypedParam::String(s) if s == "18446744073709551615"));
    let p = json_to_sea(&JsonValue::Number(classified_by_the_parser("9223372036854775808")));
    assert!(matches!(p, TypedParam::String(s) if s == "9223372036854775808"));
}

#[test]
fn duplicate_copies_the_whole_document() {
    let v = JsonValue::Object(vec![JsonMember { name: "a".to_string(), value: array() }]);
    assert!(equal(&v.duplicate(), &v));
    let p = json_to_sea(&v);
    assert!(equal(&p.duplicate().to_json(), &v));
}
