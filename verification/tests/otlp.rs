use actor_runtime::otlp::{
    extract_attributes, parse_log_record_body, to_json_value,
    to_json_value_from_primitive_any_value, Attributes, JsonPrimitive, JsonValue, OtlpAnyValue,
    OtlpKeyValue, OtlpValue,
};

#[test]
fn test_to_json_value() {
    assert_eq!(
        to_json_value(OtlpValue::ArrayValue(Vec::new())),
        Some(JsonValue::Array(Vec::new()))
    );
    assert_eq!(
        to_json_value(OtlpValue::ArrayValue(vec![OtlpAnyValue {
            value: Some(OtlpValue::IntValue(1337))
        }])),
        Some(JsonValue::Array(vec![JsonPrimitive::Integer(1337)]))
    );
    assert_eq!(
        to_json_value(OtlpValue::BoolValue(true)),
        Some(JsonValue::Bool(true))
    );
    assert_eq!(
        to_json_value(OtlpValue::DoubleValue(12.0f64.to_bits())),
        Some(JsonValue::Double(12.0f64.to_bits()))
    );
    assert_eq!(
        to_json_value(OtlpValue::IntValue(42)),
        Some(JsonValue::Integer(42))
    );
    assert_eq!(
        to_json_value(OtlpValue::StringValue("foo".to_string())),
        Some(JsonValue::String("foo".to_string()))
    );
}

#[test]
fn test_extract_attributes() {
    assert!(extract_attributes(vec![]).is_empty());

    let attributes = vec![
        OtlpKeyValue {
            key: "".to_string(),
            value: None,
        },
        OtlpKeyValue {
            key: "".to_string(),
            value: Some(OtlpAnyValue {
                value: Some(OtlpValue::BoolValue(true)),
            }),
        },
        OtlpKeyValue {
            key: "empty_value".to_string(),
            value: None,
        },
        OtlpKeyValue {
            key: "empty_value_value".to_string(),
            value: Some(OtlpAnyValue { value: None }),
        },
    ];
    assert!(extract_attributes(attributes).is_empty());

    let attributes = vec![
        OtlpKeyValue {
            key: "array_key".to_string(),
            value: Some(OtlpAnyValue {
                value: Some(OtlpValue::ArrayValue(vec![OtlpAnyValue {
                    value: Some(OtlpValue::IntValue(1337)),
                }])),
            }),
        },
        OtlpKeyValue {
            key: "bool_key".to_string(),
            value: Some(OtlpAnyValue {
                value: Some(OtlpValue::BoolValue(true)),
            }),
        },
        OtlpKeyValue {
            key: "double_key".to_string(),
            value: Some(OtlpAnyValue {
                value: Some(OtlpValue::DoubleValue(12.0f64.to_bits())),
            }),
        },
        OtlpKeyValue {
            key: "int_key".to_string(),
            value: Some(OtlpAnyValue {
                value: Some(OtlpValue::IntValue(42)),
            }),
        },
        OtlpKeyValue {
            key: "string_key".to_string(),
            value: Some(OtlpAnyValue {
                value: Some(OtlpValue::StringValue("foo".to_string())),
            }),
        },
    ];
    let extracted = extract_attributes(attributes);
    assert_eq!(extracted.len(), 5);
    assert_eq!(
        extracted.get("array_key"),
        Some(&JsonValue::Array(vec![JsonPrimitive::Integer(1337)]))
    );
    assert_eq!(extracted.get("bool_key"), Some(&JsonValue::Bool(true)));
    assert_eq!(
        extracted.get("double_key"),
        Some(&JsonValue::Double(12.0f64.to_bits()))
    );
    assert_eq!(extracted.get("int_key"), Some(&JsonValue::Integer(42)));
    assert_eq!(
        extracted.get("string_key"),
        Some(&JsonValue::String("foo".to_string()))
    );
}

#[test]
fn test_parse_log_record_body() {
    let value = parse_log_record_body(OtlpAnyValue {
        value: Some(OtlpValue::StringValue("body".to_string())),
    })
    .unwrap();
    let JsonValue::Object(map) = value else {
        panic!("Expected object, got {value:?}");
    };
    assert_eq!(map.len(), 1);
    assert_eq!(map[0].0, "message");
    assert_eq!(map[0].1, JsonPrimitive::String("body".to_string()));
}

#[test]
fn log_record_body_of_other_values() {
    assert_eq!(parse_log_record_body(OtlpAnyValue { value: None }), None);
    assert_eq!(
        parse_log_record_body(OtlpAnyValue {
            value: Some(OtlpValue::IntValue(-3))
        }),
        Some(JsonValue::Integer(-3))
    );
    assert_eq!(
        parse_log_record_body(OtlpAnyValue {
            value: Some(OtlpValue::BytesValue(vec![1, 2]))
        }),
        None
    );
}

#[test]
fn values_that_json_cannot_hold_are_dropped() {
    assert_eq!(to_json_value(OtlpValue::DoubleValue(f64::NAN.to_bits())), None);
    assert_eq!(
        to_json_value(OtlpValue::DoubleValue(f64::INFINITY.to_bits())),
        None
    );
    assert_eq!(
        to_json_value(OtlpValue::DoubleValue(f64::NEG_INFINITY.to_bits())),
        None
    );
    assert_eq!(
        to_json_value(OtlpValue::DoubleValue(f64::MAX.to_bits())),
        Some(JsonValue::Double(f64::MAX.to_bits()))
    );
    assert_eq!(
        to_json_value(OtlpValue::DoubleValue((-0.0f64).to_bits())),
        Some(JsonValue::Double((-0.0f64).to_bits()))
    );
    assert_eq!(to_json_value(OtlpValue::BytesValue(Vec::new())), None);
    assert_eq!(to_json_value(OtlpValue::KvlistValue(Vec::new())), None);
    assert_eq!(
        to_json_value_from_primitive_any_value(OtlpAnyValue { value: None }),
        None
    );
    assert_eq!(
        to_json_value_from_primitive_any_value(OtlpAnyValue {
            value: Some(OtlpValue::ArrayValue(Vec::new()))
        }),
        None
    );
    assert_eq!(
        to_json_value_from_primitive_any_value(OtlpAnyValue {
            value: Some(OtlpValue::StringValue("x".to_string()))
        }),
        Some(JsonPrimitive::String("x".to_string()))
    );
}

#[test]
fn an_array_keeps_its_primitive_items_in_order() {
    let array = OtlpValue::ArrayValue(vec![
        OtlpAnyValue {
            value: Some(OtlpValue::BoolValue(false)),
        },
        OtlpAnyValue { value: None },
        OtlpAnyValue {
            value: Some(OtlpValue::ArrayValue(vec![OtlpAnyValue {
                value: Some(OtlpValue::IntValue(1)),
            }])),
        },
        OtlpAnyValue {
            value: Some(OtlpValue::DoubleValue(f64::NAN.to_bits())),
        },
        OtlpAnyValue {
            value: Some(OtlpValue::StringValue("last".to_string())),
        },
    ]);
    assert_eq!(
        to_json_value(array),
        Some(JsonValue::Array(vec![
            JsonPrimitive::Bool(false),
            JsonPrimitive::String("last".to_string())
        ]))
    );
}

#[test]
fn a_later_attribute_replaces_an_earlier_one_with_the_same_key() {
    let attributes = vec![
        OtlpKeyValue {
            key: "k".to_string(),
            value: Some(OtlpAnyValue {
                value: Some(OtlpValue::IntValue(1)),
            }),
        },
        OtlpKeyValue {
            key: "other".to_string(),
            value: Some(OtlpAnyValue {
                value: Some(OtlpValue::IntValue(2)),
            }),
        },
        OtlpKeyValue {
            key: "k".to_string(),
            value: Some(OtlpAnyValue {
                value: Some(OtlpValue::IntValue(3)),
            }),
        },
        OtlpKeyValue {
            key: "k".to_string(),
            value: Some(OtlpAnyValue {
                value: Some(OtlpValue::BytesValue(vec![0])),
            }),
        },
    ];
    let extracted = extract_attributes(attributes);
    assert_eq!(extracted.len(), 2);
    assert_eq!(extracted.get("k"), Some(&JsonValue::Integer(3)));
    assert_eq!(extracted.get("other"), Some(&JsonValue::Integer(2)));
    assert_eq!(extracted.get("missing"), None);

    let mut attributes = Attributes::new();
    assert!(attributes.is_empty());
    attributes.insert("a".to_string(), JsonValue::Bool(true));
    attributes.insert("a".to_string(), JsonValue::Bool(false));
    assert_eq!(attributes.len(), 1);
    assert_eq!(attributes.get("a"), Some(&JsonValue::Bool(false)));
}
