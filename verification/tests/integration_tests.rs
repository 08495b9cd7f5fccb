use serde_try_from::codec::{decode, encode, DecodeError, EncodeError};
use serde_try_from::record::{Field, FieldKind, FieldValue, Record, Schema, SchemaField};
use serde_try_from::templates::{
    derive_source, derive_try_from, derive_try_from_de, derive_try_from_se,
    generate_try_from_struct, generate_try_from_value, Capability,
};
use serde_try_from::value::{find_member, DynValue};

fn sample_value() -> DynValue {
    DynValue::Obj(vec![
        ("field1".to_string(), DynValue::Str("value1".to_string())),
        ("field2".to_string(), DynValue::Int(42)),
    ])
}

fn sample_schema() -> Schema {
    Schema {
        fields: vec![
            SchemaField {
                name: "field1".to_string(),
                kind: FieldKind::Str,
            },
            SchemaField {
                name: "field2".to_string(),
                kind: FieldKind::Int,
            },
        ],
    }
}

fn sample_record() -> Record {
    Record {
        fields: vec![
            Field {
                name: "field1".to_string(),
                value: FieldValue::Str("value1".to_string()),
            },
            Field {
                name: "field2".to_string(),
                value: FieldValue::Int(42),
            },
        ],
    }
}

#[test]
fn test_try_from_value() {
    let json_value = sample_value();
    let expected = sample_record();

    let result = decode(&sample_schema(), &json_value);
    assert!(result.is_ok());
    assert_eq!(result.unwrap(), expected);
}

#[test]
fn test_try_from_struct() {
    let test_struct = sample_record();
    let expected_json = sample_value();

    let json_value = encode(test_struct);
    assert!(json_value.is_ok());
    assert_eq!(json_value.unwrap(), expected_json);
}

#[test]
fn test_try_into_value() {
    let json_value = sample_value();
    let expected_struct = sample_record();

    let result_json: Result<DynValue, EncodeError> = encode(expected_struct);

    assert!(result_json.is_ok());
    assert_eq!(result_json.unwrap(), json_value);
}

#[test]
fn test_invalid_try_from_value() {
    // Missing field2.
    let invalid_json = DynValue::Obj(vec![(
        "field1".to_string(),
        DynValue::Str("value1".to_string()),
    )]);

    let result = decode(&sample_schema(), &invalid_json);
    assert!(result.is_err());
}

#[test]
fn test_only_try_from_deserialize() {
    let json_value = sample_value();
    let expected = sample_record();

    // A decode-only record type gets no encode conversion...
    assert_eq!(
        derive_try_from_de("StructWithDeserializeOnly"),
        generate_try_from_value("StructWithDeserializeOnly")
    );
    // ...and still constructs from a valid dynamic value.
    let result = decode(&sample_schema(), &json_value);
    assert!(result.is_ok());
    assert_eq!(result.unwrap(), expected);
}

#[test]
fn test_value_try_from_failure_custom_type() {
    let invalid_struct = Record {
        fields: vec![
            Field {
                name: "field1".to_string(),
                value: FieldValue::Str("value1".to_string()),
            },
            Field {
                name: "field2".to_string(),
                value: FieldValue::Unsupported(
                    "Serialization is not supported for NonSerializable".to_string(),
                ),
            },
        ],
    };

    let result = encode(invalid_struct);

    // This should fail because field2 cannot be serialized.
    assert!(result.is_err());
    assert!(format!("{:?}", result.unwrap_err())
        .contains("Serialization is not supported for NonSerializable"));
}

#[test]
fn test_round_trip() {
    let record = sample_record();
    let encoded = encode(sample_record()).unwrap();
    let decoded = decode(&sample_schema(), &encoded).unwrap();
    assert_eq!(decoded, record);
}

#[test]
fn test_decode_twice_yields_equal_records() {
    let json_value = sample_value();
    let schema = sample_schema();
    let first = decode(&schema, &json_value).unwrap();
    let second = decode(&schema, &json_value).unwrap();
    assert_eq!(first, second);
}

#[test]
fn test_decode_rejects_non_object() {
    let result = decode(&sample_schema(), &DynValue::Str("value1".to_string()));
    assert_eq!(result, Err(DecodeError::NotAnObject));
    assert_eq!(
        DecodeError::NotAnObject.message(),
        "expected an object".to_string()
    );
}

#[test]
fn test_decode_missing_field_message() {
    let invalid_json = DynValue::Obj(vec![(
        "field1".to_string(),
        DynValue::Str("value1".to_string()),
    )]);
    let result = decode(&sample_schema(), &invalid_json);
    let err = result.unwrap_err();
    assert_eq!(err, DecodeError::MissingField("field2".to_string()));
    assert_eq!(err.message(), "missing field `field2`".to_string());
}

#[test]
fn test_decode_rejects_mistyped_field() {
    let invalid_json = DynValue::Obj(vec![
        ("field1".to_string(), DynValue::Str("value1".to_string())),
        ("field2".to_string(), DynValue::Str("42".to_string())),
    ]);
    let result = decode(&sample_schema(), &invalid_json);
    let err = result.unwrap_err();
    assert_eq!(err, DecodeError::WrongKind("field2".to_string()));
    assert_eq!(
        err.message(),
        "value of wrong kind for field `field2`".to_string()
    );
}

#[test]
fn test_decode_empty_schema_accepts_any_object() {
    let schema = Schema { fields: vec![] };
    let result = decode(&schema, &sample_value());
    assert_eq!(result.unwrap(), Record { fields: vec![] });
}

#[test]
fn test_first_member_wins_on_duplicate_names() {
    let members = vec![
        ("field1".to_string(), DynValue::Str("value1".to_string())),
        ("field1".to_string(), DynValue::Str("shadowed".to_string())),
    ];
    let found = find_member(&members, &"field1".to_string());
    assert_eq!(found, Some(&DynValue::Str("value1".to_string())));

    let schema = Schema {
        fields: vec![SchemaField {
            name: "field1".to_string(),
            kind: FieldKind::Str,
        }],
    };
    let decoded = decode(&schema, &DynValue::Obj(members)).unwrap();
    assert_eq!(
        decoded.fields[0].value,
        FieldValue::Str("value1".to_string())
    );
}

#[test]
fn test_encode_error_preserves_message_verbatim() {
    let record = Record {
        fields: vec![Field {
            name: "field1".to_string(),
            value: FieldValue::Unsupported("custom cause".to_string()),
        }],
    };
    let err = encode(record).unwrap_err();
    assert_eq!(err.message, "custom cause".to_string());
}

#[test]
fn test_encode_reports_first_failing_field() {
    let record = Record {
        fields: vec![
            Field {
                name: "field1".to_string(),
                value: FieldValue::Unsupported("first".to_string()),
            },
            Field {
                name: "field2".to_string(),
                value: FieldValue::Unsupported("second".to_string()),
            },
        ],
    };
    let err = encode(record).unwrap_err();
    assert_eq!(err.message, "first".to_string());
}

#[test]
fn test_generate_try_from_value_text() {
    let expected = "impl std::convert::TryFrom<serde_json::Value> for TestStruct\nwhere\n    TestStruct: serde::de::DeserializeOwned,\n{\n    type Error = serde_json::Error;\n\n    fn try_from(value: serde_json::Value) -> Result<Self, Self::Error> {\n        serde_json::from_value(value)\n    }\n}\n";
    assert_eq!(generate_try_from_value("TestStruct"), expected.to_string());
}

#[test]
fn test_generate_try_from_struct_text() {
    let expected = "impl std::convert::TryFrom<TestStruct> for serde_json::Value\nwhere\n    TestStruct: serde::Serialize,\n{\n    type Error = serde_json::Error;\n\n    fn try_from(value: TestStruct) -> Result<Self, Self::Error> {\n        serde_json::to_value(value)\n    }\n}\n";
    assert_eq!(generate_try_from_struct("TestStruct"), expected.to_string());
}

#[test]
fn test_derive_try_from_emits_both_conversions() {
    let both = derive_try_from("TestStruct");
    let mut expected = generate_try_from_value("TestStruct");
    expected.push_str(&generate_try_from_struct("TestStruct"));
    assert_eq!(both, expected);
}

#[test]
fn test_derive_source_follows_capability() {
    assert_eq!(
        derive_source("TestStruct", Capability::Decode),
        derive_try_from_de("TestStruct")
    );
    assert_eq!(
        derive_source("TestStruct", Capability::Encode),
        derive_try_from_se("TestStruct")
    );
    assert_eq!(
        derive_source("TestStruct", Capability::Both),
        derive_try_from("TestStruct")
    );
    // The decode-only emission holds no serializer call.
    assert!(!derive_source("TestStruct", Capability::Decode).contains("serde_json::to_value"));
    // The encode-only emission holds no deserializer call.
    assert!(!derive_source("TestStruct", Capability::Encode).contains("serde_json::from_value"));
}
