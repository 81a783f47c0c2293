use holium_core::sections::{
    extract_custom_sections_by_name, extract_from_module, try_as_one_section,
    version_section_bytes, version_section_name, TagError,
};
use holium_core::version::SemVer;
use holium_core::wire::reconcile_wire;
use holium_core::codec::{schema_of, DataValue, TypeDesc};
use std::collections::BTreeMap;

// Embed a version section into a module, as the build step does.
fn embed_version(mut module: walrus::Module, version: &str) -> walrus::Module {
    module.customs.add(walrus::RawCustomSection {
        name: version_section_name().to_string(),
        data: version_section_bytes(version),
    });
    module
}

#[test]
fn cannot_isolate_element_from_multiple_elements_slice() {
    let vector: Vec<u32> = vec![10, 20];

    let result = try_as_one_section(&vector);

    assert!(result.is_err());
}

#[test]
fn cannot_isolate_element_from_no_elements_slice() {
    let vector: Vec<u32> = vec![];

    let result = try_as_one_section(&vector);

    assert!(result.is_err());
}

#[test]
fn can_isolate_element_from_one_element_slice() {
    let vector: Vec<u32> = vec![10];

    let element = try_as_one_section(&vector).unwrap();

    assert_eq!(&vector[0], element);
}

#[test]
fn cannot_convert_non_utf8_bytes_to_version() {
    let malformed_slice: Vec<u8> = vec![0, 159, 146, 150];

    let conversion = holium_core::sections::as_semver(&malformed_slice);

    assert!(conversion.is_err());
}

#[test]
fn cannot_convert_malformed_bytes_to_version() {
    let malformed_str = "I am str !";

    let conversion = holium_core::sections::as_semver(malformed_str.as_bytes());

    assert!(conversion.is_err());
}

#[test]
fn can_convert_bytes_to_version() {
    let version_str = "1.0.0-alpha";
    let version = SemVer {
        major: 1,
        minor: 0,
        patch: 0,
        pre: "alpha".to_string(),
        build: String::new(),
    };

    let conversion = holium_core::sections::as_semver(version_str.as_bytes()).unwrap();

    assert_eq!(version, conversion);
}

#[test]
fn utf8_and_version_failures_are_distinct() {
    assert_eq!(
        holium_core::sections::as_semver(&[0, 159, 146, 150]),
        Err(TagError::InvalidUtf8)
    );
    assert_eq!(
        holium_core::sections::as_semver("I am str !".as_bytes()),
        Err(TagError::InvalidVersion)
    );
}

#[test]
fn can_get_sections_from_module() {
    let module = walrus::Module::default();
    let module_w_section = embed_version(module, "1.0.0-alpha");

    let sections = extract_custom_sections_by_name(&module_w_section, version_section_name());

    assert_eq!(sections.len(), 1);
}

#[test]
fn can_get_version_from_module() {
    let module = walrus::Module::default();
    let module_w_section = embed_version(module, "1.0.0-alpha");

    let extracted_version = extract_from_module(&module_w_section).unwrap();

    assert_eq!(
        extracted_version,
        SemVer {
            major: 1,
            minor: 0,
            patch: 0,
            pre: "alpha".to_string(),
            build: String::new(),
        }
    );
}

#[test]
fn zero_sections_fail_with_no_sections_found() {
    let module = walrus::Module::default();
    assert_eq!(extract_from_module(&module), Err(TagError::NoSections));
}

#[test]
fn two_sections_fail_with_multiple_sections() {
    let module = walrus::Module::default();
    let module = embed_version(module, "1.0.0");
    let module = embed_version(module, "2.0.0");
    assert_eq!(extract_from_module(&module), Err(TagError::MultipleSections));
}

#[test]
fn embedded_prerelease_version_round_trips() {
    let module = embed_version(walrus::Module::default(), "1.2.3-beta");
    let extracted = extract_from_module(&module).unwrap();
    assert_eq!(extracted.major, 1);
    assert_eq!(extracted.minor, 2);
    assert_eq!(extracted.patch, 3);
    assert_eq!(extracted.pre, "beta");
    assert_eq!(extracted.build, "");
}

#[test]
fn sections_under_other_names_are_ignored() {
    let mut module = walrus::Module::default();
    module.customs.add(walrus::RawCustomSection {
        name: "some_other_section".to_string(),
        data: vec![1, 2, 3],
    });
    assert_eq!(extract_from_module(&module), Err(TagError::NoSections));
    assert_eq!(
        extract_custom_sections_by_name(&module, "some_other_section"),
        vec![vec![1, 2, 3]]
    );
}

#[test]
fn invalid_section_bytes_fail_distinctly() {
    let mut module = walrus::Module::default();
    module.customs.add(walrus::RawCustomSection {
        name: version_section_name().to_string(),
        data: vec![0, 159, 146, 150],
    });
    assert_eq!(extract_from_module(&module), Err(TagError::InvalidUtf8));

    let mut module = walrus::Module::default();
    module.customs.add(walrus::RawCustomSection {
        name: version_section_name().to_string(),
        data: b"not a version".to_vec(),
    });
    assert_eq!(extract_from_module(&module), Err(TagError::InvalidVersion));
}

#[test]
fn error_messages_name_the_section() {
    assert!(TagError::MultipleSections
        .message()
        .contains("__holium_sdk_version"));
    assert_eq!(TagError::NoSections.message(), "no sections found in given module");
}

// The concrete guest-call scenario: a record {number: 7}, encoded to the
// compact binary wire format, shaped and reconciled against its own schema,
// decodes back to the same record.
#[test]
fn wire_record_round_trips_through_the_pipeline() {
    let mut map = BTreeMap::new();
    map.insert(
        serde_cbor::Value::Text("number".to_string()),
        serde_cbor::Value::Integer(7),
    );
    let bytes = serde_cbor::to_vec(&serde_cbor::Value::Map(map)).unwrap();

    let desc = TypeDesc::Record(vec![("number".to_string(), TypeDesc::Scalar)]);
    let schema = schema_of(&desc);

    let reconciled = reconcile_wire(&bytes, &schema).unwrap();
    assert_eq!(
        reconciled,
        DataValue::Mapping(vec![(
            DataValue::Text("number".to_string()),
            DataValue::Integer(7),
        )])
    );
}

// A two-field record nested inside a two-element sequence reconciles
// correctly at both levels: the sequence stays positional, and each element
// reconciles as a record against the record's own schema.
#[test]
fn wire_sequence_of_records_reconciles_at_both_levels() {
    let record = |a: i128, b: &str| {
        let mut m = BTreeMap::new();
        m.insert(
            serde_cbor::Value::Text("a".to_string()),
            serde_cbor::Value::Integer(a),
        );
        m.insert(
            serde_cbor::Value::Text("b".to_string()),
            serde_cbor::Value::Text(b.to_string()),
        );
        serde_cbor::Value::Map(m)
    };
    let seq = serde_cbor::Value::Array(vec![record(3, "x"), record(4, "y")]);
    let bytes = serde_cbor::to_vec(&seq).unwrap();

    // The sequence wrapper contributes no naming: under the empty schema it
    // stays a two-element sequence.
    let seq_desc = TypeDesc::Sequence(Box::new(TypeDesc::Record(vec![
        ("a".to_string(), TypeDesc::Scalar),
        ("b".to_string(), TypeDesc::Scalar),
    ])));
    let outer = reconcile_wire(&bytes, &schema_of(&seq_desc)).unwrap();
    match &outer {
        DataValue::Array(els) => assert_eq!(els.len(), 2),
        other => panic!("expected a sequence, got {:?}", other),
    }

    // Each element, reconciled directly against the record's schema, comes
    // back as the named record.
    let record_desc = TypeDesc::Record(vec![
        ("a".to_string(), TypeDesc::Scalar),
        ("b".to_string(), TypeDesc::Scalar),
    ]);
    let element_bytes = serde_cbor::to_vec(&record(3, "x")).unwrap();
    let element = reconcile_wire(&element_bytes, &schema_of(&record_desc)).unwrap();
    assert_eq!(
        element,
        DataValue::Mapping(vec![
            (DataValue::Text("a".to_string()), DataValue::Integer(3)),
            (
                DataValue::Text("b".to_string()),
                DataValue::Text("x".to_string())
            ),
        ])
    );
}

#[test]
fn garbage_bytes_are_a_decode_error() {
    let schema = schema_of(&TypeDesc::Scalar);
    let r = reconcile_wire(&[0xff, 0xff, 0xff], &schema);
    assert_eq!(r, Err(holium_core::codec::CodecError::Decode));
}

#[test]
fn tagged_wire_values_are_unwrapped() {
    // A tagged value on the wire is transparently unwrapped by shaping.
    let tagged = serde_cbor::Value::Tag(1, Box::new(serde_cbor::Value::Integer(5)));
    let bytes = serde_cbor::to_vec(&tagged).unwrap();
    let out = reconcile_wire(&bytes, &schema_of(&TypeDesc::Scalar)).unwrap();
    assert_eq!(out, DataValue::Integer(5));
}
