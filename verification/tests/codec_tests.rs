use holium_core::codec::{
    schema_of, CodecError, DataValue, KeyNode, Node, Scalar, SchemaRegistry, TypeDesc,
};

fn leaf(s: Scalar) -> Node {
    Node { value: Some(s), children: vec![] }
}

fn empty_key_node() -> KeyNode {
    KeyNode { value: None, children: vec![] }
}

fn named_key(name: &str, children: Vec<KeyNode>) -> KeyNode {
    KeyNode { value: Some(name.to_string()), children }
}

#[test]
fn can_represent_null_value() {
    assert_eq!(
        Node::new(DataValue::Null),
        Node { value: Some(Scalar::Null), children: vec![] }
    )
}

#[test]
fn can_represent_boolean_value() {
    assert_eq!(
        Node::new(DataValue::Bool(true)),
        Node { value: Some(Scalar::Bool(true)), children: vec![] }
    );
    assert_eq!(
        Node::new(DataValue::Bool(false)),
        Node { value: Some(Scalar::Bool(false)), children: vec![] }
    )
}

#[test]
fn can_represent_array() {
    assert_eq!(
        Node::new(DataValue::Array(vec![
            DataValue::Array(vec![DataValue::Null]),
            DataValue::Null,
        ])),
        Node {
            value: None,
            children: vec![
                Node { value: None, children: vec![leaf(Scalar::Null)] },
                leaf(Scalar::Null),
            ],
        }
    )
}

#[test]
fn can_represent_map() {
    assert_eq!(
        Node::new(DataValue::Mapping(vec![(DataValue::Null, DataValue::Integer(0))])),
        Node { value: None, children: vec![leaf(Scalar::Integer(0))] }
    )
}

#[test]
fn can_import_tagged_value() {
    assert_eq!(
        Node::new(DataValue::Tagged(0, Box::new(DataValue::Null))),
        Node { value: Some(Scalar::Null), children: vec![] }
    )
}

#[test]
fn can_assign_map() {
    // A record holding a nested record: {key: {key: 0}}, serialized form.
    let structure_cbor = DataValue::Mapping(vec![(
        DataValue::Text("key".to_string()),
        DataValue::Mapping(vec![(
            DataValue::Text("key".to_string()),
            DataValue::Integer(0),
        )]),
    )]);

    let key_tree = KeyNode {
        value: None,
        children: vec![named_key("key", vec![named_key("key", vec![])])],
    };

    let structure_data = Node::new(DataValue::Mapping(vec![(
        DataValue::Text("key".to_string()),
        DataValue::Mapping(vec![(
            DataValue::Text("key".to_string()),
            DataValue::Integer(0),
        )]),
    )]));

    let structure_assigned = structure_data.assign_keys(&key_tree).unwrap();

    assert_eq!(structure_cbor, structure_assigned);
}

#[test]
fn can_assign_array() {
    // A record holding a sequence: {key: [0, 1, 2, 3]}, serialized form.
    let elements = vec![
        DataValue::Integer(0),
        DataValue::Integer(1),
        DataValue::Integer(2),
        DataValue::Integer(3),
    ];
    let structure_cbor = DataValue::Mapping(vec![(
        DataValue::Text("key".to_string()),
        DataValue::Array(elements),
    )]);

    let key_tree = KeyNode { value: None, children: vec![named_key("key", vec![])] };

    let structure_data = Node::new(DataValue::Mapping(vec![(
        DataValue::Text("key".to_string()),
        DataValue::Array(vec![
            DataValue::Integer(0),
            DataValue::Integer(1),
            DataValue::Integer(2),
            DataValue::Integer(3),
        ]),
    )]));

    let structure_assigned = structure_data.assign_keys(&key_tree).unwrap();

    assert_eq!(structure_cbor, structure_assigned);
}

#[test]
fn test_array() {
    let expected = empty_key_node();
    assert_eq!(
        expected,
        schema_of(&TypeDesc::Sequence(Box::new(TypeDesc::Scalar)))
    );
    let expected = empty_key_node();
    assert_eq!(
        expected,
        schema_of(&TypeDesc::Sequence(Box::new(TypeDesc::Record(vec![(
            "key".to_string(),
            TypeDesc::Scalar
        )]))))
    );
}

#[test]
fn test_vec() {
    assert_eq!(
        empty_key_node(),
        schema_of(&TypeDesc::Sequence(Box::new(TypeDesc::Scalar)))
    );
}

#[test]
fn test_option() {
    assert_eq!(
        empty_key_node(),
        schema_of(&TypeDesc::Optional(Box::new(TypeDesc::Scalar)))
    );
}

#[test]
fn schema_of_record_names_fields_in_order() {
    let desc = TypeDesc::Record(vec![
        ("a".to_string(), TypeDesc::Scalar),
        ("b".to_string(), TypeDesc::Sequence(Box::new(TypeDesc::Scalar))),
    ]);
    let schema = schema_of(&desc);
    assert_eq!(
        schema,
        KeyNode {
            value: None,
            children: vec![named_key("a", vec![]), named_key("b", vec![])],
        }
    );
}

#[test]
fn schema_of_optional_record_is_transparent() {
    let desc = TypeDesc::Optional(Box::new(TypeDesc::Record(vec![(
        "n".to_string(),
        TypeDesc::Scalar,
    )])));
    assert_eq!(
        schema_of(&desc),
        KeyNode { value: None, children: vec![named_key("n", vec![])] }
    );
}

#[test]
fn leaf_ignores_schema() {
    // Reconciling a leaf returns its scalar whatever schema is passed.
    let tree = Node::new(DataValue::Integer(42));
    let rich_schema = KeyNode {
        value: None,
        children: vec![named_key("a", vec![]), named_key("b", vec![])],
    };
    assert_eq!(tree.assign_keys(&rich_schema).unwrap(), DataValue::Integer(42));
    assert_eq!(
        tree.assign_keys(&empty_key_node()).unwrap(),
        DataValue::Integer(42)
    );
}

#[test]
fn empty_schema_yields_array_not_map() {
    // An interior node reconciled against the empty schema always becomes a
    // sequence of its child count, even when it came from a mapping.
    let tree = Node::new(DataValue::Mapping(vec![
        (DataValue::Text("a".to_string()), DataValue::Integer(1)),
        (DataValue::Text("b".to_string()), DataValue::Integer(2)),
    ]));
    let out = tree.assign_keys(&empty_key_node()).unwrap();
    assert_eq!(
        out,
        DataValue::Array(vec![DataValue::Integer(1), DataValue::Integer(2)])
    );
}

#[test]
fn round_trip_record_value() {
    // Shape a valid record instance, reconcile against its own schema, and
    // get the instance back unchanged.
    let value = DataValue::Mapping(vec![
        (DataValue::Text("a".to_string()), DataValue::Integer(3)),
        (
            DataValue::Text("b".to_string()),
            DataValue::Text("x".to_string()),
        ),
    ]);
    let schema = KeyNode {
        value: None,
        children: vec![named_key("a", vec![]), named_key("b", vec![])],
    };
    let reproduced = Node::new(DataValue::Mapping(vec![
        (DataValue::Text("a".to_string()), DataValue::Integer(3)),
        (
            DataValue::Text("b".to_string()),
            DataValue::Text("x".to_string()),
        ),
    ]))
    .assign_keys(&schema)
    .unwrap();
    assert_eq!(reproduced, value);
}

#[test]
fn mismatched_child_counts_are_a_typed_error() {
    // Shape has two children, schema provides one name: a shape mismatch,
    // not a crash; and the other way round as well.
    let tree = Node::new(DataValue::Array(vec![
        DataValue::Integer(1),
        DataValue::Integer(2),
    ]));
    let narrow = KeyNode { value: None, children: vec![named_key("only", vec![])] };
    assert_eq!(tree.assign_keys(&narrow), Err(CodecError::ShapeMismatch));

    let wide = KeyNode {
        value: None,
        children: vec![
            named_key("a", vec![]),
            named_key("b", vec![]),
            named_key("c", vec![]),
        ],
    };
    assert_eq!(tree.assign_keys(&wide), Err(CodecError::ShapeMismatch));
}

#[test]
fn unnamed_record_position_is_a_typed_error() {
    let tree = Node::new(DataValue::Array(vec![DataValue::Integer(1), DataValue::Null]));
    let schema = KeyNode {
        value: None,
        children: vec![named_key("a", vec![]), empty_key_node()],
    };
    assert_eq!(tree.assign_keys(&schema), Err(CodecError::ShapeMismatch));
}

#[test]
fn registry_registers_and_looks_up() {
    let mut reg = SchemaRegistry::new();
    let schema = schema_of(&TypeDesc::Record(vec![("n".to_string(), TypeDesc::Scalar)]));
    assert!(reg.lookup("Point").is_none());
    assert!(reg.register("Point".to_string(), schema));
    let found = reg.lookup("Point").unwrap();
    assert_eq!(
        *found,
        KeyNode { value: None, children: vec![named_key("n", vec![])] }
    );
    assert!(reg.lookup("Other").is_none());
}

#[test]
fn registry_rejects_duplicate_names() {
    let mut reg = SchemaRegistry::new();
    assert!(reg.register("T".to_string(), KeyNode { value: None, children: vec![] }));
    assert!(!reg.register(
        "T".to_string(),
        KeyNode { value: None, children: vec![named_key("x", vec![])] }
    ));
    // The first registration stands.
    assert_eq!(
        *reg.lookup("T").unwrap(),
        KeyNode { value: None, children: vec![] }
    );
}

#[test]
fn scalar_leaves_preserve_their_payload() {
    let tree = Node::new(DataValue::Bytes(vec![1, 2, 3]));
    assert_eq!(
        tree,
        Node { value: Some(Scalar::Bytes(vec![1, 2, 3])), children: vec![] }
    );
    assert_eq!(
        tree.assign_keys(&empty_key_node()).unwrap(),
        DataValue::Bytes(vec![1, 2, 3])
    );
    let text = Node::new(DataValue::Text("hi".to_string()));
    assert_eq!(
        text.assign_keys(&empty_key_node()).unwrap(),
        DataValue::Text("hi".to_string())
    );
}
