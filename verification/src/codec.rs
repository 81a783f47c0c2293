//! The structural codec: scalar and self-describing values, the positional
//! shape tree built from a value, the naming schema derived once per record
//! type, and the reconciliation engine that fuses a shape tree with a naming
//! schema into a keyed value.

use vstd::prelude::*;

verus! {

/// Scalar wire value held by the leaf of a data tree.
///
/// A floating-point leaf carries the raw bit pattern of the 64-bit float, so
/// that the codec itself works on plain integers only.
#[derive(Debug, PartialEq)]
pub enum Scalar {
    Null,
    Bool(bool),
    Integer(i128),
    Float(u64),
    Bytes(Vec<u8>),
    Text(String),
}

/// Mathematical model of a `Scalar`.
pub ghost enum ScalarV {
    Null,
    Bool(bool),
    Integer(int),
    Float(u64),
    Bytes(Seq<u8>),
    Text(Seq<char>),
}

/// The model of a scalar value.
pub open spec fn scalar_view(v: Scalar) -> ScalarV {
    match v {
        Scalar::Null => ScalarV::Null,
        Scalar::Bool(b) => ScalarV::Bool(b),
        Scalar::Integer(i) => ScalarV::Integer(i as int),
        Scalar::Float(bits) => ScalarV::Float(bits),
        Scalar::Bytes(b) => ScalarV::Bytes(b@),
        Scalar::Text(t) => ScalarV::Text(t@),
    }
}

impl View for Scalar {
    type V = ScalarV;

    open spec fn view(&self) -> ScalarV {
        scalar_view(*self)
    }
}

/// A generic self-describing value: scalars, a tagged wrapper, ordered
/// sequences and key-ordered mappings.  This is the in-memory form of the
/// compact binary wire format at the guest boundary.
///
/// The entries of a `Mapping` are kept in the mapping's own key order; the
/// codec never reorders them.
#[derive(Debug, PartialEq)]
pub enum DataValue {
    Null,
    Bool(bool),
    Integer(i128),
    Float(u64),
    Bytes(Vec<u8>),
    Text(String),
    Tagged(u64, Box<DataValue>),
    Array(Vec<DataValue>),
    Mapping(Vec<(DataValue, DataValue)>),
}

/// Mathematical model of a `DataValue`.
pub ghost enum ValueV {
    Null,
    Bool(bool),
    Integer(int),
    Float(u64),
    Bytes(Seq<u8>),
    Text(Seq<char>),
    Tagged(u64, Box<ValueV>),
    Array(Seq<ValueV>),
    Mapping(Seq<(ValueV, ValueV)>),
}

/// The model of a self-describing value.
pub open spec fn data_view(v: DataValue) -> ValueV
    decreases v,
{
    match v {
        DataValue::Null => ValueV::Null,
        DataValue::Bool(b) => ValueV::Bool(b),
        DataValue::Integer(i) => ValueV::Integer(i as int),
        DataValue::Float(bits) => ValueV::Float(bits),
        DataValue::Bytes(b) => ValueV::Bytes(b@),
        DataValue::Text(t) => ValueV::Text(t@),
        DataValue::Tagged(tag, inner) => ValueV::Tagged(tag, Box::new(data_view(*inner))),
        DataValue::Array(els) => ValueV::Array(
            Seq::new(
                els@.len(),
                |i: int|
                    if 0 <= i < els@.len() {
                        data_view(els@[i])
                    } else {
                        ValueV::Null
                    },
            ),
        ),
        DataValue::Mapping(entries) => ValueV::Mapping(
            Seq::new(
                entries@.len(),
                |i: int|
                    if 0 <= i < entries@.len() {
                        (data_view(entries@[i].0), data_view(entries@[i].1))
                    } else {
                        (ValueV::Null, ValueV::Null)
                    },
            ),
        ),
    }
}

impl View for DataValue {
    type V = ValueV;

    open spec fn view(&self) -> ValueV {
        data_view(*self)
    }
}

/// True of the self-describing values that are scalars: exactly those that
/// become leaves of a shape tree.
pub open spec fn is_scalar(v: ValueV) -> bool {
    match v {
        ValueV::Null => true,
        ValueV::Bool(_) => true,
        ValueV::Integer(_) => true,
        ValueV::Float(_) => true,
        ValueV::Bytes(_) => true,
        ValueV::Text(_) => true,
        _ => false,
    }
}

/// The scalar held by a scalar self-describing value.
pub open spec fn scalar_of(v: ValueV) -> ScalarV
    recommends
        is_scalar(v),
{
    match v {
        ValueV::Null => ScalarV::Null,
        ValueV::Bool(b) => ScalarV::Bool(b),
        ValueV::Integer(i) => ScalarV::Integer(i),
        ValueV::Float(bits) => ScalarV::Float(bits),
        ValueV::Bytes(b) => ScalarV::Bytes(b),
        ValueV::Text(t) => ScalarV::Text(t),
        _ => ScalarV::Null,
    }
}

/// The self-describing value a scalar stands for.
pub open spec fn scalar_value(s: ScalarV) -> ValueV {
    match s {
        ScalarV::Null => ValueV::Null,
        ScalarV::Bool(b) => ValueV::Bool(b),
        ScalarV::Integer(i) => ValueV::Integer(i),
        ScalarV::Float(bits) => ValueV::Float(bits),
        ScalarV::Bytes(b) => ValueV::Bytes(b),
        ScalarV::Text(t) => ValueV::Text(t),
    }
}

/// One node of a naming schema: an optional field name (`None` at the root
/// and for non-record positions) and one child per field, in declaration
/// order.
#[derive(Debug, PartialEq)]
pub struct KeyNode {
    pub value: Option<String>,
    pub children: Vec<KeyNode>,
}

/// Mathematical model of a `KeyNode`.
pub ghost struct KeyNodeV {
    pub value: Option<Seq<char>>,
    pub children: Seq<KeyNodeV>,
}

/// The model of a schema node.
pub open spec fn key_view(k: KeyNode) -> KeyNodeV
    decreases k,
{
    KeyNodeV {
        value: match k.value {
            Some(name) => Some(name@),
            None => None,
        },
        children: Seq::new(
            k.children@.len(),
            |i: int|
                if 0 <= i < k.children@.len() {
                    key_view(k.children@[i])
                } else {
                    empty_key()
                },
        ),
    }
}

impl View for KeyNode {
    type V = KeyNodeV;

    open spec fn view(&self) -> KeyNodeV {
        key_view(*self)
    }
}

/// The schema that signals "no further naming available": such a subtree is
/// reconciled as a plain sequence, never as a record.
pub open spec fn empty_key() -> KeyNodeV {
    KeyNodeV { value: None, children: Seq::empty() }
}

impl KeyNode {
    /// The schema of every scalar type and of every sequence type.
    pub fn empty() -> (r: KeyNode)
        ensures
            r@ == empty_key(),
    {
        let r = KeyNode { value: None, children: Vec::new() };
        proof {
            assert(r@.children =~= empty_key().children);
        }
        r
    }
}

/// Description of a native type, as far as the naming schema cares: scalars
/// and sequences contribute no names, an optional type is transparent, and a
/// record contributes one named child per declared field, in declaration
/// order.
#[derive(Debug, PartialEq)]
pub enum TypeDesc {
    Scalar,
    Sequence(Box<TypeDesc>),
    Optional(Box<TypeDesc>),
    Record(Vec<(String, TypeDesc)>),
}

/// Mathematical model of a `TypeDesc`.
pub ghost enum TypeDescV {
    Scalar,
    Sequence(Box<TypeDescV>),
    Optional(Box<TypeDescV>),
    Record(Seq<(Seq<char>, TypeDescV)>),
}

/// The model of a type description.
pub open spec fn type_view(t: TypeDesc) -> TypeDescV
    decreases t,
{
    match t {
        TypeDesc::Scalar => TypeDescV::Scalar,
        TypeDesc::Sequence(inner) => TypeDescV::Sequence(Box::new(type_view(*inner))),
        TypeDesc::Optional(inner) => TypeDescV::Optional(Box::new(type_view(*inner))),
        TypeDesc::Record(fields) => TypeDescV::Record(
            Seq::new(
                fields@.len(),
                |i: int|
                    if 0 <= i < fields@.len() {
                        (fields@[i].0@, type_view(fields@[i].1))
                    } else {
                        (Seq::empty(), TypeDescV::Scalar)
                    },
            ),
        ),
    }
}

impl View for TypeDesc {
    type V = TypeDescV;

    open spec fn view(&self) -> TypeDescV {
        type_view(*self)
    }
}

/// The naming schema a type description derives: scalars and sequences get
/// the empty schema, an optional type the schema of its inner type, and a
/// record one named child per field carrying that field's own schema.
pub open spec fn schema_of_spec(t: TypeDescV) -> KeyNodeV
    decreases t,
{
    match t {
        TypeDescV::Scalar => empty_key(),
        TypeDescV::Sequence(_) => empty_key(),
        TypeDescV::Optional(inner) => schema_of_spec(*inner),
        TypeDescV::Record(fields) => KeyNodeV {
            value: None,
            children: Seq::new(
                fields.len(),
                |i: int|
                    if 0 <= i < fields.len() {
                        KeyNodeV {
                            value: Some(fields[i].0),
                            children: schema_of_spec(fields[i].1).children,
                        }
                    } else {
                        empty_key()
                    },
            ),
        },
    }
}

/// Derive the naming schema of a type description.
pub fn schema_of(t: &TypeDesc) -> (r: KeyNode)
    ensures
        r@ == schema_of_spec(t@),
    decreases t@,
{
    match t {
        TypeDesc::Scalar => KeyNode::empty(),
        TypeDesc::Sequence(_) => KeyNode::empty(),
        TypeDesc::Optional(inner) => {
            proof {
                let b = t@->Optional_0;
                assert(t@ == TypeDescV::Optional(b));
                assert(decreases_to!(TypeDescV::Optional(b) => *b));
            }
            schema_of(inner)
        },
        TypeDesc::Record(fields) => {
            let ghost fv = t@->Record_0;
            proof {
                assert(t@ == TypeDescV::Record(fv));
                assert(fv.len() == fields@.len());
                assert(forall|j: int|
                    0 <= j < fields@.len() ==> fv[j] == (fields@[j].0@, fields@[j].1@));
            }
            let mut children: Vec<KeyNode> = Vec::new();
            let mut i: usize = 0;
            while i < fields.len()
                invariant
                    i <= fields@.len(),
                    fv == t@->Record_0,
                    t@ == TypeDescV::Record(fv),
                    fv.len() == fields@.len(),
                    forall|j: int|
                        0 <= j < fields@.len() ==> fv[j] == (fields@[j].0@, fields@[j].1@),
                    children@.len() == i,
                    forall|j: int|
                        0 <= j < i as int ==> children@[j]@ == (KeyNodeV {
                            value: Some(fv[j].0),
                            children: schema_of_spec(fv[j].1).children,
                        }),
                decreases fields@.len() - i,
            {
                proof {
                    assert(decreases_to!(TypeDescV::Record(fv) => fv));
                    assert(decreases_to!(fv => fv[i as int]));
                    assert(decreases_to!(fv[i as int] => fv[i as int].1));
                    assert(fv[i as int].1 == fields@[i as int].1@);
                }
                let field_schema = schema_of(&fields[i].1);
                let child = KeyNode {
                    value: Some(fields[i].0.clone()),
                    children: field_schema.children,
                };
                proof {
                    assert(child@.children =~= schema_of_spec(fv[i as int].1).children);
                }
                children.push(child);
                i = i + 1;
            }
            let r = KeyNode { value: None, children };
            proof {
                let target = schema_of_spec(t@);
                assert(target == schema_of_spec(TypeDescV::Record(fv)));
                assert(target.children.len() == fv.len());
                assert(r@.children =~= target.children);
                assert(r@ == target);
            }
            r
        },
    }
}

/// Error of the structural codec.  `ShapeMismatch` is returned when a data
/// tree and a key tree cannot be fused because their child counts diverge
/// at some recursion depth, or a record position lacks a field name;
/// `Decode` when an incoming byte buffer is not a valid wire value.
#[derive(Debug, PartialEq, Eq, Structural, Clone, Copy)]
pub enum CodecError {
    ShapeMismatch,
    Decode,
}

/// One node of a data tree: a leaf holding exactly one scalar, or an
/// interior node holding only an ordered sequence of children.
#[derive(Debug, PartialEq)]
pub struct Node {
    pub value: Option<Scalar>,
    pub children: Vec<Node>,
}

/// Mathematical model of a `Node`.
pub ghost struct NodeV {
    pub value: Option<ScalarV>,
    pub children: Seq<NodeV>,
}

/// The model of a data-tree node.
pub open spec fn node_view(n: Node) -> NodeV
    decreases n,
{
    NodeV {
        value: match n.value {
            Some(s) => Some(scalar_view(s)),
            None => None,
        },
        children: Seq::new(
            n.children@.len(),
            |i: int|
                if 0 <= i < n.children@.len() {
                    node_view(n.children@[i])
                } else {
                    NodeV { value: None, children: Seq::empty() }
                },
        ),
    }
}

impl View for Node {
    type V = NodeV;

    open spec fn view(&self) -> NodeV {
        node_view(*self)
    }
}

/// A leaf of the shape tree: holds a scalar and no children.
pub open spec fn leaf_of(s: ScalarV) -> NodeV {
    NodeV { value: Some(s), children: Seq::empty() }
}

/// A node is well formed when it is a leaf exactly if it has no value
/// conflict: a node holding a scalar has no children.
pub open spec fn node_wf(n: NodeV) -> bool
    decreases n,
{
    &&& (n.value is Some ==> n.children.len() == 0)
    &&& (forall|i: int|
        0 <= i < n.children.len() ==> node_wf(#[trigger] n.children[i]))
}

/// The shape of a self-describing value: scalars become leaves, a tagged
/// wrapper is transparently unwrapped, sequences become interior nodes over
/// their elements, and mappings become interior nodes over their values in
/// the mapping's own key order, the keys being discarded.
pub open spec fn shape_of(v: ValueV) -> NodeV
    decreases v,
{
    match v {
        ValueV::Tagged(_, inner) => shape_of(*inner),
        ValueV::Array(els) => NodeV {
            value: None,
            children: Seq::new(
                els.len(),
                |i: int|
                    if 0 <= i < els.len() {
                        shape_of(els[i])
                    } else {
                        leaf_of(ScalarV::Null)
                    },
            ),
        },
        ValueV::Mapping(entries) => NodeV {
            value: None,
            children: Seq::new(
                entries.len(),
                |i: int|
                    if 0 <= i < entries.len() {
                        shape_of(entries[i].1)
                    } else {
                        leaf_of(ScalarV::Null)
                    },
            ),
        },
        _ => leaf_of(scalar_of(v)),
    }
}

/// Copy a byte string.
pub(crate) fn clone_bytes(v: &Vec<u8>) -> (r: Vec<u8>)
    ensures
        r@ == v@,
{
    let mut r: Vec<u8> = Vec::new();
    let mut i: usize = 0;
    while i < v.len()
        invariant
            i <= v@.len(),
            r@ == v@.subrange(0, i as int),
        decreases v@.len() - i,
    {
        r.push(v[i]);
        proof {
            assert(r@ =~= v@.subrange(0, i as int + 1));
        }
        i = i + 1;
    }
    proof {
        assert(r@ =~= v@);
    }
    r
}

impl Node {
    /// Create a data tree mirroring the nesting structure of a
    /// self-describing value.  The result is well formed: a leaf exactly
    /// where the value was a scalar.
    pub fn new(src: DataValue) -> (r: Node)
        ensures
            r@ == shape_of(src@),
            node_wf(r@),
    {
        proof {
            lemma_shape_well_formed(src@);
        }
        Node::build(&src)
    }

    /// Build the shape of a self-describing value, recursively.
    fn build(src: &DataValue) -> (r: Node)
        ensures
            r@ == shape_of(src@),
        decreases src@,
    {
        match src {
            DataValue::Null => Node::leaf(Scalar::Null),
            DataValue::Bool(b) => Node::leaf(Scalar::Bool(*b)),
            DataValue::Integer(i) => Node::leaf(Scalar::Integer(*i)),
            DataValue::Float(bits) => Node::leaf(Scalar::Float(*bits)),
            DataValue::Bytes(b) => Node::leaf(Scalar::Bytes(clone_bytes(b))),
            DataValue::Text(t) => Node::leaf(Scalar::Text(t.clone())),
            DataValue::Tagged(_, inner) => Node::build(inner),
            DataValue::Array(els) => {
                let ghost ev = src@->Array_0;
                proof {
                    assert(src@ == ValueV::Array(ev));
                    assert(ev.len() == els@.len());
                    assert(forall|j: int| 0 <= j < els@.len() ==> ev[j] == els@[j]@);
                }
                let mut children: Vec<Node> = Vec::new();
                let mut i: usize = 0;
                while i < els.len()
                    invariant
                        i <= els@.len(),
                        ev == src@->Array_0,
                        src@ == ValueV::Array(ev),
                        ev.len() == els@.len(),
                        forall|j: int| 0 <= j < els@.len() ==> ev[j] == els@[j]@,
                        children@.len() == i,
                        forall|j: int|
                            0 <= j < i as int ==> children@[j]@ == shape_of(ev[j]),
                    decreases els@.len() - i,
                {
                    proof {
                        assert(ev[i as int] == els@[i as int]@);
                    }
                    let child = Node::build(&els[i]);
                    children.push(child);
                    i = i + 1;
                }
                let r = Node { value: None, children };
                proof {
                    assert(r@.children =~= shape_of(src@).children);
                }
                r
            },
            DataValue::Mapping(entries) => {
                let ghost ev = src@->Mapping_0;
                proof {
                    assert(src@ == ValueV::Mapping(ev));
                    assert(ev.len() == entries@.len());
                    assert(forall|j: int|
                        0 <= j < entries@.len() ==> ev[j] == (
                            entries@[j].0@,
                            entries@[j].1@,
                        ));
                }
                let mut children: Vec<Node> = Vec::new();
                let mut i: usize = 0;
                while i < entries.len()
                    invariant
                        i <= entries@.len(),
                        ev == src@->Mapping_0,
                        src@ == ValueV::Mapping(ev),
                        ev.len() == entries@.len(),
                        forall|j: int|
                            0 <= j < entries@.len() ==> ev[j] == (
                                entries@[j].0@,
                                entries@[j].1@,
                            ),
                        children@.len() == i,
                        forall|j: int|
                            0 <= j < i as int ==> children@[j]@ == shape_of(ev[j].1),
                    decreases entries@.len() - i,
                {
                    proof {
                        assert(ev[i as int].1 == entries@[i as int].1@);
                    }
                    let child = Node::build(&entries[i].1);
                    children.push(child);
                    i = i + 1;
                }
                let r = Node { value: None, children };
                proof {
                    assert(r@.children =~= shape_of(src@).children);
                }
                r
            },
        }
    }

    /// A leaf node holding one scalar.
    fn leaf(v: Scalar) -> (r: Node)
        ensures
            r@ == leaf_of(v@),
    {
        let r = Node { value: Some(v), children: Vec::new() };
        proof {
            assert(r@.children =~= leaf_of(v@).children);
        }
        r
    }
}

/// Fuse a shape tree with a naming schema.  A leaf yields its scalar, the
/// schema being ignored.  An interior node paired with a schema that has
/// named children yields a mapping, pairing children positionally; paired
/// with the empty schema it yields a plain sequence, each child reconciled
/// against the empty schema in turn.  The fusion fails whenever the child
/// counts of the two trees diverge at any depth, or a record position lacks
/// a field name.
pub open spec fn reconcile(n: NodeV, k: KeyNodeV) -> Option<ValueV>
    decreases n,
{
    match n.value {
        Some(s) => Some(scalar_value(s)),
        None => {
            if k.children.len() > 0 {
                if n.children.len() != k.children.len() {
                    None
                } else if exists|i: int|
                    0 <= i < k.children.len() && k.children[i].value is None {
                    None
                } else if exists|i: int|
                    0 <= i < n.children.len() && reconcile(
                        #[trigger] n.children[i],
                        k.children[i],
                    ) is None {
                    None
                } else {
                    Some(
                        ValueV::Mapping(
                            Seq::new(
                                n.children.len(),
                                |i: int|
                                    if 0 <= i < n.children.len() {
                                        (
                                            ValueV::Text(k.children[i].value.unwrap()),
                                            reconcile(n.children[i], k.children[i]).unwrap(),
                                        )
                                    } else {
                                        (ValueV::Null, ValueV::Null)
                                    },
                            ),
                        ),
                    )
                }
            } else {
                if exists|i: int|
                    0 <= i < n.children.len() && reconcile(
                        #[trigger] n.children[i],
                        empty_key(),
                    ) is None {
                    None
                } else {
                    Some(
                        ValueV::Array(
                            Seq::new(
                                n.children.len(),
                                |i: int|
                                    if 0 <= i < n.children.len() {
                                        reconcile(n.children[i], empty_key()).unwrap()
                                    } else {
                                        ValueV::Null
                                    },
                            ),
                        ),
                    )
                }
            }
        },
    }
}

impl Scalar {
    /// The self-describing value this scalar stands for.
    pub fn to_data(&self) -> (r: DataValue)
        ensures
            r@ == scalar_value(self@),
    {
        match self {
            Scalar::Null => DataValue::Null,
            Scalar::Bool(b) => DataValue::Bool(*b),
            Scalar::Integer(i) => DataValue::Integer(*i),
            Scalar::Float(bits) => DataValue::Float(*bits),
            Scalar::Bytes(b) => DataValue::Bytes(clone_bytes(b)),
            Scalar::Text(t) => DataValue::Text(t.clone()),
        }
    }
}

impl Node {
    /// Fuse this shape tree with a key tree to rebuild a keyed
    /// self-describing value, failing with a typed error whenever the child
    /// counts of shape and schema diverge at any recursion depth or a record
    /// position has no field name.
    pub fn assign_keys(&self, key_node: &KeyNode) -> (r: Result<DataValue, CodecError>)
        ensures
            match r {
                Ok(v) => reconcile(self@, key_node@) == Some(v@),
                Err(e) => reconcile(self@, key_node@) is None && e
                    == CodecError::ShapeMismatch,
            },
        decreases self@,
    {
        let ghost nv = self@;
        let ghost kv = key_node@;
        match &self.value {
            Some(v) => Ok(v.to_data()),
            None => {
                proof {
                    assert(nv.value is None);
                    assert(nv.children.len() == self.children@.len());
                    assert(kv.children.len() == key_node.children@.len());
                }
                if key_node.children.len() > 0 {
                    if self.children.len() != key_node.children.len() {
                        return Err(CodecError::ShapeMismatch);
                    }
                    let mut entries: Vec<(DataValue, DataValue)> = Vec::new();
                    let mut i: usize = 0;
                    while i < self.children.len()
                        invariant
                            i <= self.children@.len(),
                            nv == self@,
                            kv == key_node@,
                            nv.value is None,
                            nv.children.len() == self.children@.len(),
                            kv.children.len() == key_node.children@.len(),
                            self.children@.len() == key_node.children@.len(),
                            forall|j: int|
                                0 <= j < self.children@.len() ==> nv.children[j]
                                    == self.children@[j]@,
                            forall|j: int|
                                0 <= j < key_node.children@.len() ==> kv.children[j]
                                    == key_node.children@[j]@,
                            entries@.len() == i,
                            forall|j: int|
                                0 <= j < i as int ==> kv.children[j].value is Some,
                            forall|j: int|
                                0 <= j < i as int ==> reconcile(
                                    nv.children[j],
                                    kv.children[j],
                                ) is Some,
                            forall|j: int|
                                0 <= j < i as int ==> entries@[j].0@ == ValueV::Text(
                                    kv.children[j].value.unwrap(),
                                ),
                            forall|j: int|
                                0 <= j < i as int ==> entries@[j].1@ == reconcile(
                                    nv.children[j],
                                    kv.children[j],
                                ).unwrap(),
                        decreases self.children@.len() - i,
                    {
                        proof {
                            assert(nv.children[i as int] == self.children@[i as int]@);
                            assert(kv.children[i as int] == key_node.children@[i as int]@);
                        }
                        let kc = &key_node.children[i];
                        match &kc.value {
                            None => {
                                proof {
                                    assert(kv.children[i as int].value is None);
                                }
                                return Err(CodecError::ShapeMismatch);
                            },
                            Some(name) => {
                                let child = match self.children[i].assign_keys(kc) {
                                    Ok(c) => c,
                                    Err(e) => {
                                        proof {
                                            assert(reconcile(
                                                nv.children[i as int],
                                                kv.children[i as int],
                                            ) is None);
                                        }
                                        return Err(e);
                                    },
                                };
                                entries.push((DataValue::Text(name.clone()), child));
                            },
                        }
                        i = i + 1;
                    }
                    let r = DataValue::Mapping(entries);
                    proof {
                        let target = reconcile(nv, kv);
                        assert(forall|j: int|
                            0 <= j < kv.children.len() ==> (#[trigger] kv.children[j]).value
                                is Some);
                        assert(forall|j: int|
                            0 <= j < nv.children.len() ==> reconcile(
                                #[trigger] nv.children[j],
                                kv.children[j],
                            ) is Some);
                        assert(target is Some);
                        assert(r@->Mapping_0 =~= target.unwrap()->Mapping_0);
                        assert(r@ == target.unwrap());
                    }
                    Ok(r)
                } else {
                    let empty = KeyNode::empty();
                    let mut els: Vec<DataValue> = Vec::new();
                    let mut i: usize = 0;
                    while i < self.children.len()
                        invariant
                            i <= self.children@.len(),
                            nv == self@,
                            kv == key_node@,
                            nv.value is None,
                            kv.children.len() == 0,
                            nv.children.len() == self.children@.len(),
                            empty@ == empty_key(),
                            forall|j: int|
                                0 <= j < self.children@.len() ==> nv.children[j]
                                    == self.children@[j]@,
                            els@.len() == i,
                            forall|j: int|
                                0 <= j < i as int ==> reconcile(
                                    nv.children[j],
                                    empty_key(),
                                ) is Some,
                            forall|j: int|
                                0 <= j < i as int ==> els@[j]@ == reconcile(
                                    nv.children[j],
                                    empty_key(),
                                ).unwrap(),
                        decreases self.children@.len() - i,
                    {
                        proof {
                            assert(nv.children[i as int] == self.children@[i as int]@);
                        }
                        let child = match self.children[i].assign_keys(&empty) {
                            Ok(c) => c,
                            Err(e) => {
                                proof {
                                    assert(reconcile(
                                        nv.children[i as int],
                                        empty_key(),
                                    ) is None);
                                }
                                return Err(e);
                            },
                        };
                        els.push(child);
                        i = i + 1;
                    }
                    let r = DataValue::Array(els);
                    proof {
                        let target = reconcile(nv, kv);
                        assert(forall|j: int|
                            0 <= j < nv.children.len() ==> reconcile(
                                #[trigger] nv.children[j],
                                empty_key(),
                            ) is Some);
                        assert(target is Some);
                        assert(r@->Array_0 =~= target.unwrap()->Array_0);
                        assert(r@ == target.unwrap());
                    }
                    Ok(r)
                }
            },
        }
    }
}

/// A self-describing value is a valid instance of a naming schema when, at
/// every record position, it is a mapping with exactly one entry per schema
/// child, in schema order, keyed by that child's name, and when, under the
/// empty schema, it is a scalar or a plain sequence of valid instances: the
/// shapes a decoded record value can take.
pub open spec fn valid_instance(v: ValueV, k: KeyNodeV) -> bool
    decreases v,
{
    if k.children.len() > 0 {
        &&& v is Mapping
        &&& v->Mapping_0.len() == k.children.len()
        &&& forall|i: int|
            0 <= i < k.children.len() ==> (#[trigger] k.children[i]).value is Some
        &&& forall|i: int|
            0 <= i < v->Mapping_0.len() ==> (#[trigger] v->Mapping_0[i]).0 == ValueV::Text(
                k.children[i].value.unwrap(),
            )
        &&& forall|i: int|
            0 <= i < v->Mapping_0.len() ==> valid_instance(
                (#[trigger] v->Mapping_0[i]).1,
                k.children[i],
            )
    } else {
        match v {
            ValueV::Array(els) => forall|i: int|
                0 <= i < els.len() ==> valid_instance(#[trigger] els[i], empty_key()),
            ValueV::Tagged(_, _) => false,
            ValueV::Mapping(_) => false,
            _ => true,
        }
    }
}

/// Leaf preservation: the shape of a scalar is a single leaf holding that
/// scalar, and reconciling a leaf returns its scalar unchanged whatever
/// schema is passed: the schema is ignored for leaves.
pub proof fn lemma_leaf_preservation(s: ScalarV, k: KeyNodeV)
    ensures
        shape_of(scalar_value(s)) == leaf_of(s),
        reconcile(leaf_of(s), k) == Some(scalar_value(s)),
{
}

/// Empty schema implies array: reconciling any shape tree against the empty
/// schema always succeeds, and an interior node always yields a sequence of
/// exactly its child count, never a mapping.
pub proof fn lemma_empty_schema_yields_array(n: NodeV)
    ensures
        reconcile(n, empty_key()) is Some,
        n.value is None ==> reconcile(n, empty_key()).unwrap() is Array,
        n.value is None ==> reconcile(n, empty_key()).unwrap()->Array_0.len()
            == n.children.len(),
    decreases n,
{
    if n.value is None {
        assert forall|i: int| 0 <= i < n.children.len() implies reconcile(
            #[trigger] n.children[i],
            empty_key(),
        ) is Some by {
            lemma_empty_schema_yields_array(n.children[i]);
        }
        assert(empty_key().children.len() == 0);
        assert(reconcile(n, empty_key()) is Some);
    }
}

/// Round-trip identity: a valid instance of a naming schema, shaped and then
/// reconciled against that same schema, is reproduced exactly.
pub proof fn lemma_round_trip(v: ValueV, k: KeyNodeV)
    requires
        valid_instance(v, k),
    ensures
        reconcile(shape_of(v), k) == Some(v),
    decreases v,
{
    let n = shape_of(v);
    if k.children.len() > 0 {
        let entries = v->Mapping_0;
        assert(n.value is None);
        assert(n.children.len() == entries.len());
        assert forall|i: int| 0 <= i < entries.len() implies #[trigger] n.children[i]
            == shape_of(entries[i].1) by {
        }
        assert forall|i: int| 0 <= i < entries.len() implies reconcile(
            #[trigger] n.children[i],
            k.children[i],
        ) == Some(entries[i].1) by {
            lemma_round_trip(entries[i].1, k.children[i]);
        }
        let target = reconcile(n, k);
        assert(target is Some);
        assert(target.unwrap()->Mapping_0 =~= entries);
        assert(target.unwrap() == v);
    } else {
        match v {
            ValueV::Array(els) => {
                assert(n.value is None);
                assert(n.children.len() == els.len());
                assert forall|i: int| 0 <= i < els.len() implies reconcile(
                    #[trigger] n.children[i],
                    empty_key(),
                ) == Some(els[i]) by {
                    assert(n.children[i] == shape_of(els[i]));
                    lemma_round_trip(els[i], empty_key());
                }
                let target = reconcile(n, k);
                assert(target is Some);
                assert(target.unwrap()->Array_0 =~= els);
                assert(target.unwrap() == v);
            },
            ValueV::Tagged(_, _) => {
                assert(false);
            },
            ValueV::Mapping(_) => {
                assert(false);
            },
            _ => {
                assert(n == leaf_of(scalar_of(v)));
                assert(reconcile(n, k) == Some(scalar_value(scalar_of(v))));
                assert(scalar_value(scalar_of(v)) == v);
            },
        }
    }
}

/// Every shape tree is well formed: a node holding a scalar has no children.
pub proof fn lemma_shape_well_formed(v: ValueV)
    ensures
        node_wf(shape_of(v)),
    decreases v,
{
    match v {
        ValueV::Tagged(_, inner) => {
            lemma_shape_well_formed(*inner);
        },
        ValueV::Array(els) => {
            assert forall|i: int| 0 <= i < els.len() implies node_wf(
                #[trigger] shape_of(v).children[i],
            ) by {
                lemma_shape_well_formed(els[i]);
            }
        },
        ValueV::Mapping(entries) => {
            assert forall|i: int| 0 <= i < entries.len() implies node_wf(
                #[trigger] shape_of(v).children[i],
            ) by {
                lemma_shape_well_formed(entries[i].1);
            }
        },
        _ => {},
    }
}

/// Registry mapping a type identifier to the naming schema of that type.
/// It is populated once, at startup, with one entry per record type, and
/// consulted by the decode path; schemas are never rebuilt per value.
pub struct SchemaRegistry {
    entries: Vec<(String, KeyNode)>,
}

impl SchemaRegistry {
    /// Registered type identifiers are pairwise distinct.
    pub closed spec fn wf(&self) -> bool {
        forall|i: int, j: int|
            0 <= i < j < self.entries@.len() ==> self.entries@[i].0@ != self.entries@[j].0@
    }

    /// Whether a schema is registered under this type identifier.
    pub closed spec fn contains_name(&self, name: Seq<char>) -> bool {
        exists|i: int| 0 <= i < self.entries@.len() && self.entries@[i].0@ == name
    }

    /// The schema registered under this type identifier.
    pub closed spec fn schema_for(&self, name: Seq<char>) -> KeyNodeV {
        let i = choose|i: int| 0 <= i < self.entries@.len() && self.entries@[i].0@ == name;
        self.entries@[i].1@
    }

    /// An empty registry.
    pub fn new() -> (r: SchemaRegistry)
        ensures
            r.wf(),
            forall|name: Seq<char>| !r.contains_name(name),
    {
        SchemaRegistry { entries: Vec::new() }
    }

    /// Register a schema under a type identifier.  Returns true and adds the
    /// entry when the identifier was free; leaves the registry unchanged and
    /// returns false when it was already taken.
    pub fn register(&mut self, name: String, schema: KeyNode) -> (r: bool)
        requires
            old(self).wf(),
        ensures
            final(self).wf(),
            r == !old(self).contains_name(name@),
            r ==> final(self).contains_name(name@) && final(self).schema_for(name@) == schema@,
            r ==> forall|other: Seq<char>|
                other != name@ ==> (final(self).contains_name(other)
                    == old(self).contains_name(other) && (old(self).contains_name(other)
                    ==> final(self).schema_for(other) == old(self).schema_for(other))),
            !r ==> *final(self) == *old(self),
    {
        let mut i: usize = 0;
        while i < self.entries.len()
            invariant
                *self == *old(self),
                self.wf(),
                i <= self.entries@.len(),
                forall|j: int| 0 <= j < i as int ==> self.entries@[j].0@ != name@,
            decreases self.entries@.len() - i,
        {
            if self.entries[i].0.eq(&name) {
                proof {
                    assert(self.entries@[i as int].0@ == name@);
                    assert(old(self).contains_name(name@));
                    assert(self.wf());
                }
                return false;
            }
            i = i + 1;
        }
        proof {
            assert(!old(self).contains_name(name@));
        }
        let ghost old_entries = self.entries@;
        self.entries.push((name, schema));
        proof {
            let n = self.entries@.len() - 1;
            assert(self.entries@[n].0@ == name@);
            assert forall|a: int, b: int|
                0 <= a < b < self.entries@.len() implies self.entries@[a].0@
                != self.entries@[b].0@ by {
                if b == n {
                    assert(old_entries[a].0@ != name@);
                } else {
                    assert(old_entries[a].0@ != old_entries[b].0@);
                }
            }
            assert(self.wf());
            assert(self.contains_name(name@));
            assert(self.schema_for(name@) == schema@);
            assert forall|other: Seq<char>| other != name@ implies (self.contains_name(other)
                == old(self).contains_name(other) && (old(self).contains_name(other)
                ==> self.schema_for(other) == old(self).schema_for(other))) by {
                if self.contains_name(other) {
                    let w = choose|w: int|
                        0 <= w < self.entries@.len() && self.entries@[w].0@ == other;
                    assert(w < n);
                    assert(old_entries[w].0@ == other);
                }
                if old(self).contains_name(other) {
                    let w = choose|w: int|
                        0 <= w < old_entries.len() && old_entries[w].0@ == other;
                    assert(self.entries@[w].0@ == other);
                }
            }
        }
        true
    }

    /// Look up the schema registered under a type identifier.
    pub fn lookup(&self, name: &str) -> (r: Option<&KeyNode>)
        requires
            self.wf(),
        ensures
            match r {
                Some(k) => self.contains_name(name@) && k@ == self.schema_for(name@),
                None => !self.contains_name(name@),
            },
    {
        let key = name.to_owned();
        let mut i: usize = 0;
        while i < self.entries.len()
            invariant
                i <= self.entries@.len(),
                self.wf(),
                key@ == name@,
                forall|j: int| 0 <= j < i as int ==> self.entries@[j].0@ != name@,
            decreases self.entries@.len() - i,
        {
            if self.entries[i].0.eq(&key) {
                proof {
                    assert(self.entries@[i as int].0@ == name@);
                    assert(self.contains_name(name@));
                    let w = choose|w: int|
                        0 <= w < self.entries@.len() && self.entries@[w].0@ == name@;
                    assert(w == i as int);
                }
                return Some(&self.entries[i].1);
            }
            i = i + 1;
        }
        None
    }
}

} // verus!
