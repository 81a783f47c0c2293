//! The wire boundary of the codec: decoding the raw byte buffer a guest
//! receives into a generic self-describing value, and the call pipeline
//! that turns such a buffer into a keyed value by shaping and reconciling
//! it against a naming schema.

use crate::codec::{reconcile, shape_of, CodecError, DataValue, KeyNode, Node, ValueV};
use vstd::prelude::*;

verus! {

/// What decoding a wire buffer yields: `None` where the bytes are not a
/// valid encoding, the decoded self-describing value otherwise.  The
/// outcome depends on the bytes alone.
pub uninterp spec fn wire_value(b: Seq<u8>) -> Option<ValueV>;

/// The decoded form of the compact binary wire format, as the CBOR library
/// represents it before conversion into the library's own value type.
#[verifier::external_type_specification]
#[verifier::external_body]
pub struct ExCborValue(serde_cbor::Value);

/// Relies on serde_cbor's `from_slice`: decodes a compact binary buffer
/// into a generic value tree, succeeding or failing on the bytes alone.
#[verifier::external_body]
pub fn decode_value(bytes: &[u8]) -> (r: Option<DataValue>)
    ensures
        match r {
            Some(v) => wire_value(bytes@) == Some(v@),
            None => wire_value(bytes@) is None,
        },
{
    match serde_cbor::from_slice::<serde_cbor::Value>(bytes) {
        Ok(c) => Some(cbor_to_data(c)),
        Err(_) => None,
    }
}

/// Convert a decoded wire value into the library's own representation,
/// variant by variant.  The hidden variant, which no decoder produces,
/// maps to null.  A float leaf keeps only the bit pattern of its value.
#[verifier::external_body]
fn cbor_to_data(v: serde_cbor::Value) -> DataValue {
    match v {
        serde_cbor::Value::Null => DataValue::Null,
        serde_cbor::Value::Bool(b) => DataValue::Bool(b),
        serde_cbor::Value::Integer(i) => DataValue::Integer(i),
        serde_cbor::Value::Float(f) => DataValue::Float(f.to_bits()),
        serde_cbor::Value::Bytes(b) => DataValue::Bytes(b),
        serde_cbor::Value::Text(t) => DataValue::Text(t),
        serde_cbor::Value::Tag(t, i) => DataValue::Tagged(t, Box::new(cbor_to_data(*i))),
        serde_cbor::Value::Array(e) => DataValue::Array(e.into_iter().map(cbor_to_data).collect()),
        serde_cbor::Value::Map(m) => cbor_map_to_data(m),
        _ => DataValue::Null,
    }
}

/// Convert a decoded key-ordered mapping, entry by entry, keeping the
/// map's own key order.
#[verifier::external_body]
fn cbor_map_to_data(
    m: std::collections::BTreeMap<serde_cbor::Value, serde_cbor::Value>,
) -> DataValue {
    DataValue::Mapping(m.into_iter().map(|(k, v)| (cbor_to_data(k), cbor_to_data(v))).collect())
}

/// The guest-side call pipeline: decode the raw input buffer into a generic
/// self-describing value, build its shape tree, and reconcile that against
/// the naming schema of the expected input record.  A buffer that is not a
/// valid wire value is a decode error; a value whose shape does not match
/// the schema is a shape mismatch.
pub fn reconcile_wire(input: &[u8], schema: &KeyNode) -> (r: Result<DataValue, CodecError>)
    ensures
        match wire_value(input@) {
            None => r == Err::<DataValue, CodecError>(CodecError::Decode),
            Some(v) => match reconcile(shape_of(v), schema@) {
                None => r == Err::<DataValue, CodecError>(CodecError::ShapeMismatch),
                Some(out) => r is Ok && r.unwrap()@ == out,
            },
        },
{
    let decoded = match decode_value(input) {
        Some(v) => v,
        None => {
            return Err(CodecError::Decode);
        },
    };
    let tree = Node::new(decoded);
    tree.assign_keys(schema)
}

} // verus!
