//! The part of CBOR that circle states are written in, and the calls into
//! `ciborium` that turn it into bytes and back.

use vstd::prelude::*;

use ciborium::Value;

verus! {

/// A CBOR item as a mathematical value.
pub enum CborTree {
    Unsigned(u64),
    Bool(bool),
    Text(Seq<char>),
    Array(Seq<CborTree>),
    /// A map, as its entries in the order in which they are written.
    Dict(Seq<(CborTree, CborTree)>),
    /// Anything else that CBOR can hold.
    Unsupported,
}

/// A CBOR item. Circle states are made of unsigned integers, booleans, text,
/// arrays and maps; every other item (a negative integer, a byte string, a
/// float, a tag, null) is read as `Unsupported`, and `Unsupported` is written
/// as null.
#[derive(Debug, PartialEq)]
pub enum CborValue {
    Unsigned(u64),
    Bool(bool),
    Text(String),
    Array(Vec<CborValue>),
    /// A map, as its entries in the order in which they are written.
    Dict(Vec<(CborValue, CborValue)>),
    Unsupported,
}

impl View for CborValue {
    type V = CborTree;

    open spec fn view(&self) -> CborTree
        decreases self,
    {
        match self {
            CborValue::Unsigned(n) => CborTree::Unsigned(*n),
            CborValue::Bool(b) => CborTree::Bool(*b),
            CborValue::Text(s) => CborTree::Text(s@),
            CborValue::Array(items) => CborTree::Array(
                Seq::new(
                    items@.len(),
                    |k: int|
                        if 0 <= k < items@.len() {
                            items@[k].view()
                        } else {
                            CborTree::Unsupported
                        },
                ),
            ),
            CborValue::Dict(entries) => CborTree::Dict(
                Seq::new(
                    entries@.len(),
                    |k: int|
                        if 0 <= k < entries@.len() {
                            (entries@[k].0.view(), entries@[k].1.view())
                        } else {
                            (CborTree::Unsupported, CborTree::Unsupported)
                        },
                ),
            ),
            CborValue::Unsupported => CborTree::Unsupported,
        }
    }
}

/// The views of the items of an array.
pub open spec fn items_view(items: Seq<CborValue>) -> Seq<CborTree> {
    Seq::new(items.len(), |k: int| items[k]@)
}

/// The views of the entries of a map.
pub open spec fn entries_view(entries: Seq<(CborValue, CborValue)>) -> Seq<(CborTree, CborTree)> {
    Seq::new(entries.len(), |k: int| (entries[k].0@, entries[k].1@))
}

/// An array is viewed item by item.
pub proof fn lemma_array_view(items: Vec<CborValue>, trees: Seq<CborTree>)
    requires
        items@.len() == trees.len(),
        forall|k: int| 0 <= k < trees.len() ==> (#[trigger] items@[k])@ == trees[k],
    ensures
        CborValue::Array(items)@ == CborTree::Array(trees),
{
    assert(CborValue::Array(items)@->Array_0 =~= trees);
}

/// A map is viewed entry by entry.
pub proof fn lemma_dict_view(entries: Vec<(CborValue, CborValue)>, trees: Seq<(CborTree, CborTree)>)
    requires
        entries@.len() == trees.len(),
        forall|k: int|
            0 <= k < trees.len() ==> ((#[trigger] entries@[k]).0@, entries@[k].1@) == trees[k],
    ensures
        CborValue::Dict(entries)@ == CborTree::Dict(trees),
{
    assert(CborValue::Dict(entries)@->Dict_0 =~= trees);
}

/// `ciborium::Value`, which is carried from one call into `ciborium` to the
/// next and never looked into.
#[verifier::external_type_specification]
#[verifier::external_body]
pub struct ExCiboriumValue(Value);

/// The bytes that `ciborium::ser::into_writer` writes for an item, or `None`
/// where it reports an error.
pub uninterp spec fn cbor_encoding(tree: CborTree) -> Option<Seq<u8>>;

/// What `ciborium::de::from_reader` reads from the bytes as one
/// `ciborium::Value`, or `None` where it reports an error.
pub uninterp spec fn cbor_decoding(bytes: Seq<u8>) -> Option<CborTree>;

/// Builds the `ciborium::Value` of an item, variant by variant, for
/// `cbor_encode` to hand on. An unsigned integer goes through
/// `ciborium::value::Integer::from`; `Unsupported` becomes null. Nothing is
/// stated of the result here: `cbor_encode` names what is written for it.
#[verifier::external_body]
fn to_ciborium(value: &CborValue) -> (outside: Value) {
    match value {
        CborValue::Unsigned(n) => Value::Integer((*n).into()),
        CborValue::Bool(b) => Value::Bool(*b),
        CborValue::Text(s) => Value::Text(s.clone()),
        CborValue::Array(v) => Value::Array(v.iter().map(to_ciborium).collect()),
        CborValue::Dict(v) => Value::Map(
            v.iter().map(|e| (to_ciborium(&e.0), to_ciborium(&e.1))).collect(),
        ),
        CborValue::Unsupported => Value::Null,
    }
}

/// Reads a `ciborium::Value` as an item, variant by variant, for
/// `cbor_decode`. An integer that `u64::try_from` refuses, and every variant
/// but the five named here, is read as `Unsupported`. Nothing is stated of
/// the result here: `cbor_decode` names it.
#[verifier::external_body]
fn from_ciborium(value: &Value) -> (item: CborValue) {
    match value {
        Value::Integer(n) => match u64::try_from(*n) {
            Ok(n) => CborValue::Unsigned(n),
            Err(_) => CborValue::Unsupported,
        },
        Value::Bool(b) => CborValue::Bool(*b),
        Value::Text(s) => CborValue::Text(s.clone()),
        Value::Array(v) => CborValue::Array(v.iter().map(from_ciborium).collect()),
        Value::Map(v) => CborValue::Dict(
            v.iter().map(|e| (from_ciborium(&e.0), from_ciborium(&e.1))).collect(),
        ),
        _ => CborValue::Unsupported,
    }
}

/// Calls `ciborium::ser::into_writer` on the item, writing into a fresh
/// vector. The bytes written depend on the item alone; the contract gives
/// them their name and claims nothing more of them.
#[verifier::external_body]
fn cbor_encode(value: &CborValue) -> (bytes: Option<Vec<u8>>)
    ensures
        match bytes {
            Some(b) => cbor_encoding(value@) == Some(b@),
            None => cbor_encoding(value@) is None,
        },
{
    let mut bytes = Vec::new();
    match ciborium::ser::into_writer(&to_ciborium(value), &mut bytes) {
        Ok(()) => Some(bytes),
        Err(_) => None,
    }
}

/// Calls `ciborium::de::from_reader` on the bytes, asking for one
/// `ciborium::Value`. What it reads depends on the bytes alone; the contract
/// gives the item read its name and claims nothing more of it.
#[verifier::external_body]
fn cbor_decode(bytes: &[u8]) -> (value: Option<CborValue>)
    ensures
        match value {
            Some(v) => cbor_decoding(bytes@) == Some(v@),
            None => cbor_decoding(bytes@) is None,
        },
{
    match ciborium::de::from_reader::<Value, _>(bytes) {
        Ok(v) => Some(from_ciborium(&v)),
        Err(_) => None,
    }
}

impl CborValue {
    /// The item as CBOR bytes, or `None` where the encoder reports an error.
    pub fn to_bytes(&self) -> (bytes: Option<Vec<u8>>)
        ensures
            match bytes {
                Some(b) => cbor_encoding(self@) == Some(b@),
                None => cbor_encoding(self@) is None,
            },
    {
        cbor_encode(self)
    }

    /// The item that the bytes hold, or `None` where they hold none.
    pub fn from_bytes(bytes: &[u8]) -> (value: Option<CborValue>)
        ensures
            match value {
                Some(v) => cbor_decoding(bytes@) == Some(v@),
                None => cbor_decoding(bytes@) is None,
            },
    {
        cbor_decode(bytes)
    }
}

} // verus!
