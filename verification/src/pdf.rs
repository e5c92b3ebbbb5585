//! The boundary to the PDF parser: the parser's types as Verus sees them,
//! a mathematical reading of what they hold, and what its accessors return.
//!
//! Nothing in this module is proved. Each contract restates what the
//! parser's source shows, over the four uninterpreted readings below.

use vstd::prelude::*;
use vstd::string::StringSliceAdditionalSpecFns;

verus! {

/// `lopdf::Document`, a parsed file: opaque here. The library parses no
/// bytes itself: callers hand it the document that the parser gave them.
#[verifier::external_type_specification]
#[verifier::external_body]
pub struct ExDocument(lopdf::Document);

/// `lopdf::Dictionary`, a PDF dictionary: opaque here.
#[verifier::external_type_specification]
#[verifier::external_body]
pub struct ExDictionary(lopdf::Dictionary);

/// `lopdf::Object`, any PDF object: opaque here.
#[verifier::external_type_specification]
#[verifier::external_body]
pub struct ExObject(lopdf::Object);

/// `lopdf::Error`, the parser's error: opaque here.
#[verifier::external_type_specification]
#[verifier::external_body]
pub struct ExError(lopdf::Error);

/// What a PDF object holds, as far as extraction reads it. Numbers with a
/// fraction, names, dictionaries, streams, references and null are `Other`.
pub enum Value {
    Integer(i64),
    Boolean(bool),
    Bytes(Seq<u8>),
    Array(Seq<Value>),
    Other,
}

/// The key under which a dictionary files the entry of the given name: the
/// name's bytes, without the leading slash.
pub open spec fn key_of(name: &str) -> Seq<u8> {
    name.spec_bytes()
}

/// What an `lopdf::Object` holds.
pub uninterp spec fn object_value(object: lopdf::Object) -> Value;

/// The entries of an `lopdf::Dictionary`: for each key, what its object holds.
pub uninterp spec fn dictionary_entries(dict: lopdf::Dictionary) -> Map<Seq<u8>, Value>;

/// The entries of a document's trailer.
pub uninterp spec fn trailer_entries(doc: lopdf::Document) -> Map<Seq<u8>, Value>;

/// The entries of a document's encryption dictionary, if
/// `Document::get_encrypted` finds one.
pub uninterp spec fn encryption_entries(doc: lopdf::Document) -> Option<Map<Seq<u8>, Value>>;

/// `Document::get_encrypted` follows the trailer's `/Encrypt` reference to
/// a dictionary. Claimed: the dictionary it returns is the one that
/// `encryption_entries` speaks of, and it fails exactly where that is `None`.
pub assume_specification[ lopdf::Document::get_encrypted ](doc: &lopdf::Document) -> (r:
    lopdf::Result<&lopdf::Dictionary>)
    ensures
        match r {
            Ok(dict) => encryption_entries(*doc) == Some(dictionary_entries(*dict)),
            Err(_) => encryption_entries(*doc) is None,
        },
;

/// The public field `trailer` of `lopdf::Document`. Claimed: its entries
/// are those that `trailer_entries` speaks of.
#[verifier::external_body]
pub(crate) fn trailer(doc: &lopdf::Document) -> (dict: &lopdf::Dictionary)
    ensures
        dictionary_entries(*dict) == trailer_entries(*doc),
{
    &doc.trailer
}

/// `Dictionary::get` looks a key up in the underlying map. Claimed: it
/// returns the object filed under exactly that key, and fails exactly where
/// the dictionary has no such key.
pub assume_specification<'a>[ lopdf::Dictionary::get ](
    dict: &'a lopdf::Dictionary,
    key: &[u8],
) -> (r: lopdf::Result<&'a lopdf::Object>)
    ensures
        match r {
            Ok(object) => dictionary_entries(*dict).contains_key(key@) && dictionary_entries(
                *dict,
            )[key@] == object_value(*object),
            Err(_) => !dictionary_entries(*dict).contains_key(key@),
        },
;

/// `Object::as_i64` matches on the variant. Claimed: it returns the number
/// of an integer object and fails on every other object.
pub assume_specification[ lopdf::Object::as_i64 ](object: &lopdf::Object) -> (r: lopdf::Result<
    i64,
>)
    ensures
        match r {
            Ok(n) => object_value(*object) == Value::Integer(n),
            Err(_) => !(object_value(*object) is Integer),
        },
;

/// `Object::as_bool` matches on the variant. Claimed: it returns the value
/// of a boolean object and fails on every other object.
pub assume_specification[ lopdf::Object::as_bool ](object: &lopdf::Object) -> (r: lopdf::Result<
    bool,
>)
    ensures
        match r {
            Ok(b) => object_value(*object) == Value::Boolean(b),
            Err(_) => !(object_value(*object) is Boolean),
        },
;

/// `Object::as_str` matches on the variant. Claimed: it returns the bytes
/// of a string object, in either notation, and fails on every other object.
pub assume_specification[ lopdf::Object::as_str ](object: &lopdf::Object) -> (r: lopdf::Result<
    &[u8],
>)
    ensures
        match r {
            Ok(bytes) => object_value(*object) == Value::Bytes(bytes@),
            Err(_) => !(object_value(*object) is Bytes),
        },
;

/// `Object::as_array` matches on the variant. Claimed: it returns the
/// elements of an array object, in order, and fails on every other object.
pub assume_specification[ lopdf::Object::as_array ](object: &lopdf::Object) -> (r: lopdf::Result<
    &Vec<lopdf::Object>,
>)
    ensures
        match r {
            Ok(items) => object_value(*object) == Value::Array(
                Seq::new(items@.len(), |i: int| object_value(items@[i])),
            ),
            Err(_) => !(object_value(*object) is Array),
        },
;

} // verus!
