use bson::{Bson, Document};
use vstd::prelude::*;

verus! {

/// `bson::Document`, carried through the plans as an opaque value.
#[verifier::external_type_specification]
#[verifier::external_body]
pub struct ExDocument(Document);

/// `bson::Bson`, carried through the plans as an opaque value.
#[verifier::external_type_specification]
#[verifier::external_body]
pub struct ExBson(Bson);

/// The fields of a document whose value is a BSON string, with that string.
pub uninterp spec fn document_str_fields(doc: Document) -> Map<Seq<char>, Seq<char>>;

/// The fields of a document whose value is a BSON 64-bit integer, with that integer.
pub uninterp spec fn document_i64_fields(doc: Document) -> Map<Seq<char>, i64>;

/// Calls `bson::Document::get_str`. That method answers `Ok` with the string
/// exactly when the field is present and holds a BSON string, and an error
/// otherwise; the contract says so over `document_str_fields`.
#[verifier::external_body]
pub(crate) fn document_get_str(doc: &Document, key: &str) -> (r: Option<String>)
    ensures
        r is Some <==> document_str_fields(*doc).contains_key(key@),
        r matches Some(s) ==> s@ == document_str_fields(*doc)[key@],
{
    match doc.get_str(key) {
        Ok(s) => Some(s.to_string()),
        Err(_) => None,
    }
}

/// Calls `bson::Document::get_i64`. That method answers `Ok` with the integer
/// exactly when the field is present and holds a BSON 64-bit integer, and an
/// error otherwise; the contract says so over `document_i64_fields`.
#[verifier::external_body]
pub(crate) fn document_get_i64(doc: &Document, key: &str) -> (r: Option<i64>)
    ensures
        r is Some <==> document_i64_fields(*doc).contains_key(key@),
        r matches Some(v) ==> v == document_i64_fields(*doc)[key@],
{
    match doc.get_i64(key) {
        Ok(v) => Some(v),
        Err(_) => None,
    }
}

} // verus!
