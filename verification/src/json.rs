//! The boundary to `serde_json`: the two calls that the catalog's file
//! format rests on. Nothing here is proved; the contracts say what is
//! taken on trust.

use vstd::prelude::*;

verus! {

/// `serde_json::Error`, carried through as an opaque value. Trusted.
#[verifier::external_type_specification]
#[verifier::external_body]
pub struct ExJsonError(serde_json::Error);

/// What `serde_json::from_str` makes of a text read as a list of objects
/// with text values: `None` where it reports an error, else one record per
/// object, each record the object's key and value pairs.
pub uninterp spec fn json_records(text: Seq<char>) -> Option<Seq<Seq<(Seq<char>, Seq<char>)>>>;

/// The JSON string literal, quotes and escapes included, that
/// `serde_json::to_string` writes for a text.
pub uninterp spec fn json_string_text(text: Seq<char>) -> Seq<char>;

/// Calls `serde_json::from_str` for a list of ordered maps from text to
/// text and hands each map out as its pairs, so a key comes once, with
/// the value that the object gave it last. The contract only names the
/// outcome: success is `json_records` being `Some` of what came back.
/// Trusted.
#[verifier::external_body]
pub(crate) fn parse_records(text: &str) -> (parsed: Result<
    Vec<Vec<(String, String)>>,
    serde_json::Error,
>)
    ensures
        parsed matches Ok(records) ==> json_records(text@) == Some(records.deep_view()),
        parsed is Err ==> json_records(text@) is None,
{
    let maps = serde_json::from_str::<Vec<std::collections::BTreeMap<String, String>>>(text)?;
    Ok(maps.into_iter().map(|m| m.into_iter().collect()).collect())
}

/// Calls `serde_json::to_string` on a text. For a text the call has no
/// failing path: it writes the literal into a byte vector and passes on
/// only the writer's errors, of which a vector has none. So the contract
/// promises `Ok`, and names what it holds. Trusted.
#[verifier::external_body]
pub(crate) fn quote_text(text: &str) -> (quoted: Result<String, serde_json::Error>)
    ensures
        quoted is Ok,
        quoted matches Ok(literal) ==> literal@ == json_string_text(text@),
{
    serde_json::to_string(text)
}

} // verus!
