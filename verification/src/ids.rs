//! Element identifiers: 128-bit UUIDs, the deterministic ones name-based.

use crate::text::concat;
use crate::libcache::hex_digits;
use uuid::Uuid;
use vstd::prelude::*;

verus! {

/// The RFC 9562 name space of object identifiers
/// (`6ba7b812-9dad-11d1-80b4-00c04fd430c8`).
pub const NAMESPACE_OID: u128 = 0x6ba7b8129dad11d180b400c04fd430c8;

/// The RFC 9562 name space of URLs
/// (`6ba7b811-9dad-11d1-80b4-00c04fd430c8`).
pub const NAMESPACE_URL: u128 = 0x6ba7b8119dad11d180b400c04fd430c8;

/// The version 5 (SHA-1, name-based) UUID of a name in a name space, both
/// UUIDs read as big-endian numbers.
pub uninterp spec fn uuid_v5(namespace: u128, name: Seq<u8>) -> u128;

/// `Uuid::new_v5` hashes the name space's bytes and the name; the result is
/// a function of the two, and is named.
#[verifier::external_body]
pub(crate) fn new_v5(namespace: u128, name: &[u8]) -> (r: u128)
    ensures
        r == uuid_v5(namespace, name@),
{
    Uuid::new_v5(&Uuid::from_u128(namespace), name).as_u128()
}

/// The hyphenated text of a UUID: its 32 lower-case hexadecimal digits in
/// groups of eight, four, four, four and twelve.
#[verifier::opaque]
pub open spec fn uuid_text(id: u128) -> Seq<char> {
    let h = hex_digits(id as nat, 32);
    h.subrange(0, 8).push('-') + h.subrange(8, 12).push('-') + h.subrange(12, 16).push('-')
        + h.subrange(16, 20).push('-') + h.subrange(20, 32)
}

/// What `Uuid::parse_str` reads from a text: any of the forms the crate
/// accepts, or nothing.
pub uninterp spec fn uuid_parse(text: Seq<char>) -> Option<u128>;

/// `Uuid`'s `Display` writes the hyphenated form: 36 characters, which
/// `Uuid::parse_str` reads back as the same UUID.
#[verifier::external_body]
pub(crate) fn id_text(id: u128) -> (r: String)
    ensures
        r@ == uuid_text(id),
        r@.len() == 36,
        uuid_parse(r@) == Some(id),
{
    Uuid::from_u128(id).hyphenated().to_string()
}

/// `Uuid::parse_str` reads a UUID from its text, or fails.
#[verifier::external_body]
pub(crate) fn parse_id(text: &str) -> (r: Option<u128>)
    ensures
        r == uuid_parse(text@),
{
    match Uuid::parse_str(text) {
        Ok(id) => Some(id.as_u128()),
        Err(_) => None,
    }
}

/// The name-based identifier of a text.
pub open spec fn name_id(namespace: u128, text: Seq<char>) -> u128 {
    uuid_v5(namespace, vstd::utf8::encode_utf8(text))
}

/// The version 5 identifier of `text`'s UTF-8 bytes in `namespace`.
pub fn id_of_name(namespace: u128, text: &str) -> (r: u128)
    ensures
        r == name_id(namespace, text@),
{
    new_v5(namespace, text.as_bytes())
}

/// The name space of this library's deterministic element identifiers.
pub open spec fn model_namespace() -> u128 {
    name_id(NAMESPACE_URL, "https://crates.io/crates/sysmlv2-parser"@)
}

/// The fixed name space of ownership-path identifiers.
pub fn id_namespace() -> (r: u128)
    ensures
        r == model_namespace(),
{
    id_of_name(NAMESPACE_URL, "https://crates.io/crates/sysmlv2-parser")
}

/// The identifier of an ownership path.
pub open spec fn path_id(path: Seq<char>) -> u128 {
    name_id(model_namespace(), path)
}

/// The identifier an ownership path derives.
pub fn id_of_path(path: &str) -> (r: u128)
    ensures
        r == path_id(path@),
{
    id_of_name(id_namespace(), path)
}

/// The identifier under which an unresolved spelling dangles.
pub open spec fn dangling(spelling: Seq<char>) -> u128 {
    name_id(NAMESPACE_OID, "unresolved:"@ + spelling)
}

/// The deterministic dangling id of an unresolved reference spelling: what
/// the full form spells for a reference that never resolved.
pub fn dangling_id(spelling: &str) -> (r: String)
    ensures
        r@ == uuid_text(dangling(spelling@)),
{
    proof {
        reveal(crate::text::joined);
    }
    let text = concat("unresolved:", spelling);
    let id: u128 = id_of_name(NAMESPACE_OID, text.as_str());
    id_text(id)
}

} // verus!
