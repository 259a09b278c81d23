//! Folder names made from arbitrary text by way of name-based UUIDs.
use uuid::Uuid;
use vstd::prelude::*;

verus! {

/// The namespace of all name-based UUIDs of this crate.
pub const NAMESPACE: [u8; 16] = [
    0x37, 0x9e, 0x56, 0xb0, 0x1a, 0x76, 0x44, 0xc2, 0xa0, 0xdb, 0xe2, 0x18, 0xc5, 0xc8, 0xa3, 0x5d,
];

/// The hyphenated text of the version 5 UUID of `name` in `namespace`.
pub uninterp spec fn uuid_v5_text(namespace: Seq<u8>, name: Seq<u8>) -> Seq<char>;

/// Whether `c` is a lower-case hexadecimal digit.
pub open spec fn is_hex_digit(c: char) -> bool {
    ('0' <= c && c <= '9') || ('a' <= c && c <= 'f')
}

/// Whether `s` has the shape of a hyphenated UUID: 36 characters, hyphens after the 8th, 12th,
/// 16th and 20th digit, and lower-case hexadecimal digits everywhere else.
pub open spec fn is_hyphenated_uuid(s: Seq<char>) -> bool {
    &&& s.len() == 36
    &&& forall|i: int|
        #![trigger s[i]]
        0 <= i < 36 ==> if i == 8 || i == 13 || i == 18 || i == 23 {
            s[i] == '-'
        } else {
            is_hex_digit(s[i])
        }
}

/// Calls `uuid::Uuid::new_v5` and formats the UUID with its `Display`, which writes it
/// hyphenated. What is claimed: the text depends on the namespace and the name alone, and it has
/// the shape of a hyphenated UUID in lower case.
#[verifier::external_body]
fn new_v5(namespace: &[u8; 16], name: &[u8]) -> (r: String)
    ensures
        r@ == uuid_v5_text(namespace@, name@),
        is_hyphenated_uuid(r@),
{
    Uuid::new_v5(&Uuid::from_bytes(*namespace), name).to_string()
}

/// The folder name for `name`: the same for the same name, and always of the shape of a UUID.
pub open spec fn folder_of(name: Seq<char>) -> Seq<char> {
    uuid_v5_text(NAMESPACE@, vstd::utf8::encode_utf8(name))
}

/// The folder name for `name`.
pub fn folder_name(name: &str) -> (r: String)
    ensures
        r@ == folder_of(name@),
        is_hyphenated_uuid(r@),
{
    new_v5(&NAMESPACE, name.as_bytes())
}

} // verus!
