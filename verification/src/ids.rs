//! Identifiers of stored records: the record kind, a hyphen and a random
//! UUID, such as `meeting-67e55044-10b1-426f-9247-bb680e5fe0c8`.

use vstd::prelude::*;
use crate::text::push_str;

verus! {

broadcast use vstd::string::group_string_axioms;

/// A lower-case hexadecimal digit.
pub open spec fn is_hex_digit(c: char) -> bool {
    ('0' <= c && c <= '9') || ('a' <= c && c <= 'f')
}

/// The hyphenated form of a UUID: 8-4-4-4-12 lower-case hexadecimal
/// digits, 36 characters in all.
pub open spec fn is_hyphenated_uuid(u: Seq<char>) -> bool {
    &&& u.len() == 36
    &&& forall|i: int|
        0 <= i < 36 ==> if i == 8 || i == 13 || i == 18 || i == 23 {
            u[i] == '-'
        } else {
            is_hex_digit(#[trigger] u[i])
        }
}

/// A random (version 4, RFC 4122 variant) UUID in hyphenated form: the
/// version digit is `4` and the variant digit is one of `8`, `9`, `a`, `b`.
pub open spec fn is_random_uuid(u: Seq<char>) -> bool {
    &&& is_hyphenated_uuid(u)
    &&& u[14] == '4'
    &&& (u[19] == '8' || u[19] == '9' || u[19] == 'a' || u[19] == 'b')
}

/// Calls `uuid::Uuid::new_v4()` and renders it with `to_string()`. The
/// value is random; its rendering is the lower-case hyphenated form with
/// the version and variant bits that `new_v4` sets.
#[verifier::external_body]
fn random_uuid() -> (r: String)
    ensures
        is_random_uuid(r@),
{
    uuid::Uuid::new_v4().to_string()
}

/// The identifier of a record of kind `kind` with the given UUID text.
pub open spec fn record_id(kind: Seq<char>, uuid: Seq<char>) -> Seq<char> {
    kind + "-"@ + uuid
}

/// `id` is an identifier of kind `kind` around some random UUID.
pub open spec fn is_record_id(id: Seq<char>, kind: Seq<char>) -> bool {
    exists|uuid: Seq<char>| is_random_uuid(uuid) && id == #[trigger] record_id(kind, uuid)
}

/// The identifier of a record of kind `kind` with the given UUID text.
pub fn record_id_with(kind: &str, uuid: &str) -> (r: String)
    ensures
        r@ == record_id(kind@, uuid@),
{
    let mut r = String::new();
    push_str(&mut r, kind);
    push_str(&mut r, "-");
    push_str(&mut r, uuid);
    proof {
        reveal_strlit("-");
    }
    r
}

/// A fresh identifier for a record of kind `kind` (`meeting`,
/// `transcript`, `hook`, ...).
pub fn new_record_id(kind: &str) -> (r: String)
    ensures
        is_record_id(r@, kind@),
{
    let uuid = random_uuid();
    let r = record_id_with(kind, uuid.as_str());
    assert(is_random_uuid(uuid@) && r@ == record_id(kind@, uuid@));
    r
}

} // verus!
