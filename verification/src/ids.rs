//! Fresh random identifiers: hyphenated UUIDs, and record ids made of a prefix and a simple
//! (unhyphenated) UUID.
use vstd::prelude::*;

verus! {

pub open spec fn is_lower_hex(c: char) -> bool {
    ('0' <= c <= '9') || ('a' <= c <= 'f')
}

/// The hex digit that carries the variant of an RFC 4122 UUID: `8`, `9`, `a` or `b`.
pub open spec fn is_variant_digit(c: char) -> bool {
    c == '8' || c == '9' || c == 'a' || c == 'b'
}

/// A hyphenated lower-case random (version 4) UUID: 36 characters, hyphens at 8, 13, 18 and
/// 23, hex digits elsewhere, the version digit `4` at 14 and a variant digit at 19.
pub open spec fn is_uuid_text(s: Seq<char>) -> bool {
    &&& s.len() == 36
    &&& forall|i: int|
        0 <= i < 36 ==> if i == 8 || i == 13 || i == 18 || i == 23 {
            s[i] == '-'
        } else {
            is_lower_hex(#[trigger] s[i])
        }
    &&& s[14] == '4'
    &&& is_variant_digit(s[19])
}

/// A simple lower-case random (version 4) UUID: 32 hex digits, the version digit `4` at 12 and
/// a variant digit at 16.
pub open spec fn is_simple_uuid_text(s: Seq<char>) -> bool {
    &&& s.len() == 32
    &&& forall|i: int| 0 <= i < 32 ==> is_lower_hex(#[trigger] s[i])
    &&& s[12] == '4'
    &&& is_variant_digit(s[16])
}

/// `Uuid::new_v4().to_string()`: a random UUID, hyphenated and in lower case. It panics if the
/// operating system's random source fails; nothing in its arguments decides that.
#[verifier::external_body]
pub(crate) fn new_uuid_v4_text() -> (r: String)
    ensures
        is_uuid_text(r@),
{
    uuid::Uuid::new_v4().to_string()
}

/// `Uuid::new_v4().simple().to_string()`: a random UUID as 32 lower-case hex digits. It panics
/// if the operating system's random source fails; nothing in its arguments decides that.
#[verifier::external_body]
fn new_uuid_v4_simple_text() -> (r: String)
    ensures
        is_simple_uuid_text(r@),
{
    uuid::Uuid::new_v4().simple().to_string()
}

/// A fresh record id: `prefix`, a hyphen, and a random simple UUID (as in `report-…`,
/// `meeting-…`, `kpi-…`).
pub fn new_record_id(prefix: &str) -> (r: String)
    ensures
        r@.len() == prefix@.len() + 33,
        r@.take(prefix@.len() as int) == prefix@,
        r@[prefix@.len() as int] == '-',
        is_simple_uuid_text(r@.skip(prefix@.len() as int + 1)),
{
    let u = new_uuid_v4_simple_text();
    let r = String::from_str(prefix).concat("-").concat(u.as_str());
    proof {
        reveal_strlit("-");
        assert(r@.take(prefix@.len() as int) =~= prefix@);
        assert(r@.skip(prefix@.len() as int + 1) =~= u@);
    }
    r
}

} // verus!
