//! Random identifiers.
use vstd::prelude::*;

verus! {

/// A lowercase hexadecimal digit.
pub open spec fn is_lower_hex(c: char) -> bool {
    ('0' <= c && c <= '9') || ('a' <= c && c <= 'f')
}

/// The shape of a random (version 4) UUID written in the "simple" format:
/// 32 lowercase hexadecimal digits, the version digit `4` at index 12 and a
/// variant digit among `8`, `9`, `a`, `b` at index 16.
pub open spec fn is_simple_uuid_v4(s: Seq<char>) -> bool {
    &&& s.len() == 32
    &&& forall|i: int| 0 <= i < 32 ==> is_lower_hex(#[trigger] s[i])
    &&& s[12] == '4'
    &&& (s[16] == '8' || s[16] == '9' || s[16] == 'a' || s[16] == 'b')
}

/// A fresh random UUID in the simple format.
///
/// Calls `uuid::Uuid::new_v4` and formats it with `simple()`. The contract
/// claims the shape that the uuid source gives such a text (version and
/// variant bits set by `new_v4`, lowercase hex from `Simple`'s `Display`);
/// which digits come out is left open, being random.
#[verifier::external_body]
pub fn new_uuid_simple() -> (s: String)
    ensures
        is_simple_uuid_v4(s@),
{
    uuid::Uuid::new_v4().simple().to_string()
}

} // verus!
