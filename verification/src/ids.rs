//! Fresh identifiers for new tasks.
use vstd::prelude::*;

verus! {

/// A lower-case hexadecimal digit.
pub open spec fn lower_hex(c: char) -> bool {
    ('0' <= c <= '9') || ('a' <= c <= 'f')
}

/// The hyphenated text of a UUID: 36 characters, hyphens at 8, 13, 18 and
/// 23, lower-case hexadecimal digits elsewhere.
pub open spec fn uuid_shaped(s: Seq<char>) -> bool {
    &&& s.len() == 36
    &&& forall|i: int| 0 <= i < 36 ==> if i == 8 || i == 13 || i == 18 || i == 23 {
        #[trigger] s[i] == '-'
    } else {
        lower_hex(s[i])
    }
}

/// Calls `Uuid::new_v4()` and renders it (`Display` writes the hyphenated
/// lower-case form, uuid's `format_hyphenated`). Claims only that shape:
/// the digits are random.
#[verifier::external_body]
pub(crate) fn new_task_id() -> (r: String)
    ensures
        uuid_shaped(r@),
{
    uuid::Uuid::new_v4().to_string()
}

} // verus!
