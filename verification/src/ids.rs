use vstd::prelude::*;

verus! {

/// The shape of a random (version 4) UUID in hyphenated form: 36
/// characters, hyphens at 8, 13, 18 and 23, and the version digit `4`.
pub open spec fn uuid_shaped(s: Seq<char>) -> bool {
    &&& s.len() == 36
    &&& s[8] == '-' && s[13] == '-' && s[18] == '-' && s[23] == '-'
    &&& s[14] == '4'
}

/// Calls `uuid::Uuid::new_v4` and renders it with `to_string`, which writes
/// the hyphenated lowercase form. The value is random: only its shape is
/// stated (36 characters, hyphens at 8, 13, 18 and 23, version digit `4`).
#[verifier::external_body]
pub(crate) fn new_uuid_v4() -> (res: String)
    ensures
        uuid_shaped(res@),
{
    uuid::Uuid::new_v4().to_string()
}

} // verus!
