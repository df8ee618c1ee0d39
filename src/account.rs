use vstd::prelude::*;

verus! {

pub open spec fn is_separator(c: char) -> bool {
    c == '-' || c == '_' || c == '.'
}

pub open spec fn is_account_char(c: char) -> bool {
    ('a' as u32 <= c as u32 <= 'z' as u32) || ('0' as u32 <= c as u32 <= '9' as u32)
        || is_separator(c)
}

/// A well-formed account id: 2 to 64 characters out of `a-z`, `0-9`, `-`, `_`
/// and `.`, neither starting nor ending with a separator, and with no two
/// separators in a row.
pub open spec fn valid_account_id(s: Seq<char>) -> bool {
    &&& 2 <= s.len() <= 64
    &&& forall|i: int| 0 <= i < s.len() ==> is_account_char(#[trigger] s[i])
    &&& !is_separator(s[0])
    &&& !is_separator(s[s.len() - 1])
    &&& forall|i: int|
        0 <= i < s.len() - 1 ==> !(is_separator(#[trigger] s[i]) && is_separator(s[i + 1]))
}

/// Relies on near_sdk::AccountId::validate (near-account-id's `validate`):
/// it accepts a string exactly when it is a well-formed account id.
#[verifier::external_body]
pub(crate) fn account_id_is_valid(s: &str) -> (r: bool)
    ensures
        r == valid_account_id(s@),
{
    near_sdk::AccountId::validate(s).is_ok()
}

} // verus!
