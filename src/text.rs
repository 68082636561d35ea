//! Text checks on message content.
use vstd::prelude::*;

verus! {

/// What `str::trim` leaves of a string: the string without its leading and
/// trailing Unicode white space.
pub uninterp spec fn trimmed(s: Seq<char>) -> Seq<char>;

/// Relies on `str::trim`: its result is the string with surrounding white
/// space removed, which depends on the characters alone, and an empty string
/// stays empty.
#[verifier::external_body]
fn trim_str(s: &str) -> (r: &str)
    ensures
        r@ == trimmed(s@),
        s@.len() == 0 ==> r@.len() == 0,
{
    s.trim()
}

/// Whether message content counts as blank: nothing is left once
/// surrounding white space is trimmed.
pub open spec fn blank(s: Seq<char>) -> bool {
    trimmed(s).len() == 0
}

/// Tells whether `content` is blank.
pub fn is_blank(content: &str) -> (r: bool)
    ensures
        r == blank(content@),
        content@.len() == 0 ==> r,
{
    let t = trim_str(content);
    t.is_empty()
}

} // verus!
