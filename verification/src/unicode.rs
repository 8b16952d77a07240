//! Character classes taken from the standard library's Unicode tables.

use vstd::prelude::*;

verus! {

/// What `char::is_whitespace` returns for `c`: whether `c` has the Unicode
/// `White_Space` property.
pub uninterp spec fn white_space(c: char) -> bool;

/// Whether `c` is whitespace, as `char::is_whitespace` decides it. The
/// space is whitespace, as the documentation of that function shows; for
/// every other character the answer is the table's.
pub open spec fn is_whitespace(c: char) -> bool {
    c == ' ' || white_space(c)
}

/// Whether `c` has the Unicode `Lowercase` property, as `char::is_lowercase`
/// decides it.
pub uninterp spec fn is_lowercase(c: char) -> bool;

/// Calls `char::is_whitespace`. Trusted: the result is the table lookup that
/// `white_space` names, and it is `true` for the space, which the
/// documentation of the function shows as whitespace. Nothing else is
/// claimed about which characters are in the table.
#[verifier::external_body]
pub(crate) fn char_is_whitespace(c: char) -> (b: bool)
    ensures
        b == white_space(c),
        b == is_whitespace(c),
{
    c.is_whitespace()
}

/// Calls `char::is_lowercase`. Trusted: the result is the table lookup that
/// `is_lowercase` names; nothing is claimed about which characters are in
/// the table.
#[verifier::external_body]
pub(crate) fn char_is_lowercase(c: char) -> (b: bool)
    ensures
        b == is_lowercase(c),
{
    c.is_lowercase()
}

} // verus!
