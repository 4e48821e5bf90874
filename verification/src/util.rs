//! The body-presence rule.

use vstd::prelude::*;
use vstd::string::StrSliceExecFns;

verus! {

/// A request is bodiless exactly when its length indicator is the literal
/// `0`; with any other indicator, and with none, the body is read in full.
pub open spec fn body_expected(length_indicator: Option<Seq<char>>) -> bool {
    length_indicator != Some(seq!['0'])
}

/// Whether the body of a request with this length indicator (the first
/// value of its `Content-Length` header, if it has one) is to be read.
pub fn has_body(length_indicator: Option<&str>) -> (expected: bool)
    ensures
        expected == body_expected(
            match length_indicator {
                Some(value) => Some(value@),
                None => None,
            },
        ),
{
    match length_indicator {
        Some(value) => {
            let zero = value.unicode_len() == 1 && value.get_char(0) == '0';
            assert(zero == (value@ =~= seq!['0']));
            !zero
        },
        None => true,
    }
}

} // verus!
