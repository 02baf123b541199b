//! Text of literals.

use std::fmt::Write;
use vstd::prelude::*;
use vstd::string::StringSliceAdditionalSpecFns;
use crate::grammar::negated;

verus! {

/// The longest text, in bytes, that is handed to a tendril buffer. Such a
/// buffer counts its length in 32 bits and rounds its capacity up to a power
/// of two.
pub const TENDRIL_LIMIT: usize = 0x4000_0000;

/// Formats `value` with a minus sign in front, as `tendril::format_tendril!`
/// does: makes an empty buffer with `tendril::StrTendril::new`, writes
/// `"-{}"` with `value` to it through the buffer's `std::fmt::Write`, and
/// copies the text out with `String::from`.
///
/// Trusted: the write pushes the sign and then the bytes of `value` onto the
/// buffer, so the text is the sign followed by `value`. The buffer panics
/// when a length or a capacity leaves 32 bits; the bound on `value` keeps
/// both below that.
#[verifier::external_body]
fn tendril_negated(value: &str) -> (out: String)
    requires
        value.spec_bytes().len() <= TENDRIL_LIMIT,
    ensures
        out@ == negated(value@),
{
    let mut buffer = tendril::StrTendril::new();
    let _ = write!(&mut buffer, "-{}", value);
    String::from(buffer)
}

/// The text of `value` with a minus sign in front.
pub fn negated_text(value: &String) -> (out: String)
    ensures
        out@ == negated(value@),
{
    let text = value.as_str();
    if text.as_bytes().len() <= TENDRIL_LIMIT {
        tendril_negated(text)
    } else {
        // Too long for a tendril: build the text in a `String`.
        let mut out = String::new();
        out.append("-");
        out.append(text);
        proof {
            reveal_strlit("-");
            assert(out@ =~= negated(value@));
        }
        out
    }
}

} // verus!
