//! The MIME value-object parser, consumed from the `mime` crate.

use vstd::prelude::*;

verus! {

/// The canonical text of the MIME type that the `mime` crate parses out of
/// `s`, or `None` when `s` is not a valid MIME type. The result depends on
/// the characters of `s` alone.
pub uninterp spec fn mime_text_of(s: Seq<char>) -> Option<Seq<char>>;

/// Relies on `mime::Mime`'s `FromStr` and `Display` impls: whether text
/// parses as a MIME type, and the parsed value's canonical rendering, are
/// functions of the input characters alone.
#[verifier::external_body]
pub fn parse_mime_text(s: &str) -> (r: Option<String>)
    ensures
        match r {
            Some(t) => mime_text_of(s@) == Some(t@),
            None => mime_text_of(s@) is None,
        },
{
    match s.parse::<mime::Mime>() {
        Ok(m) => Some(m.to_string()),
        Err(_) => None,
    }
}

} // verus!
