//! The one place where the library calls into the regular-expression
//! engine.  Classification needs only "where is the leftmost match of this
//! pattern in this line", which is a function of the two byte strings.

use vstd::prelude::*;

verus! {

/// The leftmost match that the regular-expression engine finds for
/// `pattern` in `text`, as a half-open byte range, or nothing when the
/// pattern does not occur or cannot be compiled.
pub uninterp spec fn regex_find_spec(pattern: Seq<u8>, text: Seq<u8>) -> Option<(usize, usize)>;

/// Relies on `regex::bytes::Regex::new` and `regex::bytes::Regex::find`:
/// the leftmost match depends only on the pattern and the text searched,
/// and its range lies within the text; a pattern that does not compile
/// matches nothing.
#[verifier::external_body]
pub(crate) fn regex_find(pattern: &Vec<u8>, text: &Vec<u8>) -> (r: Option<(usize, usize)>)
    ensures
        r == regex_find_spec(pattern@, text@),
        match r {
            Some(p) => p.0 <= p.1 && p.1 <= text@.len(),
            None => true,
        },
{
    match core::str::from_utf8(pattern).ok().and_then(|p| regex::bytes::Regex::new(p).ok()) {
        Some(re) => re.find(text).map(|m| (m.start(), m.end())),
        None => None,
    }
}

} // verus!
