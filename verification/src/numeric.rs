//! The capability a numeric value type must offer to the configuration
//! loader: decoding from one text token, pinned down by a spec-level
//! grammar and decode function.

use vstd::prelude::*;

use crate::text::digits_val;
use crate::text::parse_u64_digits;
use crate::text::u64_token_valid;

verus! {

/// A value type that can be decoded from one numeric text token.
///
/// `text_valid` is the type's token grammar, `from_text_spec` the value a
/// valid token denotes, and `from_text` the decoder, which succeeds on
/// exactly the valid tokens.
pub trait Parseable: Sized {
    /// The tokens this type accepts.
    spec fn text_valid(s: Seq<char>) -> bool;

    /// The value a valid token decodes to.
    spec fn from_text_spec(s: Seq<char>) -> Self;

    /// Decode one token.
    fn from_text(s: &str) -> (r: Option<Self>)
        ensures
            r is Some <==> Self::text_valid(s@),
            r matches Some(v) ==> v == Self::from_text_spec(s@),
    ;
}

impl Parseable for u64 {
    /// Nonempty, decimal digits only, value at most `u64::MAX`.
    open spec fn text_valid(s: Seq<char>) -> bool {
        u64_token_valid(s)
    }

    open spec fn from_text_spec(s: Seq<char>) -> u64 {
        digits_val(s) as u64
    }

    fn from_text(s: &str) -> (r: Option<u64>) {
        parse_u64_digits(s)
    }
}

} // verus!
