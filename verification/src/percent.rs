//! Percent-decoding, as the `urlencoding` crate does it.

use vstd::prelude::*;

verus! {

/// The error of the UTF-8 check, as the decoder hands it on.
#[verifier::external_type_specification]
#[verifier::external_body]
pub struct ExFromUtf8Error(std::string::FromUtf8Error);

/// The string that `text` decodes to: each `%` with two hexadecimal digits
/// behind it stands for one byte, and the bytes are read as UTF-8. There is
/// none where those bytes are no UTF-8.
pub uninterp spec fn percent_decoded(text: Seq<char>) -> Option<Seq<char>>;

/// `urlencoding::decode` returns the decoded string, or the error of the
/// UTF-8 check on the decoded bytes; which of the two, and the string, depend
/// on the text alone.
#[verifier::external_body]
pub(crate) fn decode(text: &str) -> (out: Result<String, std::string::FromUtf8Error>)
    ensures
        match out {
            Ok(decoded) => percent_decoded(text@) == Some(decoded@),
            Err(_) => percent_decoded(text@) is None,
        },
{
    match urlencoding::decode(text) {
        Ok(decoded) => Ok(decoded.into_owned()),
        Err(error) => Err(error),
    }
}

} // verus!
