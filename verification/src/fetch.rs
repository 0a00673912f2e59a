//! What the bot does with a fetched web page: the failures of a fetch and the
//! page's text.

use vstd::prelude::*;
use vstd::utf8::{decode_utf8, valid_utf8};

verus! {

/// Why fetching a page failed.
#[derive(Debug, Clone, Copy, PartialEq, Eq)]
pub enum FetchFailure {
    /// The address could not be turned into a request.
    BadUri,
    /// The request was sent but no response came back.
    Unreachable,
    /// The response body could not be read.
    BrokenBody,
}

/// The message the bot gives for a failed fetch.
pub open spec fn failure_text(f: FetchFailure) -> Seq<char> {
    match f {
        FetchFailure::BadUri => "uri parse fail"@,
        FetchFailure::Unreachable => "page fetch fail"@,
        FetchFailure::BrokenBody => "body to bytes fail"@,
    }
}

/// The message for `f`.
pub fn failure_message(f: FetchFailure) -> (m: String)
    ensures
        m@ == failure_text(f),
{
    match f {
        FetchFailure::BadUri => "uri parse fail".to_owned(),
        FetchFailure::Unreachable => "page fetch fail".to_owned(),
        FetchFailure::BrokenBody => "body to bytes fail".to_owned(),
    }
}

/// What `String::from_utf8_lossy` makes of `bytes`.
pub uninterp spec fn utf8_lossy(bytes: Seq<u8>) -> Seq<char>;

/// `String::from_utf8_lossy`: the text of `bytes`, each invalid UTF-8
/// sequence replaced by U+FFFD; valid UTF-8 is decoded as it is. How invalid
/// sequences are cut up is left to the name `utf8_lossy`.
#[verifier::external_body]
pub(crate) fn decode_lossy(bytes: &[u8]) -> (s: String)
    ensures
        s@ == utf8_lossy(bytes@),
        valid_utf8(bytes@) ==> s@ == decode_utf8(bytes@),
{
    String::from_utf8_lossy(bytes).into_owned()
}

/// The text of a fetched page, or the message for the failed fetch.
pub fn page_text(fetched: Result<Vec<u8>, FetchFailure>) -> (r: Result<String, String>)
    ensures
        match fetched {
            Ok(bytes) => r matches Ok(t) && t@ == utf8_lossy(bytes@),
            Err(f) => r matches Err(m) && m@ == failure_text(f),
        },
{
    match fetched {
        Ok(bytes) => Ok(decode_lossy(bytes.as_slice())),
        Err(f) => Err(failure_message(f)),
    }
}

} // verus!
