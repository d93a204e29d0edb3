//! The content fetcher's decision on a transport answer: text, or a typed
//! failure that names the URL and the status.
use vstd::prelude::*;
use vstd::utf8::{decode_utf8, valid_utf8};

verus! {

/// Why a fetch did not give text.
#[derive(PartialEq, Eq, Structural, Clone, Copy, Debug)]
pub enum FetchFailure {
    /// The transport answered with a status other than 200.
    BadStatus,
    /// The transport answered 200 without a body.
    MissingBody,
    /// The body is not valid UTF-8.
    InvalidUtf8,
}

/// A failed fetch: the URL, the status that came back, and why it failed.
pub struct FetchError {
    pub url: String,
    pub status: u16,
    pub cause: FetchFailure,
}

/// The status code that counts as success.
pub const STATUS_OK: u16 = 200;

/// Relies on `String::from_utf8`: `Some` exactly when the bytes are valid
/// UTF-8, with the characters they encode.
#[verifier::external_body]
fn decode_utf8_bytes(bytes: Vec<u8>) -> (r: Option<String>)
    ensures
        r is Some <==> valid_utf8(bytes@),
        r matches Some(s) ==> s@ == decode_utf8(bytes@),
{
    String::from_utf8(bytes).ok()
}

/// Whether the transport's status counts as a successful fetch.
pub fn status_succeeded(status_code: u16) -> (r: bool)
    ensures
        r == (status_code == STATUS_OK),
{
    status_code == STATUS_OK
}

impl FetchFailure {
    /// The human-readable description of each cause.
    pub open spec fn description(&self) -> Seq<char> {
        match self {
            FetchFailure::BadStatus => "the server did not answer with status 200"@,
            FetchFailure::MissingBody => "the server answered without a body"@,
            FetchFailure::InvalidUtf8 => "the body is not valid UTF-8"@,
        }
    }

    /// A human-readable description of the failure.
    pub fn describe(&self) -> (r: &'static str)
        ensures
            r@ == self.description(),
    {
        proof {
            reveal_strlit("the server did not answer with status 200");
            reveal_strlit("the server answered without a body");
            reveal_strlit("the body is not valid UTF-8");
        }
        match self {
            FetchFailure::BadStatus => "the server did not answer with status 200",
            FetchFailure::MissingBody => "the server answered without a body",
            FetchFailure::InvalidUtf8 => "the body is not valid UTF-8",
        }
    }
}

/// Turns the transport's answer for `url` into its text: success only for
/// status 200 with a body that is valid UTF-8; every other answer is a
/// [`FetchError`] carrying the URL, the status and the cause.
pub fn fetch_content(url: &str, status_code: u16, content: Option<Vec<u8>>) -> (r: Result<String, FetchError>)
    ensures
        match r {
            Ok(text) => status_code == STATUS_OK && content is Some && valid_utf8(content->0@)
                && text@ == decode_utf8(content->0@),
            Err(e) => e.url@ == url@ && e.status == status_code && e.cause == (
                if status_code != STATUS_OK {
                    FetchFailure::BadStatus
                } else if content is None {
                    FetchFailure::MissingBody
                } else {
                    FetchFailure::InvalidUtf8
                }),
        },
        r is Ok <==> (status_code == STATUS_OK && content is Some && valid_utf8(content->0@)),
{
    if !status_succeeded(status_code) {
        return Err(FetchError { url: String::from_str(url), status: status_code, cause: FetchFailure::BadStatus });
    }
    match content {
        Some(bytes) => match decode_utf8_bytes(bytes) {
            Some(text) => Ok(text),
            None => Err(
                FetchError { url: String::from_str(url), status: status_code, cause: FetchFailure::InvalidUtf8 },
            ),
        },
        None => Err(
            FetchError { url: String::from_str(url), status: status_code, cause: FetchFailure::MissingBody },
        ),
    }
}

} // verus!
