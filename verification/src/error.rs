use vstd::prelude::*;

verus! {

/// A network error from reqwest.
#[verifier::external_type_specification]
#[verifier::external_body]
pub struct ExReqwestError(reqwest::Error);

/// A JSON decoding error from serde_json.
#[verifier::external_type_specification]
#[verifier::external_body]
pub struct ExJsonError(serde_json::Error);

/// What can go wrong when talking to the server.
#[derive(Debug)]
pub enum TracarrError {
    NetworkError(reqwest::Error),
    DecodingError(serde_json::Error),
    EmptyPositionResponse,
    Unauthorized,
    HttpError(u16, &'static str),
}

/// The canonical reason phrase of an HTTP status code, as the http crate's
/// table (used by reqwest's `StatusCode::canonical_reason`) gives it.
pub uninterp spec fn canonical_reason(code: u16) -> Option<Seq<char>>;

/// The canonical reason phrase of a status code, through reqwest's
/// `StatusCode::from_u16` and `StatusCode::canonical_reason`; no phrase for
/// a number that is not a status code. The phrase is named, not described.
#[verifier::external_body]
fn status_reason(code: u16) -> (r: Option<&'static str>)
    ensures
        match r {
            Some(s) => canonical_reason(code) == Some(s@),
            None => canonical_reason(code) is None,
        },
{
    match reqwest::StatusCode::from_u16(code) {
        Ok(status) => status.canonical_reason(),
        Err(_) => None,
    }
}

/// Whether a status code reports success (200 to 299).
pub open spec fn is_success_status(status: u16) -> bool {
    200 <= status < 300
}

/// The reason given in an HTTP error: the status's phrase, or "unknown
/// reason" when it has none.
pub open spec fn reason_text(reason: Option<Seq<char>>) -> Seq<char> {
    match reason {
        Some(t) => t,
        None => "unknown reason"@,
    }
}

/// Decides what a response status means, given the status's reason phrase.
pub fn status_error(status: u16, reason: Option<&'static str>) -> (r: Result<(), TracarrError>)
    ensures
        is_success_status(status) ==> r is Ok,
        !is_success_status(status) && status == 401 ==> r matches Err(TracarrError::Unauthorized),
        !is_success_status(status) && status != 401 ==> (r matches Err(TracarrError::HttpError(code, text))
            && code == status && text@ == reason_text(match reason {
                Some(t) => Some(t@),
                None => None,
            })),
{
    if 200 <= status && status < 300 {
        Ok(())
    } else if status == 401 {
        Err(TracarrError::Unauthorized)
    } else {
        Err(TracarrError::HttpError(
            status,
            match reason {
                Some(t) => t,
                None => "unknown reason",
            },
        ))
    }
}

/// Decides what a response status means: success (the body is then
/// decoded), `Unauthorized` for 401, and otherwise an HTTP error with the
/// status's canonical reason phrase.
pub fn response_status_outcome(status: u16) -> (r: Result<(), TracarrError>)
    ensures
        is_success_status(status) ==> r is Ok,
        !is_success_status(status) && status == 401 ==> r matches Err(TracarrError::Unauthorized),
        !is_success_status(status) && status != 401 ==> (r matches Err(TracarrError::HttpError(code, text))
            && code == status && text@ == reason_text(canonical_reason(status))),
{
    status_error(status, status_reason(status))
}

} // verus!
