//! The request for a transcription.
use vstd::prelude::*;
use vstd::utf8::encode_utf8;

use crate::voice::deepgram::DeepgramConfig;
use crate::voice::{SttError, SttErrorView, SttResult};

verus! {

/// What is wrong with an address for a WebSocket request; nothing where it can be requested.
pub uninterp spec fn client_request_fault(url: Seq<char>) -> Option<Seq<char>>;

/// `IntoClientRequest::into_client_request` on an address, whose request is dropped: whether there
/// is one, and the error's text where there is none. What makes an address a request is named, not
/// stated.
#[verifier::external_body]
pub(crate) fn check_client_request(url: &str) -> (result: std::result::Result<(), String>)
    ensures
        match client_request_fault(url@) {
            None => result is Ok,
            Some(fault) => result is Err && result->Err_0@ == fault,
        },
{
    match tokio_tungstenite::tungstenite::client::IntoClientRequest::into_client_request(url) {
        Ok(_) => Ok(()),
        Err(error) => Err(error.to_string()),
    }
}

/// Whether a header's value may hold the byte: tabs, and all but control characters.
pub open spec fn header_byte(b: u8) -> bool {
    b == 9 || (b >= 32 && b != 127)
}

/// Whether a text may be a header's value.
pub open spec fn header_value(text: Seq<char>) -> bool {
    forall|i: int| 0 <= i < encode_utf8(text).len() ==> header_byte(#[trigger] encode_utf8(text)[i])
}

/// `HeaderValue::from_str`, whose value is dropped: a text is a header's value where all its bytes
/// may stand in one, and the error has one text.
#[verifier::external_body]
pub(crate) fn check_header_value(text: &str) -> (result: std::result::Result<(), String>)
    ensures
        result is Ok <==> header_value(text@),
        result matches Err(message) ==> message@ == "failed to parse header value"@,
{
    match tokio_tungstenite::tungstenite::http::HeaderValue::from_str(text) {
        Ok(_) => Ok(()),
        Err(error) => Err(error.to_string()),
    }
}

/// The request for a transcription: its address, and its authorization.
#[derive(Debug)]
pub struct ListenRequest {
    pub url: String,
    pub authorization: String,
}

/// The request for a transcription, where the address and the key can make one.
pub fn listen_request(config: &DeepgramConfig) -> (request: SttResult<ListenRequest>)
    ensures
        match client_request_fault(config.listen_url@) {
            Some(fault) => request is Err && request->Err_0@ == SttErrorView::Backend(
                "invalid Deepgram listen URL: "@ + fault,
            ),
            None => if header_value("Token "@ + config.api_key@) {
                &&& request is Ok
                &&& request->Ok_0.url@ == config.listen_url@
                &&& request->Ok_0.authorization@ == "Token "@ + config.api_key@
            } else {
                request is Err && request->Err_0@ == SttErrorView::Backend(
                    "invalid Deepgram auth header: "@ + "failed to parse header value"@,
                )
            },
        },
{
    match check_client_request(config.listen_url.as_str()) {
        Ok(()) => {},
        Err(fault) => {
            return Err(
                SttError::Backend("invalid Deepgram listen URL: ".to_owned().concat(fault.as_str())),
            );
        },
    }
    let authorization = "Token ".to_owned().concat(config.api_key.as_str());
    match check_header_value(authorization.as_str()) {
        Ok(()) => Ok(ListenRequest { url: config.listen_url.clone(), authorization }),
        Err(message) => Err(
            SttError::Backend("invalid Deepgram auth header: ".to_owned().concat(message.as_str())),
        ),
    }
}

} // verus!
