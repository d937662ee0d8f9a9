use vstd::prelude::*;
use vstd::string::StringExecFns;
use crate::errors::AiError;
use crate::json::{encode_json_string, json_string_text};

verus! {

/// An inbound assist request: a command name and the text it works on.
#[derive(Debug)]
pub struct AIAssistRequest {
    pub command: String,
    pub text: String,
}

/// The success body of the assist endpoint.
#[derive(Debug)]
pub struct AIAssistResponse {
    pub result: String,
}

/// The failure body of the assist endpoint.
#[derive(Debug)]
pub struct ErrorResponse {
    pub error: String,
}

/// Maps a processing outcome to the endpoint's reply: a success carries
/// the answer text under status 200 (the Ok side), and every failure,
/// whatever its kind, becomes status 500 with the error's message.
pub fn ai_assist_reply(outcome: Result<String, AiError>) -> (r: Result<
    AIAssistResponse,
    (u16, ErrorResponse),
>)
    ensures
        (match outcome {
            Ok(text) => r matches Ok(resp) && resp.result@ == text@,
            Err(e) => r matches Err(p) && p.0 == 500 && p.1.error@ == e.message_spec(),
        }),
{
    match outcome {
        Ok(text) => Ok(AIAssistResponse { result: text }),
        Err(e) => {
            let msg = e.message();
            Err((500, ErrorResponse { error: msg }))
        },
    }
}

/// The exact text of a success body on the wire.
pub open spec fn result_body_spec(text: Seq<char>) -> Seq<char> {
    "{\"result\":"@ + json_string_text(text) + "}"@
}

/// Renders a success body as JSON.
pub fn encode_assist_response(resp: &AIAssistResponse) -> (r: String)
    ensures
        r@ == result_body_spec(resp.result@),
{
    let quoted = encode_json_string(resp.result.as_str());
    String::from_str("{\"result\":").concat(quoted.as_str()).concat("}")
}

/// The exact text of a failure body on the wire.
pub open spec fn error_body_spec(msg: Seq<char>) -> Seq<char> {
    "{\"error\":"@ + json_string_text(msg) + "}"@
}

/// Renders a failure body as JSON.
pub fn encode_error_response(resp: &ErrorResponse) -> (r: String)
    ensures
        r@ == error_body_spec(resp.error@),
{
    let quoted = encode_json_string(resp.error.as_str());
    String::from_str("{\"error\":").concat(quoted.as_str()).concat("}")
}

/// The health endpoint's body: always the same, whatever the state of
/// anything else.
pub fn health_check() -> (r: &'static str)
    ensures
        r@ == "OK"@,
{
    "OK"
}

} // verus!
