use vstd::prelude::*;
use vstd::string::StringExecFns;
use crate::errors::AiError;
use crate::json::{encode_json_string, json_string_text};
use crate::reply::{parse_reply, reply_rel, reply_text_spec};
use crate::text::str_eq;

verus! {

/// The prompt prefix for the "summarize" command.
pub open spec fn summarize_template() -> Seq<char> {
    "Summarize the following slide content in one concise sentence. Focus on the key takeaway:\n\n"@
}

/// The prompt prefix for the "ask-question" command.
pub open spec fn question_template() -> Seq<char> {
    "Act as my assistant. Based on the following slide content, what's a likely question the audience would have? Provide one specific, relevant question:\n\n"@
}

/// Selects the prompt for a command: the matching template with the payload
/// text appended exactly once; any command outside the fixed set is
/// rejected before anything else happens.
pub fn build_prompt(command: &str, text: &str) -> (r: Result<String, AiError>)
    ensures
        command@ == "summarize"@ ==> (r matches Ok(p) && p@ == summarize_template() + text@),
        command@ == "ask-question"@ ==> (r matches Ok(p) && p@ == question_template() + text@),
        command@ != "summarize"@ && command@ != "ask-question"@ ==> r matches Err(
            AiError::InvalidCommand,
        ),
        r is Ok <==> (command@ == "summarize"@ || command@ == "ask-question"@),
{
    proof {
        reveal_strlit("summarize");
        reveal_strlit("ask-question");
        assert("summarize"@.len() != "ask-question"@.len());
    }
    if str_eq(command, "summarize") {
        Ok(
            String::from_str(
                "Summarize the following slide content in one concise sentence. Focus on the key takeaway:\n\n",
            ).concat(text),
        )
    } else if str_eq(command, "ask-question") {
        Ok(
            String::from_str(
                "Act as my assistant. Based on the following slide content, what's a likely question the audience would have? Provide one specific, relevant question:\n\n",
            ).concat(text),
        )
    } else {
        Err(AiError::InvalidCommand)
    }
}

/// The fixed remote endpoint with the credential as its query parameter.
pub open spec fn request_url_spec(key: Seq<char>) -> Seq<char> {
    "https://generativelanguage.googleapis.com/v1beta/models/gemini-pro:generateContent?key="@
        + key
}

/// The outbound wire payload: one content block holding one part that
/// carries the prompt, exactly as the remote service expects it.
pub open spec fn payload_text(prompt: Seq<char>) -> Seq<char> {
    "{\"contents\":[{\"parts\":[{\"text\":"@ + json_string_text(prompt) + "}]}]}"@
}

/// Frames a prompt as the outbound JSON payload.
pub fn encode_payload(prompt: &str) -> (r: String)
    ensures
        r@ == payload_text(prompt@),
{
    let quoted = encode_json_string(prompt);
    String::from_str("{\"contents\":[{\"parts\":[{\"text\":").concat(quoted.as_str()).concat(
        "}]}]}",
    )
}

/// Everything that precedes the outbound call: validates the command,
/// builds the prompt, and frames it as the outbound payload. A command
/// outside the fixed set fails here, before any payload exists, so no
/// outbound call can follow it.
pub fn plan_request(command: &str, text: &str) -> (r: Result<String, AiError>)
    ensures
        command@ == "summarize"@ ==> (r matches Ok(p) && p@ == payload_text(
            summarize_template() + text@,
        )),
        command@ == "ask-question"@ ==> (r matches Ok(p) && p@ == payload_text(
            question_template() + text@,
        )),
        command@ != "summarize"@ && command@ != "ask-question"@ ==> r matches Err(
            AiError::InvalidCommand,
        ),
        r is Ok <==> (command@ == "summarize"@ || command@ == "ask-question"@),
{
    match build_prompt(command, text) {
        Ok(prompt) => Ok(encode_payload(prompt.as_str())),
        Err(e) => Err(e),
    }
}

/// Whether an HTTP status code reports success.
pub open spec fn is_success_status(status: u16) -> bool {
    200 <= status && status < 300
}

/// Everything that follows the outbound call: a non-success status fails
/// with the raw remote body as diagnostic, and a success status unwraps
/// the body into the answer text or the error its shape dictates.
pub fn interpret_reply(status: u16, body: &str) -> (r: Result<String, AiError>)
    ensures
        !is_success_status(status) ==> (r matches Err(AiError::RemoteApiError(b)) && b@ == body@),
        is_success_status(status) ==> reply_rel(r, reply_text_spec(body@)),
{
    if status < 200 || status >= 300 {
        Err(AiError::RemoteApiError(body.to_owned()))
    } else {
        parse_reply(body)
    }
}

/// Owns the credential for the remote generative-language service and
/// derives everything the outbound call needs from it. The credential is
/// set at construction and never changes afterwards.
pub struct AIService {
    api_key: String,
}

impl View for AIService {
    type V = Seq<char>;

    closed spec fn view(&self) -> Seq<char> {
        self.api_key@
    }
}

impl AIService {
    /// Stores the credential for later calls.
    pub fn new(api_key: String) -> (r: Self)
        ensures
            r@ == api_key@,
    {
        AIService { api_key }
    }

    /// The full request URL for the outbound call.
    pub fn request_url(&self) -> (r: String)
        ensures
            r@ == request_url_spec(self@),
    {
        String::from_str(
            "https://generativelanguage.googleapis.com/v1beta/models/gemini-pro:generateContent?key=",
        ).concat(self.api_key.as_str())
    }
}

} // verus!
