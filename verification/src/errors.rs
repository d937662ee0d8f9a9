use vstd::prelude::*;
use vstd::string::StringExecFns;

verus! {

/// Every way a relayed command can fail, in the order the conditions are
/// checked: an unknown command name, a non-success status from the remote
/// service (carrying the remote body verbatim), a remote body that is not
/// well-formed JSON of the expected shape, a well-formed reply with no
/// usable candidate or part, and a network-level failure.
#[derive(Debug, Clone)]
pub enum AiError {
    InvalidCommand,
    RemoteApiError(String),
    MalformedResponse,
    EmptyResponse,
    TransportError(String),
}

impl AiError {
    /// The human-readable message that callers see for this error.
    pub open spec fn message_spec(&self) -> Seq<char> {
        match self {
            AiError::InvalidCommand => "Invalid command. Use 'summarize' or 'ask-question'"@,
            AiError::RemoteApiError(body) => "Gemini API error: "@ + body@,
            AiError::MalformedResponse => "Malformed response from Gemini API"@,
            AiError::EmptyResponse => "No response from Gemini API"@,
            AiError::TransportError(msg) => msg@,
        }
    }

    /// Renders the error as its message text.
    pub fn message(&self) -> (r: String)
        ensures
            r@ == self.message_spec(),
    {
        match self {
            AiError::InvalidCommand => String::from_str(
                "Invalid command. Use 'summarize' or 'ask-question'",
            ),
            AiError::RemoteApiError(body) => String::from_str("Gemini API error: ").concat(
                body.as_str(),
            ),
            AiError::MalformedResponse => String::from_str("Malformed response from Gemini API"),
            AiError::EmptyResponse => String::from_str("No response from Gemini API"),
            AiError::TransportError(msg) => msg.clone(),
        }
    }
}

} // verus!
