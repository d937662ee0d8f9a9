use conductor_assistant_backend::errors::AiError;
use conductor_assistant_backend::gateway::{
    build_prompt, encode_payload, interpret_reply, plan_request, AIService,
};
use conductor_assistant_backend::handler::{
    ai_assist_reply, encode_assist_response, encode_error_response, health_check, AIAssistRequest,
};

const SUMMARIZE_PREFIX: &str = "Summarize the following slide content in one concise sentence. Focus on the key takeaway:\n\n";
const QUESTION_PREFIX: &str = "Act as my assistant. Based on the following slide content, what's a likely question the audience would have? Provide one specific, relevant question:\n\n";

#[test]
fn summarize_prompt_is_template_plus_text() {
    let p = build_prompt("summarize", "slide body").unwrap();
    let mut expected = String::from(SUMMARIZE_PREFIX);
    expected.push_str("slide body");
    assert_eq!(p, expected);
}

#[test]
fn question_prompt_is_template_plus_text() {
    let p = build_prompt("ask-question", "slide body").unwrap();
    let mut expected = String::from(QUESTION_PREFIX);
    expected.push_str("slide body");
    assert_eq!(p, expected);
}

#[test]
fn empty_text_appends_nothing() {
    let p = build_prompt("summarize", "").unwrap();
    assert_eq!(p, SUMMARIZE_PREFIX);
}

#[test]
fn unknown_commands_are_rejected() {
    for cmd in ["", "translate", "Summarize", "summarize ", "ask_question", "SUMMARIZE"] {
        let r = build_prompt(cmd, "x");
        assert!(matches!(r, Err(AiError::InvalidCommand)));
        let planned = plan_request(cmd, "x");
        assert!(matches!(planned, Err(AiError::InvalidCommand)));
    }
}

#[test]
fn invalid_command_message_names_the_choices() {
    let msg = AiError::InvalidCommand.message();
    assert_eq!(msg, "Invalid command. Use 'summarize' or 'ask-question'");
}

#[test]
fn payload_frames_prompt_as_single_part() {
    assert_eq!(
        encode_payload("hello"),
        "{\"contents\":[{\"parts\":[{\"text\":\"hello\"}]}]}"
    );
}

#[test]
fn payload_escapes_special_characters() {
    assert_eq!(
        encode_payload("a\"b\\c\nd\te\rf"),
        "{\"contents\":[{\"parts\":[{\"text\":\"a\\\"b\\\\c\\nd\\te\\rf\"}]}]}"
    );
    assert_eq!(
        encode_payload("\u{1}\u{1f}\u{8}\u{c}"),
        "{\"contents\":[{\"parts\":[{\"text\":\"\\u0001\\u001f\\b\\f\"}]}]}"
    );
}

#[test]
fn planned_payload_carries_the_prompt() {
    let payload = plan_request("summarize", "x").unwrap();
    let mut expected = String::from("{\"contents\":[{\"parts\":[{\"text\":\"");
    expected.push_str(&SUMMARIZE_PREFIX.replace('\n', "\\n"));
    expected.push_str("x\"}]}]}");
    assert_eq!(payload, expected);
}

#[test]
fn request_fields_drive_the_plan() {
    let req = AIAssistRequest {
        command: String::from("summarize"),
        text: String::from("x"),
    };
    assert!(plan_request(&req.command, &req.text).is_ok());
    let rejected = AIAssistRequest {
        command: String::from("delete"),
        text: String::from("x"),
    };
    assert!(matches!(
        plan_request(&rejected.command, &rejected.text),
        Err(AiError::InvalidCommand)
    ));
}

#[test]
fn request_url_carries_the_key() {
    let svc = AIService::new(String::from("test-key-123"));
    assert_eq!(
        svc.request_url(),
        "https://generativelanguage.googleapis.com/v1beta/models/gemini-pro:generateContent?key=test-key-123"
    );
}

#[test]
fn health_check_body_is_ok() {
    assert_eq!(health_check(), "OK");
}

#[test]
fn assist_reply_success_returns_the_text() {
    let body = "{\"candidates\":[{\"content\":{\"parts\":[{\"text\":\"the takeaway\"}]}}]}";
    let outcome = interpret_reply(200, body);
    let resp = ai_assist_reply(outcome).unwrap();
    assert_eq!(resp.result, "the takeaway");
    assert_eq!(encode_assist_response(&resp), "{\"result\":\"the takeaway\"}");
}

#[test]
fn assist_reply_failure_maps_to_500_with_message() {
    let outcome = interpret_reply(500, "boom");
    let (status, err) = ai_assist_reply(outcome).unwrap_err();
    assert_eq!(status, 500);
    assert!(!err.error.is_empty());
    assert_eq!(encode_error_response(&err), "{\"error\":\"Gemini API error: boom\"}");
}

#[test]
fn every_error_kind_maps_to_500() {
    for e in [
        AiError::InvalidCommand,
        AiError::RemoteApiError(String::from("nope")),
        AiError::MalformedResponse,
        AiError::EmptyResponse,
        AiError::TransportError(String::from("connection refused")),
    ] {
        let expected = e.message();
        let (status, err) = ai_assist_reply(Err(e)).unwrap_err();
        assert_eq!(status, 500);
        assert_eq!(err.error, expected);
    }
}

#[test]
fn transport_error_keeps_the_underlying_message() {
    let msg = AiError::TransportError(String::from("connection refused")).message();
    assert_eq!(msg, "connection refused");
}

#[test]
fn empty_response_message_matches() {
    assert_eq!(AiError::EmptyResponse.message(), "No response from Gemini API");
    assert_eq!(
        AiError::MalformedResponse.message(),
        "Malformed response from Gemini API"
    );
}
