use conductor_assistant_backend::errors::AiError;
use conductor_assistant_backend::gateway::interpret_reply;

fn good(body: &str) -> String {
    interpret_reply(200, body).unwrap()
}

fn bad(body: &str) -> AiError {
    interpret_reply(200, body).unwrap_err()
}

#[test]
fn first_part_text_is_returned_verbatim() {
    let body = "{\"candidates\":[{\"content\":{\"parts\":[{\"text\":\"Hello\"}]}}]}";
    assert_eq!(good(body), "Hello");
}

#[test]
fn empty_candidates_is_empty_response() {
    assert!(matches!(bad("{\"candidates\":[]}"), AiError::EmptyResponse));
}

#[test]
fn empty_parts_is_empty_response() {
    let body = "{\"candidates\":[{\"content\":{\"parts\":[]}}]}";
    assert!(matches!(bad(body), AiError::EmptyResponse));
}

#[test]
fn non_success_status_carries_the_body() {
    let r = interpret_reply(429, "quota exceeded");
    match r {
        Err(AiError::RemoteApiError(b)) => {
            assert_eq!(b, "quota exceeded");
            assert!(AiError::RemoteApiError(b).message().contains("quota exceeded"));
        }
        other => panic!("expected a remote error, got {:?}", other),
    }
}

#[test]
fn statuses_outside_2xx_fail_and_inside_succeed() {
    let body = "{\"candidates\":[{\"content\":{\"parts\":[{\"text\":\"ok\"}]}}]}";
    assert!(matches!(interpret_reply(199, body), Err(AiError::RemoteApiError(_))));
    assert!(matches!(interpret_reply(300, body), Err(AiError::RemoteApiError(_))));
    assert_eq!(interpret_reply(204, body).unwrap(), "ok");
    assert_eq!(interpret_reply(299, body).unwrap(), "ok");
}

#[test]
fn unknown_members_everywhere_are_ignored() {
    let body = "{\"model\":\"g\",\"candidates\":[{\"finishReason\":\"STOP\",\"content\":{\"role\":\"model\",\"parts\":[{\"text\":\"T\",\"extra\":null},{\"text\":\"U\"}]},\"index\":0}],\"usage\":{\"tokens\":12}}";
    assert_eq!(good(body), "T");
}

#[test]
fn whitespace_and_numbers_are_tolerated() {
    let body = " {\n\t\"candidates\" : [ { \"content\" : { \"parts\" : [ { \"text\" : \"A\", \"score\" : -1.25e-2 } ] } } ] ,\r\n \"zero\" : 0 } ";
    assert_eq!(good(body), "A");
}

#[test]
fn escapes_in_text_are_decoded() {
    let body = "{\"candidates\":[{\"content\":{\"parts\":[{\"text\":\"a\\\"b\\\\c\\/d\\n\\t\\r\\b\\f\"}]}}]}";
    assert_eq!(good(body), "a\"b\\c/d\n\t\r\u{8}\u{c}");
}

#[test]
fn unicode_escapes_are_decoded() {
    let body = "{\"candidates\":[{\"content\":{\"parts\":[{\"text\":\"\\u0041\\u00e9\\u20ac\"}]}}]}";
    assert_eq!(good(body), "A\u{e9}\u{20ac}");
}

#[test]
fn surrogate_pairs_are_combined() {
    let body = "{\"candidates\":[{\"content\":{\"parts\":[{\"text\":\"\\ud83d\\ude00\"}]}}]}";
    assert_eq!(good(body), "\u{1f600}");
}

#[test]
fn lone_surrogates_are_malformed() {
    let body = "{\"candidates\":[{\"content\":{\"parts\":[{\"text\":\"\\ud83d\"}]}}]}";
    assert!(matches!(bad(body), AiError::MalformedResponse));
    let body2 = "{\"candidates\":[{\"content\":{\"parts\":[{\"text\":\"\\ude00x\"}]}}]}";
    assert!(matches!(bad(body2), AiError::MalformedResponse));
}

#[test]
fn raw_controls_and_unknown_escapes_are_malformed() {
    let body = "{\"candidates\":[{\"content\":{\"parts\":[{\"text\":\"a\nb\"}]}}]}";
    assert!(matches!(bad(body), AiError::MalformedResponse));
    let body2 = "{\"candidates\":[{\"content\":{\"parts\":[{\"text\":\"a\\x\"}]}}]}";
    assert!(matches!(bad(body2), AiError::MalformedResponse));
}

#[test]
fn broken_json_is_malformed() {
    for body in [
        "",
        "   ",
        "{",
        "{\"candidates\":[}",
        "{\"candidates\":[]} trailing",
        "{\"candidates\":[]}{}",
        "not json",
        "{\"candidates\":[],}",
        "{\"candidates\" []}",
        "{\"candidates\":[01]}",
        "{\"candidates\":[1.]}",
        "{\"candidates\":[1e]}",
        "{\"candidates\":\"x\"}",
    ] {
        assert!(matches!(bad(body), AiError::MalformedResponse), "body: {:?}", body);
    }
}

#[test]
fn wrong_shapes_are_malformed() {
    for body in [
        "[]",
        "null",
        "true",
        "42",
        "\"text\"",
        "{}",
        "{\"other\":1}",
        "{\"candidates\":[null]}",
        "{\"candidates\":[{}]}",
        "{\"candidates\":[{\"content\":null}]}",
        "{\"candidates\":[{\"content\":{}}]}",
        "{\"candidates\":[{\"content\":{\"parts\":null}}]}",
        "{\"candidates\":[{\"content\":{\"parts\":[null]}}]}",
        "{\"candidates\":[{\"content\":{\"parts\":[{}]}}]}",
        "{\"candidates\":[{\"content\":{\"parts\":[{\"text\":7}]}}]}",
    ] {
        assert!(matches!(bad(body), AiError::MalformedResponse), "body: {:?}", body);
    }
}

#[test]
fn repeated_members_are_malformed() {
    let body = "{\"candidates\":[],\"candidates\":[]}";
    assert!(matches!(bad(body), AiError::MalformedResponse));
    let body2 = "{\"candidates\":[{\"content\":{\"parts\":[{\"text\":\"a\",\"text\":\"b\"}]}}]}";
    assert!(matches!(bad(body2), AiError::MalformedResponse));
}

#[test]
fn later_candidates_must_also_be_well_shaped() {
    let body = "{\"candidates\":[{\"content\":{\"parts\":[{\"text\":\"A\"}]}},{\"bad\":1}]}";
    assert!(matches!(bad(body), AiError::MalformedResponse));
    let body2 = "{\"candidates\":[{\"content\":{\"parts\":[{\"text\":\"A\"}]}},{\"content\":{\"parts\":[{\"text\":\"B\"}]}}]}";
    assert_eq!(good(body2), "A");
}

#[test]
fn number_forms_inside_ignored_members_parse() {
    let body = "{\"candidates\":[],\"ns\":[0,-0,1,-1,10,1.5,-0.25,1e3,1E+3,2e-7,0.0]}";
    assert!(matches!(bad(body), AiError::EmptyResponse));
}

#[test]
fn deeply_nested_ignored_members_parse() {
    let body = "{\"a\":[[[[{\"b\":[{\"c\":[1,[true,[null,[\"s\"]]]]}]}]]]],\"candidates\":[{\"content\":{\"parts\":[{\"text\":\"deep\"}]}}]}";
    assert_eq!(good(body), "deep");
}
