use chat_gpt_rs::api::{chat_outcome, Api};
use chat_gpt_rs::error::Error;
use chat_gpt_rs::request::{Decimal, Message, Model, Request};
use chat_gpt_rs::token::Token;

fn simple_request(model: Model, content: &str) -> Request {
    Request {
        model,
        messages: vec![Message { role: "user".to_string(), content: content.to_string() }],
        ..Request::default()
    }
}

// --- model wire strings, one case per variant ---

#[test]
fn model_wire_gpt35_turbo() {
    assert_eq!(Model::Gpt35Turbo.wire_str(), "gpt-3.5-turbo");
}

#[test]
fn model_wire_gpt35_turbo_0301() {
    assert_eq!(Model::Gpt35Turbo0301.wire_str(), "gpt-3.5-turbo-0301");
}

#[test]
fn model_wire_gpt4() {
    assert_eq!(Model::Gpt4.wire_str(), "gpt-4");
}

#[test]
fn model_wire_gpt4_0314() {
    assert_eq!(Model::Gpt4_0314.wire_str(), "gpt-4-0314");
}

#[test]
fn model_wire_gpt4_32k() {
    assert_eq!(Model::Gpt4_32k.wire_str(), "gpt-4-32k");
}

#[test]
fn model_wire_gpt4_32k_0314() {
    assert_eq!(Model::Gpt4_32k0314.wire_str(), "gpt-4-32k-0314");
}

#[test]
fn default_model_is_cheapest() {
    assert_eq!(Model::default().wire_str(), "gpt-3.5-turbo");
    assert_eq!(Request::default().model.wire_str(), "gpt-3.5-turbo");
}

// --- credential rendering ---

#[test]
fn credential_renders_bearer_header() {
    let token = Token::new("abc123".to_string());
    assert_eq!(token.header_value(), "Bearer abc123");
}

#[test]
fn credential_is_not_transformed() {
    let token = Token::new("  spaced key  ".to_string());
    assert_eq!(token.header_value(), "Bearer   spaced key  ");
}

#[test]
fn api_authorization_header_comes_from_credential() {
    let api = Api::new(Token::new("abc123".to_string()));
    assert_eq!(api.authorization_header(), "Bearer abc123");
}

// --- client configuration ---

#[test]
fn organization_id_is_attached_by_builder() {
    let api = Api::new(Token::new("k".to_string()));
    assert!(api.organization_id().is_none());
    let api = api.with_organization_id("org-1".to_string());
    assert_eq!(api.organization_id().as_deref(), Some("org-1"));
}

#[test]
fn fixed_endpoint_and_content_type() {
    assert_eq!(Api::chat_url(), "https://api.openai.com/v1/chat/completions");
    assert_eq!(Api::content_type_header(), "application/json");
}

// --- request serialization ---

#[test]
fn minimal_request_serializes_exactly() {
    let r = simple_request(Model::Gpt35Turbo, "Hello");
    assert_eq!(
        r.to_json(),
        "{\"model\":\"gpt-3.5-turbo\",\"messages\":[{\"role\":\"user\",\"content\":\"Hello\"}]}"
    );
}

#[test]
fn unset_optional_fields_are_omitted() {
    let r = simple_request(Model::Gpt35Turbo, "Hello");
    let v: serde_json::Value = serde_json::from_str(&r.to_json()).unwrap();
    for key in [
        "temperature",
        "top_p",
        "n",
        "stop",
        "max_tokens",
        "presence_penalty",
        "frequency_penalty",
        "user",
    ] {
        assert!(v.get(key).is_none(), "unset field {key} must be absent, not null");
    }
    assert_eq!(v["model"], "gpt-3.5-turbo");
    assert_eq!(v["messages"][0]["role"], "user");
    assert_eq!(v["messages"][0]["content"], "Hello");
}

#[test]
fn set_optional_fields_are_included_verbatim() {
    let mut r = simple_request(Model::Gpt4, "hi");
    r.temperature = Some(Decimal::from_milli(800));
    r.top_p = Some(Decimal::from_milli(950));
    r.n = Some(2);
    r.stop = Some(vec!["a".to_string(), "b".to_string()]);
    r.max_tokens = Some(100);
    r.presence_penalty = Some(Decimal::from_milli(-500));
    r.frequency_penalty = Some(Decimal::from_milli(2000));
    r.user = Some("u1".to_string());
    let s = r.to_json();
    assert_eq!(
        s,
        "{\"model\":\"gpt-4\",\"messages\":[{\"role\":\"user\",\"content\":\"hi\"}],\
         \"temperature\":0.8,\"top_p\":0.95,\"n\":2,\"stop\":[\"a\",\"b\"],\"max_tokens\":100,\
         \"presence_penalty\":-0.5,\"frequency_penalty\":2,\"user\":\"u1\"}"
    );
    let v: serde_json::Value = serde_json::from_str(&s).unwrap();
    assert_eq!(v["temperature"].as_f64(), Some(0.8));
    assert_eq!(v["top_p"].as_f64(), Some(0.95));
    assert_eq!(v["n"].as_i64(), Some(2));
    assert_eq!(v["stop"][0], "a");
    assert_eq!(v["stop"][1], "b");
    assert_eq!(v["max_tokens"].as_i64(), Some(100));
    assert_eq!(v["presence_penalty"].as_f64(), Some(-0.5));
    assert_eq!(v["frequency_penalty"].as_f64(), Some(2.0));
    assert_eq!(v["user"], "u1");
}

#[test]
fn message_order_is_preserved_in_serialization() {
    let r = Request {
        model: Model::Gpt35Turbo,
        messages: vec![
            Message { role: "system".to_string(), content: "one".to_string() },
            Message { role: "user".to_string(), content: "two".to_string() },
            Message { role: "assistant".to_string(), content: "three".to_string() },
        ],
        ..Request::default()
    };
    let v: serde_json::Value = serde_json::from_str(&r.to_json()).unwrap();
    let msgs = v["messages"].as_array().unwrap();
    assert_eq!(msgs.len(), 3);
    assert_eq!(msgs[0]["content"], "one");
    assert_eq!(msgs[1]["content"], "two");
    assert_eq!(msgs[2]["content"], "three");
}

#[test]
fn empty_message_list_serializes_to_empty_array() {
    let r = Request::default();
    assert_eq!(r.to_json(), "{\"model\":\"gpt-3.5-turbo\",\"messages\":[]}");
}

#[test]
fn string_content_is_escaped() {
    let r = simple_request(Model::Gpt35Turbo, "a\"b\\c\nd\te\u{0001}f");
    let s = r.to_json();
    let v: serde_json::Value = serde_json::from_str(&s).unwrap();
    assert_eq!(v["messages"][0]["content"], "a\"b\\c\nd\te\u{0001}f");
    assert!(s.contains("a\\\"b\\\\c\\nd\\te\\u0001f"));
}

#[test]
fn decimal_renderings_are_exact() {
    let cases: [(i32, &str); 6] =
        [(0, "0"), (5, "0.005"), (950, "0.95"), (1500, "1.5"), (2000, "2"), (-500, "-0.5")];
    for (milli, expected) in cases {
        let mut r = Request::default();
        r.temperature = Some(Decimal::from_milli(milli));
        let s = r.to_json();
        let tail = format!("\"temperature\":{expected}}}");
        assert!(s.ends_with(&tail), "{s} should end with {tail}");
    }
}

// --- mapping HTTP outcomes ---

const SUCCESS_BODY: &str = "{\"id\":\"chatcmpl-123\",\"object\":\"chat.completion\",\
    \"created\":1677652288,\"choices\":[{\"index\":0,\"message\":{\"role\":\"assistant\",\
    \"content\":\"Hello there\"},\"finish_reason\":\"stop\"}],\"usage\":{\"prompt_tokens\":9,\
    \"completion_tokens\":12,\"total_tokens\":21}}";

const VENDOR_ERROR_BODY: &str =
    "{\"error\":{\"message\":\"Invalid API key\",\"type\":\"invalid_request_error\"}}";

#[test]
fn success_body_round_trips_into_response() {
    let resp = chat_outcome(200, SUCCESS_BODY).unwrap_or_else(|_| panic!("expected success"));
    assert_eq!(resp.id, "chatcmpl-123");
    assert_eq!(resp.object, "chat.completion");
    assert_eq!(resp.created, 1677652288);
    assert_eq!(resp.choices.len(), 1);
    assert_eq!(resp.choices[0].index, 0);
    assert_eq!(resp.choices[0].message.role, "assistant");
    assert_eq!(resp.choices[0].message.content, "Hello there");
    assert_eq!(resp.choices[0].finish_reason, "stop");
    assert_eq!(resp.usage.prompt_tokens, 9);
    assert_eq!(resp.usage.completion_tokens, 12);
    assert_eq!(resp.usage.total_tokens, 21);
}

#[test]
fn choices_keep_their_order() {
    let body = "{\"id\":\"x\",\"object\":\"chat.completion\",\"created\":1,\"choices\":[\
        {\"index\":0,\"message\":{\"role\":\"assistant\",\"content\":\"first\"},\
        \"finish_reason\":\"stop\"},{\"index\":1,\"message\":{\"role\":\"assistant\",\
        \"content\":\"second\"},\"finish_reason\":\"length\"}],\"usage\":{\"prompt_tokens\":1,\
        \"completion_tokens\":2,\"total_tokens\":3}}";
    let resp = chat_outcome(201, body).unwrap_or_else(|_| panic!("expected success"));
    assert_eq!(resp.choices.len(), 2);
    assert_eq!(resp.choices[0].message.content, "first");
    assert_eq!(resp.choices[0].finish_reason, "stop");
    assert_eq!(resp.choices[1].message.content, "second");
    assert_eq!(resp.choices[1].finish_reason, "length");
}

#[test]
fn unknown_fields_are_tolerated() {
    let body = "{\"id\":\"x\",\"object\":\"chat.completion\",\"created\":1,\
        \"system_fingerprint\":\"fp_44709d6fcb\",\"extra\":{\"deep\":[1,2.5,null,true,\"s\"]},\
        \"choices\":[{\"index\":0,\"logprobs\":null,\"message\":{\"role\":\"assistant\",\
        \"refusal\":null,\"content\":\"ok\"},\"finish_reason\":\"stop\"}],\
        \"usage\":{\"prompt_tokens\":1,\"completion_tokens\":1,\"total_tokens\":2,\
        \"cached_tokens\":0}}";
    let resp = chat_outcome(200, body).unwrap_or_else(|_| panic!("unknown fields must not fail"));
    assert_eq!(resp.choices[0].message.content, "ok");
}

#[test]
fn whitespace_and_unicode_escapes_are_decoded() {
    let body = " {\n  \"id\": \"x\", \"object\": \"o\", \"created\": 2,\n  \"choices\": [ { \
        \"index\": 0, \"message\": { \"role\": \"assistant\", \"content\": \"caf\\u00e9\" }, \
        \"finish_reason\": \"stop\" } ],\n  \"usage\": { \"prompt_tokens\": 0, \
        \"completion_tokens\": 0, \"total_tokens\": 0 }\n} ";
    let resp = chat_outcome(200, body).unwrap_or_else(|_| panic!("expected success"));
    assert_eq!(resp.choices[0].message.content, "caf\u{00e9}");
}

#[test]
fn vendor_error_becomes_typed_api_error() {
    for status in [400u16, 401, 429, 500] {
        match chat_outcome(status, VENDOR_ERROR_BODY) {
            Err(Error::ApiError(e)) => {
                assert_eq!(e.error.message, "Invalid API key");
                assert_eq!(e.error.error_type, "invalid_request_error");
            },
            Err(Error::TransportError(s)) => {
                panic!("status {status}: expected a vendor error, got transport error {s}")
            },
            Ok(_) => panic!("status {status}: expected an error"),
        }
    }
}

#[test]
fn vendor_error_with_extra_fields_still_parses() {
    let body = "{\"error\":{\"message\":\"Rate limit\",\"type\":\"rate_limit_error\",\
        \"param\":null,\"code\":\"rate_limit_exceeded\"}}";
    match chat_outcome(429, body) {
        Err(Error::ApiError(e)) => {
            assert_eq!(e.error.message, "Rate limit");
            assert_eq!(e.error.error_type, "rate_limit_error");
        },
        _ => panic!("expected a vendor error"),
    }
}

#[test]
fn non_vendor_error_body_is_transport_error() {
    for body in [
        "Internal Server Error",
        "{\"message\":\"no envelope\"}",
        "{\"error\":{\"message\":\"missing type\"}}",
        "",
    ] {
        match chat_outcome(500, body) {
            Err(Error::TransportError(s)) => {
                assert_eq!(s, "the error body did not match the vendor error shape");
            },
            _ => panic!("expected a transport error for body {body:?}"),
        }
    }
}

#[test]
fn malformed_success_body_is_transport_error() {
    for body in [
        "not json",
        "{}",
        "{\"id\":\"x\",\"object\":\"o\",\"created\":1,\"choices\":[]}",
        "{\"id\":\"x\",\"object\":\"o\",\"created\":1,\"choices\":[],\"usage\":{\
         \"prompt_tokens\":1,\"completion_tokens\":1,\"total_tokens\":2}}trailing",
    ] {
        match chat_outcome(200, body) {
            Err(Error::TransportError(s)) => {
                assert_eq!(s, "the success body did not parse as a chat response");
            },
            _ => panic!("expected a transport error for body {body:?}"),
        }
    }
}

#[test]
fn duplicate_known_field_fails_the_parse() {
    let body = "{\"id\":\"a\",\"id\":\"b\",\"object\":\"o\",\"created\":1,\"choices\":[],\
        \"usage\":{\"prompt_tokens\":0,\"completion_tokens\":0,\"total_tokens\":0}}";
    assert!(matches!(chat_outcome(200, body), Err(Error::TransportError(_))));
}

#[test]
fn out_of_range_numbers_fail_the_parse() {
    let too_big_for_i64 = "{\"id\":\"x\",\"object\":\"o\",\"created\":99999999999999999999,\
        \"choices\":[],\"usage\":{\"prompt_tokens\":0,\"completion_tokens\":0,\
        \"total_tokens\":0}}";
    assert!(matches!(chat_outcome(200, too_big_for_i64), Err(Error::TransportError(_))));
    let too_big_for_i32 = "{\"id\":\"x\",\"object\":\"o\",\"created\":1,\"choices\":[],\
        \"usage\":{\"prompt_tokens\":3000000000,\"completion_tokens\":0,\"total_tokens\":0}}";
    assert!(matches!(chat_outcome(200, too_big_for_i32), Err(Error::TransportError(_))));
}

#[test]
fn error_display_text_names_type_and_message() {
    match chat_outcome(401, VENDOR_ERROR_BODY) {
        Err(Error::ApiError(e)) => {
            assert_eq!(e.display_text(), "OpenAI Error invalid_request_error: Invalid API key");
        },
        _ => panic!("expected a vendor error"),
    }
}

#[test]
fn interleaved_outcomes_do_not_cross_talk() {
    let bodies: Vec<String> = (0..8)
        .map(|k| {
            format!(
                "{{\"id\":\"call-{k}\",\"object\":\"chat.completion\",\"created\":{k},\
                 \"choices\":[{{\"index\":0,\"message\":{{\"role\":\"assistant\",\
                 \"content\":\"answer {k}\"}},\"finish_reason\":\"stop\"}}],\
                 \"usage\":{{\"prompt_tokens\":{k},\"completion_tokens\":1,\
                 \"total_tokens\":{k}}}}}"
            )
        })
        .collect();
    let results: Vec<_> = bodies.iter().map(|b| chat_outcome(200, b)).collect();
    for (k, r) in results.into_iter().enumerate() {
        let resp = r.unwrap_or_else(|_| panic!("expected success"));
        assert_eq!(resp.id, format!("call-{k}"));
        assert_eq!(resp.choices[0].message.content, format!("answer {k}"));
    }
}
