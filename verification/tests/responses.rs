use venice_client::chat::{ChatRequest, ChatResponse, Message};
use venice_client::json::{parse_text, Json};
use venice_client::models::ModelsResponse;
use venice_client::VeniceError;

const MODELS_DOC: &str = "{\"object\":\"list\",\"data\":[{\"id\":\"llama-3.1-405b\",\"type\":\"text\",\"object\":\"model\",\"created\":1699000000,\"owned_by\":\"venice\",\"model_spec\":{\"traits\":[\"default\"],\"available_context_tokens\":65536}}]}";

#[test]
fn models_response_round_trip() {
    let resp = ModelsResponse::parse(MODELS_DOC).unwrap();
    assert_eq!(resp.object, "list".to_string());
    assert_eq!(resp.data.len(), 1);
    let ids = resp.model_ids();
    assert_eq!(ids, vec!["llama-3.1-405b".to_string()]);
    let m = &resp.data[0];
    assert_eq!(m.model_type, "text".to_string());
    assert_eq!(m.object, "model".to_string());
    assert_eq!(m.created, 1699000000);
    assert_eq!(m.owned_by, "venice".to_string());
    assert_eq!(m.model_spec.traits, vec!["default".to_string()]);
    assert_eq!(m.model_spec.available_context_tokens, Some(65536));
}

#[test]
fn models_response_membership() {
    let resp = ModelsResponse::parse(MODELS_DOC).unwrap();
    assert!(resp.has_model("llama-3.1-405b"));
    assert!(!resp.has_model("gpt-4"));
    assert!(!resp.has_model("LLAMA-3.1-405B"));
    assert!(!resp.has_model("llama-3.1"));
    assert!(!resp.has_model("llama-3.1-405b "));
}

#[test]
fn models_response_order_kept() {
    let doc = "{\"object\":\"list\",\"data\":[{\"id\":\"b\",\"type\":\"text\",\"object\":\"model\",\"created\":2,\"owned_by\":\"x\",\"model_spec\":{\"traits\":[]}},{\"id\":\"a\",\"type\":\"text\",\"object\":\"model\",\"created\":1,\"owned_by\":\"x\",\"model_spec\":{\"traits\":[],\"available_context_tokens\":null}}]}";
    let resp = ModelsResponse::parse(doc).unwrap();
    assert_eq!(resp.model_ids(), vec!["b".to_string(), "a".to_string()]);
    assert_eq!(resp.data[1].model_spec.available_context_tokens, None);
    assert_eq!(resp.data[0].model_spec.available_context_tokens, None);
}

#[test]
fn models_response_decode_errors() {
    assert_eq!(
        ModelsResponse::parse("not json"),
        Err(VeniceError::Decode)
    );
    assert_eq!(ModelsResponse::parse("{}"), Err(VeniceError::Decode));
    assert_eq!(
        ModelsResponse::parse("{\"object\":\"list\"}"),
        Err(VeniceError::Decode)
    );
    assert_eq!(
        ModelsResponse::parse("{\"object\":\"list\",\"data\":[{\"id\":7}]}"),
        Err(VeniceError::Decode)
    );
}

const CHAT_DOC: &str = "{\"id\":\"chatcmpl-1\",\"object\":\"chat.completion\",\"created\":1699000001,\"model\":\"llama-3.1-405b\",\"choices\":[{\"message\":{\"role\":\"assistant\",\"content\":\"The capital of Cyprus is Nicosia.\"},\"finish_reason\":\"stop\",\"index\":0}],\"usage\":{\"prompt_tokens\":25,\"completion_tokens\":9,\"total_tokens\":34}}";

#[test]
fn chat_response_scenario() {
    let resp = ChatResponse::parse(CHAT_DOC).unwrap();
    assert_eq!(resp.choices.len(), 1);
    assert!(resp.choices[0].message.content.contains("Nicosia"));
    assert_eq!(resp.choices[0].finish_reason, "stop".to_string());
    assert_eq!(resp.choices[0].index, 0);
    assert_eq!(resp.choices[0].message.role, "assistant".to_string());
    assert_eq!(resp.id, "chatcmpl-1".to_string());
    assert_eq!(resp.object, "chat.completion".to_string());
    assert_eq!(resp.created, 1699000001);
    assert_eq!(resp.model, "llama-3.1-405b".to_string());
    assert_eq!(resp.usage.prompt_tokens, 25);
    assert_eq!(resp.usage.completion_tokens, 9);
    assert_eq!(resp.usage.total_tokens, 34);
}

#[test]
fn chat_response_decode_errors() {
    assert_eq!(ChatResponse::parse(""), Err(VeniceError::Decode));
    assert_eq!(
        ChatResponse::parse("{\"error\":\"rate limited\"}"),
        Err(VeniceError::Decode)
    );
}

#[test]
fn chat_response_ignores_unknown_fields() {
    let doc = "{\"id\":\"c\",\"object\":\"chat.completion\",\"created\":5,\"model\":\"m\",\"extra\":{\"nested\":[1,2,true,null]},\"choices\":[],\"usage\":{\"prompt_tokens\":1,\"completion_tokens\":2,\"total_tokens\":3}}";
    let resp = ChatResponse::parse(doc).unwrap();
    assert_eq!(resp.choices.len(), 0);
}

#[test]
fn parser_reads_numbers_exactly() {
    assert!(matches!(
        parse_text("18446744073709551615"),
        Some(Json::UInt(18446744073709551615))
    ));
    assert!(matches!(parse_text("0"), Some(Json::UInt(0))));
    assert!(parse_text("01").is_none());
    assert!(parse_text("1.").is_none());
    assert!(parse_text("-").is_none());
    assert!(parse_text("1e").is_none());
    assert!(parse_text("1e+").is_none());
    assert!(parse_text(".5").is_none());
}

#[test]
fn parser_keeps_other_number_tokens_as_written() {
    match parse_text("18446744073709551616") {
        Some(Json::Number(s)) => assert_eq!(s, "18446744073709551616".to_string()),
        _ => panic!("expected an uninterpreted number token"),
    }
    match parse_text("-1") {
        Some(Json::Number(s)) => assert_eq!(s, "-1".to_string()),
        _ => panic!("expected an uninterpreted number token"),
    }
    match parse_text("1.5") {
        Some(Json::Number(s)) => assert_eq!(s, "1.5".to_string()),
        _ => panic!("expected an uninterpreted number token"),
    }
    match parse_text("-2.5E-3") {
        Some(Json::Number(s)) => assert_eq!(s, "-2.5E-3".to_string()),
        _ => panic!("expected an uninterpreted number token"),
    }
    match parse_text("1e10") {
        Some(Json::Number(s)) => assert_eq!(s, "1e10".to_string()),
        _ => panic!("expected an uninterpreted number token"),
    }
    match parse_text("0.25") {
        Some(Json::Number(s)) => assert_eq!(s, "0.25".to_string()),
        _ => panic!("expected an uninterpreted number token"),
    }
}

#[test]
fn uninterpreted_numbers_pass_in_ignored_fields_only() {
    let doc = "{\"id\":\"c\",\"object\":\"chat.completion\",\"created\":5,\"model\":\"m\",\"temperature\":0.7,\"logprobs\":-3.5e-2,\"choices\":[],\"usage\":{\"prompt_tokens\":1,\"completion_tokens\":2,\"total_tokens\":3}}";
    let resp = ChatResponse::parse(doc).unwrap();
    assert_eq!(resp.created, 5);
    let bad = "{\"id\":\"c\",\"object\":\"chat.completion\",\"created\":5.5,\"model\":\"m\",\"choices\":[],\"usage\":{\"prompt_tokens\":1,\"completion_tokens\":2,\"total_tokens\":3}}";
    assert_eq!(ChatResponse::parse(bad), Err(VeniceError::Decode));
}

#[test]
fn parser_reads_surrogate_pairs() {
    match parse_text("\"\\uD83D\\uDE00\"") {
        Some(Json::Str(s)) => assert_eq!(s, "\u{1F600}".to_string()),
        _ => panic!("expected a string value"),
    }
    match parse_text("\"a\\uD834\\uDD1Eb\"") {
        Some(Json::Str(s)) => assert_eq!(s, "a\u{1D11E}b".to_string()),
        _ => panic!("expected a string value"),
    }
    assert!(parse_text("\"\\uDC00\"").is_none());
    assert!(parse_text("\"\\uD83D\"").is_none());
    assert!(parse_text("\"\\uD83D\\u0041\"").is_none());
}

#[test]
fn parser_reads_escapes_exactly() {
    match parse_text("\"a\\\"b\\u0041\\n\\t\\\\\"") {
        Some(Json::Str(s)) => assert_eq!(s, "a\"bA\n\t\\".to_string()),
        _ => panic!("expected a string value"),
    }
    assert!(parse_text("\"\\uD800\"").is_none());
    assert!(parse_text("\"unterminated").is_none());
}

#[test]
fn parser_accepts_whitespace() {
    let doc = " { \"object\" : \"list\" ,\n\t\"data\" : [ ] } ";
    let resp = ModelsResponse::parse(doc).unwrap();
    assert_eq!(resp.data.len(), 0);
    assert!(parse_text("[ true , false , null ]").is_some());
    assert!(parse_text("").is_none());
    assert!(parse_text("  ").is_none());
    assert!(parse_text("{} trailing").is_none());
}

#[test]
fn request_json_parses_back() {
    let mut request = ChatRequest::new(
        "llama-3.3-70b".to_string(),
        vec![Message {
            role: "user".to_string(),
            content: "line one\nline \"two\"".to_string(),
        }],
    );
    request.max_completion_tokens = Some(42);
    let body = request.to_json();
    let v = parse_text(&body).expect("the built body is well-formed JSON");
    let members = match v {
        Json::Obj(ms) => ms,
        _ => panic!("expected an object"),
    };
    let mut content = None;
    for m in &members {
        if m.key == "messages" {
            if let Json::Arr(es) = &m.value {
                if let Json::Obj(inner) = &es[0] {
                    for im in inner {
                        if im.key == "content" {
                            if let Json::Str(s) = &im.value {
                                content = Some(s.clone());
                            }
                        }
                    }
                }
            }
        }
    }
    assert_eq!(content, Some("line one\nline \"two\"".to_string()));
}
