use venice_client::chat::{ChatRequest, Decimal, Message};
use venice_client::{API, VeniceError};

#[test]
fn mod_url_composition_works() {
    assert_eq!(
        API::get_url("models"),
        "https://api.venice.ai/api/v1/models".to_string()
    );
    assert_eq!(
        API::get_url("chat/completions"),
        "https://api.venice.ai/api/v1/chat/completions".to_string()
    );
}

#[test]
fn lib_url_composition_works() {
    assert_eq!(
        API::get_url("models"),
        "https://api.venice.ai/api/v1/models".to_string()
    );
    assert_eq!(
        API::get_url("chat/completions"),
        "https://api.venice.ai/api/v1/chat/completions".to_string()
    );
}

#[test]
fn response_outcome_success_range() {
    assert_eq!(
        API::response_outcome(200, "body".to_string()),
        Ok("body".to_string())
    );
    assert_eq!(
        API::response_outcome(299, "ok".to_string()),
        Ok("ok".to_string())
    );
    assert_eq!(
        API::response_outcome(404, "missing".to_string()),
        Err(VeniceError::Http {
            status: 404,
            body: "missing".to_string()
        })
    );
    assert_eq!(
        API::response_outcome(500, "oops".to_string()),
        Err(VeniceError::Http {
            status: 500,
            body: "oops".to_string()
        })
    );
    assert_eq!(
        API::response_outcome(199, "early".to_string()),
        Err(VeniceError::Http {
            status: 199,
            body: "early".to_string()
        })
    );
}

fn sample_messages() -> Vec<Message> {
    vec![
        Message {
            role: "system".to_string(),
            content: "You are a helpful assistant.".to_string(),
        },
        Message {
            role: "user".to_string(),
            content: "What is the capital of Cyprus?".to_string(),
        },
    ]
}

#[test]
fn request_json_exact() {
    let request = ChatRequest::new("llama-3.1-405b".to_string(), sample_messages());
    let expected = "{\"model\":\"llama-3.1-405b\",\"messages\":[{\"role\":\"system\",\"content\":\"You are a helpful assistant.\"},{\"role\":\"user\",\"content\":\"What is the capital of Cyprus?\"}],\"stream\":false}";
    assert_eq!(request.to_json(), expected.to_string());
}

#[test]
fn unset_fields_stay_off_the_wire() {
    let request = ChatRequest::new("llama-3.1-405b".to_string(), sample_messages());
    let body = request.to_json();
    assert!(!body.contains("\"frequency_penalty\""));
    assert!(!body.contains("\"max_completion_tokens\""));
    assert!(!body.contains("\"presence_penalty\""));
    assert!(!body.contains("\"prompt\""));
    assert!(!body.contains("\"stop\""));
    assert!(!body.contains("\"temperature\""));
    assert!(!body.contains("\"top_p\""));
    assert!(body.contains("\"model\""));
    assert!(body.contains("\"messages\""));
    assert!(body.contains("\"stream\""));
}

#[test]
fn set_fields_appear_on_the_wire() {
    let mut request = ChatRequest::new("qwen32b".to_string(), vec![]);
    request.temperature = Some(Decimal::from_hundredths(70));
    request.top_p = Some(Decimal::from_hundredths(150));
    request.max_completion_tokens = Some(512);
    request.prompt = Some("say hi".to_string());
    request.stop = Some(vec!["END".to_string(), "STOP".to_string()]);
    request.frequency_penalty = Some(Decimal::from_hundredths(205));
    request.presence_penalty = Some(Decimal::from_hundredths(0));
    request.stream = true;
    let body = request.to_json();
    assert!(body.contains("\"temperature\":0.70"));
    assert!(body.contains("\"top_p\":1.50"));
    assert!(body.contains("\"max_completion_tokens\":512"));
    assert!(body.contains("\"prompt\":\"say hi\""));
    assert!(body.contains("\"stop\":[\"END\",\"STOP\"]"));
    assert!(body.contains("\"frequency_penalty\":2.05"));
    assert!(body.contains("\"presence_penalty\":0.00"));
    assert!(body.contains("\"stream\":true"));
    assert!(body.starts_with("{\"model\":\"qwen32b\""));
}

#[test]
fn request_json_escapes_content() {
    let request = ChatRequest::new(
        "qwen32b".to_string(),
        vec![Message {
            role: "user".to_string(),
            content: "a \"quoted\" line\nand a \\ backslash".to_string(),
        }],
    );
    let body = request.to_json();
    assert!(body.contains("a \\\"quoted\\\" line\\nand a \\\\ backslash"));
}
