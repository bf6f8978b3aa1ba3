use ai_gateway::completion::{ChatMessage, ContentPart, ImageUrl, MessageContent, Role};
use ai_gateway::config::{parse_api_keys, AppConfig};
use ai_gateway::error::DomainError;
use ai_gateway::provider_id::ProviderId;

fn text_part(s: &str) -> ContentPart {
    ContentPart::Text { text: s.to_string() }
}

fn image_part(url: &str) -> ContentPart {
    ContentPart::ImageUrl { image_url: ImageUrl { url: url.to_string(), detail: None } }
}

#[test]
fn provider_names_are_the_wire_names() {
    assert_eq!(ProviderId::GoogleAiStudio.as_str(), "google_ai_studio");
    assert_eq!(ProviderId::Groq.as_str(), "groq");
    assert_eq!(ProviderId::OpenRouter.as_str(), "openrouter");
    assert_eq!(ProviderId::Vertex.as_str(), "vertex");
}

#[test]
fn extract_text_of_plain_text_is_the_text() {
    let c = MessageContent::Text("hello".to_string());
    assert_eq!(c.extract_text(), "hello");
}

#[test]
fn extract_text_joins_text_parts_with_newlines() {
    let c = MessageContent::Parts(vec![
        text_part("read this"),
        image_part("data:image/png;base64,AAAA"),
        text_part("as JSON"),
    ]);
    assert_eq!(c.extract_text(), "read this\nas JSON");
}

#[test]
fn extract_text_without_text_parts_is_empty() {
    let c = MessageContent::Parts(vec![image_part("https://example.com/a.png")]);
    assert_eq!(c.extract_text(), "");
    let empty = MessageContent::Parts(vec![]);
    assert_eq!(empty.extract_text(), "");
}

#[test]
fn domain_error_messages() {
    assert_eq!(
        DomainError::ProviderNotFound("groq".to_string()).message(),
        "provider not found: groq"
    );
    assert_eq!(DomainError::InvalidRequest("x".to_string()).message(), "invalid request: x");
    assert_eq!(DomainError::ProviderError("boom".to_string()).message(), "provider error: boom");
}

#[test]
fn api_keys_are_split_trimmed_and_filtered() {
    let keys = parse_api_keys(" alpha, ,beta ,\tgamma\u{3000},,");
    assert_eq!(keys, vec!["alpha".to_string(), "beta".to_string(), "gamma".to_string()]);
}

#[test]
fn api_keys_of_empty_text_are_none() {
    assert!(parse_api_keys("").is_empty());
    assert!(parse_api_keys(" , ").is_empty());
}

#[test]
fn api_key_single_entry() {
    assert_eq!(parse_api_keys("k1"), vec!["k1".to_string()]);
}

#[test]
fn config_defaults_when_variables_are_missing() {
    let c = AppConfig::from_vars(None, None, None, None, None);
    assert_eq!(c.bind, "0.0.0.0:8080");
    assert!(c.gateway_api_keys.is_empty());
    assert!(c.google_ai_studio_api_key.is_none());
    assert!(c.groq_api_key.is_none());
    assert!(c.openrouter_api_key.is_none());
}

#[test]
fn config_takes_the_variables() {
    let c = AppConfig::from_vars(
        Some("127.0.0.1:9000".to_string()),
        Some("a,b".to_string()),
        Some("g-key".to_string()),
        Some("q-key".to_string()),
        None,
    );
    assert_eq!(c.bind, "127.0.0.1:9000");
    assert_eq!(c.gateway_api_keys, vec!["a".to_string(), "b".to_string()]);
    assert_eq!(c.google_ai_studio_api_key.as_deref(), Some("g-key"));
    assert_eq!(c.groq_api_key.as_deref(), Some("q-key"));
    assert!(c.openrouter_api_key.is_none());
}

#[test]
fn chat_message_holds_role_and_content() {
    let m = ChatMessage { role: Role::User, content: MessageContent::Text("hi".to_string()) };
    assert_eq!(m.role, Role::User);
    assert_eq!(m.content.extract_text(), "hi");
}
