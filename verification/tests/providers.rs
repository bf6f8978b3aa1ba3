use ai_gateway::completion::{
    ChatCompletionRequest, ChatMessage, ContentPart, ImageUrl, MessageContent, Role,
};
use ai_gateway::error::DomainError;
use ai_gateway::gemini::{
    build_gemini_request, domain_content_to_gemini_parts, gemini_completion_from_response,
    parse_data_url, GeminiCandidate, GeminiPart, GeminiResponse, GeminiResponseContent,
    GeminiUsage,
};
use ai_gateway::groq::{
    build_groq_request, domain_content_to_groq, groq_completion_from_response, GroqChoice,
    GroqContent, GroqContentPart, GroqResponse, GroqResponseMessage, GroqUsage,
};
use ai_gateway::openrouter::{
    build_openrouter_request, domain_content_to_openrouter, openrouter_completion_from_response,
    OpenRouterChoice, OpenRouterContent, OpenRouterResponse, OpenRouterResponseMessage,
    OpenRouterUsage,
};
use ai_gateway::provider_id::ProviderId;
use ai_gateway::upstream::{is_success, upstream_status_error};
use ai_gateway::{google_ai_studio, vertex};

fn msg(role: Role, text: &str) -> ChatMessage {
    ChatMessage { role, content: MessageContent::Text(text.to_string()) }
}

fn request(provider: ProviderId, messages: Vec<ChatMessage>) -> ChatCompletionRequest {
    ChatCompletionRequest {
        provider,
        model: "m1".to_string(),
        messages,
        temperature: Some(0.5f32.to_bits()),
        max_tokens: Some(256),
    }
}

fn invalid_text(e: DomainError) -> String {
    match e {
        DomainError::InvalidRequest(s) => s,
        other => panic!("expected InvalidRequest, got {}", other.message()),
    }
}

fn provider_error_text(e: DomainError) -> String {
    match e {
        DomainError::ProviderError(s) => s,
        other => panic!("expected ProviderError, got {}", other.message()),
    }
}

#[test]
fn data_url_splits_into_mime_type_and_data() {
    let (mime, data) =
        parse_data_url(ProviderId::GoogleAiStudio, "data:image/jpeg;base64,/9j/4AAQ").ok().unwrap();
    assert_eq!(mime, "image/jpeg");
    assert_eq!(data, "/9j/4AAQ");
}

#[test]
fn data_url_strips_every_trailing_base64_marker() {
    let (mime, data) =
        parse_data_url(ProviderId::Vertex, "data:image/png;base64;base64,xy,z").ok().unwrap();
    assert_eq!(mime, "image/png");
    assert_eq!(data, "xy,z");
}

#[test]
fn http_image_url_is_refused() {
    let e = parse_data_url(ProviderId::GoogleAiStudio, "https://example.com/cat.png").err().unwrap();
    assert_eq!(invalid_text(e), "google_ai_studio: only data: URLs are supported for image input");
}

#[test]
fn data_url_without_comma_is_malformed() {
    let e = parse_data_url(ProviderId::Vertex, "data:image/png;base64").err().unwrap();
    assert_eq!(invalid_text(e), "vertex: malformed data: URL");
}

#[test]
fn data_url_must_be_base64() {
    let e = parse_data_url(ProviderId::GoogleAiStudio, "data:text/plain,hello").err().unwrap();
    assert_eq!(
        invalid_text(e),
        "google_ai_studio: only base64-encoded data: URLs are supported"
    );
}

#[test]
fn gemini_parts_of_mixed_content() {
    let c = MessageContent::Parts(vec![
        ContentPart::Text { text: "look".to_string() },
        ContentPart::ImageUrl {
            image_url: ImageUrl {
                url: "data:image/webp;base64,UklGR".to_string(),
                detail: Some("high".to_string()),
            },
        },
    ]);
    let parts = domain_content_to_gemini_parts(ProviderId::GoogleAiStudio, &c).ok().unwrap();
    assert_eq!(parts.len(), 2);
    assert_eq!(parts[0].text.as_deref(), Some("look"));
    assert!(parts[0].inline_data.is_none());
    let inline = parts[1].inline_data.as_ref().unwrap();
    assert_eq!(inline.mime_type, "image/webp");
    assert_eq!(inline.data, "UklGR");
    assert!(parts[1].text.is_none());
}

#[test]
fn gemini_parts_stop_at_first_bad_image() {
    let c = MessageContent::Parts(vec![
        ContentPart::ImageUrl {
            image_url: ImageUrl { url: "http://a/b.png".to_string(), detail: None },
        },
        ContentPart::ImageUrl { image_url: ImageUrl { url: "data:x".to_string(), detail: None } },
    ]);
    let e = domain_content_to_gemini_parts(ProviderId::Vertex, &c).err().unwrap();
    assert_eq!(invalid_text(e), "vertex: only data: URLs are supported for image input");
}

#[test]
fn gemini_request_separates_system_and_maps_roles() {
    let req = request(
        ProviderId::GoogleAiStudio,
        vec![
            msg(Role::System, "be brief"),
            msg(Role::User, "hi"),
            msg(Role::Assistant, "hello"),
            msg(Role::System, "no emoji"),
        ],
    );
    let body = build_gemini_request(ProviderId::GoogleAiStudio, &req).ok().unwrap();
    assert_eq!(body.contents.len(), 2);
    assert_eq!(body.contents[0].role, "user");
    assert_eq!(body.contents[0].parts[0].text.as_deref(), Some("hi"));
    assert_eq!(body.contents[1].role, "model");
    let system = body.system_instruction.as_ref().unwrap();
    assert_eq!(system.parts.len(), 2);
    assert_eq!(system.parts[0].text.as_deref(), Some("be brief"));
    assert_eq!(system.parts[1].text.as_deref(), Some("no emoji"));
    let config = body.generation_config.unwrap();
    assert_eq!(config.temperature.map(f32::from_bits), Some(0.5));
    assert_eq!(config.max_output_tokens, Some(256));
}

#[test]
fn gemini_request_without_system_has_no_instruction() {
    let req = request(ProviderId::Vertex, vec![msg(Role::User, "hi")]);
    let body = build_gemini_request(ProviderId::Vertex, &req).ok().unwrap();
    assert!(body.system_instruction.is_none());
    assert_eq!(body.contents.len(), 1);
}

#[test]
fn gemini_request_refuses_tool_messages() {
    let req = request(ProviderId::Vertex, vec![msg(Role::User, "hi"), msg(Role::Tool, "{}")]);
    let e = build_gemini_request(ProviderId::Vertex, &req).err().unwrap();
    assert_eq!(invalid_text(e), "vertex: tool role is not supported yet");
    let req = request(ProviderId::GoogleAiStudio, vec![msg(Role::Tool, "{}")]);
    let e = build_gemini_request(ProviderId::GoogleAiStudio, &req).err().unwrap();
    assert_eq!(invalid_text(e), "google_ai_studio: tool role is not supported yet");
}

fn gemini_text_part(s: &str) -> GeminiPart {
    GeminiPart::text(s.to_string())
}

#[test]
fn gemini_answer_takes_first_text_of_first_candidate() {
    let resp = GeminiResponse {
        candidates: vec![
            GeminiCandidate {
                content: GeminiResponseContent {
                    parts: vec![
                        GeminiPart::inline_data("image/png".to_string(), "AA".to_string()),
                        gemini_text_part("answer"),
                        gemini_text_part("more"),
                    ],
                },
            },
            GeminiCandidate { content: GeminiResponseContent { parts: vec![gemini_text_part("other")] } },
        ],
        usage_metadata: Some(GeminiUsage {
            prompt_token_count: Some(7),
            candidates_token_count: None,
            total_token_count: Some(9),
        }),
    };
    let r = gemini_completion_from_response(ProviderId::Vertex, "gemini-2.0", resp).ok().unwrap();
    assert_eq!(r.provider, ProviderId::Vertex);
    assert_eq!(r.model, "gemini-2.0");
    assert_eq!(r.content, "answer");
    let usage = r.usage.unwrap();
    assert_eq!((usage.prompt_tokens, usage.completion_tokens, usage.total_tokens), (7, 0, 9));
}

#[test]
fn gemini_answer_without_text_is_an_error() {
    let resp = GeminiResponse { candidates: vec![], usage_metadata: None };
    let e = gemini_completion_from_response(ProviderId::GoogleAiStudio, "m", resp).err().unwrap();
    assert_eq!(provider_error_text(e), "empty response");
    let resp = GeminiResponse {
        candidates: vec![GeminiCandidate {
            content: GeminiResponseContent {
                parts: vec![GeminiPart::inline_data("a".to_string(), "b".to_string())],
            },
        }],
        usage_metadata: None,
    };
    let e = gemini_completion_from_response(ProviderId::GoogleAiStudio, "m", resp).err().unwrap();
    assert_eq!(provider_error_text(e), "empty response");
}

#[test]
fn gemini_answer_without_usage_has_none() {
    let resp = GeminiResponse {
        candidates: vec![GeminiCandidate { content: GeminiResponseContent { parts: vec![gemini_text_part("x")] } }],
        usage_metadata: None,
    };
    let r = gemini_completion_from_response(ProviderId::GoogleAiStudio, "m", resp).ok().unwrap();
    assert_eq!(r.provider, ProviderId::GoogleAiStudio);
    assert!(r.usage.is_none());
}

#[test]
fn groq_content_keeps_text_and_parts() {
    match domain_content_to_groq(&MessageContent::Text("t".to_string())) {
        GroqContent::Text(s) => assert_eq!(s, "t"),
        GroqContent::Parts(_) => panic!("expected text"),
    }
    let c = MessageContent::Parts(vec![
        ContentPart::Text { text: "a".to_string() },
        ContentPart::ImageUrl {
            image_url: ImageUrl {
                url: "https://x/y.png".to_string(),
                detail: Some("low".to_string()),
            },
        },
    ]);
    match domain_content_to_groq(&c) {
        GroqContent::Parts(parts) => {
            assert_eq!(parts.len(), 2);
            match &parts[0] {
                GroqContentPart::Text { text } => assert_eq!(text, "a"),
                _ => panic!("expected text part"),
            }
            match &parts[1] {
                GroqContentPart::ImageUrl { image_url } => {
                    assert_eq!(image_url.url, "https://x/y.png");
                    assert_eq!(image_url.detail.as_deref(), Some("low"));
                },
                _ => panic!("expected image part"),
            }
        },
        GroqContent::Text(_) => panic!("expected parts"),
    }
}

#[test]
fn groq_request_names_roles() {
    let req = request(
        ProviderId::Groq,
        vec![
            msg(Role::System, "s"),
            msg(Role::User, "u"),
            msg(Role::Assistant, "a"),
            msg(Role::Tool, "t"),
        ],
    );
    let body = build_groq_request(&req);
    let roles: Vec<&str> = body.messages.iter().map(|m| m.role.as_str()).collect();
    assert_eq!(roles, vec!["system", "user", "assistant", "tool"]);
    assert_eq!(body.model, "m1");
    assert_eq!(body.max_tokens, Some(256));
    assert_eq!(body.temperature, Some(0.5f32.to_bits()));
}

#[test]
fn groq_answer_takes_first_choice() {
    let resp = GroqResponse {
        choices: vec![
            GroqChoice { message: GroqResponseMessage { content: "one".to_string() } },
            GroqChoice { message: GroqResponseMessage { content: "two".to_string() } },
        ],
        usage: Some(GroqUsage { prompt_tokens: 1, completion_tokens: 2, total_tokens: 3 }),
    };
    let r = groq_completion_from_response("llama", resp).ok().unwrap();
    assert_eq!(r.provider, ProviderId::Groq);
    assert_eq!(r.content, "one");
    assert_eq!(r.model, "llama");
    let u = r.usage.unwrap();
    assert_eq!((u.prompt_tokens, u.completion_tokens, u.total_tokens), (1, 2, 3));
}

#[test]
fn groq_answer_without_choices_is_an_error() {
    let resp = GroqResponse { choices: vec![], usage: None };
    let e = groq_completion_from_response("llama", resp).err().unwrap();
    assert_eq!(provider_error_text(e), "empty choices");
}

#[test]
fn openrouter_request_sends_no_name() {
    let req = request(ProviderId::OpenRouter, vec![msg(Role::User, "u")]);
    let body = build_openrouter_request(&req);
    assert_eq!(body.messages.len(), 1);
    assert_eq!(body.messages[0].role, "user");
    assert!(body.messages[0].name.is_none());
    match &body.messages[0].content {
        OpenRouterContent::Text(s) => assert_eq!(s, "u"),
        OpenRouterContent::Parts(_) => panic!("expected text"),
    }
    match domain_content_to_openrouter(&MessageContent::Parts(vec![])) {
        OpenRouterContent::Parts(p) => assert!(p.is_empty()),
        OpenRouterContent::Text(_) => panic!("expected parts"),
    }
}

fn openrouter_answer(content: Option<&str>) -> OpenRouterResponse {
    OpenRouterResponse {
        id: "gen-1".to_string(),
        choices: vec![OpenRouterChoice {
            message: OpenRouterResponseMessage {
                role: "assistant".to_string(),
                content: content.map(|s| s.to_string()),
            },
            finish_reason: Some("stop".to_string()),
        }],
        usage: Some(OpenRouterUsage { prompt_tokens: 4, completion_tokens: 5, total_tokens: 9 }),
        model: "upstream-model".to_string(),
    }
}

#[test]
fn openrouter_answer_takes_first_content() {
    let r = openrouter_completion_from_response("requested", openrouter_answer(Some("ok"))).ok().unwrap();
    assert_eq!(r.provider, ProviderId::OpenRouter);
    assert_eq!(r.model, "requested");
    assert_eq!(r.content, "ok");
    assert_eq!(r.usage.unwrap().total_tokens, 9);
}

#[test]
fn openrouter_answer_without_content_is_an_error() {
    let e = openrouter_completion_from_response("m", openrouter_answer(None)).err().unwrap();
    assert_eq!(provider_error_text(e), "empty content");
    let mut none = openrouter_answer(Some("x"));
    none.choices.clear();
    let e = openrouter_completion_from_response("m", none).err().unwrap();
    assert_eq!(provider_error_text(e), "empty content");
}

#[test]
fn success_statuses_are_200_to_299() {
    assert!(is_success(200));
    assert!(is_success(299));
    assert!(!is_success(199));
    assert!(!is_success(300));
    assert!(!is_success(404));
}

#[test]
fn upstream_failures_name_the_status() {
    let e = upstream_status_error(ProviderId::Groq, 503, "nope");
    assert_eq!(provider_error_text(e), "groq call status=503 Service Unavailable body=nope");
    let e = upstream_status_error(ProviderId::GoogleAiStudio, 500, "");
    assert_eq!(provider_error_text(e), "gemini status=500 Internal Server Error body=");
    let e = upstream_status_error(ProviderId::Vertex, 429, "slow down");
    assert_eq!(provider_error_text(e), "vertex status=429 Too Many Requests body=slow down");
    let e = upstream_status_error(ProviderId::Groq, 401, "bad key");
    assert_eq!(provider_error_text(e), "groq call status=401 Unauthorized body=bad key");
    let e = upstream_status_error(ProviderId::GoogleAiStudio, 404, "no model");
    assert_eq!(provider_error_text(e), "gemini status=404 Not Found body=no model");
    let e = upstream_status_error(ProviderId::OpenRouter, 599, "?");
    assert_eq!(provider_error_text(e), "OpenRouter call status=599 <unknown status code> body=?");
}

#[test]
fn upstream_bad_request_is_kept_as_it_is() {
    let body = r#"{"error":{"message":"model does not support images"}}"#;
    match upstream_status_error(ProviderId::Groq, 400, body) {
        DomainError::UpstreamRejected { status, body: b } => {
            assert_eq!(status, 400);
            assert_eq!(b, body);
        },
        other => panic!("expected UpstreamRejected, got {}", other.message()),
    }
}

#[test]
fn endpoints() {
    assert_eq!(
        google_ai_studio::endpoint("gemini-2.0-flash"),
        "https://generativelanguage.googleapis.com/v1beta/models/gemini-2.0-flash:generateContent"
    );
    assert_eq!(
        vertex::endpoint("proj", "us-central1", "gemini-2.0-flash"),
        "https://us-central1-aiplatform.googleapis.com/v1/projects/proj/locations/us-central1/publishers/google/models/gemini-2.0-flash:generateContent"
    );
}
