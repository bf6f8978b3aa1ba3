use vstd::prelude::*;

use crate::completion::{
    copy_opt_string, openai_role, openai_role_name, opt_view, parts_view, ChatCompletionRequest,
    ChatCompletionResponse, ChatCompletionResponseView, ChatMessage, ContentPart, ContentPartView,
    MessageContent, MessageContentView, Role, Usage,
};
use crate::error::{DomainError, DomainErrorView};
use crate::provider_id::ProviderId;

verus! {

/// Groq's OpenAI-compatible chat completion endpoint.
pub const ENDPOINT: &'static str = "https://api.groq.com/openai/v1/chat/completions";

// ===== Groq's wire format (OpenAI-compatible) =====

pub struct GroqImageUrl {
    pub url: String,
    pub detail: Option<String>,
}

/// A part of a multimodal message, tagged by its `type`.
pub enum GroqContentPart {
    Text { text: String },
    ImageUrl { image_url: GroqImageUrl },
}

/// A message body: a plain string, or an array of parts.
pub enum GroqContent {
    Text(String),
    Parts(Vec<GroqContentPart>),
}

impl View for GroqContentPart {
    type V = ContentPartView;

    open spec fn view(&self) -> ContentPartView {
        match self {
            GroqContentPart::Text { text } => ContentPartView::Text(text@),
            GroqContentPart::ImageUrl { image_url } => ContentPartView::ImageUrl {
                url: image_url.url@,
                detail: opt_view(image_url.detail),
            },
        }
    }
}

impl View for GroqContent {
    type V = MessageContentView;

    open spec fn view(&self) -> MessageContentView {
        match self {
            GroqContent::Text(s) => MessageContentView::Text(s@),
            GroqContent::Parts(parts) => MessageContentView::Parts(
                parts@.map_values(|p: GroqContentPart| p@),
            ),
        }
    }
}

/// Converts a message body to Groq's: the same text, or the same parts in the same order.
pub fn domain_content_to_groq(c: &MessageContent) -> (res: GroqContent)
    ensures
        res@ == c@,
{
    match c {
        MessageContent::Text(s) => GroqContent::Text(s.clone()),
        MessageContent::Parts(parts) => {
            let mut out: Vec<GroqContentPart> = Vec::new();
            for i in 0..parts.len()
                invariant
                    out@.map_values(|p: GroqContentPart| p@) =~= parts_view(parts@).take(i as int),
            {
                let part = match &parts[i] {
                    ContentPart::Text { text } => GroqContentPart::Text { text: text.clone() },
                    ContentPart::ImageUrl { image_url } => GroqContentPart::ImageUrl {
                        image_url: GroqImageUrl {
                            url: image_url.url.clone(),
                            detail: copy_opt_string(&image_url.detail),
                        },
                    },
                };
                let ghost before = out@;
                out.push(part);
                assert(part@ == parts_view(parts@)[i as int]);
                assert(out@.map_values(|p: GroqContentPart| p@) =~= before.map_values(
                    |p: GroqContentPart| p@,
                ).push(part@));
                assert(parts_view(parts@).take(i + 1) =~= parts_view(parts@).take(i as int).push(
                    parts_view(parts@)[i as int],
                ));
            }
            assert(parts_view(parts@).take(parts.len() as int) =~= parts_view(parts@));
            GroqContent::Parts(out)
        },
    }
}

/// A message of the conversation sent to Groq.
pub struct GroqMessage {
    pub role: String,
    pub content: GroqContent,
}

/// The body of a chat completion call; `temperature` is the bit pattern of an `f32`.
pub struct GroqRequest {
    pub model: String,
    pub messages: Vec<GroqMessage>,
    pub temperature: Option<u32>,
    pub max_tokens: Option<u32>,
}

/// The model of a `GroqRequest`: messages are role names with bodies.
pub struct GroqRequestView {
    pub model: Seq<char>,
    pub messages: Seq<(Seq<char>, MessageContentView)>,
    pub temperature: Option<u32>,
    pub max_tokens: Option<u32>,
}

impl View for GroqRequest {
    type V = GroqRequestView;

    open spec fn view(&self) -> GroqRequestView {
        GroqRequestView {
            model: self.model@,
            messages: self.messages@.map_values(|m: GroqMessage| (m.role@, m.content@)),
            temperature: self.temperature,
            max_tokens: self.max_tokens,
        }
    }
}

/// The Groq body for a request: each message with its role name and the same body.
pub open spec fn groq_request_of(req: ChatCompletionRequest) -> GroqRequestView {
    GroqRequestView {
        model: req.model@,
        messages: req.messages@.map_values(
            |m: ChatMessage| (openai_role_name(m.role), m.content@),
        ),
        temperature: req.temperature,
        max_tokens: req.max_tokens,
    }
}

/// Builds the body of a Groq chat completion call.
pub fn build_groq_request(req: &ChatCompletionRequest) -> (res: GroqRequest)
    ensures
        res@ == groq_request_of(*req),
{
    let mut messages: Vec<GroqMessage> = Vec::new();
    for i in 0..req.messages.len()
        invariant
            messages@.map_values(|m: GroqMessage| (m.role@, m.content@)) =~= req.messages@.map_values(
                |m: ChatMessage| (openai_role_name(m.role), m.content@),
            ).take(i as int),
    {
        let msg = &req.messages[i];
        let content = domain_content_to_groq(&msg.content);
        let role = openai_role(msg.role).to_owned();
        let ghost before = messages@;
        let m = GroqMessage { role, content };
        assert((m.role@, m.content@) == (openai_role_name(req.messages@[i as int].role), req.messages@[i as int].content@));
        messages.push(m);
        assert(messages@.map_values(|m: GroqMessage| (m.role@, m.content@)) =~= before.map_values(
            |m: GroqMessage| (m.role@, m.content@),
        ).push((m.role@, m.content@)));
    }
    assert(req.messages@.map_values(|m: ChatMessage| (openai_role_name(m.role), m.content@)).take(
        req.messages.len() as int,
    ) =~= req.messages@.map_values(|m: ChatMessage| (openai_role_name(m.role), m.content@)));
    GroqRequest {
        model: req.model.clone(),
        messages,
        temperature: req.temperature,
        max_tokens: req.max_tokens,
    }
}

// ===== Groq's answer =====

pub struct GroqResponseMessage {
    pub content: String,
}

pub struct GroqChoice {
    pub message: GroqResponseMessage,
}

#[derive(Debug, Clone, Copy, PartialEq, Eq)]
pub struct GroqUsage {
    pub prompt_tokens: u32,
    pub completion_tokens: u32,
    pub total_tokens: u32,
}

pub struct GroqResponse {
    pub choices: Vec<GroqChoice>,
    pub usage: Option<GroqUsage>,
}

/// The gateway's usage figures for Groq's.
pub open spec fn groq_usage(usage: Option<GroqUsage>) -> Option<Usage> {
    match usage {
        Some(u) => Some(
            Usage {
                prompt_tokens: u.prompt_tokens,
                completion_tokens: u.completion_tokens,
                total_tokens: u.total_tokens,
            },
        ),
        None => None,
    }
}

/// The completion for a Groq answer: the first choice's text; no choice is an upstream error.
pub open spec fn groq_completion(model: Seq<char>, resp: GroqResponse) -> Result<
    ChatCompletionResponseView,
    DomainErrorView,
> {
    if resp.choices@.len() == 0 {
        Err(DomainErrorView::ProviderError("empty choices"@))
    } else {
        Ok(
            ChatCompletionResponseView {
                provider: ProviderId::Groq,
                model,
                content: resp.choices@[0].message.content@,
                usage: groq_usage(resp.usage),
            },
        )
    }
}

/// Turns a decoded Groq answer into the gateway's completion.
pub fn groq_completion_from_response(model: &str, resp: GroqResponse) -> (res: Result<
    ChatCompletionResponse,
    DomainError,
>)
    ensures
        res matches Ok(r) ==> groq_completion(model@, resp) == Ok::<
            ChatCompletionResponseView,
            DomainErrorView,
        >(r@),
        res matches Err(e) ==> groq_completion(model@, resp) == Err::<
            ChatCompletionResponseView,
            DomainErrorView,
        >(e@),
{
    if resp.choices.len() == 0 {
        return Err(DomainError::ProviderError("empty choices".to_owned()));
    }
    let content = resp.choices[0].message.content.clone();
    let usage = match resp.usage {
        Some(u) => Some(
            Usage {
                prompt_tokens: u.prompt_tokens,
                completion_tokens: u.completion_tokens,
                total_tokens: u.total_tokens,
            },
        ),
        None => None,
    };
    Ok(ChatCompletionResponse { provider: ProviderId::Groq, model: model.to_owned(), content, usage })
}

// ===== What the body and the answer keep =====

/// The role names of the chat API, spelled out.
pub open spec fn role_text(role: Role) -> Seq<char> {
    match role {
        Role::System => "system"@,
        Role::User => "user"@,
        Role::Assistant => "assistant"@,
        Role::Tool => "tool"@,
    }
}

/// The Groq body keeps the request: the same model, temperature and token
/// limit, and one message per request message, in order, each with its role's
/// name and the very same body (text as text, parts as the same parts).
pub proof fn lemma_groq_request_keeps_request(req: ChatCompletionRequest)
    ensures
        ({
            let body = groq_request_of(req);
            &&& body.model == req.model@
            &&& body.temperature == req.temperature
            &&& body.max_tokens == req.max_tokens
            &&& body.messages.len() == req.messages@.len()
            &&& forall|i: int| 0 <= i < req.messages@.len() ==> {
                &&& body.messages[i].0 == role_text(req.messages@[i].role)
                &&& body.messages[i].1 == req.messages@[i].content@
            }
        }),
{
}

/// What a Groq answer becomes: an error exactly when it has no text in a
/// first choice; otherwise the completion names Groq and the requested model,
/// holds the first choice's text, and carries the reported usage figure for figure.
pub proof fn lemma_groq_completion_reads_answer(model: Seq<char>, resp: GroqResponse)
    ensures
        groq_completion(model, resp) is Err <==> resp.choices@.len() == 0,
        groq_completion(model, resp) is Err ==> groq_completion(model, resp) == Err::<
            ChatCompletionResponseView,
            DomainErrorView,
        >(DomainErrorView::ProviderError("empty choices"@)),
        groq_completion(model, resp) matches Ok(r) ==> {
            &&& r.provider == ProviderId::Groq
            &&& r.model == model
            &&& r.content == resp.choices@[0].message.content@
            &&& (r.usage is Some <==> resp.usage is Some)
            &&& resp.usage matches Some(u) ==> {
                &&& r.usage->Some_0.prompt_tokens == u.prompt_tokens
                &&& r.usage->Some_0.completion_tokens == u.completion_tokens
                &&& r.usage->Some_0.total_tokens == u.total_tokens
            }
        },
{
}

} // verus!
