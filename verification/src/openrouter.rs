use vstd::prelude::*;

use crate::completion::{
    copy_opt_string, openai_role, openai_role_name, opt_view, parts_view, ChatCompletionRequest,
    ChatCompletionResponse, ChatCompletionResponseView, ChatMessage, ContentPart, ContentPartView,
    MessageContent, MessageContentView, Role, Usage,
};
use crate::error::{DomainError, DomainErrorView};
use crate::provider_id::ProviderId;

verus! {

/// OpenRouter's chat completion endpoint.
pub const ENDPOINT: &'static str = "https://openrouter.ai/api/v1/chat/completions";

// ===== OpenRouter's wire format =====

pub struct OpenRouterImageUrl {
    pub url: String,
    pub detail: Option<String>,
}

/// A part of a multimodal message, tagged by its `type`.
pub enum OpenRouterContentPart {
    Text { text: String },
    ImageUrl { image_url: OpenRouterImageUrl },
}

/// A message body: a plain string, or an array of parts.
pub enum OpenRouterContent {
    Text(String),
    Parts(Vec<OpenRouterContentPart>),
}

impl View for OpenRouterContentPart {
    type V = ContentPartView;

    open spec fn view(&self) -> ContentPartView {
        match self {
            OpenRouterContentPart::Text { text } => ContentPartView::Text(text@),
            OpenRouterContentPart::ImageUrl { image_url } => ContentPartView::ImageUrl {
                url: image_url.url@,
                detail: opt_view(image_url.detail),
            },
        }
    }
}

impl View for OpenRouterContent {
    type V = MessageContentView;

    open spec fn view(&self) -> MessageContentView {
        match self {
            OpenRouterContent::Text(s) => MessageContentView::Text(s@),
            OpenRouterContent::Parts(parts) => MessageContentView::Parts(
                parts@.map_values(|p: OpenRouterContentPart| p@),
            ),
        }
    }
}

/// Converts a message body to OpenRouter's: the same text, or the same parts in the same order.
pub fn domain_content_to_openrouter(c: &MessageContent) -> (res: OpenRouterContent)
    ensures
        res@ == c@,
{
    match c {
        MessageContent::Text(s) => OpenRouterContent::Text(s.clone()),
        MessageContent::Parts(parts) => {
            let mut out: Vec<OpenRouterContentPart> = Vec::new();
            for i in 0..parts.len()
                invariant
                    out@.map_values(|p: OpenRouterContentPart| p@) =~= parts_view(parts@).take(i as int),
            {
                let part = match &parts[i] {
                    ContentPart::Text { text } => OpenRouterContentPart::Text { text: text.clone() },
                    ContentPart::ImageUrl { image_url } => OpenRouterContentPart::ImageUrl {
                        image_url: OpenRouterImageUrl {
                            url: image_url.url.clone(),
                            detail: copy_opt_string(&image_url.detail),
                        },
                    },
                };
                let ghost before = out@;
                out.push(part);
                assert(part@ == parts_view(parts@)[i as int]);
                assert(out@.map_values(|p: OpenRouterContentPart| p@) =~= before.map_values(
                    |p: OpenRouterContentPart| p@,
                ).push(part@));
                assert(parts_view(parts@).take(i + 1) =~= parts_view(parts@).take(i as int).push(
                    parts_view(parts@)[i as int],
                ));
            }
            assert(parts_view(parts@).take(parts.len() as int) =~= parts_view(parts@));
            OpenRouterContent::Parts(out)
        },
    }
}

/// A message of the conversation sent to OpenRouter; roles are lower-case names.
pub struct OpenRouterMessage {
    pub role: String,
    pub content: OpenRouterContent,
    /// An optional participant name; the gateway sends none.
    pub name: Option<String>,
}

/// The model of an `OpenRouterMessage`.
pub struct OpenRouterMessageView {
    pub role: Seq<char>,
    pub content: MessageContentView,
    pub name: Option<Seq<char>>,
}

impl View for OpenRouterMessage {
    type V = OpenRouterMessageView;

    open spec fn view(&self) -> OpenRouterMessageView {
        OpenRouterMessageView { role: self.role@, content: self.content@, name: opt_view(self.name) }
    }
}

/// The message OpenRouter is sent for a message of the conversation.
pub open spec fn openrouter_message_of(m: ChatMessage) -> OpenRouterMessageView {
    OpenRouterMessageView { role: openai_role_name(m.role), content: m.content@, name: None }
}

/// The body of a chat completion call; `temperature` is the bit pattern of an `f32`.
pub struct OpenRouterRequest {
    pub model: String,
    pub messages: Vec<OpenRouterMessage>,
    pub temperature: Option<u32>,
    pub max_tokens: Option<u32>,
}

/// The model of an `OpenRouterRequest`.
pub struct OpenRouterRequestView {
    pub model: Seq<char>,
    pub messages: Seq<OpenRouterMessageView>,
    pub temperature: Option<u32>,
    pub max_tokens: Option<u32>,
}

impl View for OpenRouterRequest {
    type V = OpenRouterRequestView;

    open spec fn view(&self) -> OpenRouterRequestView {
        OpenRouterRequestView {
            model: self.model@,
            messages: self.messages@.map_values(|m: OpenRouterMessage| m@),
            temperature: self.temperature,
            max_tokens: self.max_tokens,
        }
    }
}

/// The OpenRouter body for a request: each message with its role name, the same body and no name.
pub open spec fn openrouter_request_of(req: ChatCompletionRequest) -> OpenRouterRequestView {
    OpenRouterRequestView {
        model: req.model@,
        messages: req.messages@.map_values(
            |m: ChatMessage| openrouter_message_of(m),
        ),
        temperature: req.temperature,
        max_tokens: req.max_tokens,
    }
}

/// Builds the body of a OpenRouter chat completion call.
pub fn build_openrouter_request(req: &ChatCompletionRequest) -> (res: OpenRouterRequest)
    ensures
        res@ == openrouter_request_of(*req),
{
    let mut messages: Vec<OpenRouterMessage> = Vec::new();
    for i in 0..req.messages.len()
        invariant
            messages@.map_values(|m: OpenRouterMessage| m@) =~= req.messages@.map_values(
                |m: ChatMessage| openrouter_message_of(m),
            ).take(i as int),
    {
        let msg = &req.messages[i];
        let content = domain_content_to_openrouter(&msg.content);
        let role = openai_role(msg.role).to_owned();
        let ghost before = messages@;
        let m = OpenRouterMessage { role, content, name: None };
        assert(m@ == openrouter_message_of(req.messages@[i as int]));
        messages.push(m);
        assert(messages@.map_values(|m: OpenRouterMessage| m@) =~= before.map_values(
            |m: OpenRouterMessage| m@,
        ).push(m@));
    }
    assert(req.messages@.map_values(|m: ChatMessage| openrouter_message_of(m)).take(
        req.messages.len() as int,
    ) =~= req.messages@.map_values(|m: ChatMessage| openrouter_message_of(m)));
    OpenRouterRequest {
        model: req.model.clone(),
        messages,
        temperature: req.temperature,
        max_tokens: req.max_tokens,
    }
}

// ===== OpenRouter's answer =====

pub struct OpenRouterResponseMessage {
    pub role: String,
    /// Missing when the model produced no text.
    pub content: Option<String>,
}

pub struct OpenRouterChoice {
    pub message: OpenRouterResponseMessage,
    pub finish_reason: Option<String>,
}

#[derive(Debug, Clone, Copy, PartialEq, Eq)]
pub struct OpenRouterUsage {
    pub prompt_tokens: u32,
    pub completion_tokens: u32,
    pub total_tokens: u32,
}

pub struct OpenRouterResponse {
    pub id: String,
    pub choices: Vec<OpenRouterChoice>,
    pub usage: Option<OpenRouterUsage>,
    pub model: String,
}

/// The gateway's usage figures for OpenRouter's.
pub open spec fn openrouter_usage(usage: Option<OpenRouterUsage>) -> Option<Usage> {
    match usage {
        Some(u) => Some(
            Usage {
                prompt_tokens: u.prompt_tokens,
                completion_tokens: u.completion_tokens,
                total_tokens: u.total_tokens,
            },
        ),
        None => None,
    }
}

/// The text of an OpenRouter answer: the first choice's content, if both exist.
pub open spec fn openrouter_reply_text(resp: OpenRouterResponse) -> Option<Seq<char>> {
    if resp.choices@.len() == 0 {
        None
    } else {
        opt_view(resp.choices@[0].message.content)
    }
}

/// The completion for an OpenRouter answer; an answer without text is an upstream error.
/// The model reported is the one that was requested.
pub open spec fn openrouter_completion(model: Seq<char>, resp: OpenRouterResponse) -> Result<
    ChatCompletionResponseView,
    DomainErrorView,
> {
    match openrouter_reply_text(resp) {
        None => Err(DomainErrorView::ProviderError("empty content"@)),
        Some(text) => Ok(
            ChatCompletionResponseView {
                provider: ProviderId::OpenRouter,
                model,
                content: text,
                usage: openrouter_usage(resp.usage),
            },
        ),
    }
}

/// Turns a decoded OpenRouter answer into the gateway's completion.
pub fn openrouter_completion_from_response(model: &str, resp: OpenRouterResponse) -> (res: Result<
    ChatCompletionResponse,
    DomainError,
>)
    ensures
        res matches Ok(r) ==> openrouter_completion(model@, resp) == Ok::<
            ChatCompletionResponseView,
            DomainErrorView,
        >(r@),
        res matches Err(e) ==> openrouter_completion(model@, resp) == Err::<
            ChatCompletionResponseView,
            DomainErrorView,
        >(e@),
{
    let content = if resp.choices.len() == 0 {
        None
    } else {
        copy_opt_string(&resp.choices[0].message.content)
    };
    match content {
        None => Err(DomainError::ProviderError("empty content".to_owned())),
        Some(content) => {
            let usage = match resp.usage {
                Some(u) => Some(
                    Usage {
                        prompt_tokens: u.prompt_tokens,
                        completion_tokens: u.completion_tokens,
                        total_tokens: u.total_tokens,
                    },
                ),
                None => None,
            };
            Ok(
                ChatCompletionResponse {
                    provider: ProviderId::OpenRouter,
                    model: model.to_owned(),
                    content,
                    usage,
                },
            )
        },
    }
}

// ===== What the body and the answer keep =====

/// The role names of the chat API, spelled out.
pub open spec fn role_text(role: Role) -> Seq<char> {
    match role {
        Role::System => "system"@,
        Role::User => "user"@,
        Role::Assistant => "assistant"@,
        Role::Tool => "tool"@,
    }
}

/// The OpenRouter body keeps the request: the same model, temperature and token
/// limit, and one message per request message, in order, each with its role's
/// name and the very same body (text as text, parts as the same parts).
pub proof fn lemma_openrouter_request_keeps_request(req: ChatCompletionRequest)
    ensures
        ({
            let body = openrouter_request_of(req);
            &&& body.model == req.model@
            &&& body.temperature == req.temperature
            &&& body.max_tokens == req.max_tokens
            &&& body.messages.len() == req.messages@.len()
            &&& forall|i: int| 0 <= i < req.messages@.len() ==> {
                &&& body.messages[i].role == role_text(req.messages@[i].role)
                &&& body.messages[i].content == req.messages@[i].content@
                &&& body.messages[i].name is None
            }
        }),
{
}

/// What an OpenRouter answer becomes: an error exactly when it has no text in a
/// first choice; otherwise the completion names OpenRouter and the requested model,
/// holds the first choice's text, and carries the reported usage figure for figure.
pub proof fn lemma_openrouter_completion_reads_answer(model: Seq<char>, resp: OpenRouterResponse)
    ensures
        openrouter_completion(model, resp) is Err <==> (resp.choices@.len() == 0 || resp.choices@[0].message.content is None),
        openrouter_completion(model, resp) is Err ==> openrouter_completion(model, resp) == Err::<
            ChatCompletionResponseView,
            DomainErrorView,
        >(DomainErrorView::ProviderError("empty content"@)),
        openrouter_completion(model, resp) matches Ok(r) ==> {
            &&& r.provider == ProviderId::OpenRouter
            &&& r.model == model
            &&& resp.choices@[0].message.content matches Some(c) && r.content == c@
            &&& (r.usage is Some <==> resp.usage is Some)
            &&& resp.usage matches Some(u) ==> {
                &&& r.usage->Some_0.prompt_tokens == u.prompt_tokens
                &&& r.usage->Some_0.completion_tokens == u.completion_tokens
                &&& r.usage->Some_0.total_tokens == u.total_tokens
            }
        },
{
}

} // verus!
