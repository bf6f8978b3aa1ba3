use vstd::prelude::*;

use crate::provider_id::ProviderId;

verus! {

/// Who authored a chat message.
#[derive(Debug, Clone, Copy, PartialEq, Eq, Structural)]
pub enum Role {
    System,
    User,
    Assistant,
    Tool,
}

/// An image reference: a `data:` URL carrying base64 data, or an http(s) URL.
pub struct ImageUrl {
    pub url: String,
    /// "low" / "high" / "auto"; providers that do not know it ignore it.
    pub detail: Option<String>,
}

/// One piece of a multimodal message.
pub enum ContentPart {
    Text { text: String },
    ImageUrl { image_url: ImageUrl },
}

/// The body of a message: plain text, or a sequence of text and image parts.
pub enum MessageContent {
    Text(String),
    Parts(Vec<ContentPart>),
}

/// The model of a `ContentPart`: its text, or its image URL and detail.
pub enum ContentPartView {
    Text(Seq<char>),
    ImageUrl { url: Seq<char>, detail: Option<Seq<char>> },
}

/// The model of a message body. The provider wire formats that carry message
/// bodies as they are share this model.
pub enum MessageContentView {
    Text(Seq<char>),
    Parts(Seq<ContentPartView>),
}

/// The view of an optional string.
pub open spec fn opt_view(o: Option<String>) -> Option<Seq<char>> {
    match o {
        Some(s) => Some(s@),
        None => None,
    }
}

impl View for ContentPart {
    type V = ContentPartView;

    open spec fn view(&self) -> ContentPartView {
        match self {
            ContentPart::Text { text } => ContentPartView::Text(text@),
            ContentPart::ImageUrl { image_url } => ContentPartView::ImageUrl {
                url: image_url.url@,
                detail: opt_view(image_url.detail),
            },
        }
    }
}

/// The models of a sequence of parts.
pub open spec fn parts_view(parts: Seq<ContentPart>) -> Seq<ContentPartView> {
    parts.map_values(|p: ContentPart| p@)
}

impl View for MessageContent {
    type V = MessageContentView;

    open spec fn view(&self) -> MessageContentView {
        match self {
            MessageContent::Text(s) => MessageContentView::Text(s@),
            MessageContent::Parts(parts) => MessageContentView::Parts(parts_view(parts@)),
        }
    }
}

/// The texts of the text parts, in order; image parts are left out.
pub open spec fn part_texts(parts: Seq<ContentPartView>) -> Seq<Seq<char>>
    decreases parts.len(),
{
    if parts.len() == 0 {
        Seq::empty()
    } else {
        let rest = part_texts(parts.drop_last());
        match parts.last() {
            ContentPartView::Text(t) => rest.push(t),
            ContentPartView::ImageUrl { .. } => rest,
        }
    }
}

/// The lines joined with a newline between each two.
pub open spec fn join_lines(lines: Seq<Seq<char>>) -> Seq<char>
    decreases lines.len(),
{
    if lines.len() == 0 {
        Seq::empty()
    } else if lines.len() == 1 {
        lines[0]
    } else {
        join_lines(lines.drop_last()) + "\n"@ + lines.last()
    }
}

/// Joining one more line appends a newline and the line (or just the line, to nothing).
pub proof fn lemma_join_lines_push(lines: Seq<Seq<char>>, line: Seq<char>)
    ensures
        join_lines(lines.push(line)) == if lines.len() == 0 {
            line
        } else {
            join_lines(lines) + "\n"@ + line
        },
{
    assert(lines.push(line).drop_last() =~= lines);
}

impl MessageContentView {
    /// The text of a body: the text itself, or the texts of its text parts joined by newlines.
    pub open spec fn text(self) -> Seq<char> {
        match self {
            MessageContentView::Text(s) => s,
            MessageContentView::Parts(parts) => join_lines(part_texts(parts)),
        }
    }
}

/// The parts have a text part exactly when they give some text line.
proof fn lemma_part_texts_nonempty(parts: Seq<ContentPartView>)
    ensures
        part_texts(parts).len() > 0 <==> exists|j: int| 0 <= j < parts.len() && (#[trigger] parts[j]) is Text,
    decreases parts.len(),
{
    if parts.len() > 0 {
        lemma_part_texts_nonempty(parts.drop_last());
        if exists|j: int| 0 <= j < parts.len() - 1 && (#[trigger] parts.drop_last()[j]) is Text {
            let j = choose|j: int| 0 <= j < parts.len() - 1 && (#[trigger] parts.drop_last()[j]) is Text;
            assert(parts[j] is Text);
        }
        if exists|j: int| 0 <= j < parts.len() && (#[trigger] parts[j]) is Text {
            let j = choose|j: int| 0 <= j < parts.len() && (#[trigger] parts[j]) is Text;
            if j < parts.len() - 1 {
                assert(parts.drop_last()[j] is Text);
            }
        }
    }
}

/// The text of a body, built up part by part: a text body is its text; no parts
/// give no text; an image part adds nothing; a text part is added after a
/// newline when there is text before it, and otherwise stands alone.
pub proof fn lemma_text_of_body(s: Seq<char>, parts: Seq<ContentPartView>, part: ContentPartView)
    ensures
        MessageContentView::Text(s).text() == s,
        MessageContentView::Parts(Seq::empty()).text() == Seq::<char>::empty(),
        part is ImageUrl ==> MessageContentView::Parts(parts.push(part)).text()
            == MessageContentView::Parts(parts).text(),
        part matches ContentPartView::Text(t) ==> MessageContentView::Parts(parts.push(part)).text()
            == if exists|j: int| 0 <= j < parts.len() && (#[trigger] parts[j]) is Text {
            MessageContentView::Parts(parts).text() + "\n"@ + t
        } else {
            t
        },
{
    assert(parts.push(part).drop_last() =~= parts);
    lemma_part_texts_nonempty(parts);
    if let ContentPartView::Text(t) = part {
        lemma_join_lines_push(part_texts(parts), t);
    }
}

impl MessageContent {
    /// Extracts the text only, for places that cannot carry images (system instructions).
    pub fn extract_text(&self) -> (res: String)
        ensures
            res@ == self@.text(),
    {
        match self {
            MessageContent::Text(s) => s.clone(),
            MessageContent::Parts(parts) => {
                let ghost views = parts_view(parts@);
                let mut res = String::new();
                let mut any = false;
                for i in 0..parts.len()
                    invariant
                        views == parts_view(parts@),
                        res@ == join_lines(part_texts(views.take(i as int))),
                        any == (part_texts(views.take(i as int)).len() > 0),
                {
                    assert(views.take(i + 1).drop_last() =~= views.take(i as int));
                    assert(views.take(i + 1).last() == parts@[i as int]@);
                    match &parts[i] {
                        ContentPart::Text { text } => {
                            proof {
                                lemma_join_lines_push(part_texts(views.take(i as int)), text@);
                            }
                            if any {
                                res.append("\n");
                            }
                            res.append(text.as_str());
                            any = true;
                        },
                        ContentPart::ImageUrl { .. } => {},
                    }
                }
                assert(views.take(parts.len() as int) =~= views);
                res
            },
        }
    }
}

/// The role names of the OpenAI-compatible chat APIs (Groq, OpenRouter).
pub open spec fn openai_role_name(role: Role) -> Seq<char> {
    match role {
        Role::System => "system"@,
        Role::User => "user"@,
        Role::Assistant => "assistant"@,
        Role::Tool => "tool"@,
    }
}

/// The role name that the OpenAI-compatible chat APIs use.
pub fn openai_role(role: Role) -> (s: &'static str)
    ensures
        s@ == openai_role_name(role),
{
    match role {
        Role::System => "system",
        Role::User => "user",
        Role::Assistant => "assistant",
        Role::Tool => "tool",
    }
}

/// A copy of an optional string.
pub fn copy_opt_string(o: &Option<String>) -> (res: Option<String>)
    ensures
        opt_view(res) == opt_view(*o),
{
    match o {
        Some(s) => Some(s.clone()),
        None => None,
    }
}

/// A message of a conversation.
pub struct ChatMessage {
    pub role: Role,
    pub content: MessageContent,
}

/// A chat completion request in the gateway's provider-neutral shape.
///
/// `temperature` holds the IEEE-754 bit pattern of the requested sampling
/// temperature, which the gateway only carries through to the provider.
pub struct ChatCompletionRequest {
    pub provider: ProviderId,
    pub model: String,
    pub messages: Vec<ChatMessage>,
    pub temperature: Option<u32>,
    pub max_tokens: Option<u32>,
}

/// Token counts reported by a provider.
#[derive(Debug, Clone, Copy, PartialEq, Eq, Structural)]
pub struct Usage {
    pub prompt_tokens: u32,
    pub completion_tokens: u32,
    pub total_tokens: u32,
}

/// A chat completion result in the gateway's provider-neutral shape.
pub struct ChatCompletionResponse {
    pub provider: ProviderId,
    pub model: String,
    pub content: String,
    pub usage: Option<Usage>,
}

/// The model of a `ChatCompletionResponse`.
pub struct ChatCompletionResponseView {
    pub provider: ProviderId,
    pub model: Seq<char>,
    pub content: Seq<char>,
    pub usage: Option<Usage>,
}

impl View for ChatCompletionResponse {
    type V = ChatCompletionResponseView;

    open spec fn view(&self) -> ChatCompletionResponseView {
        ChatCompletionResponseView {
            provider: self.provider,
            model: self.model@,
            content: self.content@,
            usage: self.usage,
        }
    }
}

} // verus!
