use vstd::prelude::*;

use crate::completion::{
    ChatCompletionRequest, ChatCompletionResponse, ChatCompletionResponseView, ChatMessage,
    ContentPart, ContentPartView, MessageContent, MessageContentView, Role, Usage,
};
use crate::error::{DomainError, DomainErrorView};
use crate::provider_id::ProviderId;
use crate::text::{
    ends_with, find_char, first_at, first_index_of, is_prefix, is_suffix, starts_with, strip_suffix_all,
    strip_suffix_all_str,
};

verus! {

// ===== The Gemini `generateContent` wire format (Google AI Studio and Vertex AI) =====

/// Base64 data with its MIME type.
pub struct GeminiInlineData {
    pub mime_type: String,
    pub data: String,
}

/// A Gemini part: it carries either a text or inline data.
pub struct GeminiPart {
    pub text: Option<String>,
    pub inline_data: Option<GeminiInlineData>,
}

/// The model of a `GeminiPart`.
pub struct GeminiPartView {
    pub text: Option<Seq<char>>,
    /// MIME type and base64 data.
    pub inline_data: Option<(Seq<char>, Seq<char>)>,
}

impl View for GeminiPart {
    type V = GeminiPartView;

    open spec fn view(&self) -> GeminiPartView {
        GeminiPartView {
            text: match self.text {
                Some(t) => Some(t@),
                None => None,
            },
            inline_data: match self.inline_data {
                Some(d) => Some((d.mime_type@, d.data@)),
                None => None,
            },
        }
    }
}

/// The models of a sequence of parts.
pub open spec fn gemini_parts_view(parts: Seq<GeminiPart>) -> Seq<GeminiPartView> {
    parts.map_values(|p: GeminiPart| p@)
}

/// A text part.
pub open spec fn text_part(t: Seq<char>) -> GeminiPartView {
    GeminiPartView { text: Some(t), inline_data: None }
}

/// An inline-data part.
pub open spec fn inline_part(mime_type: Seq<char>, data: Seq<char>) -> GeminiPartView {
    GeminiPartView { text: None, inline_data: Some((mime_type, data)) }
}

impl GeminiPart {
    pub fn text(s: String) -> (res: Self)
        ensures
            res@ == text_part(s@),
    {
        GeminiPart { text: Some(s), inline_data: None }
    }

    pub fn inline_data(mime_type: String, data: String) -> (res: Self)
        ensures
            res@ == inline_part(mime_type@, data@),
    {
        GeminiPart { text: None, inline_data: Some(GeminiInlineData { mime_type, data }) }
    }
}

/// One turn of a Gemini conversation; its role is "user" or "model".
pub struct GeminiContent {
    pub role: String,
    pub parts: Vec<GeminiPart>,
}

/// The model of a `GeminiContent`.
pub struct GeminiContentView {
    pub role: Seq<char>,
    pub parts: Seq<GeminiPartView>,
}

impl View for GeminiContent {
    type V = GeminiContentView;

    open spec fn view(&self) -> GeminiContentView {
        GeminiContentView { role: self.role@, parts: gemini_parts_view(self.parts@) }
    }
}

/// The system instruction, which Gemini takes apart from the turns.
pub struct GeminiSystemInstruction {
    pub parts: Vec<GeminiPart>,
}

/// Sampling settings; `temperature` is the bit pattern of an `f32`.
#[derive(Debug, Clone, Copy, PartialEq, Eq)]
pub struct GeminiGenerationConfig {
    pub temperature: Option<u32>,
    pub max_output_tokens: Option<u32>,
}

/// The body of a `generateContent` call.
pub struct GeminiRequest {
    pub contents: Vec<GeminiContent>,
    pub system_instruction: Option<GeminiSystemInstruction>,
    pub generation_config: Option<GeminiGenerationConfig>,
}

/// The model of a `GeminiRequest`.
pub struct GeminiRequestView {
    pub contents: Seq<GeminiContentView>,
    pub system_instruction: Option<Seq<GeminiPartView>>,
    pub generation_config: Option<GeminiGenerationConfig>,
}

impl View for GeminiRequest {
    type V = GeminiRequestView;

    open spec fn view(&self) -> GeminiRequestView {
        GeminiRequestView {
            contents: self.contents@.map_values(|c: GeminiContent| c@),
            system_instruction: match self.system_instruction {
                Some(si) => Some(gemini_parts_view(si.parts@)),
                None => None,
            },
            generation_config: self.generation_config,
        }
    }
}

// ===== data: URLs =====

/// The error of a Gemini-backed provider for a request it cannot express.
pub open spec fn invalid_for(provider: ProviderId, detail: Seq<char>) -> DomainErrorView {
    DomainErrorView::InvalidRequest(provider.name() + detail)
}

/// What a `data:` URL splits into: its MIME type and its base64 data. Gemini takes
/// images only as inline base64 data, so anything else is refused.
pub open spec fn data_url_parts(provider: ProviderId, url: Seq<char>) -> Result<
    (Seq<char>, Seq<char>),
    DomainErrorView,
> {
    if !is_prefix("data:"@, url) {
        Err(invalid_for(provider, ": only data: URLs are supported for image input"@))
    } else {
        let rest = url.skip("data:"@.len() as int);
        match first_index_of(rest, ',') {
            None => Err(invalid_for(provider, ": malformed data: URL"@)),
            Some(k) => {
                let header = rest.take(k);
                if !is_suffix(";base64"@, header) {
                    Err(invalid_for(provider, ": only base64-encoded data: URLs are supported"@))
                } else {
                    Ok((strip_suffix_all(header, ";base64"@), rest.skip(k + 1)))
                }
            },
        }
    }
}

/// A `data:` URL built from a MIME type and base64 data splits back into them,
/// provided the MIME type holds no comma and does not itself end in `;base64`.
pub proof fn lemma_data_url_roundtrip(
    provider: ProviderId,
    mime_type: Seq<char>,
    data: Seq<char>,
)
    requires
        !mime_type.contains(','),
        !is_suffix(";base64"@, mime_type),
    ensures
        data_url_parts(provider, "data:"@ + mime_type + ";base64,"@ + data) == Ok::<
            (Seq<char>, Seq<char>),
            DomainErrorView,
        >((mime_type, data)),
{
    reveal_strlit("data:");
    reveal_strlit(";base64,");
    reveal_strlit(";base64");
    let url = "data:"@ + mime_type + ";base64,"@ + data;
    let marker = ";base64"@;
    assert(url.take(5) =~= "data:"@);
    let rest = url.skip(5);
    assert(rest =~= mime_type + ";base64,"@ + data);
    let k: int = mime_type.len() as int + 7;
    assert(rest[k] == ',');
    assert forall|j: int| 0 <= j < k implies rest[j] != ',' by {
        if j < mime_type.len() {
            assert(rest[j] == mime_type[j]);
        } else {
            assert(rest[j] == marker[j - mime_type.len()]);
        }
    }
    crate::text::lemma_first_at_unique(rest, ',', k);
    let header = rest.take(k);
    assert(header =~= mime_type + marker);
    assert(header.skip(header.len() - marker.len()) =~= marker);
    assert(header.take(header.len() - marker.len()) =~= mime_type);
    assert(rest.skip(k + 1) =~= data);
    assert(strip_suffix_all(mime_type, marker) == mime_type);
    assert(strip_suffix_all(header, marker) == strip_suffix_all(mime_type, marker));
    assert(is_prefix("data:"@, url));
}

/// What splitting a `data:` URL yields: a URL without the `data:` scheme is
/// refused as such; a URL that splits is exactly `data:`, a header without
/// commas that ends in `;base64` (returned), a comma and the data; the MIME type
/// is the header with all its trailing `;base64` markers removed, and ends in none.
pub proof fn lemma_data_url_parts_shape(provider: ProviderId, url: Seq<char>) -> (header: Seq<char>)
    ensures
        !is_prefix("data:"@, url) ==> data_url_parts(provider, url) == Err::<
            (Seq<char>, Seq<char>),
            DomainErrorView,
        >(
            DomainErrorView::InvalidRequest(
                provider.name() + ": only data: URLs are supported for image input"@,
            ),
        ),
        data_url_parts(provider, url) matches Ok((mime_type, data)) ==> {
            &&& url == "data:"@ + header + ","@ + data
            &&& !header.contains(',')
            &&& is_suffix(";base64"@, header)
            &&& is_prefix(mime_type, header)
            &&& !is_suffix(";base64"@, mime_type)
            &&& crate::text::copies_of(header.skip(mime_type.len() as int), ";base64"@)
        },
{
    reveal_strlit("data:");
    reveal_strlit(";base64");
    reveal_strlit(",");
    if data_url_parts(provider, url) is Ok {
        let rest = url.skip(5);
        crate::text::lemma_first_index_found(rest, ',');
        let k = first_index_of(rest, ',')->Some_0;
        let header = rest.take(k);
        let data = rest.skip(k + 1);
        let marker = ";base64"@;
        crate::text::lemma_strip_suffix_all_shape(header, marker);
        assert(url =~= "data:"@ + header + ","@ + data) by {
            assert(url.take(5) =~= "data:"@);
            assert(rest =~= header + ","@ + data);
        }
        assert forall|i: int| 0 <= i < header.len() implies header[i] != ',' by {
            assert(header[i] == rest[i]);
        }
        header
    } else {
        Seq::empty()
    }
}

/// Builds the `InvalidRequest` error of `provider` with the given detail.
fn invalid_request(provider: ProviderId, detail: &str) -> (e: DomainError)
    ensures
        e@ == invalid_for(provider, detail@),
{
    let mut msg = provider.as_str().to_owned();
    msg.append(detail);
    DomainError::InvalidRequest(msg)
}

/// Splits a `data:image/jpeg;base64,XXXX` URL into its MIME type and its base64 data.
pub fn parse_data_url(provider: ProviderId, url: &str) -> (res: Result<(String, String), DomainError>)
    ensures
        res matches Ok(p) ==> data_url_parts(provider, url@) == Ok::<
            (Seq<char>, Seq<char>),
            DomainErrorView,
        >((p.0@, p.1@)),
        res matches Err(e) ==> data_url_parts(provider, url@) == Err::<
            (Seq<char>, Seq<char>),
            DomainErrorView,
        >(e@),
{
    let scheme = "data:";
    let url_len = url.unicode_len();
    if !starts_with(url, url_len, scheme) {
        return Err(invalid_request(provider, ": only data: URLs are supported for image input"));
    }
    let scheme_len = scheme.unicode_len();
    let rest = url.substring_char(scheme_len, url_len);
    match find_char(rest, ',') {
        None => Err(invalid_request(provider, ": malformed data: URL")),
        Some(k) => {
            let rest_len = url_len - scheme_len;
            let header = rest.substring_char(0, k);
            let data = rest.substring_char(k + 1, rest_len);
            let marker = ";base64";
            if !ends_with(header, k, marker) {
                return Err(
                    invalid_request(provider, ": only base64-encoded data: URLs are supported"),
                );
            }
            proof {
                reveal_strlit(";base64");
            }
            let mime_type = strip_suffix_all_str(header, marker);
            Ok((mime_type.to_owned(), data.to_owned()))
        },
    }
}

// ===== From the gateway's model to Gemini's =====

/// The Gemini part for one part of a message body.
pub open spec fn gemini_part_of(provider: ProviderId, part: ContentPartView) -> Result<
    GeminiPartView,
    DomainErrorView,
> {
    match part {
        ContentPartView::Text(t) => Ok(text_part(t)),
        ContentPartView::ImageUrl { url, .. } => match data_url_parts(provider, url) {
            Ok((mime_type, data)) => Ok(inline_part(mime_type, data)),
            Err(e) => Err(e),
        },
    }
}

/// The Gemini parts for a sequence of parts; the first part that cannot be expressed
/// decides the error.
pub open spec fn gemini_parts_of(provider: ProviderId, parts: Seq<ContentPartView>) -> Result<
    Seq<GeminiPartView>,
    DomainErrorView,
>
    decreases parts.len(),
{
    if parts.len() == 0 {
        Ok(Seq::empty())
    } else {
        match gemini_parts_of(provider, parts.drop_last()) {
            Err(e) => Err(e),
            Ok(done) => match gemini_part_of(provider, parts.last()) {
                Ok(p) => Ok(done.push(p)),
                Err(e) => Err(e),
            },
        }
    }
}

/// Once a prefix of the parts fails, the whole sequence fails the same way.
pub proof fn lemma_parts_error_persists(provider: ProviderId, parts: Seq<ContentPartView>, k: int)
    requires
        0 <= k <= parts.len(),
        gemini_parts_of(provider, parts.take(k)) is Err,
    ensures
        gemini_parts_of(provider, parts) == gemini_parts_of(provider, parts.take(k)),
    decreases parts.len() - k,
{
    if k < parts.len() {
        assert(parts.take(k + 1).drop_last() =~= parts.take(k));
        lemma_parts_error_persists(provider, parts, k + 1);
    } else {
        assert(parts.take(k) =~= parts);
    }
}

/// The Gemini parts for a message body.
pub open spec fn gemini_content_parts(provider: ProviderId, content: MessageContentView) -> Result<
    Seq<GeminiPartView>,
    DomainErrorView,
> {
    match content {
        MessageContentView::Text(s) => Ok(seq![text_part(s)]),
        MessageContentView::Parts(parts) => gemini_parts_of(provider, parts),
    }
}

/// Converts a message body into Gemini parts: text stays text, images must be
/// base64 `data:` URLs and become inline data.
pub fn domain_content_to_gemini_parts(provider: ProviderId, c: &MessageContent) -> (res: Result<
    Vec<GeminiPart>,
    DomainError,
>)
    ensures
        res matches Ok(v) ==> gemini_content_parts(provider, c@) == Ok::<
            Seq<GeminiPartView>,
            DomainErrorView,
        >(gemini_parts_view(v@)),
        res matches Err(e) ==> gemini_content_parts(provider, c@) == Err::<
            Seq<GeminiPartView>,
            DomainErrorView,
        >(e@),
{
    match c {
        MessageContent::Text(s) => {
            let mut v = Vec::new();
            v.push(GeminiPart::text(s.clone()));
            assert(gemini_parts_view(v@) =~= seq![text_part(s@)]);
            Ok(v)
        },
        MessageContent::Parts(parts) => {
            let ghost views = crate::completion::parts_view(parts@);
            let mut out: Vec<GeminiPart> = Vec::new();
            assert(views.take(0) =~= Seq::<ContentPartView>::empty());
            assert(gemini_parts_view(out@) =~= Seq::<GeminiPartView>::empty());
            for i in 0..parts.len()
                invariant
                    views == crate::completion::parts_view(parts@),
                    c@ == MessageContentView::Parts(views),
                    gemini_parts_of(provider, views.take(i as int)) == Ok::<
                        Seq<GeminiPartView>,
                        DomainErrorView,
                    >(gemini_parts_view(out@)),
            {
                assert(views.take(i + 1).drop_last() =~= views.take(i as int));
                assert(views.take(i + 1).last() == parts@[i as int]@);
                let part = match &parts[i] {
                    ContentPart::Text { text } => GeminiPart::text(text.clone()),
                    ContentPart::ImageUrl { image_url } => {
                        match parse_data_url(provider, image_url.url.as_str()) {
                            Ok((mime_type, data)) => GeminiPart::inline_data(mime_type, data),
                            Err(e) => {
                                proof {
                                    lemma_parts_error_persists(provider, views, i + 1);
                                }
                                return Err(e);
                            },
                        }
                    },
                };
                let ghost before = out@;
                out.push(part);
                assert(gemini_parts_view(out@) =~= gemini_parts_view(before).push(part@));
            }
            assert(views.take(parts.len() as int) =~= views);
            Ok(out)
        },
    }
}

/// The wire name of a turn's author in Gemini: users are "user", the assistant is "model".
pub open spec fn gemini_role(role: Role) -> Seq<char> {
    if role == Role::User {
        "user"@
    } else {
        "model"@
    }
}

/// Gemini's system instruction parts and turns for a conversation, in order.
/// System messages go to the instruction as their text; a tool message is refused.
pub open spec fn gemini_turns(provider: ProviderId, messages: Seq<ChatMessage>) -> Result<
    (Seq<GeminiPartView>, Seq<GeminiContentView>),
    DomainErrorView,
>
    decreases messages.len(),
{
    if messages.len() == 0 {
        Ok((Seq::empty(), Seq::empty()))
    } else {
        match gemini_turns(provider, messages.drop_last()) {
            Err(e) => Err(e),
            Ok((system, turns)) => {
                let m = messages.last();
                match m.role {
                    Role::System => Ok((system.push(text_part(m.content@.text())), turns)),
                    Role::Tool => Err(invalid_for(provider, ": tool role is not supported yet"@)),
                    _ => match gemini_content_parts(provider, m.content@) {
                        Ok(parts) => Ok(
                            (system, turns.push(GeminiContentView { role: gemini_role(m.role), parts })),
                        ),
                        Err(e) => Err(e),
                    },
                }
            },
        }
    }
}

/// Every message of a conversation that converts is accounted for once: system
/// messages become instruction parts and all others become turns, each turn
/// authored by "user" or "model"; such a conversation has no tool message.
pub proof fn lemma_turns_account_for_messages(provider: ProviderId, messages: Seq<ChatMessage>)
    requires
        gemini_turns(provider, messages) is Ok,
    ensures
        ({
            let (system, turns) = gemini_turns(provider, messages)->Ok_0;
            &&& system.len() + turns.len() == messages.len()
            &&& forall|i: int| 0 <= i < turns.len() ==> #[trigger] turns[i].role == "user"@ || turns[i].role == "model"@
            &&& forall|i: int| 0 <= i < messages.len() ==> #[trigger] messages[i].role != Role::Tool
        }),
    decreases messages.len(),
{
    if messages.len() > 0 {
        lemma_turns_account_for_messages(provider, messages.drop_last());
        let (system, turns) = gemini_turns(provider, messages.drop_last())->Ok_0;
        let m = messages.last();
        assert forall|i: int| 0 <= i < messages.len() implies #[trigger] messages[i].role != Role::Tool by {
            if i < messages.len() - 1 {
                assert(messages[i] == messages.drop_last()[i]);
            }
        }
        if m.role != Role::System {
            let parts = gemini_content_parts(provider, m.content@)->Ok_0;
            let t = GeminiContentView { role: gemini_role(m.role), parts };
            assert forall|i: int| 0 <= i < turns.push(t).len() implies #[trigger] turns.push(t)[i].role
                == "user"@ || turns.push(t)[i].role == "model"@ by {
                if i < turns.len() {
                    assert(turns.push(t)[i] == turns[i]);
                }
            }
        }
    }
}

/// A part carries exactly one of a text and inline data.
pub open spec fn single_kind(p: GeminiPartView) -> bool {
    p.text is Some != p.inline_data is Some
}

/// Every part converted from a message part carries exactly one kind of payload.
proof fn lemma_parts_single_kind(provider: ProviderId, parts: Seq<ContentPartView>)
    requires
        gemini_parts_of(provider, parts) is Ok,
    ensures
        forall|i: int|
            0 <= i < gemini_parts_of(provider, parts)->Ok_0.len() ==> single_kind(
                #[trigger] gemini_parts_of(provider, parts)->Ok_0[i],
            ),
    decreases parts.len(),
{
    if parts.len() > 0 {
        lemma_parts_single_kind(provider, parts.drop_last());
        let done = gemini_parts_of(provider, parts.drop_last())->Ok_0;
        let p = gemini_part_of(provider, parts.last())->Ok_0;
        assert forall|i: int| 0 <= i < done.push(p).len() implies single_kind(
            #[trigger] done.push(p)[i],
        ) by {
            if i < done.len() {
                assert(done.push(p)[i] == done[i]);
            }
        }
    }
}

/// Every part of a converted message body carries exactly one kind of payload.
proof fn lemma_content_parts_single_kind(provider: ProviderId, content: MessageContentView)
    requires
        gemini_content_parts(provider, content) is Ok,
    ensures
        forall|i: int|
            0 <= i < gemini_content_parts(provider, content)->Ok_0.len() ==> single_kind(
                #[trigger] gemini_content_parts(provider, content)->Ok_0[i],
            ),
{
    match content {
        MessageContentView::Text(s) => {},
        MessageContentView::Parts(parts) => lemma_parts_single_kind(provider, parts),
    }
}

/// In the system instruction and in every turn of a converted conversation, each part
/// carries exactly one of a text and inline data, as Gemini expects.
pub proof fn lemma_turn_parts_single_kind(provider: ProviderId, messages: Seq<ChatMessage>)
    requires
        gemini_turns(provider, messages) is Ok,
    ensures
        ({
            let (system, turns) = gemini_turns(provider, messages)->Ok_0;
            &&& forall|i: int| 0 <= i < system.len() ==> single_kind(#[trigger] system[i])
            &&& forall|i: int, j: int|
                0 <= i < turns.len() && 0 <= j < turns[i].parts.len() ==> single_kind(
                    #[trigger] turns[i].parts[j],
                )
        }),
    decreases messages.len(),
{
    if messages.len() > 0 {
        lemma_turn_parts_single_kind(provider, messages.drop_last());
        let (system, turns) = gemini_turns(provider, messages.drop_last())->Ok_0;
        let m = messages.last();
        if m.role == Role::System {
            let p = text_part(m.content@.text());
            assert forall|i: int| 0 <= i < system.push(p).len() implies single_kind(
                #[trigger] system.push(p)[i],
            ) by {
                if i < system.len() {
                    assert(system.push(p)[i] == system[i]);
                }
            }
        } else {
            lemma_content_parts_single_kind(provider, m.content@);
            let parts = gemini_content_parts(provider, m.content@)->Ok_0;
            let t = GeminiContentView { role: gemini_role(m.role), parts };
            assert forall|i: int, j: int|
                0 <= i < turns.push(t).len() && 0 <= j < turns.push(t)[i].parts.len() implies single_kind(
                #[trigger] turns.push(t)[i].parts[j],
            ) by {
                if i < turns.len() {
                    assert(turns.push(t)[i] == turns[i]);
                }
            }
        }
    }
}

/// A conversation with a tool message anywhere is refused.
pub proof fn lemma_tool_message_refused(provider: ProviderId, messages: Seq<ChatMessage>, i: int)
    requires
        0 <= i < messages.len(),
        messages[i].role == Role::Tool,
    ensures
        gemini_turns(provider, messages) is Err,
{
    if gemini_turns(provider, messages) is Ok {
        lemma_turns_account_for_messages(provider, messages);
    }
}

/// Once a prefix of the conversation fails, the whole conversation fails the same way.
pub proof fn lemma_turns_error_persists(provider: ProviderId, messages: Seq<ChatMessage>, k: int)
    requires
        0 <= k <= messages.len(),
        gemini_turns(provider, messages.take(k)) is Err,
    ensures
        gemini_turns(provider, messages) == gemini_turns(provider, messages.take(k)),
    decreases messages.len() - k,
{
    if k < messages.len() {
        assert(messages.take(k + 1).drop_last() =~= messages.take(k));
        lemma_turns_error_persists(provider, messages, k + 1);
    } else {
        assert(messages.take(k) =~= messages);
    }
}

/// The `generateContent` body for a request.
pub open spec fn gemini_request_of(provider: ProviderId, req: ChatCompletionRequest) -> Result<
    GeminiRequestView,
    DomainErrorView,
> {
    match gemini_turns(provider, req.messages@) {
        Err(e) => Err(e),
        Ok((system, turns)) => Ok(
            GeminiRequestView {
                contents: turns,
                system_instruction: if system.len() > 0 {
                    Some(system)
                } else {
                    None
                },
                generation_config: Some(
                    GeminiGenerationConfig {
                        temperature: req.temperature,
                        max_output_tokens: req.max_tokens,
                    },
                ),
            },
        ),
    }
}

/// Builds the `generateContent` body that `provider` (Google AI Studio or Vertex AI) sends.
pub fn build_gemini_request(provider: ProviderId, req: &ChatCompletionRequest) -> (res: Result<
    GeminiRequest,
    DomainError,
>)
    ensures
        res matches Ok(body) ==> gemini_request_of(provider, *req) == Ok::<
            GeminiRequestView,
            DomainErrorView,
        >(body@),
        res matches Err(e) ==> gemini_request_of(provider, *req) == Err::<
            GeminiRequestView,
            DomainErrorView,
        >(e@),
{
    let mut system_parts: Vec<GeminiPart> = Vec::new();
    let mut contents: Vec<GeminiContent> = Vec::new();
    let ghost msgs = req.messages@;
    assert(msgs.take(0) =~= Seq::<ChatMessage>::empty());
    assert(gemini_parts_view(system_parts@) =~= Seq::<GeminiPartView>::empty());
    assert(contents@.map_values(|c: GeminiContent| c@) =~= Seq::<GeminiContentView>::empty());
    for i in 0..req.messages.len()
        invariant
            msgs == req.messages@,
            gemini_turns(provider, msgs.take(i as int)) == Ok::<
                (Seq<GeminiPartView>, Seq<GeminiContentView>),
                DomainErrorView,
            >((gemini_parts_view(system_parts@), contents@.map_values(|c: GeminiContent| c@))),
    {
        assert(msgs.take(i + 1).drop_last() =~= msgs.take(i as int));
        assert(msgs.take(i + 1).last() == msgs[i as int]);
        let msg = &req.messages[i];
        match msg.role {
            Role::System => {
                let part = GeminiPart::text(msg.content.extract_text());
                let ghost before = system_parts@;
                system_parts.push(part);
                assert(gemini_parts_view(system_parts@) =~= gemini_parts_view(before).push(part@));
            },
            Role::Tool => {
                proof {
                    lemma_turns_error_persists(provider, msgs, i + 1);
                }
                return Err(invalid_request(provider, ": tool role is not supported yet"));
            },
            _ => {
                let parts = match domain_content_to_gemini_parts(provider, &msg.content) {
                    Ok(parts) => parts,
                    Err(e) => {
                        proof {
                            lemma_turns_error_persists(provider, msgs, i + 1);
                        }
                        return Err(e);
                    },
                };
                let role = if msg.role == Role::User {
                    "user".to_owned()
                } else {
                    "model".to_owned()
                };
                let turn = GeminiContent { role, parts };
                let ghost before = contents@;
                contents.push(turn);
                assert(contents@.map_values(|c: GeminiContent| c@) =~= before.map_values(
                    |c: GeminiContent| c@,
                ).push(turn@));
            },
        }
    }
    assert(msgs.take(req.messages.len() as int) =~= msgs);
    let system_instruction = if system_parts.len() > 0 {
        Some(GeminiSystemInstruction { parts: system_parts })
    } else {
        None
    };
    Ok(
        GeminiRequest {
            contents,
            system_instruction,
            generation_config: Some(
                GeminiGenerationConfig {
                    temperature: req.temperature,
                    max_output_tokens: req.max_tokens,
                },
            ),
        },
    )
}

// ===== From Gemini's answer to the gateway's model =====

/// A candidate answer.
pub struct GeminiCandidate {
    pub content: GeminiResponseContent,
}

/// The parts of a candidate answer.
pub struct GeminiResponseContent {
    pub parts: Vec<GeminiPart>,
}

/// Token counts as Gemini reports them; any of them may be missing.
#[derive(Debug, Clone, Copy, PartialEq, Eq)]
pub struct GeminiUsage {
    pub prompt_token_count: Option<u32>,
    pub candidates_token_count: Option<u32>,
    pub total_token_count: Option<u32>,
}

/// The answer to a `generateContent` call.
pub struct GeminiResponse {
    pub candidates: Vec<GeminiCandidate>,
    pub usage_metadata: Option<GeminiUsage>,
}

/// The text of the first part that has one.
pub open spec fn first_text(parts: Seq<GeminiPartView>) -> Option<Seq<char>>
    decreases parts.len(),
{
    if parts.len() == 0 {
        None
    } else if parts[0].text is Some {
        parts[0].text
    } else {
        first_text(parts.drop_first())
    }
}

/// The text of an answer: the first text among the parts of the first candidate.
pub open spec fn gemini_reply_text(resp: GeminiResponse) -> Option<Seq<char>> {
    if resp.candidates@.len() == 0 {
        None
    } else {
        first_text(gemini_parts_view(resp.candidates@[0].content.parts@))
    }
}

/// A reported count, or zero where it is missing.
pub open spec fn count_or_zero(count: Option<u32>) -> u32 {
    match count {
        Some(n) => n,
        None => 0,
    }
}

/// The gateway's usage figures for Gemini's usage metadata.
pub open spec fn gemini_usage(usage: Option<GeminiUsage>) -> Option<Usage> {
    match usage {
        Some(u) => Some(
            Usage {
                prompt_tokens: count_or_zero(u.prompt_token_count),
                completion_tokens: count_or_zero(u.candidates_token_count),
                total_tokens: count_or_zero(u.total_token_count),
            },
        ),
        None => None,
    }
}

/// The completion for a Gemini answer; an answer without text is an upstream error.
pub open spec fn gemini_completion(provider: ProviderId, model: Seq<char>, resp: GeminiResponse) -> Result<
    ChatCompletionResponseView,
    DomainErrorView,
> {
    match gemini_reply_text(resp) {
        None => Err(DomainErrorView::ProviderError("empty response"@)),
        Some(text) => Ok(
            ChatCompletionResponseView {
                provider,
                model,
                content: text,
                usage: gemini_usage(resp.usage_metadata),
            },
        ),
    }
}

/// Turns a decoded `generateContent` answer into the gateway's completion.
pub fn gemini_completion_from_response(provider: ProviderId, model: &str, resp: GeminiResponse) -> (res:
    Result<ChatCompletionResponse, DomainError>)
    ensures
        res matches Ok(r) ==> gemini_completion(provider, model@, resp) == Ok::<
            ChatCompletionResponseView,
            DomainErrorView,
        >(r@),
        res matches Err(e) ==> gemini_completion(provider, model@, resp) == Err::<
            ChatCompletionResponseView,
            DomainErrorView,
        >(e@),
{
    let mut text: Option<String> = None;
    if resp.candidates.len() > 0 {
        let parts = &resp.candidates[0].content.parts;
        let ghost views = gemini_parts_view(parts@);
        assert(views.skip(0) =~= views);
        let mut i: usize = 0;
        while i < parts.len()
            invariant_except_break
                text is None,
                first_text(views) == first_text(views.skip(i as int)),
            invariant
                views == gemini_parts_view(parts@),
                i <= parts.len(),
            ensures
                text matches Some(t) ==> first_text(views) == Some(t@),
                text is None ==> first_text(views) is None,
            decreases parts.len() - i,
        {
            assert(views.skip(i as int).drop_first() =~= views.skip(i + 1));
            assert(views.skip(i as int)[0] == parts@[i as int]@);
            match &parts[i].text {
                Some(t) => {
                    text = Some(t.clone());
                    break;
                },
                None => {},
            }
            i = i + 1;
            proof {
                if i == parts.len() {
                    assert(views.skip(i as int) =~= Seq::<GeminiPartView>::empty());
                }
            }
        }
    }
    match text {
        None => Err(DomainError::ProviderError("empty response".to_owned())),
        Some(content) => {
            let usage = match resp.usage_metadata {
                Some(u) => Some(
                    Usage {
                        prompt_tokens: match u.prompt_token_count {
                            Some(n) => n,
                            None => 0,
                        },
                        completion_tokens: match u.candidates_token_count {
                            Some(n) => n,
                            None => 0,
                        },
                        total_tokens: match u.total_token_count {
                            Some(n) => n,
                            None => 0,
                        },
                    },
                ),
                None => None,
            };
            Ok(ChatCompletionResponse { provider, model: model.to_owned(), content, usage })
        },
    }
}

// ===== What the conversion keeps =====

/// The messages that are not system messages, in order.
pub open spec fn non_system_messages(messages: Seq<ChatMessage>) -> Seq<ChatMessage>
    decreases messages.len(),
{
    if messages.len() == 0 {
        Seq::empty()
    } else {
        let rest = non_system_messages(messages.drop_last());
        if messages.last().role == Role::System {
            rest
        } else {
            rest.push(messages.last())
        }
    }
}

/// The system messages, in order.
pub open spec fn system_messages(messages: Seq<ChatMessage>) -> Seq<ChatMessage>
    decreases messages.len(),
{
    if messages.len() == 0 {
        Seq::empty()
    } else {
        let rest = system_messages(messages.drop_last());
        if messages.last().role == Role::System {
            rest.push(messages.last())
        } else {
            rest
        }
    }
}

/// A Gemini part carries a message part: a text part as the same text, an image
/// as the MIME type and data of its `data:` URL.
pub open spec fn part_carries(provider: ProviderId, part: ContentPartView, g: GeminiPartView) -> bool {
    match part {
        ContentPartView::Text(t) => g.text == Some(t) && g.inline_data is None,
        ContentPartView::ImageUrl { url, .. } => {
            &&& g.text is None
            &&& g.inline_data is Some
            &&& data_url_parts(provider, url) == Ok::<(Seq<char>, Seq<char>), DomainErrorView>(
                g.inline_data->Some_0,
            )
        },
    }
}

/// A Gemini turn carries a message: "user" for the user's messages and "model"
/// for the assistant's, whatever the body; a text body as one text part, a body
/// of parts as the same number of parts, each carrying its counterpart.
pub open spec fn turn_carries(provider: ProviderId, m: ChatMessage, turn: GeminiContentView) -> bool {
    &&& m.role == Role::User ==> turn.role == "user"@
    &&& m.role == Role::Assistant ==> turn.role == "model"@
    &&& match m.content@ {
        MessageContentView::Text(s) => {
            &&& turn.parts.len() == 1
            &&& turn.parts[0].text == Some(s)
            &&& turn.parts[0].inline_data is None
        },
        MessageContentView::Parts(ps) => {
            &&& turn.parts.len() == ps.len()
            &&& forall|j: int| 0 <= j < ps.len() ==> part_carries(provider, ps[j], #[trigger] turn.parts[j])
        },
    }
}

/// Converting parts keeps their number and order, each part carried by its counterpart.
pub proof fn lemma_parts_carried(provider: ProviderId, parts: Seq<ContentPartView>)
    requires
        gemini_parts_of(provider, parts) is Ok,
    ensures
        gemini_parts_of(provider, parts)->Ok_0.len() == parts.len(),
        forall|j: int|
            0 <= j < parts.len() ==> part_carries(
                provider,
                parts[j],
                #[trigger] gemini_parts_of(provider, parts)->Ok_0[j],
            ),
    decreases parts.len(),
{
    if parts.len() > 0 {
        lemma_parts_carried(provider, parts.drop_last());
        let done = gemini_parts_of(provider, parts.drop_last())->Ok_0;
        let p = gemini_part_of(provider, parts.last())->Ok_0;
        assert forall|j: int| 0 <= j < parts.len() implies part_carries(
            provider,
            parts[j],
            #[trigger] done.push(p)[j],
        ) by {
            if j < parts.len() - 1 {
                assert(done.push(p)[j] == done[j]);
                assert(parts[j] == parts.drop_last()[j]);
            }
        }
    }
}

/// A message body converts exactly when every image in it is a base64 `data:`
/// URL; then a text body becomes one text part, and a body of parts becomes the
/// same number of parts in the same order, each carrying its counterpart.
pub proof fn lemma_content_parts_carried(provider: ProviderId, content: MessageContentView)
    ensures
        gemini_content_parts(provider, content) is Ok <==> match content {
            MessageContentView::Text(_) => true,
            MessageContentView::Parts(ps) => forall|j: int|
                0 <= j < ps.len() ==> (#[trigger] ps[j] matches ContentPartView::ImageUrl { url, .. }
                    ==> data_url_parts(provider, url) is Ok),
        },
        gemini_content_parts(provider, content) matches Ok(out) ==> match content {
            MessageContentView::Text(s) => out.len() == 1 && out[0].text == Some(s)
                && out[0].inline_data is None,
            MessageContentView::Parts(ps) => out.len() == ps.len() && forall|j: int|
                0 <= j < ps.len() ==> part_carries(provider, ps[j], #[trigger] out[j]),
        },
{
    match content {
        MessageContentView::Text(_) => {},
        MessageContentView::Parts(ps) => {
            lemma_parts_ok_iff_images_parse(provider, ps);
            if gemini_parts_of(provider, ps) is Ok {
                lemma_parts_carried(provider, ps);
            }
        },
    }
}

/// Parts convert exactly when every image among them is a base64 `data:` URL.
proof fn lemma_parts_ok_iff_images_parse(provider: ProviderId, parts: Seq<ContentPartView>)
    ensures
        gemini_parts_of(provider, parts) is Ok <==> forall|j: int|
            0 <= j < parts.len() ==> (#[trigger] parts[j] matches ContentPartView::ImageUrl { url, .. }
                ==> data_url_parts(provider, url) is Ok),
    decreases parts.len(),
{
    if parts.len() > 0 {
        let prefix = parts.drop_last();
        lemma_parts_ok_iff_images_parse(provider, prefix);
        if gemini_parts_of(provider, parts) is Ok {
            assert forall|j: int| 0 <= j < parts.len() implies (#[trigger] parts[j] matches ContentPartView::ImageUrl { url, .. }
                ==> data_url_parts(provider, url) is Ok) by {
                if j < parts.len() - 1 {
                    assert(parts[j] == prefix[j]);
                }
            }
        } else {
            if gemini_parts_of(provider, prefix) is Err {
                let j = choose|j: int| 0 <= j < prefix.len() && !(#[trigger] prefix[j] matches ContentPartView::ImageUrl { url, .. }
                    ==> data_url_parts(provider, url) is Ok);
                assert(parts[j] == prefix[j]);
            } else {
                let j = parts.len() - 1;
                assert(!(parts[j] matches ContentPartView::ImageUrl { url, .. } ==> data_url_parts(provider, url) is Ok));
            }
        }
    }
}

/// A converted message body yields a turn that carries the message.
proof fn lemma_turn_of_message(provider: ProviderId, m: ChatMessage)
    requires
        m.role == Role::User || m.role == Role::Assistant,
        gemini_content_parts(provider, m.content@) is Ok,
    ensures
        turn_carries(
            provider,
            m,
            GeminiContentView {
                role: gemini_role(m.role),
                parts: gemini_content_parts(provider, m.content@)->Ok_0,
            },
        ),
{
    match m.content@ {
        MessageContentView::Text(s) => {},
        MessageContentView::Parts(ps) => lemma_parts_carried(provider, ps),
    }
}

/// The Gemini conversation follows the request: the turns are the non-system
/// messages in order, each turn carrying its message (its role by the message's
/// role, its parts by the message's body); the system instruction holds one text
/// part per system message, in order, with that message's text.
pub proof fn lemma_gemini_turns_follow_messages(provider: ProviderId, messages: Seq<ChatMessage>)
    requires
        gemini_turns(provider, messages) is Ok,
    ensures
        ({
            let (system, turns) = gemini_turns(provider, messages)->Ok_0;
            let talk = non_system_messages(messages);
            let sys = system_messages(messages);
            &&& turns.len() == talk.len()
            &&& forall|i: int| 0 <= i < turns.len() ==> turn_carries(provider, talk[i], #[trigger] turns[i])
            &&& system.len() == sys.len()
            &&& forall|i: int|
                0 <= i < system.len() ==> (#[trigger] system[i]).text == Some(sys[i].content@.text())
                    && system[i].inline_data is None
        }),
    decreases messages.len(),
{
    if messages.len() > 0 {
        let prefix = messages.drop_last();
        if gemini_turns(provider, prefix) is Err {
            assert(gemini_turns(provider, messages) is Err);
        }
        lemma_gemini_turns_follow_messages(provider, prefix);
        let (system, turns) = gemini_turns(provider, prefix)->Ok_0;
        let m = messages.last();
        let talk = non_system_messages(prefix);
        let sys = system_messages(prefix);
        if m.role == Role::System {
            let p = text_part(m.content@.text());
            assert forall|i: int| 0 <= i < system.push(p).len() implies (#[trigger] system.push(
                p,
            )[i]).text == Some(sys.push(m)[i].content@.text()) && system.push(p)[i].inline_data is None by {
                if i < system.len() {
                    assert(system.push(p)[i] == system[i]);
                    assert(sys.push(m)[i] == sys[i]);
                }
            }
        } else {
            assert(m.role != Role::Tool);
            lemma_turn_of_message(provider, m);
            let t = GeminiContentView {
                role: gemini_role(m.role),
                parts: gemini_content_parts(provider, m.content@)->Ok_0,
            };
            assert forall|i: int| 0 <= i < turns.push(t).len() implies turn_carries(
                provider,
                talk.push(m)[i],
                #[trigger] turns.push(t)[i],
            ) by {
                if i < turns.len() {
                    assert(turns.push(t)[i] == turns[i]);
                    assert(talk.push(m)[i] == talk[i]);
                }
            }
        }
    }
}

/// The `generateContent` body of a request that converts: its turns are those of
/// the conversation, it has a system instruction exactly when the request has a
/// system message, and it passes the temperature and token limit on unchanged.
pub proof fn lemma_gemini_request_settings(provider: ProviderId, req: ChatCompletionRequest)
    requires
        gemini_request_of(provider, req) is Ok,
    ensures
        ({
            let body = gemini_request_of(provider, req)->Ok_0;
            let (system, turns) = gemini_turns(provider, req.messages@)->Ok_0;
            &&& gemini_turns(provider, req.messages@) is Ok
            &&& body.contents == turns
            &&& (body.system_instruction is Some <==> system_messages(req.messages@).len() > 0)
            &&& body.system_instruction is Some ==> body.system_instruction->Some_0 == system
            &&& body.generation_config == Some(
                GeminiGenerationConfig {
                    temperature: req.temperature,
                    max_output_tokens: req.max_tokens,
                },
            )
        }),
{
    lemma_gemini_turns_follow_messages(provider, req.messages@);
}

/// What a Gemini answer becomes: an error exactly when the first candidate is
/// missing or has no part with text; otherwise the completion names the provider
/// and the requested model, holds the text of the first part of the first
/// candidate that has a text, and each usage figure is the reported count, or 0
/// where that count is missing.
pub proof fn lemma_gemini_completion_reads_answer(
    provider: ProviderId,
    model: Seq<char>,
    resp: GeminiResponse,
)
    ensures
        gemini_completion(provider, model, resp) is Err <==> (resp.candidates@.len() == 0
            || forall|j: int|
            0 <= j < resp.candidates@[0].content.parts@.len()
                ==> (#[trigger] resp.candidates@[0].content.parts@[j]).text is None),
        gemini_completion(provider, model, resp) is Err ==> gemini_completion(provider, model, resp)
            == Err::<ChatCompletionResponseView, DomainErrorView>(
            DomainErrorView::ProviderError("empty response"@),
        ),
        gemini_completion(provider, model, resp) matches Ok(r) ==> {
            let parts = resp.candidates@[0].content.parts@;
            &&& r.provider == provider
            &&& r.model == model
            &&& exists|k: int|
                0 <= k < parts.len() && (#[trigger] parts[k]).text is Some && parts[k].text->Some_0@ == r.content
                    && forall|j: int| 0 <= j < k ==> (#[trigger] parts[j]).text is None
            &&& (r.usage is Some <==> resp.usage_metadata is Some)
            &&& resp.usage_metadata matches Some(u) ==> {
                let usage = r.usage->Some_0;
                &&& (u.prompt_token_count matches Some(n) ==> usage.prompt_tokens == n)
                &&& (u.prompt_token_count is None ==> usage.prompt_tokens == 0)
                &&& (u.candidates_token_count matches Some(n) ==> usage.completion_tokens == n)
                &&& (u.candidates_token_count is None ==> usage.completion_tokens == 0)
                &&& (u.total_token_count matches Some(n) ==> usage.total_tokens == n)
                &&& (u.total_token_count is None ==> usage.total_tokens == 0)
            }
        },
{
    if resp.candidates@.len() > 0 {
        let parts = resp.candidates@[0].content.parts@;
        lemma_first_text_is_first(parts, 0);
    }
}

/// `first_text` finds the first part with a text, from position `k` on.
proof fn lemma_first_text_is_first(parts: Seq<GeminiPart>, k: int)
    requires
        0 <= k <= parts.len(),
        forall|j: int| 0 <= j < k ==> (#[trigger] parts[j]).text is None,
    ensures
        first_text(gemini_parts_view(parts)) is None <==> forall|j: int|
            0 <= j < parts.len() ==> (#[trigger] parts[j]).text is None,
        first_text(gemini_parts_view(parts)) matches Some(t) ==> exists|i: int|
            0 <= i < parts.len() && (#[trigger] parts[i]).text is Some && parts[i].text->Some_0@ == t
                && forall|j: int| 0 <= j < i ==> (#[trigger] parts[j]).text is None,
    decreases parts.len() - k,
{
    let views = gemini_parts_view(parts);
    lemma_first_text_from(views, k);
    if k < parts.len() {
        if parts[k].text is None {
            assert forall|j: int| 0 <= j < k + 1 implies (#[trigger] parts[j]).text is None by {}
            lemma_first_text_is_first(parts, k + 1);
        } else {
            assert(views[k] == parts[k]@);
        }
    } else {
        assert(views.skip(k) =~= Seq::<GeminiPartView>::empty());
    }
}

/// Skipping parts without text does not change the first text.
proof fn lemma_first_text_from(views: Seq<GeminiPartView>, k: int)
    requires
        0 <= k <= views.len(),
        forall|j: int| 0 <= j < k ==> (#[trigger] views[j]).text is None,
    ensures
        first_text(views) == first_text(views.skip(k)),
    decreases k,
{
    if k > 0 {
        lemma_first_text_from(views, k - 1);
        assert(views.skip(k - 1).drop_first() =~= views.skip(k));
        assert(views.skip(k - 1)[0] == views[k - 1]);
    } else {
        assert(views.skip(0) =~= views);
    }
}

} // verus!
