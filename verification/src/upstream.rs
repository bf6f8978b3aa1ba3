use vstd::prelude::*;

use crate::error::{DomainError, DomainErrorView};
use crate::provider_id::ProviderId;
use crate::text::{is_prefix, is_suffix};

verus! {

/// What `reqwest::StatusCode`'s `Display` shows for a valid status code: the code,
/// a space, and its canonical reason phrase (or a marker for codes without one).
pub uninterp spec fn status_line_text(code: u16) -> Seq<char>;

/// Renders an HTTP status code through `reqwest::StatusCode::from_u16` and the
/// type's `Display` impl. Trusted: the text is named by `status_line_text` and
/// depends on the code alone; `from_u16` accepts exactly 100..=999, which
/// `requires` asks for, so its error arm is never taken.
#[verifier::external_body]
fn status_line(code: u16) -> (res: String)
    requires
        100 <= code <= 999,
    ensures
        res@ == status_line_text(code),
{
    match reqwest::StatusCode::from_u16(code) {
        Ok(status) => status.to_string(),
        Err(_) => String::new(),
    }
}

/// Whether an HTTP status code means success (200 to 299).
pub open spec fn is_success_code(code: u16) -> bool {
    200 <= code <= 299
}

/// Whether an HTTP status code means success (200 to 299).
pub fn is_success(code: u16) -> (res: bool)
    ensures
        res == is_success_code(code),
{
    200 <= code && code <= 299
}

/// How each provider introduces an unsuccessful upstream status in its error text.
pub open spec fn status_prefix(provider: ProviderId) -> Seq<char> {
    match provider {
        ProviderId::GoogleAiStudio => "gemini status="@,
        ProviderId::Groq => "groq call status="@,
        ProviderId::OpenRouter => "OpenRouter call status="@,
        ProviderId::Vertex => "vertex status="@,
    }
}

/// Whether a status is 400 Bad Request: the provider refused the request itself,
/// for instance an image sent to a model that only reads text.
pub open spec fn is_bad_request_code(code: u16) -> bool {
    code == 400
}

/// The error for an upstream answer with an unsuccessful status and the given body.
/// A 400 is relayed with its status and body as they are; any other status is
/// an upstream failure whose text names the status and the body.
pub open spec fn status_error(provider: ProviderId, code: u16, body: Seq<char>) -> DomainErrorView {
    if is_bad_request_code(code) {
        DomainErrorView::UpstreamRejected { status: code, body }
    } else {
        DomainErrorView::ProviderError(
            status_prefix(provider) + status_line_text(code) + " body="@ + body,
        )
    }
}

/// An unsuccessful status other than 400 is an upstream failure, never a
/// relayed refusal: its text starts with the provider's marker and the rendered
/// status, and ends with ` body=` and the upstream body as it came.
pub proof fn lemma_upstream_failure_names_status_and_body(provider: ProviderId, code: u16, body: Seq<char>)
    requires
        !is_bad_request_code(code),
    ensures
        status_error(provider, code, body) matches DomainErrorView::ProviderError(t) && {
            &&& is_prefix(status_prefix(provider) + status_line_text(code), t)
            &&& is_suffix(" body="@ + body, t)
        },
{
    let head = status_prefix(provider) + status_line_text(code);
    let tail = " body="@ + body;
    let t = head + tail;
    assert(t =~= status_prefix(provider) + status_line_text(code) + " body="@ + body);
    assert(t.take(head.len() as int) =~= head);
    assert(t.skip(t.len() - tail.len()) =~= tail);
}

/// Builds the error that reports an upstream answer with an unsuccessful status:
/// a 400 is kept as the provider's status and body, anything else becomes an
/// upstream failure.
pub fn upstream_status_error(provider: ProviderId, code: u16, body: &str) -> (e: DomainError)
    requires
        100 <= code <= 999,
    ensures
        e@ == status_error(provider, code, body@),
{
    if code == 400 {
        return DomainError::UpstreamRejected { status: code, body: body.to_owned() };
    }
    let prefix = match provider {
        ProviderId::GoogleAiStudio => "gemini status=",
        ProviderId::Groq => "groq call status=",
        ProviderId::OpenRouter => "OpenRouter call status=",
        ProviderId::Vertex => "vertex status=",
    };
    let mut msg = prefix.to_owned();
    let line = status_line(code);
    msg.append(line.as_str());
    msg.append(" body=");
    msg.append(body);
    DomainError::ProviderError(msg)
}

} // verus!
