use vstd::prelude::*;

use crate::config::strings_view;
use crate::error::{DomainError, DomainErrorView};
use crate::provider_id::{lemma_rank_is_name_order, lex_lt, ProviderId};
use crate::upstream::{is_bad_request_code, status_error};
use crate::usecase::{registered_ids, ChatCompletionUseCase};

verus! {

// ===== Errors as HTTP answers =====

/// The HTTP status that answers a domain error: an unknown provider is 404,
/// a request the provider cannot express is 400, a provider's 400 is answered
/// with that status, any other upstream failure is 502.
pub open spec fn status_for(e: DomainErrorView) -> u16 {
    match e {
        DomainErrorView::ProviderNotFound(_) => 404,
        DomainErrorView::InvalidRequest(_) => 400,
        DomainErrorView::ProviderError(_) => 502,
        DomainErrorView::UpstreamRejected { status, .. } => status,
    }
}

/// A domain error on its way out as an HTTP answer: a status and the message
/// that goes into the `{"error": ...}` body.
pub struct ApiError {
    status: u16,
    message: String,
}

/// The model of an `ApiError`.
pub struct ApiErrorView {
    pub status: u16,
    pub message: Seq<char>,
}

impl View for ApiError {
    type V = ApiErrorView;

    closed spec fn view(&self) -> ApiErrorView {
        ApiErrorView { status: self.status, message: self.message@ }
    }
}

impl ApiError {
    /// The HTTP answer for a domain error.
    pub fn from_domain_error(e: DomainError) -> (res: ApiError)
        ensures
            res@ == (ApiErrorView { status: status_for(e@), message: e@.message() }),
    {
        let status = match &e {
            DomainError::ProviderNotFound(_) => 404,
            DomainError::InvalidRequest(_) => 400,
            DomainError::ProviderError(_) => 502,
            DomainError::UpstreamRejected { status, .. } => *status,
        };
        ApiError { status, message: e.message() }
    }

    /// The HTTP status code.
    pub fn status(&self) -> (s: u16)
        ensures
            s == self@.status,
    {
        self.status
    }

    /// The message of the `{"error": ...}` body.
    pub fn message(&self) -> (m: &str)
        ensures
            m@ == self@.message,
    {
        self.message.as_str()
    }
}

/// Each error's HTTP answer: an unknown provider is 404 and a request that a
/// provider cannot express is 400, each with the error's rendered message; an
/// upstream failure is 502.
pub proof fn lemma_error_statuses(s: Seq<char>)
    ensures
        status_for(DomainErrorView::ProviderNotFound(s)) == 404,
        status_for(DomainErrorView::InvalidRequest(s)) == 400,
        status_for(DomainErrorView::ProviderError(s)) == 502,
        DomainErrorView::ProviderNotFound(s).message() == "provider not found: "@ + s,
        DomainErrorView::InvalidRequest(s).message() == "invalid request: "@ + s,
        DomainErrorView::ProviderError(s).message() == "provider error: "@ + s,
{
}

/// A provider's 400 reaches the gateway's caller as it is: with status 400 and
/// the provider's body as the error message. Any other unsuccessful upstream
/// status is answered with 502.
pub proof fn lemma_upstream_bad_request_relayed(provider: ProviderId, code: u16, body: Seq<char>)
    ensures
        is_bad_request_code(code) ==> status_for(status_error(provider, code, body)) == code
            && status_error(provider, code, body).message() == body,
        !is_bad_request_code(code) ==> status_for(status_error(provider, code, body)) == 502,
{
}

// ===== The gateway's own API key check =====

/// The status that refuses a caller without an accepted key.
pub const UNAUTHORIZED: u16 = 401;

/// A caller may pass when it presented a key and the key is in the allowed list.
pub open spec fn key_allowed(allowed: Seq<Seq<char>>, key: Option<Seq<char>>) -> bool {
    match key {
        Some(k) => allowed.contains(k),
        None => false,
    }
}

/// The view of an optional string slice.
pub open spec fn opt_str_view(key: Option<&str>) -> Option<Seq<char>> {
    match key {
        Some(k) => Some(k@),
        None => None,
    }
}

/// Lets a request through when its `X-API-Key` value is one of the allowed keys;
/// otherwise answers 401. `key` is `None` when the header is missing or unreadable.
pub fn require_api_key(allowed_api_keys: &Vec<String>, key: Option<&str>) -> (res: Result<(), u16>)
    ensures
        res is Ok <==> key_allowed(strings_view(allowed_api_keys@), opt_str_view(key)),
        res matches Err(code) ==> code == UNAUTHORIZED,
{
    let ghost allowed = strings_view(allowed_api_keys@);
    match key {
        None => Err(UNAUTHORIZED),
        Some(k) => {
            let presented = k.to_owned();
            for i in 0..allowed_api_keys.len()
                invariant
                    allowed == strings_view(allowed_api_keys@),
                    presented@ == k@,
                    opt_str_view(key) == Some(k@),
                    forall|j: int| 0 <= j < i ==> allowed[j] != k@,
            {
                if allowed_api_keys[i] == presented {
                    assert(allowed[i as int] == k@);
                    return Ok(());
                }
            }
            Err(UNAUTHORIZED)
        },
    }
}

/// A caller passes exactly when it presents a key equal to one of the allowed keys.
pub proof fn lemma_key_allowed_iff_listed(allowed: Seq<Seq<char>>, key: Option<Seq<char>>)
    ensures
        key_allowed(allowed, key) <==> key is Some && exists|i: int|
            0 <= i < allowed.len() && #[trigger] allowed[i] == key->Some_0,
{
}

/// With no accepted keys configured, every request to the protected routes is refused.
pub proof fn lemma_no_keys_rejects_everything(key: Option<Seq<char>>)
    ensures
        !key_allowed(Seq::empty(), key),
{
}

// ===== Provider listing =====

/// The listing of the configured providers.
pub struct ProvidersResponse {
    pub providers: Vec<ProviderId>,
}

/// `[p]` when `p` is among `ids`, otherwise nothing.
pub open spec fn listed_if(p: ProviderId, ids: Seq<ProviderId>) -> Seq<ProviderId> {
    if ids.contains(p) {
        seq![p]
    } else {
        Seq::empty()
    }
}

/// The providers among `ids`, each once, ordered by name.
pub open spec fn in_name_order(ids: Seq<ProviderId>) -> Seq<ProviderId> {
    listed_if(ProviderId::GoogleAiStudio, ids) + listed_if(ProviderId::Groq, ids) + listed_if(
        ProviderId::OpenRouter,
        ids,
    ) + listed_if(ProviderId::Vertex, ids)
}

/// Whether `id` is among `ids`.
fn contains_id(ids: &Vec<ProviderId>, id: ProviderId) -> (res: bool)
    ensures
        res == ids@.contains(id),
{
    for i in 0..ids.len()
        invariant
            forall|j: int| 0 <= j < i ==> ids@[j] != id,
    {
        if ids[i] == id {
            assert(ids@[i as int] == id);
            return true;
        }
    }
    false
}

/// Lists the configured providers, sorted by name so that the answer is stable.
pub fn list_providers<P>(chat: &ChatCompletionUseCase<P>) -> (res: ProvidersResponse)
    ensures
        res.providers@ == in_name_order(registered_ids(chat@)),
{
    let available = chat.available_providers();
    let mut providers: Vec<ProviderId> = Vec::new();
    if contains_id(&available, ProviderId::GoogleAiStudio) {
        providers.push(ProviderId::GoogleAiStudio);
    }
    if contains_id(&available, ProviderId::Groq) {
        providers.push(ProviderId::Groq);
    }
    if contains_id(&available, ProviderId::OpenRouter) {
        providers.push(ProviderId::OpenRouter);
    }
    if contains_id(&available, ProviderId::Vertex) {
        providers.push(ProviderId::Vertex);
    }
    assert(providers@ =~= in_name_order(registered_ids(chat@)));
    ProvidersResponse { providers }
}

/// The listing holds exactly the given providers, each once, in increasing order
/// of their names.
pub proof fn lemma_listing_sorted_and_complete(ids: Seq<ProviderId>)
    ensures
        forall|p: ProviderId| in_name_order(ids).contains(p) <==> ids.contains(p),
        forall|i: int, j: int|
            0 <= i < j < in_name_order(ids).len() ==> lex_lt(
                (#[trigger] in_name_order(ids)[i]).name(),
                (#[trigger] in_name_order(ids)[j]).name(),
            ),
{
    let r = in_name_order(ids);
    assert forall|i: int, j: int| 0 <= i < j < r.len() implies #[trigger] r[i].rank() < #[trigger] r[j].rank() by {
    }
    assert forall|i: int, j: int| 0 <= i < j < r.len() implies lex_lt(
        (#[trigger] r[i]).name(),
        (#[trigger] r[j]).name(),
    ) by {
        lemma_rank_is_name_order(r[i], r[j]);
    }
    assert forall|p: ProviderId| r.contains(p) <==> ids.contains(p) by {
        if ids.contains(p) {
            match p {
                ProviderId::GoogleAiStudio => assert(r[0] == p),
                ProviderId::Groq => assert(r[listed_if(ProviderId::GoogleAiStudio, ids).len() as int] == p),
                ProviderId::OpenRouter => assert(r[(listed_if(ProviderId::GoogleAiStudio, ids) + listed_if(ProviderId::Groq, ids)).len() as int] == p),
                ProviderId::Vertex => assert(r[r.len() - 1] == p),
            }
        }
    }
}

// ===== Health probes =====

/// The answer of a health probe.
pub struct HealthResponse {
    pub status: &'static str,
}

/// Liveness: the process answers.
pub fn healthz() -> (res: HealthResponse)
    ensures
        res.status@ == "ok"@,
{
    HealthResponse { status: "ok" }
}

/// Readiness: the gateway takes requests.
pub fn readyz() -> (res: HealthResponse)
    ensures
        res.status@ == "ready"@,
{
    HealthResponse { status: "ready" }
}

} // verus!
