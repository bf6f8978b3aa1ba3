use vstd::prelude::*;

verus! {

/// The failures that the gateway's domain logic can report.
pub enum DomainError {
    ProviderNotFound(String),
    InvalidRequest(String),
    ProviderError(String),
    /// The provider refused the request with 400 Bad Request; the gateway relays
    /// that status and the provider's body as they are.
    UpstreamRejected { status: u16, body: String },
}

/// The mathematical model of a `DomainError`: the variant and its text.
pub enum DomainErrorView {
    ProviderNotFound(Seq<char>),
    InvalidRequest(Seq<char>),
    ProviderError(Seq<char>),
    UpstreamRejected { status: u16, body: Seq<char> },
}

impl View for DomainError {
    type V = DomainErrorView;

    open spec fn view(&self) -> DomainErrorView {
        match self {
            DomainError::ProviderNotFound(s) => DomainErrorView::ProviderNotFound(s@),
            DomainError::InvalidRequest(s) => DomainErrorView::InvalidRequest(s@),
            DomainError::ProviderError(s) => DomainErrorView::ProviderError(s@),
            DomainError::UpstreamRejected { status, body } => DomainErrorView::UpstreamRejected {
                status: *status,
                body: body@,
            },
        }
    }
}

impl DomainErrorView {
    /// The human-readable rendering of an error: a fixed prefix per variant,
    /// followed by the error's text; a relayed rejection is the provider's body itself.
    pub open spec fn message(self) -> Seq<char> {
        match self {
            DomainErrorView::ProviderNotFound(s) => "provider not found: "@ + s,
            DomainErrorView::InvalidRequest(s) => "invalid request: "@ + s,
            DomainErrorView::ProviderError(s) => "provider error: "@ + s,
            DomainErrorView::UpstreamRejected { body, .. } => body,
        }
    }
}

impl DomainError {
    /// Renders the error for humans (what its `Display` shows).
    pub fn message(&self) -> (res: String)
        ensures
            res@ == self@.message(),
    {
        let (prefix, text) = match self {
            DomainError::ProviderNotFound(s) => ("provider not found: ", s),
            DomainError::InvalidRequest(s) => ("invalid request: ", s),
            DomainError::ProviderError(s) => ("provider error: ", s),
            DomainError::UpstreamRejected { body, .. } => {
                return body.clone();
            },
        };
        let mut res = prefix.to_owned();
        res.append(text.as_str());
        res
    }
}

} // verus!
