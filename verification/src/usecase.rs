use vstd::prelude::*;

use crate::completion::ChatCompletionRequest;
use crate::error::{DomainError, DomainErrorView};
use crate::provider_id::ProviderId;

verus! {

/// No provider is registered twice.
pub open spec fn ids_distinct<P>(entries: Seq<(ProviderId, P)>) -> bool {
    forall|i: int, j: int|
        0 <= i < entries.len() && 0 <= j < entries.len() && i != j ==> entries[i].0 != entries[j].0
}

/// Whether a provider is registered.
pub open spec fn is_registered<P>(entries: Seq<(ProviderId, P)>, id: ProviderId) -> bool {
    exists|i: int| 0 <= i < entries.len() && entries[i].0 == id
}

/// The provider registered under `id`, if any.
pub open spec fn provider_for<P>(entries: Seq<(ProviderId, P)>, id: ProviderId) -> Option<P> {
    if is_registered(entries, id) {
        Some(entries[choose|i: int| 0 <= i < entries.len() && entries[i].0 == id].1)
    } else {
        None
    }
}

/// A provider registered under `id` is the one that requests for `id` get; with
/// distinct ids there is no doubt which one that is.
pub proof fn lemma_registered_provider_serves<P>(entries: Seq<(ProviderId, P)>, i: int)
    requires
        ids_distinct(entries),
        0 <= i < entries.len(),
    ensures
        provider_for(entries, entries[i].0) == Some(entries[i].1),
{
    let id = entries[i].0;
    let k = choose|k: int| 0 <= k < entries.len() && entries[k].0 == id;
    assert(k == i);
}

/// A request for a provider that was not registered finds none.
pub proof fn lemma_unregistered_provider_missing<P>(entries: Seq<(ProviderId, P)>, id: ProviderId)
    requires
        !registered_ids(entries).contains(id),
    ensures
        provider_for(entries, id) is None,
{
    if is_registered(entries, id) {
        let k = choose|k: int| 0 <= k < entries.len() && entries[k].0 == id;
        assert(registered_ids(entries)[k] == id);
    }
}

/// The registered provider ids, in registration order.
pub open spec fn registered_ids<P>(entries: Seq<(ProviderId, P)>) -> Seq<ProviderId> {
    entries.map_values(|e: (ProviderId, P)| e.0)
}

/// Routes chat completion requests to the provider each one names.
///
/// `P` is whatever serves a provider's requests; the gateway registers one per
/// configured provider.
///
/// The table holds id and provider pairs in registration order; the type
/// invariant keeps each provider id in it at most once, so every id leads to
/// at most one provider.
pub struct ChatCompletionUseCase<P> {
    providers: Vec<(ProviderId, P)>,
}

impl<P> View for ChatCompletionUseCase<P> {
    type V = Seq<(ProviderId, P)>;

    closed spec fn view(&self) -> Seq<(ProviderId, P)> {
        self.providers@
    }
}

impl<P> ChatCompletionUseCase<P> {
    #[verifier::type_invariant]
    spec fn well_formed(self) -> bool {
        ids_distinct(self.providers@)
    }

    /// Registers the given providers; a provider id names at most one of them.
    pub fn new(providers: Vec<(ProviderId, P)>) -> (s: Self)
        requires
            ids_distinct(providers@),
        ensures
            s@ == providers@,
    {
        ChatCompletionUseCase { providers }
    }

    /// Picks the provider that serves `req`; a request for a provider that is not
    /// registered is refused with `ProviderNotFound` and the provider's name.
    pub fn execute(&self, req: &ChatCompletionRequest) -> (res: Result<&P, DomainError>)
        ensures
            res matches Ok(p) ==> provider_for(self@, req.provider) == Some(*p),
            res matches Err(e) ==> provider_for(self@, req.provider) is None && e@
                == DomainErrorView::ProviderNotFound(req.provider.name()),
    {
        proof {
            use_type_invariant(self);
        }
        let id = req.provider;
        for i in 0..self.providers.len()
            invariant
                id == req.provider,
                ids_distinct(self.providers@),
                forall|j: int| 0 <= j < i ==> self.providers@[j].0 != id,
        {
            if self.providers[i].0 == id {
                proof {
                    let k = choose|k: int|
                        0 <= k < self.providers@.len() && self.providers@[k].0 == id;
                    assert(k == i);
                }
                return Ok(&self.providers[i].1);
            }
        }
        Err(DomainError::ProviderNotFound(id.as_str().to_owned()))
    }

    /// The registered provider ids, in registration order.
    pub fn available_providers(&self) -> (res: Vec<ProviderId>)
        ensures
            res@ == registered_ids(self@),
            ids_distinct(self@),
    {
        proof {
            use_type_invariant(self);
        }
        let mut res: Vec<ProviderId> = Vec::new();
        for i in 0..self.providers.len()
            invariant
                res@ =~= registered_ids(self.providers@).take(i as int),
        {
            res.push(self.providers[i].0);
            assert(res@ =~= registered_ids(self.providers@).take(i + 1));
        }
        assert(registered_ids(self.providers@).take(self.providers.len() as int) =~= registered_ids(
            self.providers@,
        ));
        res
    }
}

} // verus!
