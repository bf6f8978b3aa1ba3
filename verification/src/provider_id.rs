use vstd::prelude::*;

verus! {

/// The upstream AI services the gateway can relay to.
#[derive(Debug, Clone, Copy, PartialEq, Eq, Hash, Structural)]
pub enum ProviderId {
    GoogleAiStudio,
    Groq,
    OpenRouter,
    Vertex,
}

impl ProviderId {
    /// The wire name of a provider, as used in JSON bodies and error messages.
    pub open spec fn name(self) -> Seq<char> {
        match self {
            ProviderId::GoogleAiStudio => "google_ai_studio"@,
            ProviderId::Groq => "groq"@,
            ProviderId::OpenRouter => "openrouter"@,
            ProviderId::Vertex => "vertex"@,
        }
    }

    pub fn as_str(&self) -> (s: &'static str)
        ensures
            s@ == self.name(),
    {
        match self {
            ProviderId::GoogleAiStudio => "google_ai_studio",
            ProviderId::Groq => "groq",
            ProviderId::OpenRouter => "openrouter",
            ProviderId::Vertex => "vertex",
        }
    }
}

impl ProviderId {
    /// The position of a provider when providers are listed by name.
    pub open spec fn rank(self) -> int {
        match self {
            ProviderId::GoogleAiStudio => 0,
            ProviderId::Groq => 1,
            ProviderId::OpenRouter => 2,
            ProviderId::Vertex => 3,
        }
    }
}

/// `a` comes strictly before `b` in lexicographic order of code points.
pub open spec fn lex_lt(a: Seq<char>, b: Seq<char>) -> bool
    decreases a.len(),
{
    if b.len() == 0 {
        false
    } else if a.len() == 0 {
        true
    } else if (a[0] as u32) < (b[0] as u32) {
        true
    } else if a[0] == b[0] {
        lex_lt(a.drop_first(), b.drop_first())
    } else {
        false
    }
}

/// Different providers have different names.
pub proof fn lemma_names_distinct(a: ProviderId, b: ProviderId)
    ensures
        a.name() == b.name() ==> a == b,
{
    reveal_strlit("google_ai_studio");
    reveal_strlit("groq");
    reveal_strlit("openrouter");
    reveal_strlit("vertex");
    match a {
        ProviderId::GoogleAiStudio => assert(a.name().len() == 16),
        ProviderId::Groq => assert(a.name().len() == 4),
        ProviderId::OpenRouter => assert(a.name().len() == 10),
        ProviderId::Vertex => assert(a.name().len() == 6),
    }
    match b {
        ProviderId::GoogleAiStudio => assert(b.name().len() == 16),
        ProviderId::Groq => assert(b.name().len() == 4),
        ProviderId::OpenRouter => assert(b.name().len() == 10),
        ProviderId::Vertex => assert(b.name().len() == 6),
    }
}

/// Listing providers by rank lists them in the order of their names.
pub proof fn lemma_rank_is_name_order(a: ProviderId, b: ProviderId)
    requires
        a.rank() < b.rank(),
    ensures
        lex_lt(a.name(), b.name()),
{
    reveal_strlit("google_ai_studio");
    reveal_strlit("groq");
    reveal_strlit("openrouter");
    reveal_strlit("vertex");
    let g = "google_ai_studio"@;
    let q = "groq"@;
    let o = "openrouter"@;
    let v = "vertex"@;
    assert(lex_lt(g, o));
    assert(lex_lt(g, v));
    assert(lex_lt(q, o));
    assert(lex_lt(q, v));
    assert(lex_lt(o, v));
    assert(lex_lt(g.drop_first(), q.drop_first()));
    assert(lex_lt(g, q));
    match a {
        ProviderId::GoogleAiStudio => assert(a.name() == g),
        ProviderId::Groq => assert(a.name() == q),
        ProviderId::OpenRouter => assert(a.name() == o),
        ProviderId::Vertex => assert(a.name() == v),
    }
    match b {
        ProviderId::GoogleAiStudio => assert(b.name() == g),
        ProviderId::Groq => assert(b.name() == q),
        ProviderId::OpenRouter => assert(b.name() == o),
        ProviderId::Vertex => assert(b.name() == v),
    }
}

} // verus!
