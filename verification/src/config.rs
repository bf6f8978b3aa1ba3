use vstd::prelude::*;

use crate::text::{is_whitespace, trim, trim_end, trim_start, trim_str};

verus! {

/// The pieces of `s` between occurrences of `sep`; there is one more piece than
/// there are separators, so an empty `s` is one empty piece.
pub open spec fn split_on(s: Seq<char>, sep: char) -> Seq<Seq<char>>
    decreases s.len(),
{
    if s.len() == 0 {
        seq![Seq::empty()]
    } else {
        let pieces = split_on(s.drop_last(), sep);
        if s.last() == sep {
            pieces.push(Seq::empty())
        } else {
            pieces.update(pieces.len() - 1, pieces.last().push(s.last()))
        }
    }
}

/// The trimmed pieces that are not empty, in order.
pub open spec fn keys_of(pieces: Seq<Seq<char>>) -> Seq<Seq<char>>
    decreases pieces.len(),
{
    if pieces.len() == 0 {
        Seq::empty()
    } else {
        let rest = keys_of(pieces.drop_last());
        let key = trim(pieces.last());
        if key.len() > 0 {
            rest.push(key)
        } else {
            rest
        }
    }
}

/// The API keys in a comma-separated list: each entry trimmed, empty entries dropped.
pub open spec fn api_keys_of(s: Seq<char>) -> Seq<Seq<char>> {
    keys_of(split_on(s, ','))
}

/// A usable key: not empty, free of commas, without surrounding white space.
pub open spec fn is_clean_key(k: Seq<char>) -> bool {
    &&& k.len() > 0
    &&& !k.contains(',')
    &&& !is_whitespace(k[0])
    &&& !is_whitespace(k.last())
}

/// No piece of a split holds the separator, and there is always a piece.
proof fn lemma_split_pieces_lack_separator(s: Seq<char>, sep: char)
    ensures
        split_on(s, sep).len() >= 1,
        forall|i: int| 0 <= i < split_on(s, sep).len() ==> !(#[trigger] split_on(s, sep)[i]).contains(sep),
    decreases s.len(),
{
    if s.len() > 0 {
        lemma_split_pieces_lack_separator(s.drop_last(), sep);
        let pieces = split_on(s.drop_last(), sep);
        if s.last() != sep {
            let grown = pieces.last().push(s.last());
            assert(!pieces[pieces.len() - 1].contains(sep));
            assert forall|j: int| 0 <= j < grown.len() implies grown[j] != sep by {
                if j < pieces.last().len() {
                    assert(grown[j] == pieces.last()[j]);
                }
            }
            assert(!grown.contains(sep));
        } else {
            assert(!Seq::<char>::empty().contains(sep));
        }
    }
}

/// Trimming keeps a character out if it was out.
proof fn lemma_trim_keeps_out(x: Seq<char>, c: char)
    requires
        !x.contains(c),
    ensures
        !trim(x).contains(c),
{
    lemma_trim_start_keeps_out(x, c);
    lemma_trim_end_keeps_out(trim_start(x), c);
}

proof fn lemma_trim_start_keeps_out(x: Seq<char>, c: char)
    requires
        !x.contains(c),
    ensures
        !trim_start(x).contains(c),
    decreases x.len(),
{
    if x.len() > 0 && is_whitespace(x[0]) {
        assert forall|j: int| 0 <= j < x.drop_first().len() implies x.drop_first()[j] != c by {
            assert(x.drop_first()[j] == x[j + 1]);
        }
        lemma_trim_start_keeps_out(x.drop_first(), c);
    }
}

proof fn lemma_trim_end_keeps_out(x: Seq<char>, c: char)
    requires
        !x.contains(c),
    ensures
        !trim_end(x).contains(c),
    decreases x.len(),
{
    if x.len() > 0 && is_whitespace(x.last()) {
        assert forall|j: int| 0 <= j < x.drop_last().len() implies x.drop_last()[j] != c by {
            assert(x.drop_last()[j] == x[j]);
        }
        lemma_trim_end_keeps_out(x.drop_last(), c);
    }
}

/// What is left after trimming starts with a character that is not white space.
proof fn lemma_trim_start_front(x: Seq<char>)
    ensures
        trim_start(x).len() > 0 ==> !is_whitespace(trim_start(x)[0]),
    decreases x.len(),
{
    if x.len() > 0 && is_whitespace(x[0]) {
        lemma_trim_start_front(x.drop_first());
    }
}

/// Trimming the end keeps the front of what is left.
proof fn lemma_trim_end_front(x: Seq<char>)
    ensures
        trim_end(x).len() <= x.len(),
        trim_end(x).len() > 0 ==> trim_end(x)[0] == x[0],
        trim_end(x).len() > 0 ==> !is_whitespace(trim_end(x).last()),
    decreases x.len(),
{
    if x.len() > 0 && is_whitespace(x.last()) {
        lemma_trim_end_front(x.drop_last());
    }
}

/// A trimmed text that is not empty has no white space at either end.
proof fn lemma_trim_ends(x: Seq<char>)
    ensures
        trim(x).len() > 0 ==> !is_whitespace(trim(x)[0]) && !is_whitespace(trim(x).last()),
{
    lemma_trim_start_front(x);
    lemma_trim_end_front(trim_start(x));
}

/// Every key comes from a piece, and is a clean key when no piece holds a comma.
proof fn lemma_keys_clean(pieces: Seq<Seq<char>>)
    requires
        forall|i: int| 0 <= i < pieces.len() ==> !(#[trigger] pieces[i]).contains(','),
    ensures
        forall|i: int| 0 <= i < keys_of(pieces).len() ==> is_clean_key(#[trigger] keys_of(pieces)[i]),
    decreases pieces.len(),
{
    if pieces.len() > 0 {
        lemma_keys_clean(pieces.drop_last());
        assert(!pieces[pieces.len() - 1].contains(','));
        lemma_trim_keeps_out(pieces.last(), ',');
        lemma_trim_ends(pieces.last());
        let rest = keys_of(pieces.drop_last());
        let key = trim(pieces.last());
        if key.len() > 0 {
            assert(is_clean_key(key));
            assert forall|i: int| 0 <= i < rest.push(key).len() implies is_clean_key(
                #[trigger] rest.push(key)[i],
            ) by {
                if i < rest.len() {
                    assert(rest.push(key)[i] == rest[i]);
                }
            }
        }
    }
}

/// Every key that a list of API keys yields is usable: it is not empty, holds
/// no comma and has no white space at either end.
pub proof fn lemma_api_keys_are_clean(s: Seq<char>)
    ensures
        forall|i: int| 0 <= i < api_keys_of(s).len() ==> is_clean_key(#[trigger] api_keys_of(s)[i]),
{
    lemma_split_pieces_lack_separator(s, ',');
    lemma_keys_clean(split_on(s, ','));
}

/// Text without the separator is a single piece.
proof fn lemma_split_without_separator(s: Seq<char>, sep: char)
    requires
        !s.contains(sep),
    ensures
        split_on(s, sep) == seq![s],
    decreases s.len(),
{
    if s.len() > 0 {
        assert(!s.drop_last().contains(sep)) by {
            assert forall|j: int| 0 <= j < s.drop_last().len() implies s.drop_last()[j] != sep by {
                assert(s.drop_last()[j] == s[j]);
            }
        }
        lemma_split_without_separator(s.drop_last(), sep);
        assert(s.last() == s[s.len() - 1]);
        assert(s[s.len() - 1] != sep);
        assert(s.drop_last().push(s.last()) =~= s);
        assert(seq![s.drop_last()].update(0, s.drop_last().push(s.last())) =~= seq![s]);
    } else {
        assert(s =~= Seq::<char>::empty());
    }
}

/// Splitting at a separator between two texts splits each text on its own.
proof fn lemma_split_concat(a: Seq<char>, b: Seq<char>, sep: char)
    ensures
        split_on(a + seq![sep] + b, sep) == split_on(a, sep) + split_on(b, sep),
    decreases b.len(),
{
    let s = a + seq![sep] + b;
    if b.len() == 0 {
        assert(s.drop_last() =~= a);
        assert(split_on(a, sep).push(Seq::empty()) =~= split_on(a, sep) + split_on(b, sep));
    } else {
        assert(s.drop_last() =~= a + seq![sep] + b.drop_last());
        lemma_split_concat(a, b.drop_last(), sep);
        lemma_split_pieces_lack_separator(b.drop_last(), sep);
        let x = split_on(a, sep);
        let y = split_on(b.drop_last(), sep);
        assert(s.last() == b.last());
        if b.last() == sep {
            assert((x + y).push(Seq::empty()) =~= x + y.push(Seq::empty()));
        } else {
            assert((x + y).last() == y.last());
            assert((x + y).update((x + y).len() - 1, (x + y).last().push(b.last())) =~= x + y.update(
                y.len() - 1,
                y.last().push(b.last()),
            ));
        }
    }
}

/// The keys of two runs of pieces are the keys of each, in order.
proof fn lemma_keys_concat(x: Seq<Seq<char>>, y: Seq<Seq<char>>)
    ensures
        keys_of(x + y) == keys_of(x) + keys_of(y),
    decreases y.len(),
{
    if y.len() == 0 {
        assert(x + y =~= x);
        assert(keys_of(x) + keys_of(y) =~= keys_of(x));
    } else {
        assert((x + y).drop_last() =~= x + y.drop_last());
        lemma_keys_concat(x, y.drop_last());
        assert((x + y).last() == y.last());
        let k = trim(y.last());
        if k.len() > 0 {
            assert((keys_of(x) + keys_of(y.drop_last())).push(k) =~= keys_of(x) + keys_of(
                y.drop_last(),
            ).push(k));
        }
    }
}

/// A list of keys reads entry by entry: an entry without a comma gives its
/// trimmed text as one key, or nothing when that is empty; and two lists joined
/// by a comma give the keys of the first followed by those of the second.
pub proof fn lemma_api_keys_by_entry(a: Seq<char>, b: Seq<char>)
    ensures
        !a.contains(',') ==> api_keys_of(a) == if trim(a).len() > 0 {
            seq![trim(a)]
        } else {
            Seq::empty()
        },
        api_keys_of(a + ","@ + b) == api_keys_of(a) + api_keys_of(b),
{
    if !a.contains(',') {
        lemma_split_without_separator(a, ',');
        assert(seq![a].drop_last() =~= Seq::<Seq<char>>::empty());
        assert(seq![a].last() == a);
        assert(keys_of(Seq::<Seq<char>>::empty()) == Seq::<Seq<char>>::empty());
        if trim(a).len() > 0 {
            assert(Seq::<Seq<char>>::empty().push(trim(a)) =~= seq![trim(a)]);
        }
    }
    reveal_strlit(",");
    assert(","@ =~= seq![',']);
    lemma_split_concat(a, b, ',');
    lemma_keys_concat(split_on(a, ','), split_on(b, ','));
}

/// The views of a sequence of strings.
pub open spec fn strings_view(v: Seq<String>) -> Seq<Seq<char>> {
    v.map_values(|s: String| s@)
}

/// Adds the trimmed `piece` to `keys` unless it is empty.
fn push_key(keys: &mut Vec<String>, piece: &str)
    ensures
        strings_view(final(keys)@) == if trim(piece@).len() > 0 {
            strings_view(old(keys)@).push(trim(piece@))
        } else {
            strings_view(old(keys)@)
        },
{
    let key = trim_str(piece);
    if !key.is_empty() {
        let ghost before = keys@;
        keys.push(key.to_owned());
        assert(strings_view(keys@) =~= strings_view(before).push(trim(piece@)));
    }
}

/// Parses a comma-separated list of API keys.
pub fn parse_api_keys(s: &str) -> (keys: Vec<String>)
    ensures
        strings_view(keys@) == api_keys_of(s@),
{
    let n = s.unicode_len();
    let mut keys: Vec<String> = Vec::new();
    let mut start: usize = 0;
    let mut k: usize = 0;
    let ghost mut done: Seq<Seq<char>> = Seq::empty();
    assert(s@.take(0) =~= Seq::<char>::empty());
    assert(split_on(s@.take(0), ',') =~= done.push(s@.subrange(0, 0)));
    for c in it: s.chars()
        invariant
            n == s@.len(),
            k == it.index(),
            it.seq() == s@,
            start <= k <= n,
            split_on(s@.take(k as int), ',') =~= done.push(s@.subrange(start as int, k as int)),
            strings_view(keys@) == keys_of(done),
    {
        let ghost prefix = s@.take(k as int);
        assert(s@.take(k + 1).drop_last() =~= prefix);
        assert(s@.take(k + 1).last() == c);
        if c == ',' {
            let piece = s.substring_char(start, k);
            push_key(&mut keys, piece);
            proof {
                assert(done.push(piece@).drop_last() =~= done);
                done = done.push(piece@);
                assert(s@.subrange(k + 1, k + 1) =~= Seq::<char>::empty());
            }
            start = k + 1;
        } else {
            proof {
                assert(s@.subrange(start as int, k + 1) =~= s@.subrange(start as int, k as int).push(c));
            }
        }
        k = k + 1;
    }
    assert(s@.take(n as int) =~= s@);
    let piece = s.substring_char(start, n);
    push_key(&mut keys, piece);
    assert(done.push(piece@).drop_last() =~= done);
    keys
}

/// Settings of the gateway, read from its environment.
pub struct AppConfig {
    /// The address to listen on.
    pub bind: String,
    /// The API keys that callers of the gateway may present.
    pub gateway_api_keys: Vec<String>,
    pub google_ai_studio_api_key: Option<String>,
    pub groq_api_key: Option<String>,
    pub openrouter_api_key: Option<String>,
}

impl AppConfig {
    /// Builds the settings from the values of the environment variables
    /// (`None` where a variable is not set): the bind address defaults to
    /// `0.0.0.0:8080`, and the gateway's keys are a comma-separated list.
    pub fn from_vars(
        bind: Option<String>,
        gateway_api_keys: Option<String>,
        google_ai_studio_api_key: Option<String>,
        groq_api_key: Option<String>,
        openrouter_api_key: Option<String>,
    ) -> (config: AppConfig)
        ensures
            config.bind@ == match bind {
                Some(b) => b@,
                None => "0.0.0.0:8080"@,
            },
            strings_view(config.gateway_api_keys@) == match gateway_api_keys {
                Some(s) => api_keys_of(s@),
                None => Seq::empty(),
            },
            config.google_ai_studio_api_key == google_ai_studio_api_key,
            config.groq_api_key == groq_api_key,
            config.openrouter_api_key == openrouter_api_key,
    {
        let bind = match bind {
            Some(b) => b,
            None => "0.0.0.0:8080".to_owned(),
        };
        let keys = match gateway_api_keys {
            Some(s) => parse_api_keys(s.as_str()),
            None => {
                let v: Vec<String> = Vec::new();
                assert(strings_view(v@) =~= Seq::<Seq<char>>::empty());
                v
            },
        };
        AppConfig {
            bind,
            gateway_api_keys: keys,
            google_ai_studio_api_key,
            groq_api_key,
            openrouter_api_key,
        }
    }
}

} // verus!
