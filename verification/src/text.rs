use vstd::prelude::*;

verus! {

broadcast use vstd::string::group_string_axioms;

/// `c` first occurs in `s` at position `i`.
pub open spec fn first_at(s: Seq<char>, c: char, i: int) -> bool {
    &&& 0 <= i < s.len()
    &&& s[i] == c
    &&& forall|j: int| 0 <= j < i ==> s[j] != c
}

/// Position of the first occurrence of `c` in `s`.
pub open spec fn first_index_of(s: Seq<char>, c: char) -> Option<int> {
    if s.contains(c) {
        Some(choose|i: int| first_at(s, c, i))
    } else {
        None
    }
}

/// The first occurrence is unique, so it is what `first_index_of` picks.
pub proof fn lemma_first_at_unique(s: Seq<char>, c: char, i: int)
    requires
        first_at(s, c, i),
    ensures
        first_index_of(s, c) == Some(i),
{
    assert(s.contains(c));
    let j = choose|j: int| first_at(s, c, j);
    assert(first_at(s, c, j));
    if j < i {
        assert(s[j] != c);
    } else if i < j {
        assert(s[i] != c);
    }
}

/// Where `c` occurs at `i`, some occurrence at or before `i` is the first.
proof fn lemma_first_at_exists(s: Seq<char>, c: char, i: int)
    requires
        0 <= i < s.len(),
        s[i] == c,
    ensures
        exists|j: int| first_at(s, c, j),
    decreases i,
{
    if forall|j: int| 0 <= j < i ==> s[j] != c {
        assert(first_at(s, c, i));
    } else {
        let j = choose|j: int| 0 <= j < i && s[j] == c;
        lemma_first_at_exists(s, c, j);
    }
}

/// When `c` occurs in `s`, `first_index_of` gives its first occurrence.
pub proof fn lemma_first_index_found(s: Seq<char>, c: char)
    requires
        s.contains(c),
    ensures
        first_index_of(s, c) matches Some(k) && first_at(s, c, k),
{
    let i = choose|i: int| 0 <= i < s.len() && s[i] == c;
    lemma_first_at_exists(s, c, i);
}

/// Finds the first occurrence of `c` in `s`, counted in characters.
pub fn find_char(s: &str, c: char) -> (res: Option<usize>)
    ensures
        match res {
            Some(k) => first_at(s@, c, k as int) && first_index_of(s@, c) == Some(k as int),
            None => first_index_of(s@, c) is None,
        },
{
    let n = s.unicode_len();
    let mut k: usize = 0;
    for x in it: s.chars()
        invariant
            n == s@.len(),
            k == it.index(),
            it.seq() == s@,
            forall|j: int| 0 <= j < k ==> s@[j] != c,
    {
        if x == c {
            proof { lemma_first_at_unique(s@, c, k as int); }
            return Some(k);
        }
        k = k + 1;
    }
    None
}

/// `p` is a prefix of `s`.
pub open spec fn is_prefix(p: Seq<char>, s: Seq<char>) -> bool {
    p.len() <= s.len() && s.take(p.len() as int) == p
}

/// `p` is a suffix of `s`.
pub open spec fn is_suffix(p: Seq<char>, s: Seq<char>) -> bool {
    p.len() <= s.len() && s.skip(s.len() - p.len()) == p
}

/// `s` with every trailing occurrence of the non-empty pattern `p` removed, repeatedly.
pub open spec fn strip_suffix_all(s: Seq<char>, p: Seq<char>) -> Seq<char>
    decreases s.len(),
{
    if p.len() > 0 && is_suffix(p, s) {
        strip_suffix_all(s.take(s.len() - p.len()), p)
    } else {
        s
    }
}

/// `r` is made of copies of `p` and nothing else.
pub open spec fn copies_of(r: Seq<char>, p: Seq<char>) -> bool
    decreases r.len(),
{
    if r.len() == 0 {
        true
    } else if p.len() > 0 && is_suffix(p, r) {
        copies_of(r.take(r.len() - p.len()), p)
    } else {
        false
    }
}

/// Stripping every trailing `p` leaves a prefix of `s` that no longer ends in
/// `p`, and what was removed is copies of `p`.
pub proof fn lemma_strip_suffix_all_shape(s: Seq<char>, p: Seq<char>)
    requires
        p.len() > 0,
    ensures
        is_prefix(strip_suffix_all(s, p), s),
        !is_suffix(p, strip_suffix_all(s, p)),
        copies_of(s.skip(strip_suffix_all(s, p).len() as int), p),
    decreases s.len(),
{
    let m = strip_suffix_all(s, p);
    if is_suffix(p, s) {
        let shorter = s.take(s.len() - p.len());
        lemma_strip_suffix_all_shape(shorter, p);
        assert(s.take(m.len() as int) =~= shorter.take(m.len() as int));
        let r = s.skip(m.len() as int);
        assert(r.skip(r.len() - p.len()) =~= s.skip(s.len() - p.len()));
        assert(r.take(r.len() - p.len()) =~= shorter.skip(m.len() as int));
    } else {
        assert(s.take(s.len() as int) =~= s);
        assert(s.skip(s.len() as int) =~= Seq::<char>::empty());
    }
}

/// Whether `p` occurs in `s` starting at character position `start`.
pub fn matches_at(s: &str, s_len: usize, start: usize, p: &str) -> (res: bool)
    requires
        s_len == s@.len(),
        start <= s_len,
    ensures
        res == (start + p@.len() <= s@.len() && s@.subrange(start as int, start + p@.len()) == p@),
{
    let p_len = p.unicode_len();
    if p_len > s_len - start {
        return false;
    }
    let mut i: usize = 0;
    while i < p_len
        invariant
            s_len == s@.len(),
            p_len == p@.len(),
            start + p_len <= s_len,
            i <= p_len,
            forall|j: int| 0 <= j < i ==> s@[start + j] == p@[j],
        decreases p_len - i,
    {
        if s.get_char(start + i) != p.get_char(i) {
            assert(s@.subrange(start as int, start + p@.len())[i as int] != p@[i as int]);
            return false;
        }
        i = i + 1;
    }
    assert(s@.subrange(start as int, start + p@.len()) =~= p@);
    true
}

/// Whether `s` starts with `p`.
pub fn starts_with(s: &str, s_len: usize, p: &str) -> (res: bool)
    requires
        s_len == s@.len(),
    ensures
        res == is_prefix(p@, s@),
{
    let res = matches_at(s, s_len, 0, p);
    proof {
        if p@.len() <= s@.len() {
            assert(s@.subrange(0, p@.len() as int) =~= s@.take(p@.len() as int));
        }
    }
    res
}

/// Whether `s` ends with `p`.
pub fn ends_with(s: &str, s_len: usize, p: &str) -> (res: bool)
    requires
        s_len == s@.len(),
    ensures
        res == is_suffix(p@, s@),
{
    let p_len = p.unicode_len();
    if p_len > s_len {
        return false;
    }
    let res = matches_at(s, s_len, s_len - p_len, p);
    assert(s@.subrange(s_len - p_len, s_len as int) =~= s@.skip(s_len - p_len));
    res
}

/// `s` with every trailing occurrence of the non-empty pattern `p` removed
/// (what `str::trim_end_matches` does with a string pattern that cannot
/// overlap itself).
pub fn strip_suffix_all_str<'a>(s: &'a str, p: &str) -> (res: &'a str)
    requires
        p@.len() > 0,
    ensures
        res@ == strip_suffix_all(s@, p@),
{
    let p_len = p.unicode_len();
    let s_len = s.unicode_len();
    let mut end = s_len;
    assert(s@.take(s_len as int) =~= s@);
    while p_len <= end && matches_at(s, s_len, end - p_len, p)
        invariant
            p_len == p@.len(),
            p_len > 0,
            s_len == s@.len(),
            end <= s_len,
            strip_suffix_all(s@.take(end as int), p@) == strip_suffix_all(s@, p@),
        decreases end,
    {
        let ghost cur = s@.take(end as int);
        assert(cur.skip(end - p_len) =~= s@.subrange(end - p_len, end as int));
        assert(cur.take(end - p_len) =~= s@.take(end - p_len));
        end = end - p_len;
    }
    proof {
        let cur = s@.take(end as int);
        if p_len <= end {
            assert(cur.skip(end - p_len) =~= s@.subrange(end - p_len, end as int));
        }
    }
    s.substring_char(0, end)
}

/// Unicode's White_Space property, which `char::is_whitespace` tests.
pub open spec fn is_whitespace(c: char) -> bool {
    let n = c as u32;
    ||| 0x9 <= n <= 0xD
    ||| n == 0x20
    ||| n == 0x85
    ||| n == 0xA0
    ||| n == 0x1680
    ||| 0x2000 <= n <= 0x200A
    ||| n == 0x2028
    ||| n == 0x2029
    ||| n == 0x202F
    ||| n == 0x205F
    ||| n == 0x3000
}

/// Whether `c` is Unicode white space.
pub fn is_whitespace_char(c: char) -> (res: bool)
    ensures
        res == is_whitespace(c),
{
    let n = c as u32;
    (0x9 <= n && n <= 0xD) || n == 0x20 || n == 0x85 || n == 0xA0 || n == 0x1680 || (0x2000 <= n
        && n <= 0x200A) || n == 0x2028 || n == 0x2029 || n == 0x202F || n == 0x205F || n == 0x3000
}

/// `s` without its leading white space.
pub open spec fn trim_start(s: Seq<char>) -> Seq<char>
    decreases s.len(),
{
    if s.len() > 0 && is_whitespace(s[0]) {
        trim_start(s.drop_first())
    } else {
        s
    }
}

/// `s` without its trailing white space.
pub open spec fn trim_end(s: Seq<char>) -> Seq<char>
    decreases s.len(),
{
    if s.len() > 0 && is_whitespace(s.last()) {
        trim_end(s.drop_last())
    } else {
        s
    }
}

/// `s` without leading and trailing white space.
pub open spec fn trim(s: Seq<char>) -> Seq<char> {
    trim_end(trim_start(s))
}

/// `s` without leading and trailing white space (what `str::trim` does).
pub fn trim_str(s: &str) -> (res: &str)
    ensures
        res@ == trim(s@),
{
    let n = s.unicode_len();
    let mut a: usize = 0;
    assert(s@.skip(0) =~= s@);
    while a < n && is_whitespace_char(s.get_char(a))
        invariant
            n == s@.len(),
            a <= n,
            trim_start(s@) == trim_start(s@.skip(a as int)),
        decreases n - a,
    {
        assert(s@.skip(a as int).drop_first() =~= s@.skip(a + 1));
        a = a + 1;
    }
    assert(trim_start(s@) == s@.skip(a as int));
    let mut b: usize = n;
    assert(s@.skip(a as int) =~= s@.subrange(a as int, n as int));
    while b > a && is_whitespace_char(s.get_char(b - 1))
        invariant
            n == s@.len(),
            a <= b <= n,
            trim(s@) == trim_end(s@.subrange(a as int, b as int)),
        decreases b,
    {
        assert(s@.subrange(a as int, b as int).drop_last() =~= s@.subrange(a as int, b - 1));
        b = b - 1;
    }
    s.substring_char(a, b)
}

} // verus!
