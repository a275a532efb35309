//! Character-level utilities shared by the parsers: whitespace
//! classification, trimming, substring search, line and word splitting,
//! ASCII case mapping, and decimal conversion.
use vstd::prelude::*;
use vstd::slice::{slice_subrange, slice_to_vec};

verus! {

// ---------------------------------------------------------------------------
// Character predicates
// ---------------------------------------------------------------------------
/// The characters of the Unicode `White_Space` property, the set that
/// `char::is_whitespace` accepts.
pub open spec fn is_space_spec(c: char) -> bool {
    c == ' ' || c == '\t' || c == '\n' || c == '\r' || c == '\u{b}' || c == '\u{c}' || c
        == '\u{85}' || c == '\u{a0}' || c == '\u{1680}' || ('\u{2000}' <= c && c <= '\u{200a}') || c
        == '\u{2028}' || c == '\u{2029}' || c == '\u{202f}' || c == '\u{205f}' || c == '\u{3000}'
}

/// Whitespace test over the Unicode `White_Space` set.
pub fn is_space(c: char) -> (r: bool)
    ensures
        r == is_space_spec(c),
{
    c == ' ' || c == '\t' || c == '\n' || c == '\r' || c == '\u{b}' || c == '\u{c}' || c
        == '\u{85}' || c == '\u{a0}' || c == '\u{1680}' || ('\u{2000}' <= c && c <= '\u{200a}') || c
        == '\u{2028}' || c == '\u{2029}' || c == '\u{202f}' || c == '\u{205f}' || c == '\u{3000}'
}

/// The characters stripped from both ends of a parsed key or value:
/// space, equals, double quote, tab and newline.
pub open spec fn is_kv_trim_spec(c: char) -> bool {
    c == ' ' || c == '=' || c == '"' || c == '\t' || c == '\n'
}

pub fn is_kv_trim(c: char) -> (r: bool)
    ensures
        r == is_kv_trim_spec(c),
{
    c == ' ' || c == '=' || c == '"' || c == '\t' || c == '\n'
}

/// The characters stripped from an extracted token: space, equals and
/// double quote.
pub open spec fn is_token_trim_spec(c: char) -> bool {
    c == ' ' || c == '=' || c == '"'
}

pub fn is_token_trim(c: char) -> (r: bool)
    ensures
        r == is_token_trim_spec(c),
{
    c == ' ' || c == '=' || c == '"'
}

pub open spec fn space_pred() -> spec_fn(char) -> bool {
    |c: char| is_space_spec(c)
}

pub open spec fn kv_trim_pred() -> spec_fn(char) -> bool {
    |c: char| is_kv_trim_spec(c)
}

pub open spec fn token_trim_pred() -> spec_fn(char) -> bool {
    |c: char| is_token_trim_spec(c)
}

// ---------------------------------------------------------------------------
// Trimming
// ---------------------------------------------------------------------------
/// The sequence with its longest prefix of characters satisfying `p` removed.
pub open spec fn trim_front_spec(s: Seq<char>, p: spec_fn(char) -> bool) -> Seq<char>
    decreases s.len(),
{
    if s.len() > 0 && p(s[0]) {
        trim_front_spec(s.drop_first(), p)
    } else {
        s
    }
}

/// The sequence with its longest suffix of characters satisfying `p` removed.
pub open spec fn trim_back_spec(s: Seq<char>, p: spec_fn(char) -> bool) -> Seq<char>
    decreases s.len(),
{
    if s.len() > 0 && p(s.last()) {
        trim_back_spec(s.drop_last(), p)
    } else {
        s
    }
}

/// The sequence trimmed of characters satisfying `p` at both ends.
pub open spec fn trim_spec(s: Seq<char>, p: spec_fn(char) -> bool) -> Seq<char> {
    trim_back_spec(trim_front_spec(s, p), p)
}

pub proof fn lemma_trim_front_exact(s: Seq<char>, p: spec_fn(char) -> bool, i: int)
    requires
        0 <= i <= s.len(),
        forall|j: int| 0 <= j < i ==> p(s[j]),
        i < s.len() ==> !p(s[i]),
    ensures
        trim_front_spec(s, p) == s.subrange(i, s.len() as int),
    decreases i,
{
    if i == 0 {
        assert(s.subrange(0, s.len() as int) =~= s);
    } else {
        let t = s.drop_first();
        lemma_trim_front_exact(t, p, i - 1);
        assert(t.subrange(i - 1, t.len() as int) =~= s.subrange(i, s.len() as int));
    }
}

pub proof fn lemma_trim_back_exact(s: Seq<char>, p: spec_fn(char) -> bool, i: int)
    requires
        0 <= i <= s.len(),
        forall|j: int| i <= j < s.len() ==> p(s[j]),
        i > 0 ==> !p(s[i - 1]),
    ensures
        trim_back_spec(s, p) == s.subrange(0, i),
    decreases s.len() - i,
{
    if i == s.len() {
        assert(s.subrange(0, s.len() as int) =~= s);
    } else {
        let t = s.drop_last();
        lemma_trim_back_exact(t, p, i);
        assert(t.subrange(0, i) =~= s.subrange(0, i));
    }
}

/// Trim characters of the Unicode `White_Space` set from both ends.
pub fn trim_space(s: &[char]) -> (r: Vec<char>)
    ensures
        r@ == trim_spec(s@, space_pred()),
{
    let mut start: usize = 0;
    while start < s.len() && is_space(s[start])
        invariant
            0 <= start <= s@.len(),
            forall|j: int| 0 <= j < start ==> is_space_spec(s@[j]),
        decreases s@.len() - start,
    {
        start = start + 1;
    }
    let mut end: usize = s.len();
    while end > start && is_space(s[end - 1])
        invariant
            start <= end <= s@.len(),
            forall|j: int| end <= j < s@.len() ==> is_space_spec(s@[j]),
        decreases end,
    {
        end = end - 1;
    }
    let sub = slice_subrange(s, start, end);
    let r = slice_to_vec(sub);
    proof {
        let p = space_pred();
        lemma_trim_front_exact(s@, p, start as int);
        let t = s@.subrange(start as int, s@.len() as int);
        lemma_trim_back_exact(t, p, end - start);
        assert(t.subrange(0, end - start) =~= s@.subrange(start as int, end as int));
    }
    r
}

/// Trim characters of the key/value set from both ends.
pub fn trim_kv(s: &[char]) -> (r: Vec<char>)
    ensures
        r@ == trim_spec(s@, kv_trim_pred()),
{
    let mut start: usize = 0;
    while start < s.len() && is_kv_trim(s[start])
        invariant
            0 <= start <= s@.len(),
            forall|j: int| 0 <= j < start ==> is_kv_trim_spec(s@[j]),
        decreases s@.len() - start,
    {
        start = start + 1;
    }
    let mut end: usize = s.len();
    while end > start && is_kv_trim(s[end - 1])
        invariant
            start <= end <= s@.len(),
            forall|j: int| end <= j < s@.len() ==> is_kv_trim_spec(s@[j]),
        decreases end,
    {
        end = end - 1;
    }
    let sub = slice_subrange(s, start, end);
    let r = slice_to_vec(sub);
    proof {
        let p = kv_trim_pred();
        lemma_trim_front_exact(s@, p, start as int);
        let t = s@.subrange(start as int, s@.len() as int);
        lemma_trim_back_exact(t, p, end - start);
        assert(t.subrange(0, end - start) =~= s@.subrange(start as int, end as int));
    }
    r
}

/// Trim characters of the token set from both ends.
pub fn trim_token(s: &[char]) -> (r: Vec<char>)
    ensures
        r@ == trim_spec(s@, token_trim_pred()),
{
    let mut start: usize = 0;
    while start < s.len() && is_token_trim(s[start])
        invariant
            0 <= start <= s@.len(),
            forall|j: int| 0 <= j < start ==> is_token_trim_spec(s@[j]),
        decreases s@.len() - start,
    {
        start = start + 1;
    }
    let mut end: usize = s.len();
    while end > start && is_token_trim(s[end - 1])
        invariant
            start <= end <= s@.len(),
            forall|j: int| end <= j < s@.len() ==> is_token_trim_spec(s@[j]),
        decreases end,
    {
        end = end - 1;
    }
    let sub = slice_subrange(s, start, end);
    let r = slice_to_vec(sub);
    proof {
        let p = token_trim_pred();
        lemma_trim_front_exact(s@, p, start as int);
        let t = s@.subrange(start as int, s@.len() as int);
        lemma_trim_back_exact(t, p, end - start);
        assert(t.subrange(0, end - start) =~= s@.subrange(start as int, end as int));
    }
    r
}

// ---------------------------------------------------------------------------
// Slice comparison and substring search
// ---------------------------------------------------------------------------
/// Character-for-character equality of two slices.
pub fn slice_eq(a: &[char], b: &[char]) -> (r: bool)
    ensures
        r == (a@ == b@),
{
    if a.len() != b.len() {
        return false;
    }
    let mut i: usize = 0;
    while i < a.len()
        invariant
            0 <= i <= a@.len(),
            a@.len() == b@.len(),
            forall|j: int| 0 <= j < i ==> a@[j] == b@[j],
        decreases a@.len() - i,
    {
        if a[i] != b[i] {
            return false;
        }
        i = i + 1;
    }
    proof {
        assert(a@ =~= b@);
    }
    true
}

/// `sub` occurs in `s` starting at index `i`.
pub open spec fn matches_at(s: Seq<char>, sub: Seq<char>, i: int) -> bool {
    0 <= i && i + sub.len() <= s.len() && s.subrange(i, i + sub.len() as int) == sub
}

/// Index of the first occurrence of `sub` in `s`, if any; the empty
/// pattern is found at index zero.
pub open spec fn find_sub_spec(s: Seq<char>, sub: Seq<char>) -> Option<int>
    decreases s.len(),
{
    if sub.len() <= s.len() && s.subrange(0, sub.len() as int) == sub {
        Some(0)
    } else if s.len() == 0 {
        None
    } else {
        match find_sub_spec(s.drop_first(), sub) {
            Some(i) => Some(i + 1),
            None => None,
        }
    }
}

/// `s` holds `sub` somewhere.
pub open spec fn has_sub(s: Seq<char>, sub: Seq<char>) -> bool {
    find_sub_spec(s, sub) is Some
}

proof fn lemma_find_sub_too_long(s: Seq<char>, sub: Seq<char>)
    requires
        sub.len() > s.len(),
    ensures
        find_sub_spec(s, sub) is None,
    decreases s.len(),
{
    if s.len() > 0 {
        lemma_find_sub_too_long(s.drop_first(), sub);
    }
}

/// What `find_sub_spec` returns: the least index where `sub` occurs.
pub proof fn lemma_find_sub_props(s: Seq<char>, sub: Seq<char>)
    ensures
        match find_sub_spec(s, sub) {
            Some(i) => matches_at(s, sub, i) && (forall|j: int|
                0 <= j < i ==> !matches_at(s, sub, j)),
            None => forall|j: int| !matches_at(s, sub, j),
        },
    decreases s.len(),
{
    if sub.len() <= s.len() && s.subrange(0, sub.len() as int) == sub {
    } else if s.len() == 0 {
        assert forall|j: int| !matches_at(s, sub, j) by {
            if matches_at(s, sub, j) {
                assert(s.subrange(j, j + sub.len() as int) == sub);
            }
        }
    } else {
        let t = s.drop_first();
        lemma_find_sub_props(t, sub);
        assert forall|j: int| 1 <= j implies (matches_at(s, sub, j) == matches_at(t, sub, j - 1)) by {
            if 1 <= j && j + sub.len() <= s.len() {
                assert(s.subrange(j, j + sub.len() as int) =~= t.subrange(
                    j - 1,
                    j - 1 + sub.len() as int,
                ));
            }
        }
        assert(!matches_at(s, sub, 0));
    }
}

/// Find the first occurrence of `sub` in `s`.
pub fn find_sub(s: &[char], sub: &[char]) -> (r: Option<usize>)
    ensures
        match r {
            Some(i) => find_sub_spec(s@, sub@) == Some(i as int),
            None => find_sub_spec(s@, sub@) is None,
        },
{
    if sub.len() > s.len() {
        proof {
            lemma_find_sub_too_long(s@, sub@);
        }
        return None;
    }
    if sub.len() == 0 {
        proof {
            assert(s@.subrange(0, 0) =~= sub@);
        }
        return Some(0);
    }
    let bound = s.len() - sub.len();
    let mut i: usize = 0;
    proof {
        assert(s@.subrange(0, s@.len() as int) =~= s@);
    }
    while i <= bound
        invariant
            1 <= sub@.len() <= s@.len(),
            s@.len() <= usize::MAX,
            bound == s@.len() - sub@.len(),
            0 <= i <= bound + 1,
            match find_sub_spec(s@.subrange(i as int, s@.len() as int), sub@) {
                Some(k) => find_sub_spec(s@, sub@) == Some(i + k),
                None => find_sub_spec(s@, sub@) is None,
            },
        decreases bound + 1 - i,
    {
        let window = slice_subrange(s, i, i + sub.len());
        if slice_eq(window, sub) {
            proof {
                let rest = s@.subrange(i as int, s@.len() as int);
                assert(rest.subrange(0, sub@.len() as int) =~= s@.subrange(
                    i as int,
                    i + sub@.len() as int,
                ));
            }
            return Some(i);
        }
        proof {
            let rest = s@.subrange(i as int, s@.len() as int);
            assert(rest.subrange(0, sub@.len() as int) =~= s@.subrange(
                i as int,
                i + sub@.len() as int,
            ));
            if sub@.len() == 0 {
                assert(rest.subrange(0, 0) =~= sub@);
            }
            assert(rest.len() > 0);
            assert(rest.drop_first() =~= s@.subrange(i + 1, s@.len() as int));
        }
        i = i + 1;
    }
    proof {
        lemma_find_sub_too_long(s@.subrange(i as int, s@.len() as int), sub@);
    }
    None
}

/// `sub` occurs somewhere in `s`.
pub fn contains_sub(s: &[char], sub: &[char]) -> (r: bool)
    ensures
        r == has_sub(s@, sub@),
{
    match find_sub(s, sub) {
        Some(_) => true,
        None => false,
    }
}

/// `p` is a prefix of `s`.
pub open spec fn starts_with_spec(s: Seq<char>, p: Seq<char>) -> bool {
    p.len() <= s.len() && s.subrange(0, p.len() as int) == p
}

pub fn starts_with(s: &[char], p: &[char]) -> (r: bool)
    ensures
        r == starts_with_spec(s@, p@),
{
    if p.len() > s.len() {
        return false;
    }
    let head = slice_subrange(s, 0, p.len());
    slice_eq(head, p)
}

// ---------------------------------------------------------------------------
// Splitting into pieces, lines and words
// ---------------------------------------------------------------------------
/// The pieces of `s` between occurrences of `d`: one more piece than
/// there are occurrences, empty pieces kept.
pub open spec fn split_on_spec(s: Seq<char>, d: char) -> Seq<Seq<char>>
    decreases s.len(),
{
    if s.len() == 0 {
        seq![Seq::<char>::empty()]
    } else if s.last() == d {
        split_on_spec(s.drop_last(), d).push(Seq::<char>::empty())
    } else {
        let sp = split_on_spec(s.drop_last(), d);
        sp.update(sp.len() - 1, sp.last().push(s.last()))
    }
}

pub proof fn lemma_split_on_len(s: Seq<char>, d: char)
    ensures
        split_on_spec(s, d).len() >= 1,
    decreases s.len(),
{
    if s.len() > 0 {
        lemma_split_on_len(s.drop_last(), d);
    }
}

/// A line with one trailing carriage return removed.
pub open spec fn strip_cr_spec(l: Seq<char>) -> Seq<char> {
    if l.len() > 0 && l.last() == '\r' {
        l.drop_last()
    } else {
        l
    }
}

/// The lines of `s` as Rust's `str::lines` yields them: split on `'\n'`,
/// one trailing `'\r'` stripped per line, and no final empty line when the
/// text ends with a newline.
pub open spec fn lines_spec(s: Seq<char>) -> Seq<Seq<char>> {
    if s.len() == 0 {
        Seq::<Seq<char>>::empty()
    } else {
        let t = if s.last() == '\n' {
            s.drop_last()
        } else {
            s
        };
        split_on_spec(t, '\n').map_values(|l: Seq<char>| strip_cr_spec(l))
    }
}

/// Split `s` at every occurrence of `d`, keeping empty pieces.
pub fn split_on(s: &[char], d: char) -> (r: Vec<Vec<char>>)
    ensures
        r@.len() == split_on_spec(s@, d).len(),
        forall|i: int| 0 <= i < r@.len() ==> r@[i]@ == split_on_spec(s@, d)[i],
{
    let mut pieces: Vec<Vec<char>> = Vec::new();
    let mut cur: Vec<char> = Vec::new();
    let mut i: usize = 0;
    proof {
        assert(s@.subrange(0, 0) =~= Seq::<char>::empty());
    }
    while i < s.len()
        invariant
            0 <= i <= s@.len(),
            split_on_spec(s@.subrange(0, i as int), d).len() == pieces@.len() + 1,
            forall|j: int|
                0 <= j < pieces@.len() ==> pieces@[j]@ == split_on_spec(s@.subrange(0, i as int), d)[j],
            cur@ == split_on_spec(s@.subrange(0, i as int), d).last(),
        decreases s@.len() - i,
    {
        proof {
            assert(s@.subrange(0, i + 1).drop_last() =~= s@.subrange(0, i as int));
            lemma_split_on_len(s@.subrange(0, i as int), d);
        }
        let c = s[i];
        if c == d {
            pieces.push(cur);
            cur = Vec::new();
        } else {
            cur.push(c);
        }
        i = i + 1;
    }
    proof {
        assert(s@.subrange(0, s@.len() as int) =~= s@);
    }
    pieces.push(cur);
    pieces
}

/// Split `s` into lines as `str::lines` does.
pub fn split_lines(s: &[char]) -> (r: Vec<Vec<char>>)
    ensures
        r@.len() == lines_spec(s@).len(),
        forall|i: int| 0 <= i < r@.len() ==> r@[i]@ == lines_spec(s@)[i],
{
    if s.len() == 0 {
        return Vec::new();
    }
    let t: &[char] = if s[s.len() - 1] == '\n' {
        slice_subrange(s, 0, s.len() - 1)
    } else {
        s
    };
    let pieces = split_on(t, '\n');
    let mut out: Vec<Vec<char>> = Vec::new();
    let mut j: usize = 0;
    while j < pieces.len()
        invariant
            0 <= j <= pieces@.len(),
            pieces@.len() == lines_spec(s@).len(),
            forall|k: int| 0 <= k < pieces@.len() ==> strip_cr_spec(pieces@[k]@) == lines_spec(s@)[k],
            out@.len() == j,
            forall|k: int| 0 <= k < j ==> out@[k]@ == lines_spec(s@)[k],
        decreases pieces@.len() - j,
    {
        let p: &Vec<char> = &pieces[j];
        let stripped: Vec<char> = if p.len() > 0 && p[p.len() - 1] == '\r' {
            slice_to_vec(slice_subrange(p.as_slice(), 0, p.len() - 1))
        } else {
            slice_to_vec(p.as_slice())
        };
        proof {
            if p@.len() > 0 && p@.last() == '\r' {
                assert(stripped@ =~= strip_cr_spec(p@));
            }
        }
        out.push(stripped);
        j = j + 1;
    }
    out
}

/// The whitespace-separated words of `s`, in order, without empties.
pub open spec fn words_spec(s: Seq<char>) -> Seq<Seq<char>>
    decreases s.len(),
{
    if s.len() == 0 {
        Seq::<Seq<char>>::empty()
    } else if is_space_spec(s.last()) {
        words_spec(s.drop_last())
    } else if s.len() >= 2 && !is_space_spec(s[s.len() - 2]) {
        let w = words_spec(s.drop_last());
        w.update(w.len() - 1, w.last().push(s.last()))
    } else {
        words_spec(s.drop_last()).push(seq![s.last()])
    }
}

/// Split `s` on runs of whitespace, as `str::split_whitespace` does.
pub fn words(s: &[char]) -> (r: Vec<Vec<char>>)
    ensures
        r@.len() == words_spec(s@).len(),
        forall|i: int| 0 <= i < r@.len() ==> r@[i]@ == words_spec(s@)[i],
{
    let mut out: Vec<Vec<char>> = Vec::new();
    let mut cur: Vec<char> = Vec::new();
    let mut i: usize = 0;
    proof {
        assert(s@.subrange(0, 0) =~= Seq::<char>::empty());
    }
    while i < s.len()
        invariant
            0 <= i <= s@.len(),
            cur@.len() > 0 <==> (i > 0 && !is_space_spec(s@[i - 1])),
            ({
                let w = words_spec(s@.subrange(0, i as int));
                if cur@.len() == 0 {
                    w.len() == out@.len() && (forall|j: int| 0 <= j < out@.len() ==> out@[j]@ == w[j])
                } else {
                    w.len() == out@.len() + 1 && (forall|j: int|
                        0 <= j < out@.len() ==> out@[j]@ == w[j]) && cur@ == w.last()
                }
            }),
        decreases s@.len() - i,
    {
        proof {
            assert(s@.subrange(0, i + 1).drop_last() =~= s@.subrange(0, i as int));
        }
        let c = s[i];
        if is_space(c) {
            if cur.len() > 0 {
                out.push(cur);
                cur = Vec::new();
            }
        } else {
            cur.push(c);
        }
        i = i + 1;
    }
    proof {
        assert(s@.subrange(0, s@.len() as int) =~= s@);
    }
    if cur.len() > 0 {
        out.push(cur);
    }
    out
}

// ---------------------------------------------------------------------------
// ASCII upper-casing
// ---------------------------------------------------------------------------
/// ASCII upper-casing of one character; everything else is unchanged.
pub open spec fn ascii_upper_spec(c: char) -> char {
    if 'a' <= c && c <= 'z' {
        ((c as u8) - 32) as char
    } else {
        c
    }
}

pub fn ascii_upper(c: char) -> (r: char)
    ensures
        r == ascii_upper_spec(c),
{
    if 'a' <= c && c <= 'z' {
        ((c as u8) - 32) as char
    } else {
        c
    }
}

/// The sequence with every character ASCII upper-cased.
pub open spec fn upper_ascii_seq(s: Seq<char>) -> Seq<char> {
    s.map_values(|c: char| ascii_upper_spec(c))
}

pub fn to_upper_ascii(s: &[char]) -> (r: Vec<char>)
    ensures
        r@ == upper_ascii_seq(s@),
{
    let mut out: Vec<char> = Vec::new();
    let mut i: usize = 0;
    while i < s.len()
        invariant
            0 <= i <= s@.len(),
            out@.len() == i,
            forall|j: int| 0 <= j < i ==> out@[j] == ascii_upper_spec(s@[j]),
        decreases s@.len() - i,
    {
        out.push(ascii_upper(s[i]));
        i = i + 1;
    }
    proof {
        assert(out@ =~= upper_ascii_seq(s@));
    }
    out
}

// ---------------------------------------------------------------------------
// Decimal numbers
// ---------------------------------------------------------------------------
pub open spec fn is_digit_spec(c: char) -> bool {
    '0' <= c && c <= '9'
}

pub open spec fn digit_val(c: char) -> nat {
    ((c as u32) - 48) as nat
}

pub open spec fn all_digits(s: Seq<char>) -> bool {
    forall|i: int| 0 <= i < s.len() ==> is_digit_spec(s[i])
}

/// The number a string of decimal digits denotes.
pub open spec fn digits_val(s: Seq<char>) -> nat
    decreases s.len(),
{
    if s.len() == 0 {
        0
    } else {
        digits_val(s.drop_last()) * 10 + digit_val(s.last())
    }
}

/// What `str::parse::<u64>` accepts: an optional leading `'+'`, then one
/// or more digits whose value fits in the type.
pub open spec fn parse_u64_spec(s: Seq<char>) -> Option<u64> {
    let t = if s.len() > 0 && s[0] == '+' {
        s.drop_first()
    } else {
        s
    };
    if t.len() > 0 && all_digits(t) && digits_val(t) <= u64::MAX {
        Some(digits_val(t) as u64)
    } else {
        None
    }
}

proof fn lemma_digits_val_prefix(s: Seq<char>, i: int)
    requires
        0 <= i <= s.len(),
    ensures
        digits_val(s.subrange(0, i)) <= digits_val(s),
    decreases s.len() - i,
{
    if i < s.len() {
        assert(s.subrange(0, i + 1).drop_last() =~= s.subrange(0, i));
        assert(digits_val(s.subrange(0, i)) <= digits_val(s.subrange(0, i + 1)));
        lemma_digits_val_prefix(s, i + 1);
    } else {
        assert(s.subrange(0, i) =~= s);
    }
}

/// Parse a decimal `u64`, as `str::parse::<u64>` does, `None` on any
/// malformed or overflowing input.
pub fn parse_u64(s: &[char]) -> (r: Option<u64>)
    ensures
        r == parse_u64_spec(s@),
{
    let t: &[char] = if s.len() > 0 && s[0] == '+' {
        slice_subrange(s, 1, s.len())
    } else {
        s
    };
    proof {
        if s@.len() > 0 && s@[0] == '+' {
            assert(s@.subrange(1, s@.len() as int) =~= s@.drop_first());
        }
    }
    if t.len() == 0 {
        return None;
    }
    let mut val: u64 = 0;
    let mut i: usize = 0;
    proof {
        assert(t@.subrange(0, 0) =~= Seq::<char>::empty());
    }
    while i < t.len()
        invariant
            0 <= i <= t@.len(),
            t@.len() > 0,
            t@ == (if s@.len() > 0 && s@[0] == '+' {
                s@.drop_first()
            } else {
                s@
            }),
            all_digits(t@.subrange(0, i as int)),
            val == digits_val(t@.subrange(0, i as int)),
        decreases t@.len() - i,
    {
        proof {
            assert(t@.subrange(0, i + 1).drop_last() =~= t@.subrange(0, i as int));
        }
        let c = t[i];
        if !('0' <= c && c <= '9') {
            proof {
                assert(!all_digits(t@)) by {
                    assert(0 <= i < t@.len() && !is_digit_spec(t@[i as int]));
                }
            }
            return None;
        }
        let d: u64 = ((c as u32) - 48) as u64;
        if val > (u64::MAX - d) / 10 {
            proof {
                assert(val * 10 + d > u64::MAX) by (nonlinear_arith)
                    requires
                        val > (u64::MAX - d) / 10,
                        d <= 9,
                ;
                assert(t@.subrange(0, i + 1).last() == t@[i as int]);
                assert(digits_val(t@.subrange(0, i + 1)) == val * 10 + d);
                lemma_digits_val_prefix(t@, i + 1);
                assert(digits_val(t@) > u64::MAX);
            }
            return None;
        }
        proof {
            assert(val * 10 + d <= u64::MAX) by (nonlinear_arith)
                requires
                    val <= (u64::MAX - d) / 10,
                    d <= 9,
            ;
        }
        val = val * 10 + d;
        i = i + 1;
    }
    proof {
        assert(t@.subrange(0, t@.len() as int) =~= t@);
    }
    Some(val)
}

pub open spec fn digit_char(d: nat) -> char {
    if d == 0 {
        '0'
    } else if d == 1 {
        '1'
    } else if d == 2 {
        '2'
    } else if d == 3 {
        '3'
    } else if d == 4 {
        '4'
    } else if d == 5 {
        '5'
    } else if d == 6 {
        '6'
    } else if d == 7 {
        '7'
    } else if d == 8 {
        '8'
    } else {
        '9'
    }
}

/// The decimal digits of `n`, most significant first, no sign, no padding.
pub open spec fn dec_spec(n: nat) -> Seq<char>
    decreases n,
{
    if n < 10 {
        seq![digit_char(n)]
    } else {
        dec_spec(n / 10).push(digit_char(n % 10))
    }
}

fn digit_char_exec(d: u64) -> (c: char)
    requires
        d < 10,
    ensures
        c == digit_char(d as nat),
{
    if d == 0 {
        '0'
    } else if d == 1 {
        '1'
    } else if d == 2 {
        '2'
    } else if d == 3 {
        '3'
    } else if d == 4 {
        '4'
    } else if d == 5 {
        '5'
    } else if d == 6 {
        '6'
    } else if d == 7 {
        '7'
    } else if d == 8 {
        '8'
    } else {
        '9'
    }
}

/// Write `n` in decimal.
pub fn u64_dec(n: u64) -> (r: Vec<char>)
    ensures
        r@ == dec_spec(n as nat),
    decreases n,
{
    if n < 10 {
        let mut v: Vec<char> = Vec::new();
        v.push(digit_char_exec(n));
        proof {
            assert(v@ =~= dec_spec(n as nat));
        }
        v
    } else {
        let mut v = u64_dec(n / 10);
        v.push(digit_char_exec(n % 10));
        v
    }
}

// ---------------------------------------------------------------------------
// Replacement
// ---------------------------------------------------------------------------
/// Every occurrence of `pat` in `s` replaced by `repl`, left to right,
/// non-overlapping; the empty pattern replaces nothing.
pub open spec fn replace_all_spec(s: Seq<char>, pat: Seq<char>, repl: Seq<char>) -> Seq<char>
    decreases s.len(),
{
    if pat.len() == 0 {
        s
    } else {
        match find_sub_spec(s, pat) {
            None => s,
            Some(i) => if 0 <= i && i + pat.len() <= s.len() {
                s.subrange(0, i) + repl + replace_all_spec(
                    s.subrange(i + pat.len() as int, s.len() as int),
                    pat,
                    repl,
                )
            } else {
                s
            },
        }
    }
}

/// Append the characters of `src` to `dst`.
pub fn extend_chars(dst: &mut Vec<char>, src: &[char])
    ensures
        final(dst)@ == old(dst)@ + src@,
{
    dst.extend_from_slice(src);
}

/// Replace every occurrence of `pat` in `s` by `repl`, as `str::replace`
/// does.
pub fn replace_all(s: &[char], pat: &[char], repl: &[char]) -> (r: Vec<char>)
    ensures
        r@ == replace_all_spec(s@, pat@, repl@),
{
    if pat.len() == 0 {
        return slice_to_vec(s);
    }
    let mut out: Vec<char> = Vec::new();
    let mut rest: Vec<char> = slice_to_vec(s);
    loop
        invariant
            pat@.len() >= 1,
            replace_all_spec(s@, pat@, repl@) == out@ + replace_all_spec(rest@, pat@, repl@),
        decreases rest@.len(),
    {
        let found = find_sub(rest.as_slice(), pat);
        match found {
            None => {
                extend_chars(&mut out, rest.as_slice());
                return out;
            },
            Some(i) => {
                proof {
                    lemma_find_sub_props(rest@, pat@);
                }
                let ghost prev = rest@;
                let n = rest.len();
                extend_chars(&mut out, slice_subrange(rest.as_slice(), 0, i));
                extend_chars(&mut out, repl);
                let next = slice_to_vec(slice_subrange(rest.as_slice(), i + pat.len(), n));
                rest = next;
                proof {
                    assert(replace_all_spec(prev, pat@, repl@) == prev.subrange(0, i as int) + repl@
                        + replace_all_spec(rest@, pat@, repl@));
                }
            },
        }
    }
}

// ---------------------------------------------------------------------------
// String conversions
// ---------------------------------------------------------------------------
/// The characters of `s` as a vector.
pub fn chars_of(s: &str) -> (r: Vec<char>)
    ensures
        r@ == s@,
{
    let mut v: Vec<char> = Vec::new();
    for c in it: s.chars()
        invariant
            it.seq() == s@,
            v@ == it.seq().subrange(0, it.index() as int),
    {
        v.push(c);
    }
    proof {
        assert(s@.subrange(0, s@.len() as int) =~= s@);
    }
    v
}

/// Relies on `String::from_iter` over `char`: the resulting string holds
/// exactly the characters handed in, in order.
#[verifier::external_body]
pub(crate) fn string_from_chars(v: &[char]) -> (r: String)
    ensures
        r@ == v@,
{
    v.iter().collect()
}

/// What `str::to_uppercase` returns: a function of the characters alone
/// (Unicode uppercasing, locale-independent).
pub uninterp spec fn upper_of(s: Seq<char>) -> Seq<char>;

/// Relies on `str::to_uppercase`: the result depends on the characters
/// alone, and an empty string stays empty.
#[verifier::external_body]
pub(crate) fn to_upper_unicode(s: &str) -> (r: String)
    ensures
        r@ == upper_of(s@),
        s@.len() == 0 ==> r@.len() == 0,
{
    s.to_uppercase()
}

} // verus!

