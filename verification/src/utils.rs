//! The key/value text parser and the substring value extractor: the layer
//! that normalizes heterogeneous textual formats into lookup tables.
use crate::mapping::Mapping;
use crate::text::{
    chars_of, find_sub, find_sub_spec, is_space, is_space_spec, kv_trim_pred,
    lemma_find_sub_props, lines_spec, space_pred, split_lines, starts_with_spec, string_from_chars, token_trim_pred,
    trim_kv, trim_space, trim_spec, trim_front_spec, trim_token,
};
use vstd::prelude::*;
use vstd::slice::slice_subrange;

verus! {

// ---------------------------------------------------------------------------
// Key/value parsing
// ---------------------------------------------------------------------------
/// The key/value pair a line denotes: split at the first occurrence of the
/// delimiter, both sides trimmed; a line without the delimiter is dropped.
pub open spec fn kv_pair_of_line(line: Seq<char>, d: char) -> Option<(Seq<char>, Seq<char>)> {
    match line.index_of_first(d) {
        Some(i) => Some(
            (
                trim_spec(line.subrange(0, i), kv_trim_pred()),
                trim_spec(line.subrange(i + 1, line.len() as int), kv_trim_pred()),
            ),
        ),
        None => None,
    }
}

/// The table a list of lines denotes: each line's pair in order, a later
/// line overwriting an earlier one with the same label.
pub open spec fn kv_map_of_lines(ls: Seq<Seq<char>>, d: char) -> Map<Seq<char>, Seq<char>>
    decreases ls.len(),
{
    if ls.len() == 0 {
        Map::<Seq<char>, Seq<char>>::empty()
    } else {
        let m = kv_map_of_lines(ls.drop_last(), d);
        match kv_pair_of_line(ls.last(), d) {
            Some(p) => m.insert(p.0, p.1),
            None => m,
        }
    }
}

/// The table a block of text denotes under delimiter `d`.
pub open spec fn kv_map_spec(s: Seq<char>, d: char) -> Map<Seq<char>, Seq<char>> {
    kv_map_of_lines(lines_spec(s), d)
}

/// Find the first occurrence of `d` in `s`.
fn find_char(s: &[char], d: char) -> (r: Option<usize>)
    ensures
        match r {
            Some(i) => s@.index_of_first(d) == Some(i as int),
            None => s@.index_of_first(d) is None,
        },
{
    let mut i: usize = 0;
    while i < s.len()
        invariant
            0 <= i <= s@.len(),
            forall|j: int| 0 <= j < i ==> s@[j] != d,
        decreases s@.len() - i,
    {
        if s[i] == d {
            proof {
                s@.index_of_first_ensures(d);
                assert(s@.contains(d)) by {
                    assert(s@[i as int] == d);
                }
            }
            return Some(i);
        }
        i = i + 1;
    }
    proof {
        s@.index_of_first_ensures(d);
        if s@.contains(d) {
            let w = choose|k: int| 0 <= k < s@.len() && s@[k] == d;
            assert(s@[w] == d);
        }
    }
    None
}

/// Parse `Label<delim>Value` lines into a lookup table. Each line is split
/// at the first `delim`; both sides are trimmed of space, equals, quote,
/// tab and newline characters; lines without the delimiter are dropped,
/// and a repeated label keeps the last value.
pub fn to_hashmap_with_delim(string: String, delim: char) -> (m: Mapping)
    ensures
        m@ == kv_map_spec(string@, delim),
{
    let cs = chars_of(string.as_str());
    let lines = split_lines(cs.as_slice());
    let mut m = Mapping::new();
    let ghost lsp = lines_spec(string@);
    let mut i: usize = 0;
    proof {
        assert(lsp.subrange(0, 0) =~= Seq::<Seq<char>>::empty());
    }
    while i < lines.len()
        invariant
            0 <= i <= lines@.len(),
            lines@.len() == lsp.len(),
            forall|k: int| 0 <= k < lines@.len() ==> lines@[k]@ == lsp[k],
            m@ == kv_map_of_lines(lsp.subrange(0, i as int), delim),
        decreases lines@.len() - i,
    {
        proof {
            assert(lsp.subrange(0, i + 1).drop_last() =~= lsp.subrange(0, i as int));
        }
        let line: &Vec<char> = &lines[i];
        let n = line.len();
        match find_char(line.as_slice(), delim) {
            Some(p) => {
                proof {
                    line@.index_of_first_ensures(delim);
                    assert(p < n);
                }
                let key = trim_kv(slice_subrange(line.as_slice(), 0, p));
                let val = trim_kv(slice_subrange(line.as_slice(), p + 1, n));
                m.insert(string_from_chars(key.as_slice()), string_from_chars(val.as_slice()));
            },
            None => {},
        }
        i = i + 1;
    }
    proof {
        assert(lsp.subrange(0, lsp.len() as int) =~= lsp);
    }
    m
}

/// Parse `Label: Value` lines into a lookup table with the default
/// delimiter `':'`.
pub fn to_hashmap(string: String) -> (m: Mapping)
    ensures
        m@ == kv_map_spec(string@, ':'),
{
    to_hashmap_with_delim(string, ':')
}

// ---------------------------------------------------------------------------
// Laws of the parser
// ---------------------------------------------------------------------------
/// Parsing then lookup: a line `lab<d>val` whose label holds no delimiter,
/// with no later line carrying the same label, puts the trimmed value
/// under the trimmed label.
pub proof fn lemma_parse_then_lookup(
    ls: Seq<Seq<char>>,
    d: char,
    i: int,
    lab: Seq<char>,
    val: Seq<char>,
)
    requires
        0 <= i < ls.len(),
        ls[i] == lab + seq![d] + val,
        !lab.contains(d),
        forall|j: int|
            i < j < ls.len() ==> (match #[trigger] kv_pair_of_line(ls[j], d) {
                Some(p) => p.0 != trim_spec(lab, kv_trim_pred()),
                None => true,
            }),
    ensures
        kv_map_of_lines(ls, d).contains_key(trim_spec(lab, kv_trim_pred())),
        kv_map_of_lines(ls, d)[trim_spec(lab, kv_trim_pred())] == trim_spec(val, kv_trim_pred()),
    decreases ls.len(),
{
    let line = ls[i];
    assert(line[lab.len() as int] == d);
    line.index_of_first_ensures(d);
    assert(line.contains(d)) by {
        assert(line[lab.len() as int] == d);
    }
    let f = line.index_of_first(d)->0;
    assert(f <= lab.len()) by {
        if f > lab.len() {
            assert(line[lab.len() as int] == d);
        }
    }
    assert(f >= lab.len()) by {
        if f < lab.len() {
            assert(lab[f] == line[f]);
            assert(lab.contains(d)) by {
                assert(lab[f] == d);
            }
        }
    }
    assert(line.subrange(0, lab.len() as int) =~= lab);
    assert(line.subrange(lab.len() as int + 1, line.len() as int) =~= val);
    if i == ls.len() - 1 {
    } else {
        lemma_parse_then_lookup(ls.drop_last(), d, i, lab, val);
    }
}

/// A line without the delimiter contributes nothing to the table.
pub proof fn lemma_line_without_delim_ignored(ls: Seq<Seq<char>>, d: char, line: Seq<char>)
    requires
        !line.contains(d),
    ensures
        kv_map_of_lines(ls.push(line), d) == kv_map_of_lines(ls, d),
{
    line.index_of_first_ensures(d);
    assert(ls.push(line).drop_last() =~= ls);
}

/// A repeated label keeps the value of the later line.
pub proof fn lemma_last_value_wins(ls: Seq<Seq<char>>, d: char, i: int, j: int)
    requires
        0 <= i < j < ls.len(),
        kv_pair_of_line(ls[i], d) is Some,
        kv_pair_of_line(ls[j], d) is Some,
        (kv_pair_of_line(ls[i], d)->0).0 == (kv_pair_of_line(ls[j], d)->0).0,
        forall|k: int|
            j < k < ls.len() ==> (match #[trigger] kv_pair_of_line(ls[k], d) {
                Some(p) => p.0 != (kv_pair_of_line(ls[j], d)->0).0,
                None => true,
            }),
    ensures
        kv_map_of_lines(ls, d).contains_key((kv_pair_of_line(ls[j], d)->0).0),
        kv_map_of_lines(ls, d)[(kv_pair_of_line(ls[j], d)->0).0] == (kv_pair_of_line(ls[j], d)->0).1,
    decreases ls.len(),
{
    if j == ls.len() - 1 {
    } else {
        lemma_last_value_wins(ls.drop_last(), d, i, j);
    }
}

// ---------------------------------------------------------------------------
// Substring value extraction
// ---------------------------------------------------------------------------
/// Turn lines into a vector of their non-empty members, each optionally
/// trimmed of surrounding whitespace.
pub open spec fn keep_nonempty(ls: Seq<Seq<char>>) -> Seq<Seq<char>>
    decreases ls.len(),
{
    if ls.len() == 0 {
        Seq::<Seq<char>>::empty()
    } else {
        let r = keep_nonempty(ls.drop_last());
        if ls.last().len() > 0 {
            r.push(ls.last())
        } else {
            r
        }
    }
}

/// The non-empty lines of `s`, optionally trimmed.
pub open spec fn vec_string_spec(s: Seq<char>, trim_line: bool) -> Seq<Seq<char>> {
    keep_nonempty(lines_spec(s)).map_values(
        |l: Seq<char>|
            if trim_line {
                trim_spec(l, space_pred())
            } else {
                l
            },
    )
}

/// Split text into its non-empty lines.
pub fn split_nonempty_lines(s: &str, trim_line: bool) -> (r: Vec<String>)
    ensures
        r@.len() == vec_string_spec(s@, trim_line).len(),
        forall|i: int| 0 <= i < r@.len() ==> r@[i]@ == vec_string_spec(s@, trim_line)[i],
{
    let cs = chars_of(s);
    let lines = split_lines(cs.as_slice());
    let ghost lsp = lines_spec(s@);
    let mut out: Vec<String> = Vec::new();
    let mut i: usize = 0;
    proof {
        assert(lsp.subrange(0, 0) =~= Seq::<Seq<char>>::empty());
    }
    while i < lines.len()
        invariant
            0 <= i <= lines@.len(),
            lines@.len() == lsp.len(),
            forall|k: int| 0 <= k < lines@.len() ==> lines@[k]@ == lsp[k],
            out@.len() == keep_nonempty(lsp.subrange(0, i as int)).len(),
            forall|k: int|
                0 <= k < out@.len() ==> out@[k]@ == (if trim_line {
                    trim_spec(#[trigger] keep_nonempty(lsp.subrange(0, i as int))[k], space_pred())
                } else {
                    keep_nonempty(lsp.subrange(0, i as int))[k]
                }),
        decreases lines@.len() - i,
    {
        proof {
            assert(lsp.subrange(0, i + 1).drop_last() =~= lsp.subrange(0, i as int));
        }
        let line: &Vec<char> = &lines[i];
        if line.len() > 0 {
            let piece: Vec<char> = if trim_line {
                trim_space(line.as_slice())
            } else {
                slice_to_vec_chars(line.as_slice())
            };
            out.push(string_from_chars(piece.as_slice()));
        }
        i = i + 1;
    }
    proof {
        assert(lsp.subrange(0, lsp.len() as int) =~= lsp);
    }
    out
}

fn slice_to_vec_chars(s: &[char]) -> (r: Vec<char>)
    ensures
        r@ == s@,
{
    vstd::slice::slice_to_vec(s)
}

/// The length of the leading run of non-whitespace characters.
pub open spec fn word_len_spec(s: Seq<char>) -> int
    decreases s.len(),
{
    if s.len() == 0 || is_space_spec(s[0]) {
        0
    } else {
        1 + word_len_spec(s.drop_first())
    }
}

proof fn lemma_word_len(s: Seq<char>, w: int)
    requires
        0 <= w <= s.len(),
        forall|j: int| 0 <= j < w ==> !is_space_spec(s[j]),
        w < s.len() ==> is_space_spec(s[w]),
    ensures
        word_len_spec(s) == w,
    decreases w,
{
    if w == 0 {
    } else {
        lemma_word_len(s.drop_first(), w - 1);
    }
}

/// What the extractor returns: for an empty label the whole trimmed text;
/// otherwise the first word after the first occurrence of the label,
/// trimmed of space, equals and quote characters; nothing when the label
/// is absent.
pub open spec fn extract_spec(s: Seq<char>, sub: Seq<char>) -> Option<Seq<char>> {
    if sub.len() == 0 {
        Some(trim_spec(s, space_pred()))
    } else {
        match find_sub_spec(s, sub) {
            None => None,
            Some(i) => {
                let after = s.subrange(i + sub.len() as int, s.len() as int);
                let st = trim_front_spec(after, space_pred());
                Some(trim_spec(st.subrange(0, word_len_spec(st)), token_trim_pred()))
            },
        }
    }
}

/// Pull the single word following the first occurrence of `substr` out of
/// `from_str`; an empty `substr` yields the whole trimmed text.
pub fn value_for_substring(from_str: &str, substr: &str) -> (r: Option<String>)
    ensures
        match r {
            Some(v) => extract_spec(from_str@, substr@) == Some(v@),
            None => extract_spec(from_str@, substr@) is None,
        },
{
    let cs = chars_of(from_str);
    let sub = chars_of(substr);
    if sub.len() == 0 {
        let t = trim_space(cs.as_slice());
        return Some(string_from_chars(t.as_slice()));
    }
    match find_sub(cs.as_slice(), sub.as_slice()) {
        None => None,
        Some(i) => {
            let n = cs.len();
            proof {
                lemma_find_sub_props(cs@, sub@);
                assert(i + sub@.len() <= n);
            }
            let after = slice_subrange(cs.as_slice(), i + sub.len(), n);
            let mut k: usize = 0;
            while k < after.len() && is_space(after[k])
                invariant
                    0 <= k <= after@.len(),
                    forall|j: int| 0 <= j < k ==> is_space_spec(after@[j]),
                decreases after@.len() - k,
            {
                k = k + 1;
            }
            proof {
                crate::text::lemma_trim_front_exact(after@, space_pred(), k as int);
            }
            let st = slice_subrange(after, k, after.len());
            let mut w: usize = 0;
            while w < st.len() && !is_space(st[w])
                invariant
                    0 <= w <= st@.len(),
                    forall|j: int| 0 <= j < w ==> !is_space_spec(st@[j]),
                decreases st@.len() - w,
            {
                w = w + 1;
            }
            proof {
                lemma_word_len(st@, w as int);
            }
            let token = slice_subrange(st, 0, w);
            let trimmed = trim_token(token);
            Some(string_from_chars(trimmed.as_slice()))
        },
    }
}

/// The views of a vector of lines.
pub open spec fn lines_views(ls: Seq<String>) -> Seq<Seq<char>> {
    ls.map_values(|l: String| l@)
}

/// Parse a vector of lines as `Label<delim>Value` entries.
pub fn kv_from_lines(lines: &Vec<String>, delim: char) -> (m: Mapping)
    ensures
        m@ == kv_map_of_lines(lines_views(lines@), delim),
{
    let ghost lsp = lines_views(lines@);
    let mut m = Mapping::new();
    let mut i: usize = 0;
    proof {
        assert(lsp.subrange(0, 0) =~= Seq::<Seq<char>>::empty());
    }
    while i < lines.len()
        invariant
            0 <= i <= lines@.len(),
            lsp == lines_views(lines@),
            m@ == kv_map_of_lines(lsp.subrange(0, i as int), delim),
        decreases lines@.len() - i,
    {
        proof {
            assert(lsp.subrange(0, i + 1).drop_last() =~= lsp.subrange(0, i as int));
        }
        let line = chars_of(lines[i].as_str());
        let n = line.len();
        match find_char(line.as_slice(), delim) {
            Some(p) => {
                proof {
                    line@.index_of_first_ensures(delim);
                    assert(p < n);
                }
                let key = trim_kv(slice_subrange(line.as_slice(), 0, p));
                let val = trim_kv(slice_subrange(line.as_slice(), p + 1, n));
                m.insert(string_from_chars(key.as_slice()), string_from_chars(val.as_slice()));
            },
            None => {},
        }
        i = i + 1;
    }
    proof {
        assert(lsp.subrange(0, lsp.len() as int) =~= lsp);
    }
    m
}

/// `l` starts with one of the prefixes.
pub open spec fn starts_with_any(l: Seq<char>, ps: Seq<Seq<char>>) -> bool {
    exists|i: int| 0 <= i < ps.len() && starts_with_spec(l, ps[i])
}

/// The lines that start with one of the prefixes, in order.
pub open spec fn keep_prefixed(ls: Seq<Seq<char>>, ps: Seq<Seq<char>>) -> Seq<Seq<char>>
    decreases ls.len(),
{
    if ls.len() == 0 {
        Seq::<Seq<char>>::empty()
    } else {
        let r = keep_prefixed(ls.drop_last(), ps);
        if starts_with_any(ls.last(), ps) {
            r.push(ls.last())
        } else {
            r
        }
    }
}

/// The views of a list of prefixes.
pub open spec fn prefix_views(ps: Seq<Vec<char>>) -> Seq<Seq<char>> {
    ps.map_values(|p: Vec<char>| p@)
}

/// Keep the lines that start with one of the prefixes.
pub fn filter_prefixed(lines: &Vec<String>, prefixes: &Vec<Vec<char>>) -> (r: Vec<String>)
    ensures
        lines_views(r@) == keep_prefixed(lines_views(lines@), prefix_views(prefixes@)),
{
    let ghost lsp = lines_views(lines@);
    let ghost psp = prefix_views(prefixes@);
    let mut out: Vec<String> = Vec::new();
    let mut i: usize = 0;
    proof {
        assert(lsp.subrange(0, 0) =~= Seq::<Seq<char>>::empty());
        assert(lines_views(out@) =~= keep_prefixed(lsp.subrange(0, 0), psp));
    }
    while i < lines.len()
        invariant
            0 <= i <= lines@.len(),
            lsp == lines_views(lines@),
            psp == prefix_views(prefixes@),
            lines_views(out@) == keep_prefixed(lsp.subrange(0, i as int), psp),
        decreases lines@.len() - i,
    {
        proof {
            assert(lsp.subrange(0, i + 1).drop_last() =~= lsp.subrange(0, i as int));
        }
        let lc = chars_of(lines[i].as_str());
        let mut found = false;
        let mut k: usize = 0;
        while k < prefixes.len()
            invariant
                0 <= k <= prefixes@.len(),
                psp == prefix_views(prefixes@),
                lc@ == lsp[i as int],
                i < lsp.len(),
                found == (exists|j: int|
                    0 <= j < k && crate::text::starts_with_spec(lc@, psp[j])),
            decreases prefixes@.len() - k,
        {
            if crate::text::starts_with(lc.as_slice(), prefixes[k].as_slice()) {
                found = true;
                proof {
                    assert(starts_with_spec(lc@, psp[k as int]));
                }
            } else {
                proof {
                    assert(!starts_with_spec(lc@, psp[k as int]));
                }
            }
            k = k + 1;
        }
        if found {
            let ghost prev = out@;
            out.push(lines[i].clone());
            proof {
                assert(lines_views(out@) =~= lines_views(prev).push(lsp[i as int]));
            }
        }
        i = i + 1;
    }
    proof {
        assert(lsp.subrange(0, lsp.len() as int) =~= lsp);
    }
    out
}

/// Lines of a string, as a vector.
pub trait ToVecString {
    /// The non-empty lines, optionally trimmed of surrounding whitespace.
    fn to_vec_string(&self, trim_line: bool) -> Vec<String>;
}

impl ToVecString for String {
    fn to_vec_string(&self, trim_line: bool) -> Vec<String> {
        split_nonempty_lines(self.as_str(), trim_line)
    }
}

} // verus!
