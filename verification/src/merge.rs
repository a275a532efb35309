//! The field-merge policy: for each output field, a priority-ordered list
//! of (collector result, label) candidates; the first candidate whose
//! result is present and whose label is present wins, an empty string
//! counting as present. A failed collector occupies its slot as absence,
//! so the remaining slots keep their positions.
use crate::mapping::Mapping;
use vstd::prelude::*;

verus! {

/// The table a collector slot holds, if the collector produced one.
pub open spec fn opt_map_view(m: Option<Mapping>) -> Option<Map<Seq<char>, Seq<char>>> {
    match m {
        Some(mm) => Some(mm@),
        None => None,
    }
}

/// The views of a row of collector slots, in submission order.
pub open spec fn results_view(rs: Seq<Option<Mapping>>) -> Seq<Option<Map<Seq<char>, Seq<char>>>> {
    rs.map_values(|m: Option<Mapping>| opt_map_view(m))
}

/// The value a candidate denotes: present exactly when the slot holds a
/// table and the table holds the label, whatever the value.
pub open spec fn slot_lookup(
    rs: Seq<Option<Map<Seq<char>, Seq<char>>>>,
    src: int,
    label: Seq<char>,
) -> Option<Seq<char>> {
    if 0 <= src < rs.len() && rs[src] is Some && (rs[src]->0).contains_key(label) {
        Some((rs[src]->0)[label])
    } else {
        None
    }
}

/// The first present candidate's value, or the empty default when no
/// candidate is present.
pub open spec fn first_match_spec(
    rs: Seq<Option<Map<Seq<char>, Seq<char>>>>,
    cands: Seq<(int, Seq<char>)>,
) -> Seq<char>
    decreases cands.len(),
{
    if cands.len() == 0 {
        Seq::<char>::empty()
    } else {
        match slot_lookup(rs, cands[0].0, cands[0].1) {
            Some(v) => v,
            None => first_match_spec(rs, cands.drop_first()),
        }
    }
}

/// The view of a candidate list.
pub open spec fn cands_view(cs: Seq<(usize, &str)>) -> Seq<(int, Seq<char>)> {
    cs.map_values(|c: (usize, &str)| (c.0 as int, c.1@))
}

/// Look one candidate up in a row of collector slots.
pub fn slot_get(results: &[Option<Mapping>], src: usize, label: &str) -> (r: Option<String>)
    ensures
        match r {
            Some(v) => slot_lookup(results_view(results@), src as int, label@) == Some(v@),
            None => slot_lookup(results_view(results@), src as int, label@) is None,
        },
{
    if src < results.len() {
        match &results[src] {
            Some(m) => match m.get(label) {
                Some(v) => Some(v.clone()),
                None => None,
            },
            None => None,
        }
    } else {
        None
    }
}

/// Resolve one output field: the value of the first candidate whose
/// collector result is present and holds the label (an empty value still
/// counts), or the empty string when none is.
pub fn first_match(results: &[Option<Mapping>], cands: &[(usize, &str)]) -> (r: String)
    ensures
        r@ == first_match_spec(results_view(results@), cands_view(cands@)),
{
    let ghost rv = results_view(results@);
    let ghost cv = cands_view(cands@);
    let mut k: usize = 0;
    proof {
        assert(cv.subrange(0, cv.len() as int) =~= cv);
        assert(cv.subrange(k as int, cv.len() as int) =~= cv);
    }
    while k < cands.len()
        invariant
            0 <= k <= cands@.len(),
            rv == results_view(results@),
            cv == cands_view(cands@),
            first_match_spec(rv, cv) == first_match_spec(
                rv,
                cv.subrange(k as int, cv.len() as int),
            ),
        decreases cands@.len() - k,
    {
        let c = cands[k];
        match slot_get(results, c.0, c.1) {
            Some(v) => {
                return v;
            },
            None => {},
        }
        proof {
            assert(cv.subrange(k as int, cv.len() as int).drop_first() =~= cv.subrange(
                k + 1,
                cv.len() as int,
            ));
        }
        k = k + 1;
    }
    String::new()
}

/// Resolve a field with a single candidate.
pub fn match1(results: &[Option<Mapping>], s0: usize, l0: &str) -> (r: String)
    ensures
        r@ == first_match_spec(results_view(results@), seq![(s0 as int, l0@)]),
{
    let mut c: Vec<(usize, &str)> = Vec::new();
    c.push((s0, l0));
    proof {
        assert(cands_view(c@) =~= seq![(s0 as int, l0@)]);
    }
    first_match(results, c.as_slice())
}

/// Resolve a field with two candidates in priority order.
pub fn match2(results: &[Option<Mapping>], s0: usize, l0: &str, s1: usize, l1: &str) -> (r: String)
    ensures
        r@ == first_match_spec(
            results_view(results@),
            seq![(s0 as int, l0@), (s1 as int, l1@)],
        ),
{
    let mut c: Vec<(usize, &str)> = Vec::new();
    c.push((s0, l0));
    c.push((s1, l1));
    proof {
        assert(cands_view(c@) =~= seq![(s0 as int, l0@), (s1 as int, l1@)]);
    }
    first_match(results, c.as_slice())
}

/// A present value, or the empty default.
pub open spec fn d_or_empty(v: Option<Seq<char>>) -> Seq<char> {
    match v {
        Some(x) => x,
        None => Seq::<char>::empty(),
    }
}

// ---------------------------------------------------------------------------
// Laws of the merge policy
// ---------------------------------------------------------------------------
/// A present first candidate wins outright, its value taken as it stands,
/// even when that value is the empty string.
pub proof fn lemma_first_match_present(
    rs: Seq<Option<Map<Seq<char>, Seq<char>>>>,
    cands: Seq<(int, Seq<char>)>,
)
    requires
        cands.len() > 0,
        slot_lookup(rs, cands[0].0, cands[0].1) is Some,
    ensures
        first_match_spec(rs, cands) == slot_lookup(rs, cands[0].0, cands[0].1)->0,
{
}

/// An absent first candidate — its collector missing or its label not in
/// that collector's table — is skipped in favor of the rest of the list.
pub proof fn lemma_first_match_skips_absent(
    rs: Seq<Option<Map<Seq<char>, Seq<char>>>>,
    cands: Seq<(int, Seq<char>)>,
)
    requires
        cands.len() > 0,
        slot_lookup(rs, cands[0].0, cands[0].1) is None,
    ensures
        first_match_spec(rs, cands) == first_match_spec(rs, cands.drop_first()),
{
}

/// Fallback honors priority over mere presence: with two candidates, the
/// first absent and the second present — even as the empty string — the
/// field resolves to the second candidate's value.
pub proof fn lemma_fallback_prefers_presence(
    rs: Seq<Option<Map<Seq<char>, Seq<char>>>>,
    c0: (int, Seq<char>),
    c1: (int, Seq<char>),
)
    requires
        slot_lookup(rs, c0.0, c0.1) is None,
        slot_lookup(rs, c1.0, c1.1) is Some,
    ensures
        first_match_spec(rs, seq![c0, c1]) == slot_lookup(rs, c1.0, c1.1)->0,
{
    let cs = seq![c0, c1];
    assert(cs[0] == c0);
    assert(cs.drop_first() =~= seq![c1]);
    assert(seq![c1][0] == c1);
    lemma_first_match_present(rs, seq![c1]);
}

/// Fault tolerance: a collector that failed entirely — its slot replaced
/// by absence — changes nothing for a field whose candidates name other
/// slots; those fields are still populated as before.
pub proof fn lemma_failed_slot_isolated(
    rs: Seq<Option<Map<Seq<char>, Seq<char>>>>,
    j: int,
    cands: Seq<(int, Seq<char>)>,
)
    requires
        0 <= j < rs.len(),
        forall|k: int| 0 <= k < cands.len() ==> (#[trigger] cands[k]).0 != j,
    ensures
        first_match_spec(rs.update(j, None), cands) == first_match_spec(rs, cands),
    decreases cands.len(),
{
    if cands.len() > 0 {
        assert(slot_lookup(rs.update(j, None), cands[0].0, cands[0].1) == slot_lookup(
            rs,
            cands[0].0,
            cands[0].1,
        ));
        lemma_failed_slot_isolated(rs, j, cands.drop_first());
    }
}

} // verus!

