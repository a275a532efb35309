//! The label→value table that the key/value parser produces: lookups see
//! the value of the latest insertion of a label.
use vstd::prelude::*;

verus! {

/// The map denoted by a list of entries, each later entry overwriting an
/// earlier one with the same label.
pub open spec fn entries_map(s: Seq<(String, String)>) -> Map<Seq<char>, Seq<char>>
    decreases s.len(),
{
    if s.len() == 0 {
        Map::<Seq<char>, Seq<char>>::empty()
    } else {
        entries_map(s.drop_last()).insert(s.last().0@, s.last().1@)
    }
}

/// A label→value lookup table; duplicate labels keep the last value.
pub struct Mapping {
    entries: Vec<(String, String)>,
}

impl View for Mapping {
    type V = Map<Seq<char>, Seq<char>>;

    closed spec fn view(&self) -> Map<Seq<char>, Seq<char>> {
        entries_map(self.entries@)
    }
}

impl Mapping {
    /// An empty table.
    pub fn new() -> (r: Self)
        ensures
            r@ == Map::<Seq<char>, Seq<char>>::empty(),
    {
        Mapping { entries: Vec::new() }
    }

    /// Record `value` under `key`; an earlier value of `key` is shadowed.
    pub fn insert(&mut self, key: String, value: String)
        ensures
            final(self)@ == old(self)@.insert(key@, value@),
    {
        let ghost prev = self.entries@;
        self.entries.push((key, value));
        proof {
            assert(self.entries@.drop_last() =~= prev);
        }
    }

    /// The value recorded last under `key`, if any.
    pub fn get(&self, key: &str) -> (r: Option<&String>)
        ensures
            match r {
                Some(v) => self@.contains_key(key@) && v@ == self@[key@],
                None => !self@.contains_key(key@),
            },
    {
        let kc = crate::text::chars_of(key);
        let mut j: usize = self.entries.len();
        proof {
            assert(self.entries@.subrange(0, self.entries@.len() as int) =~= self.entries@);
        }
        while j > 0
            invariant
                0 <= j <= self.entries@.len(),
                kc@ == key@,
                forall|t: int| j <= t < self.entries@.len() ==> self.entries@[t].0@ != key@,
                entries_map(self.entries@).contains_key(key@) == entries_map(
                    self.entries@.subrange(0, j as int),
                ).contains_key(key@),
                entries_map(self.entries@).contains_key(key@) ==> entries_map(self.entries@)[key@]
                    == entries_map(self.entries@.subrange(0, j as int))[key@],
            decreases j,
        {
            proof {
                assert(self.entries@.subrange(0, j as int).drop_last() =~= self.entries@.subrange(
                    0,
                    j - 1,
                ));
            }
            let ec = crate::text::chars_of(self.entries[j - 1].0.as_str());
            if crate::text::slice_eq(ec.as_slice(), kc.as_slice()) {
                return Some(&self.entries[j - 1].1);
            }
            j = j - 1;
        }
        proof {
            assert(self.entries@.subrange(0, 0) =~= Seq::<(String, String)>::empty());
        }
        None
    }

    /// The value under `key`, or the empty string when `key` is absent.
    pub fn get_or_empty(&self, key: &str) -> (r: String)
        ensures
            r@ == (if self@.contains_key(key@) {
                self@[key@]
            } else {
                Seq::<char>::empty()
            }),
    {
        match self.get(key) {
            Some(v) => v.clone(),
            None => String::new(),
        }
    }

    /// Take every entry of `other` over, shadowing shared labels.
    pub fn extend(&mut self, other: &Mapping)
        ensures
            final(self)@ == old(self)@.union_prefer_right(other@),
    {
        let ghost base = self.entries@;
        let mut i: usize = 0;
        while i < other.entries.len()
            invariant
                0 <= i <= other.entries@.len(),
                self.entries@ == base + other.entries@.subrange(0, i as int),
            decreases other.entries@.len() - i,
        {
            let e = &other.entries[i];
            self.entries.push((e.0.clone(), e.1.clone()));
            proof {
                assert(base + other.entries@.subrange(0, i + 1) =~= (base
                    + other.entries@.subrange(0, i as int)).push(other.entries@[i as int]));
            }
            i = i + 1;
        }
        proof {
            assert(other.entries@.subrange(0, other.entries@.len() as int) =~= other.entries@);
            lemma_entries_map_concat(base, other.entries@);
        }
    }
}

proof fn lemma_entries_map_concat(a: Seq<(String, String)>, b: Seq<(String, String)>)
    ensures
        entries_map(a + b) == entries_map(a).union_prefer_right(entries_map(b)),
    decreases b.len(),
{
    if b.len() == 0 {
        assert(a + b =~= a);
        assert(entries_map(a).union_prefer_right(entries_map(b)) =~= entries_map(a));
    } else {
        let b0 = b.drop_last();
        lemma_entries_map_concat(a, b0);
        assert((a + b).drop_last() =~= a + b0);
        assert((a + b).last() == b.last());
        assert(entries_map(a).union_prefer_right(entries_map(b0)).insert(
            b.last().0@,
            b.last().1@,
        ) =~= entries_map(a).union_prefer_right(entries_map(b0).insert(b.last().0@, b.last().1@)));
    }
}

} // verus!
