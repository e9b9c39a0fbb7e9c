//! An ordered set of strings without repetitions, kept as a strictly
//! increasing vector (the order of `str`).
use crate::text::{chars_of, copy_string, lemma_lex_total, lemma_lex_transitive, lex_less, lex_lt, str_equal};
use vstd::prelude::*;

verus! {

pub open spec fn strictly_sorted(s: Seq<Seq<char>>) -> bool {
    forall|i: int, j: int| 0 <= i < j < s.len() ==> lex_lt(s[i], s[j])
}

/// The character sequences held by a sequence of strings.
pub open spec fn string_views(v: Seq<String>) -> Seq<Seq<char>> {
    v.map_values(|s: String| s@)
}

#[derive(Debug, PartialEq, Eq)]
pub struct StringSet {
    items: Vec<String>,
}

impl Default for StringSet {
    fn default() -> (s: StringSet)
        ensures
            s.elems() == Seq::<Seq<char>>::empty(),
    {
        StringSet::new()
    }
}

impl StringSet {
    /// The members, in increasing order.
    pub closed spec fn elems(&self) -> Seq<Seq<char>> {
        string_views(self.items@)
    }

    #[verifier::type_invariant]
    spec fn sorted(&self) -> bool {
        strictly_sorted(string_views(self.items@))
    }

    pub fn new() -> (s: StringSet)
        ensures
            s.elems() == Seq::<Seq<char>>::empty(),
    {
        let s = StringSet { items: Vec::new() };
        assert(s.elems() =~= Seq::<Seq<char>>::empty());
        s
    }

    pub fn len(&self) -> (n: usize)
        ensures
            n == self.elems().len(),
    {
        self.items.len()
    }

    pub fn contains(&self, x: &str) -> (r: bool)
        ensures
            r == self.elems().contains(x@),
    {
        let mut i: usize = 0;
        while i < self.items.len()
            invariant
                i <= self.items.len(),
                forall|j: int| 0 <= j < i ==> self.elems()[j] != x@,
            decreases self.items.len() - i,
        {
            if crate::text::str_equal(self.items[i].as_str(), x) {
                assert(self.elems()[i as int] == x@);
                return true;
            }
            i = i + 1;
        }
        false
    }

    /// The members as strings, in increasing order.
    pub fn to_vec(&self) -> (v: Vec<String>)
        ensures
            string_views(v@) == self.elems(),
            strictly_sorted(self.elems()),
    {
        proof {
            use_type_invariant(self);
        }
        let mut v: Vec<String> = Vec::new();
        let mut i: usize = 0;
        while i < self.items.len()
            invariant
                i <= self.items.len(),
                string_views(v@) == self.elems().take(i as int),
            decreases self.items.len() - i,
        {
            let c = copy_string(&self.items[i]);
            assert(self.elems()[i as int] == c@);
            let ghost prev = v@;
            v.push(c);
            assert(v@ == prev.push(c));
            assert(string_views(v@) =~= string_views(prev).push(c@));
            i = i + 1;
            assert(self.elems().take(i as int) =~= self.elems().take(i - 1).push(c@));
        }
        assert(self.elems().take(self.items.len() as int) =~= self.elems());
        v
    }

    pub fn insert(&mut self, x: String)
        ensures
            final(self).elems().to_set() == old(self).elems().to_set().insert(x@),
    {
        proof {
            use_type_invariant(&*self);
        }
        let mut items: Vec<String> = Vec::new();
        std::mem::swap(&mut items, &mut self.items);
        let ghost before = string_views(items@);
        assert(before == old(self).elems());
        let xv = chars_of(x.as_str());
        let mut k: usize = 0;
        while k < items.len() && lex_less(chars_of(items[k].as_str()).as_slice(), xv.as_slice())
            invariant
                k <= items.len(),
                before == string_views(items@),
                xv@ == x@,
                forall|j: int| 0 <= j < k ==> lex_lt(#[trigger] before[j], x@),
            decreases items.len() - k,
        {
            k = k + 1;
        }
        if k < items.len() && str_equal(items[k].as_str(), x.as_str()) {
            assert(before.to_set().insert(x@) =~= before.to_set()) by {
                assert(before[k as int] == x@);
                assert(before.contains(x@));
            }
            self.items = items;
            return ;
        }
        let ghost xs = x@;
        items.insert(k, x);
        let ghost after = string_views(items@);
        assert(after =~= before.take(k as int).push(xs) + before.skip(k as int));
        assert(forall|j: int| k <= j < before.len() ==> lex_lt(xs, #[trigger] before[j])) by {
            if k < before.len() {
                lemma_lex_total(before[k as int], xs);
                assert(lex_lt(xs, before[k as int]));
                assert forall|j: int| k <= j < before.len() implies lex_lt(xs, #[trigger] before[j]) by {
                    if j > k {
                        lemma_lex_transitive(xs, before[k as int], before[j]);
                    }
                }
            }
        }
        assert(strictly_sorted(after)) by {
            assert forall|i: int, j: int| 0 <= i < j < after.len() implies lex_lt(
                after[i],
                after[j],
            ) by {
                if j < k {
                    assert(after[i] == before[i] && after[j] == before[j]);
                } else if j == k {
                    assert(after[i] == before[i]);
                } else if i < k {
                    assert(after[i] == before[i] && after[j] == before[j - 1]);
                    lemma_lex_transitive(before[i], xs, before[j - 1]);
                } else if i == k {
                    assert(after[j] == before[j - 1]);
                } else {
                    assert(after[i] == before[i - 1] && after[j] == before[j - 1]);
                }
            }
        }
        assert(after.to_set() =~= before.to_set().insert(xs)) by {
            assert forall|t: Seq<char>| after.contains(t) implies #[trigger] before.to_set().insert(
                xs,
            ).contains(t) by {
                let i = choose|i: int| 0 <= i < after.len() && after[i] == t;
                if i < k {
                    assert(before[i] == t);
                } else if i > k {
                    assert(before[i - 1] == t);
                }
            }
            assert forall|t: Seq<char>| #[trigger] before.to_set().insert(xs).contains(t) implies after.contains(t) by {
                if t == xs {
                    assert(after[k as int] == xs);
                } else {
                    let i = choose|i: int| 0 <= i < before.len() && before[i] == t;
                    if i < k {
                        assert(after[i] == t);
                    } else {
                        assert(after[i + 1] == t);
                    }
                }
            }
        }
        self.items = items;
    }
}

} // verus!
