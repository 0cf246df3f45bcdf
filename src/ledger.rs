use vstd::prelude::*;

use crate::attributes::{is_known_good, known_good};
use crate::text::{
    is_text_less, lemma_text_less_irreflexive, lemma_text_less_total, lemma_text_less_transitive,
    str_eq, text_less,
};

verus! {

/// A (tag, attribute) pair as characters.
pub type PairView = (Seq<char>, Seq<char>);

pub open spec fn pair_view(p: (String, String)) -> PairView {
    (p.0@, p.1@)
}

pub open spec fn pairs_view(v: Seq<(String, String)>) -> Seq<PairView> {
    v.map_values(|p: (String, String)| pair_view(p))
}

/// Pairs ordered by tag, then by attribute, each in code-point order.
pub open spec fn pair_less(x: PairView, y: PairView) -> bool {
    text_less(x.0, y.0) || (x.0 == y.0 && text_less(x.1, y.1))
}

/// Every pair comes strictly before the pairs after it.
pub open spec fn strictly_sorted(s: Seq<PairView>) -> bool {
    forall|i: int, j: int| 0 <= i < j < s.len() ==> pair_less(#[trigger] s[i], #[trigger] s[j])
}

proof fn lemma_pair_less_irreflexive(x: PairView)
    ensures
        !pair_less(x, x),
{
    lemma_text_less_irreflexive(x.0);
    lemma_text_less_irreflexive(x.1);
}

proof fn lemma_pair_less_transitive(x: PairView, y: PairView, z: PairView)
    requires
        pair_less(x, y),
        pair_less(y, z),
    ensures
        pair_less(x, z),
{
    if text_less(x.0, y.0) && text_less(y.0, z.0) {
        lemma_text_less_transitive(x.0, y.0, z.0);
    } else if x.0 == y.0 && y.0 == z.0 {
        lemma_text_less_transitive(x.1, y.1, z.1);
    }
}

proof fn lemma_pair_less_total(x: PairView, y: PairView)
    requires
        x != y,
    ensures
        pair_less(x, y) || pair_less(y, x),
{
    if x.0 != y.0 {
        lemma_text_less_total(x.0, y.0);
    } else {
        lemma_text_less_total(x.1, y.1);
    }
}

/// A strictly sorted sequence holds no pair twice.
pub proof fn lemma_sorted_has_no_duplicates(s: Seq<PairView>)
    requires
        strictly_sorted(s),
    ensures
        s.no_duplicates(),
{
    assert forall|i: int, j: int| 0 <= i < s.len() && 0 <= j < s.len() && i != j implies s[i] != s[j] by {
        if i < j {
            assert(pair_less(s[i], s[j]));
        } else {
            assert(pair_less(s[j], s[i]));
        }
        lemma_pair_less_irreflexive(s[i]);
    }
}

/// An accumulator of every (tag, attribute) pair observed during a run, and
/// of the subset that is not on the allowlist. Pairs are only ever added.
pub struct Ledger {
    all: Vec<(String, String)>,
    unknown: Vec<(String, String)>,
}

impl Ledger {
    /// The pairs seen so far.
    pub closed spec fn all_seen(&self) -> Set<PairView> {
        pairs_view(self.all@).to_set()
    }

    /// The pairs seen so far that are not on the allowlist.
    pub closed spec fn unknown_seen(&self) -> Set<PairView> {
        pairs_view(self.unknown@).to_set()
    }

    /// Both lists are strictly sorted, and every unknown pair was also seen.
    pub closed spec fn wf(&self) -> bool {
        strictly_sorted(pairs_view(self.all@)) && strictly_sorted(pairs_view(self.unknown@))
            && self.unknown_seen().subset_of(self.all_seen())
            && forall|p: PairView| #[trigger] self.unknown_seen().contains(p) ==> !known_good(p.0, p.1)
    }

    pub fn new() -> (r: Ledger)
        ensures
            r.wf(),
            r.all_seen() == Set::<PairView>::empty(),
            r.unknown_seen() == Set::<PairView>::empty(),
    {
        let r = Ledger { all: Vec::new(), unknown: Vec::new() };
        proof {
            assert(pairs_view(r.all@) =~= Seq::<PairView>::empty());
            assert(pairs_view(r.all@).to_set() =~= Set::<PairView>::empty());
        }
        r
    }

    /// Records that the attribute was seen on the tag; a pair that is not on
    /// the allowlist is also recorded as unknown.
    pub fn record(&mut self, tag: &str, attribute: &str)
        requires
            old(self).wf(),
        ensures
            final(self).wf(),
            final(self).all_seen() == old(self).all_seen().insert((tag@, attribute@)),
            final(self).unknown_seen() == if known_good(tag@, attribute@) {
                old(self).unknown_seen()
            } else {
                old(self).unknown_seen().insert((tag@, attribute@))
            },
    {
        let good = is_known_good(tag, attribute);
        insert_sorted(&mut self.all, tag, attribute);
        if !good {
            insert_sorted(&mut self.unknown, tag, attribute);
        }
    }
}

fn is_pair_less(p: &(String, String), tag: &str, attribute: &str) -> (r: bool)
    ensures
        r == pair_less(pair_view(*p), (tag@, attribute@)),
{
    is_text_less(p.0.as_str(), tag) || (str_eq(p.0.as_str(), tag) && is_text_less(
        p.1.as_str(),
        attribute,
    ))
}

fn insert_sorted(v: &mut Vec<(String, String)>, tag: &str, attribute: &str)
    requires
        strictly_sorted(pairs_view(old(v)@)),
    ensures
        strictly_sorted(pairs_view(final(v)@)),
        pairs_view(final(v)@).to_set() == pairs_view(old(v)@).to_set().insert((tag@, attribute@)),
{
    let ghost x = (tag@, attribute@);
    let ghost before = pairs_view(v@);
    let mut i: usize = 0;
    let mut done = false;
    while i < v.len() && !done
        invariant
            0 <= i <= v.len(),
            v@ == old(v)@,
            x == (tag@, attribute@),
            before == pairs_view(v@),
            forall|j: int| 0 <= j < i ==> pair_less(#[trigger] before[j], x),
            done ==> i < v.len() && !pair_less(before[i as int], x),
        decreases v.len() - i, if done { 0int } else { 1int },
    {
        let entry = &v[i];
        let less = is_pair_less(entry, tag, attribute);
        proof {
            assert(before[i as int] == pair_view(v@[i as int]));
            assert(less == pair_less(before[i as int], x));
        }
        if less {
            i = i + 1;
        } else {
            done = true;
        }
    }
    if i < v.len() && str_eq(v[i].0.as_str(), tag) && str_eq(v[i].1.as_str(), attribute) {
        proof {
            assert(before[i as int] == x);
            assert(before.to_set().insert(x) =~= before.to_set());
        }
        return;
    }
    proof {
        if i < before.len() {
            lemma_pair_less_total(before[i as int], x);
        }
        assert forall|j: int| i <= j < before.len() implies pair_less(x, #[trigger] before[j]) by {
            if j > i {
                lemma_pair_less_transitive(x, before[i as int], before[j]);
            }
        }
    }
    v.insert(i, (tag.to_owned(), attribute.to_owned()));
    proof {
        let after = pairs_view(v@);
        assert(after =~= before.insert(i as int, x));
        assert forall|p: int, q: int| 0 <= p < q < after.len() implies pair_less(
            #[trigger] after[p],
            #[trigger] after[q],
        ) by {
            if q < i {
            } else if p < i && q == i {
            } else if p < i {
                assert(after[q] == before[q - 1]);
                lemma_pair_less_transitive(before[p], x, before[q - 1]);
            } else if p == i {
                assert(after[q] == before[q - 1]);
            } else {
                assert(after[p] == before[p - 1]);
                assert(after[q] == before[q - 1]);
            }
        }
        assert forall|y: PairView| #[trigger] after.to_set().contains(y) == before.to_set().insert(x).contains(y) by {
            if after.contains(y) {
                let k = choose|k: int| 0 <= k < after.len() && after[k] == y;
                if k < i {
                    assert(before[k] == y);
                } else if k > i {
                    assert(before[k - 1] == y);
                }
            }
            if y == x {
                assert(after[i as int] == y);
            } else if before.contains(y) {
                let k = choose|k: int| 0 <= k < before.len() && before[k] == y;
                if k < i {
                    assert(after[k] == y);
                } else {
                    assert(after[k + 1] == y);
                }
            }
        }
        assert(after.to_set() =~= before.to_set().insert(x));
    }
}

fn copy_pairs(v: &Vec<(String, String)>) -> (r: Vec<(String, String)>)
    ensures
        pairs_view(r@) == pairs_view(v@),
{
    let mut r: Vec<(String, String)> = Vec::new();
    let mut i: usize = 0;
    while i < v.len()
        invariant
            0 <= i <= v.len(),
            pairs_view(r@) == pairs_view(v@).subrange(0, i as int),
        decreases v.len() - i,
    {
        let ghost before = r@;
        r.push((v[i].0.clone(), v[i].1.clone()));
        proof {
            assert(pairs_view(r@) =~= pairs_view(before).push(pair_view(v@[i as int])));
            assert(pairs_view(r@) =~= pairs_view(v@).subrange(0, i + 1));
        }
        i = i + 1;
    }
    proof {
        assert(pairs_view(v@).subrange(0, v@.len() as int) =~= pairs_view(v@));
    }
    r
}

/// A snapshot of the pairs seen so far, each once.
pub fn debug_attributes_seen(ledger: &Ledger) -> (r: Vec<(String, String)>)
    requires
        ledger.wf(),
    ensures
        strictly_sorted(pairs_view(r@)),
        pairs_view(r@).no_duplicates(),
        pairs_view(r@).to_set() == ledger.all_seen(),
{
    let r = copy_pairs(&ledger.all);
    proof {
        lemma_sorted_has_no_duplicates(pairs_view(r@));
    }
    r
}

/// A snapshot of the pairs seen so far that are not on the allowlist, each once.
pub fn debug_not_known_good_attributes_seen(ledger: &Ledger) -> (r: Vec<(String, String)>)
    requires
        ledger.wf(),
    ensures
        strictly_sorted(pairs_view(r@)),
        pairs_view(r@).no_duplicates(),
        pairs_view(r@).to_set() == ledger.unknown_seen(),
        forall|k: int| 0 <= k < r@.len() ==> !known_good(r@[k].0@, r@[k].1@),
{
    let r = copy_pairs(&ledger.unknown);
    proof {
        assert forall|k: int| 0 <= k < r@.len() implies !known_good(r@[k].0@, r@[k].1@) by {
            assert(pairs_view(r@)[k] == pair_view(r@[k]));
            assert(pairs_view(r@).to_set().contains(pair_view(r@[k])));
        }
        lemma_sorted_has_no_duplicates(pairs_view(r@));
    }
    r
}

/// Whatever was recorded, every pair recorded as unknown is among the pairs
/// seen, and none of them is on the allowlist. (That each snapshot holds a pair once is in the snapshots' own
/// contracts.)
pub proof fn lemma_unknown_within_all(ledger: &Ledger)
    requires
        ledger.wf(),
    ensures
        ledger.unknown_seen().subset_of(ledger.all_seen()),
        forall|p: PairView| #[trigger] ledger.unknown_seen().contains(p) ==> !known_good(p.0, p.1),
{
}

} // verus!
