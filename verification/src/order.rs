//! Rearranging and filtering sequences.

use vstd::multiset::Multiset;
use vstd::prelude::*;

verus! {

/// `a` and `b` hold the same items, each as often, in any order.
pub open spec fn rearranged<A>(a: Seq<A>, b: Seq<A>) -> bool {
    a.to_multiset() == b.to_multiset()
}

/// What a filter leaves of a sequence depends on its items alone, not on their
/// order.
pub proof fn lemma_filter_multiset<A>(s: Seq<A>, keep: spec_fn(A) -> bool)
    ensures
        s.filter(keep).to_multiset() == s.to_multiset().filter(keep),
    decreases s.len(),
{
    broadcast use vstd::seq_lib::group_to_multiset_ensures;

    reveal(Seq::filter);
    if s.len() == 0 {
        assert(s.to_multiset() =~= Multiset::empty());
        assert(s.filter(keep).to_multiset() =~= s.to_multiset().filter(keep));
    } else {
        let shorter = s.drop_last();
        lemma_filter_multiset(shorter, keep);
        assert(s =~= shorter.push(s.last()));
        assert(s.filter(keep).to_multiset() =~= s.to_multiset().filter(keep));
    }
}

/// What is made of the items of a rearranged sequence is rearranged likewise.
pub proof fn lemma_map_rearranged<A, B>(a: Seq<A>, b: Seq<A>, f: spec_fn(A) -> B)
    requires
        rearranged(a, b),
    ensures
        rearranged(a.map_values(f), b.map_values(f)),
    decreases a.len(),
{
    broadcast use vstd::seq_lib::group_to_multiset_ensures;

    assert(a.to_multiset().len() == a.len() && b.to_multiset().len() == b.len());
    if a.len() == 0 {
        assert(a.map_values(f) =~= b.map_values(f));
    } else {
        let last = a.last();
        assert(a =~= a.drop_last().push(last));
        assert(a.contains(last));
        assert(b.to_multiset().count(last) > 0);
        let at = b.index_of(last);
        let rest = b.remove(at);
        assert(rest.to_multiset() =~= a.drop_last().to_multiset());
        lemma_map_rearranged(a.drop_last(), rest, f);
        assert(a.map_values(f) =~= a.drop_last().map_values(f).push(f(last)));
        assert(b.map_values(f) =~= rest.map_values(f).insert(at, f(last)));
        vstd::seq_lib::to_multiset_insert(rest.map_values(f), at, f(last));
    }
}

/// A filter leaves nothing exactly where no item passes it.
pub proof fn lemma_filter_none<A>(s: Seq<A>, keep: spec_fn(A) -> bool)
    ensures
        s.filter(keep).len() == 0 <==> forall|j: int| 0 <= j < s.len() ==> !keep(#[trigger] s[j]),
    decreases s.len(),
{
    reveal(Seq::filter);
    if s.len() > 0 {
        let shorter = s.drop_last();
        lemma_filter_none(shorter, keep);
        if s.filter(keep).len() == 0 {
            assert forall|j: int| 0 <= j < s.len() implies !keep(#[trigger] s[j]) by {
                if j < shorter.len() {
                    assert(!keep(shorter[j]));
                }
            }
        } else if forall|j: int| 0 <= j < s.len() ==> !keep(#[trigger] s[j]) {
            assert forall|j: int| 0 <= j < shorter.len() implies !keep(#[trigger] shorter[j]) by {
                assert(!keep(s[j]));
            }
            assert(!keep(s[s.len() - 1]));
        }
    }
}

/// The item at `at` is the only one that passes a filter.
pub open spec fn only_passes<A>(s: Seq<A>, keep: spec_fn(A) -> bool, at: int) -> bool {
    &&& 0 <= at < s.len()
    &&& keep(s[at])
    &&& forall|j: int| 0 <= j < s.len() && j != at ==> !keep(#[trigger] s[j])
}

/// A filter that a single item passes leaves that item.
pub proof fn lemma_filter_only<A>(s: Seq<A>, keep: spec_fn(A) -> bool, at: int)
    requires
        only_passes(s, keep, at),
    ensures
        s.filter(keep) == seq![s[at]],
    decreases s.len(),
{
    reveal(Seq::filter);
    let shorter = s.drop_last();
    if at == s.len() - 1 {
        assert forall|j: int| 0 <= j < shorter.len() implies !keep(#[trigger] shorter[j]) by {
            assert(!keep(s[j]));
        }
        lemma_filter_none(shorter, keep);
        assert(s.filter(keep) =~= seq![s[at]]);
    } else {
        assert(!keep(s[s.len() - 1]));
        assert(only_passes(shorter, keep, at)) by {
            assert forall|j: int| 0 <= j < shorter.len() && j != at implies !keep(
                #[trigger] shorter[j],
            ) by {
                assert(!keep(s[j]));
            }
        }
        lemma_filter_only(shorter, keep, at);
    }
}

/// Where a filter leaves a single item, there is one place from which it comes.
pub proof fn lemma_only_filtered<A>(s: Seq<A>, keep: spec_fn(A) -> bool) -> (at: int)
    requires
        s.filter(keep).len() == 1,
    ensures
        only_passes(s, keep, at),
    decreases s.len(),
{
    reveal(Seq::filter);
    let shorter = s.drop_last();
    if keep(s.last()) {
        lemma_filter_none(shorter, keep);
        assert forall|j: int| 0 <= j < s.len() && j != s.len() - 1 implies !keep(
            #[trigger] s[j],
        ) by {
            assert(!keep(shorter[j]));
        }
        s.len() - 1
    } else {
        let at = lemma_only_filtered(shorter, keep);
        assert forall|j: int| 0 <= j < s.len() && j != at implies !keep(#[trigger] s[j]) by {
            if j < shorter.len() {
                assert(!keep(shorter[j]));
            }
        }
        at
    }
}

} // verus!
