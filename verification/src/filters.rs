//! Facts about filtered sequences.

use vstd::prelude::*;

verus! {

/// A filter that everything passes drops nothing.
pub(crate) proof fn lemma_filter_all<A>(s: Seq<A>, keep: spec_fn(A) -> bool)
    requires
        forall|i: int| 0 <= i < s.len() ==> keep(#[trigger] s[i]),
    ensures
        s.filter(keep) == s,
    decreases s.len(),
{
    reveal(Seq::filter);
    if s.len() > 0 {
        let before = s.drop_last();
        assert(forall|i: int| 0 <= i < before.len() ==> before[i] == s[i]);
        lemma_filter_all(before, keep);
        assert(keep(s[s.len() - 1]));
        assert(before.push(s.last()) =~= s);
    }
}

/// What a wide filter drops first, a narrow one behind it would have dropped as well.
pub(crate) proof fn lemma_filter_narrower<A>(
    s: Seq<A>,
    wide: spec_fn(A) -> bool,
    narrow: spec_fn(A) -> bool,
)
    requires
        forall|i: int| 0 <= i < s.len() && narrow(#[trigger] s[i]) ==> wide(s[i]),
    ensures
        s.filter(wide).filter(narrow) == s.filter(narrow),
    decreases s.len(),
{
    if s.len() > 0 {
        let before = s.drop_last();
        let last = s.last();
        assert(forall|i: int| 0 <= i < before.len() ==> before[i] == s[i]);
        lemma_filter_narrower(before, wide, narrow);
        assert(s[s.len() - 1] == last);
        assert(s =~= before.push(last));
        before.lemma_filter_push(last, wide);
        before.lemma_filter_push(last, narrow);
        before.filter(wide).lemma_filter_push(last, narrow);
    } else {
        reveal(Seq::filter);
    }
}

} // verus!
