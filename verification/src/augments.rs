//! Augment identifier lists: zero-free, duplicate-free, first occurrences first.
use vstd::prelude::*;

verus! {

/// The non-zero values of `s` at their first occurrence, in order.
pub open spec fn first_occurrences(s: Seq<i32>) -> Seq<i32>
    decreases s.len(),
{
    if s.len() == 0 {
        seq![]
    } else {
        let p = first_occurrences(s.drop_last());
        if s.last() != 0 && !p.contains(s.last()) {
            p.push(s.last())
        } else {
            p
        }
    }
}

/// At most the first `n` elements.
pub open spec fn at_most(s: Seq<i32>, n: nat) -> Seq<i32> {
    if s.len() > n {
        s.take(n as int)
    } else {
        s
    }
}

/// The augment list kept for display: first occurrences of non-zero ids, at most five.
pub open spec fn spec_dedupe_augment_ids(ids: Seq<i32>) -> Seq<i32> {
    at_most(first_occurrences(ids), 5)
}

/// No zero and no value twice.
pub open spec fn zero_free_distinct(s: Seq<i32>) -> bool {
    &&& forall|i: int| 0 <= i < s.len() ==> s[i] != 0
    &&& forall|i: int, j: int| 0 <= i < j < s.len() ==> s[i] != s[j]
}

/// First occurrences of the non-zero values of `ids`, in order.
pub fn first_occurrences_vec(ids: &[i32]) -> (r: Vec<i32>)
    ensures
        r@ == first_occurrences(ids@),
{
    let mut out: Vec<i32> = Vec::new();
    let mut i: usize = 0;
    while i < ids.len()
        invariant
            i <= ids.len(),
            out@ == first_occurrences(ids@.take(i as int)),
        decreases ids.len() - i,
    {
        let x = ids[i];
        assert(ids@.take(i + 1).drop_last() =~= ids@.take(i as int));
        let mut seen = false;
        let mut k: usize = 0;
        while k < out.len()
            invariant
                k <= out.len(),
                seen == (exists|j: int| 0 <= j < k && #[trigger] out@[j] == x),
            decreases out.len() - k,
        {
            if out[k] == x {
                seen = true;
            }
            k += 1;
        }
        assert(seen == out@.contains(x));
        if x != 0 && !seen {
            out.push(x);
        }
        i += 1;
    }
    assert(ids@.take(ids.len() as int) =~= ids@);
    out
}

/// De-duplicates candidate augment ids: zeros dropped, first occurrence kept, at most five.
pub fn dedupe_augment_ids(ids: &[i32]) -> (r: Vec<i32>)
    ensures
        r@ == spec_dedupe_augment_ids(ids@),
{
    let mut out = first_occurrences_vec(ids);
    if out.len() > 5 {
        out.truncate(5);
    }
    out
}

pub proof fn lemma_first_occurrences_zero_free_distinct(s: Seq<i32>)
    ensures
        zero_free_distinct(first_occurrences(s)),
    decreases s.len(),
{
    if s.len() > 0 {
        lemma_first_occurrences_zero_free_distinct(s.drop_last());
    }
}

pub proof fn lemma_first_occurrences_of_distinct(s: Seq<i32>)
    requires
        zero_free_distinct(s),
    ensures
        first_occurrences(s) == s,
    decreases s.len(),
{
    if s.len() > 0 {
        lemma_first_occurrences_of_distinct(s.drop_last());
        assert(!s.drop_last().contains(s.last())) by {
            if s.drop_last().contains(s.last()) {
                let j = choose|j: int| 0 <= j < s.len() - 1 && s.drop_last()[j] == s.last();
                assert(s[j] == s[s.len() - 1]);
            }
        }
        assert(s.drop_last().push(s.last()) =~= s);
    }
}

/// The kept list has no zero and no duplicate, and holds at most five ids.
pub proof fn law_dedupe_shape(ids: Seq<i32>)
    ensures
        zero_free_distinct(spec_dedupe_augment_ids(ids)),
        spec_dedupe_augment_ids(ids).len() <= 5,
{
    lemma_first_occurrences_zero_free_distinct(ids);
}

/// De-duplicating an already de-duplicated list changes nothing.
pub proof fn law_dedupe_idempotent(ids: Seq<i32>)
    ensures
        spec_dedupe_augment_ids(spec_dedupe_augment_ids(ids)) == spec_dedupe_augment_ids(ids),
{
    law_dedupe_shape(ids);
    lemma_first_occurrences_of_distinct(spec_dedupe_augment_ids(ids));
}

/// Every kept id occurs among the candidates.
pub proof fn law_dedupe_keeps_candidates(ids: Seq<i32>)
    ensures
        forall|i: int| 0 <= i < spec_dedupe_augment_ids(ids).len() ==> ids.contains(
            #[trigger] spec_dedupe_augment_ids(ids)[i],
        ),
    decreases ids.len(),
{
    lemma_first_occurrences_in_source(ids);
}

proof fn lemma_first_occurrences_in_source(s: Seq<i32>)
    ensures
        forall|i: int| 0 <= i < first_occurrences(s).len() ==> s.contains(
            #[trigger] first_occurrences(s)[i],
        ),
    decreases s.len(),
{
    if s.len() > 0 {
        lemma_first_occurrences_in_source(s.drop_last());
        let p = first_occurrences(s.drop_last());
        assert forall|i: int| 0 <= i < first_occurrences(s).len() implies s.contains(
            #[trigger] first_occurrences(s)[i],
        ) by {
            if i < p.len() {
                assert(s.drop_last().contains(p[i]));
                let j = choose|j: int| 0 <= j < s.len() - 1 && s.drop_last()[j] == p[i];
                assert(s[j] == p[i]);
            } else {
                assert(s[s.len() - 1] == first_occurrences(s)[i]);
            }
        }
    }
}

} // verus!
