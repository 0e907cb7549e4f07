use vstd::prelude::*;
use vstd::set_lib::{lemma_len_subset, lemma_set_intersect_union_lens};

verus! {

/// The largest number of faulty replicas that `n` PBFT replicas tolerate.
pub open spec fn pbft_faults(n: nat) -> nat {
    ((n - 1) as nat) / 3
}

/// The PBFT quorum for `n` replicas: `2f + 1`.
pub open spec fn pbft_quorum(n: nat) -> nat {
    2 * pbft_faults(n) + 1
}

/// Every member of `s` is a replica id below `n`.
pub open spec fn within(s: Set<usize>, n: nat) -> bool {
    forall|x: usize| #[trigger] s.contains(x) ==> (x as nat) < n
}

/// A set of replica ids below `n` has at most `n` members.
pub proof fn lemma_within_len(s: Set<usize>, n: nat)
    requires
        s.finite(),
        within(s, n),
    ensures
        s.len() <= n,
    decreases n,
{
    if n == 0 {
        assert(s =~= Set::<usize>::empty());
    } else if s.len() > 0 {
        let top = (n - 1) as nat;
        if top <= usize::MAX {
            let t = s.remove(top as usize);
            assert forall|x: usize| #[trigger] t.contains(x) implies (x as nat) < top by {}
            lemma_within_len(t, top);
        } else {
            assert forall|x: usize| #[trigger] s.contains(x) implies (x as nat) < top by {}
            lemma_within_len(s, top);
        }
    }
}

/// Two sets of replica ids below `n` share at least `|a| + |b| - n` members.
pub proof fn lemma_overlap(a: Set<usize>, b: Set<usize>, n: nat)
    requires
        a.finite(),
        b.finite(),
        within(a, n),
        within(b, n),
    ensures
        a.intersect(b).len() + n >= a.len() + b.len(),
{
    lemma_set_intersect_union_lens(a, b);
    assert forall|x: usize| #[trigger] (a + b).contains(x) implies (x as nat) < n by {
        if a.contains(x) {
        } else {
            assert(b.contains(x));
        }
    }
    lemma_within_len(a + b, n);
}

/// PBFT safety: with `n = 3f + 1` replicas of which at most `f` are faulty,
/// two commit certificates of `2f + 1` senders each, one for hash `h1` and
/// one for `h2`, certify the same hash whenever each correct replica casts
/// a single commit vote (`vote`) per `(view, sequence)`.
pub proof fn lemma_pbft_agreement(
    n: nat,
    a: Set<usize>,
    b: Set<usize>,
    faulty: Set<usize>,
    vote: spec_fn(usize) -> Seq<char>,
    h1: Seq<char>,
    h2: Seq<char>,
)
    requires
        n >= 1,
        (n - 1) % 3 == 0,
        a.finite(),
        b.finite(),
        faulty.finite(),
        within(a, n),
        within(b, n),
        a.len() >= pbft_quorum(n),
        b.len() >= pbft_quorum(n),
        faulty.len() <= pbft_faults(n),
        forall|x: usize| #[trigger] a.contains(x) && !faulty.contains(x) ==> vote(x) == h1,
        forall|x: usize| #[trigger] b.contains(x) && !faulty.contains(x) ==> vote(x) == h2,
    ensures
        h1 == h2,
{
    let both = a.intersect(b);
    lemma_overlap(a, b, n);
    lemma_len_subset(both, a);
    let correct = both.difference(faulty);
    if correct.len() == 0 {
        assert forall|x: usize| #[trigger] both.contains(x) implies faulty.contains(x) by {
            if !faulty.contains(x) {
                assert(correct.contains(x));
            }
        }
        assert(both.subset_of(faulty));
        lemma_len_subset(both, faulty);
        assert(false);
    } else {
        let x = correct.choose();
        assert(correct.contains(x));
        assert(vote(x) == h1);
        assert(vote(x) == h2);
    }
}

/// Flexible-Paxos intersection: when `q1 + q2 > n`, every phase-1 quorum
/// meets every phase-2 quorum among `n` acceptors.
pub proof fn lemma_phase_quorums_intersect(a: Set<usize>, b: Set<usize>, n: nat, q1: nat, q2: nat)
    requires
        q1 + q2 > n,
        a.finite(),
        b.finite(),
        within(a, n),
        within(b, n),
        a.len() >= q1,
        b.len() >= q2,
    ensures
        exists|x: usize| a.contains(x) && b.contains(x),
{
    lemma_overlap(a, b, n);
    let both = a.intersect(b);
    assert(both.len() > 0);
    let x = both.choose();
    assert(both.contains(x));
}

} // verus!
