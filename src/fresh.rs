use vstd::prelude::*;
use vstd::set_lib::lemma_len_subset;

verus! {

/// The number of distinct 128-bit values.
pub open spec fn id_space() -> int {
    u128::MAX as int + 1
}

/// The `k`-th candidate tried after drawing `drawn`: `drawn + k`, wrapping
/// around past the largest 128-bit value.
pub open spec fn probe(drawn: u128, k: nat) -> u128 {
    let s = drawn as int + k as int;
    if s < id_space() {
        s as u128
    } else {
        (s - id_space()) as u128
    }
}

/// `probe(drawn, k)` is the first candidate that `taken` does not hold.
pub open spec fn first_free(drawn: u128, taken: Set<u128>, k: nat) -> bool {
    &&& !taken.contains(probe(drawn, k))
    &&& forall|j: nat| j < k ==> taken.contains(#[trigger] probe(drawn, j))
}

/// The candidate that follows `c`, wrapping around.
pub(crate) fn next_candidate(c: u128, Ghost(drawn): Ghost<u128>, Ghost(k): Ghost<nat>) -> (r: u128)
    requires
        c == probe(drawn, k),
        k < id_space() - 1,
    ensures
        r == probe(drawn, k + 1),
{
    if c == u128::MAX {
        0
    } else {
        c + 1
    }
}

/// When the first `k` candidates are all taken, at least `k` values are taken.
pub proof fn lemma_probes_fit(drawn: u128, taken: Set<u128>, k: nat)
    requires
        taken.finite(),
        k <= id_space(),
        forall|j: nat| j < k ==> taken.contains(#[trigger] probe(drawn, j)),
    ensures
        k <= taken.len(),
{
    let probes = Seq::new(k, |j: int| probe(drawn, j as nat));
    assert(probes.no_duplicates()) by {
        assert forall|a: int, b: int| 0 <= a < probes.len() && 0 <= b < probes.len() && a != b
            implies probes[a] != probes[b] by {
            assert(probes[a] == probe(drawn, a as nat));
            assert(probes[b] == probe(drawn, b as nat));
        }
    }
    probes.unique_seq_to_set();
    assert(probes.to_set().subset_of(taken)) by {
        assert forall|x: u128| probes.to_set().contains(x) implies taken.contains(x) by {
            let i = choose|i: int| 0 <= i < probes.len() && probes[i] == x;
            assert(probes[i] == probe(drawn, i as nat));
        }
    }
    lemma_len_subset(probes.to_set(), taken);
}

} // verus!
