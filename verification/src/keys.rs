//! Lists of keys, and walking through one.

use vstd::prelude::*;

verus! {

/// Whether `keys` lists the keys in `wanted`: all of them, each once, and no other.
pub open spec fn lists(keys: Seq<String>, wanted: Set<Seq<char>>) -> bool {
    &&& forall|i: int| 0 <= i < keys.len() ==> wanted.contains((#[trigger] keys[i])@)
    &&& forall|k: Seq<char>| #[trigger]
        wanted.contains(k) ==> exists|i: int| 0 <= i < keys.len() && (#[trigger] keys[i])@ == k
    &&& forall|i: int, j: int|
        0 <= i < keys.len() && 0 <= j < keys.len() && i != j ==> (#[trigger] keys[i])@ != (
        #[trigger] keys[j])@
}

/// Whether `k` is among the first `n` of `keys`.
pub open spec fn seen(keys: Seq<String>, n: int, k: Seq<char>) -> bool {
    exists|j: int| 0 <= j < n && (#[trigger] keys[j])@ == k
}

/// One more key is looked at.
pub proof fn lemma_seen_next(keys: Seq<String>, n: int, k: Seq<char>)
    requires
        0 <= n < keys.len(),
    ensures
        seen(keys, n + 1, k) <==> seen(keys, n, k) || keys[n]@ == k,
{
    if seen(keys, n, k) {
        let j = choose|j: int| 0 <= j < n && (#[trigger] keys[j])@ == k;
        assert(0 <= j < n + 1 && keys[j]@ == k);
    }
    if keys[n]@ == k {
        assert(0 <= n < n + 1 && keys[n]@ == k);
    }
}

/// Once all keys are looked at, the keys seen are the keys listed.
pub proof fn lemma_seen_all(keys: Seq<String>, wanted: Set<Seq<char>>, k: Seq<char>)
    requires
        lists(keys, wanted),
    ensures
        seen(keys, keys.len() as int, k) <==> wanted.contains(k),
{
    if seen(keys, keys.len() as int, k) {
        let j = choose|j: int| 0 <= j < keys.len() && (#[trigger] keys[j])@ == k;
        assert(wanted.contains(keys[j]@));
    }
}

} // verus!
