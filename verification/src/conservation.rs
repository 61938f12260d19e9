use vstd::prelude::*;

verus! {

/// `close` accepted every pair `(a[i], b[i])`.
pub open spec fn all_pairs_accepted<T, F: Fn(&T, &T) -> bool>(a: Seq<T>, b: Seq<T>, close: F) -> bool {
    forall|i: int| 0 <= i < a.len() ==> call_ensures(close, (&a[i], &b[i]), true)
}

/// Decides whether a quantity given per degree of freedom is conserved:
/// `current` must have as many entries as `initial`, and `close` must accept
/// every pair of corresponding entries. A length mismatch is answered `false`
/// without consulting `close`.
pub fn pairwise_conserved<T, F: Fn(&T, &T) -> bool>(initial: &[T], current: &[T], close: F) -> (r: bool)
    requires
        forall|x: &T, y: &T| call_requires(close, (x, y)),
    ensures
        r ==> initial@.len() == current@.len() && all_pairs_accepted(current@, initial@, close),
        !r ==> initial@.len() != current@.len() || exists|i: int|
            0 <= i < current@.len() && call_ensures(close, (&current@[i], &initial@[i]), false),
{
    if current.len() != initial.len() {
        return false;
    }
    let mut i: usize = 0;
    while i < current.len()
        invariant
            current@.len() == initial@.len(),
            0 <= i <= current@.len(),
            forall|x: &T, y: &T| call_requires(close, (x, y)),
            forall|j: int| 0 <= j < i ==> call_ensures(close, (&current@[j], &initial@[j]), true),
        decreases current@.len() - i,
    {
        let ok = close(&current[i], &initial[i]);
        if !ok {
            return false;
        }
        i = i + 1;
    }
    true
}

} // verus!
