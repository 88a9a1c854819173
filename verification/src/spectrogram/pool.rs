//! Data-parallel fan-out over the worker pool.
use rayon::iter::{IndexedParallelIterator, IntoParallelRefMutIterator, ParallelIterator};
use vstd::prelude::*;

verus! {

/// Replaces every element of `slots` by what `make` returns for its index, on
/// rayon's worker pool. The body is rayon's
/// `par_iter_mut().enumerate().for_each(..)` on the vector.
///
/// Not proved, but taken from rayon: `enumerate` pairs each element with its
/// index and `for_each` runs the closure once on every pair, so afterwards
/// slot `k` holds a result of `make(k)` and the number of slots is unchanged.
/// Nothing is claimed about the order or the threads in which the calls were
/// made. Every caller passes a closure that is one call of a function of this
/// crate.
#[verifier::external_body]
pub(crate) fn par_fill<R: Send, F: Fn(usize) -> R + Sync>(slots: &mut Vec<R>, make: &F)
    requires
        forall|k: usize| k < old(slots)@.len() ==> call_requires(*make, (k,)),
    ensures
        final(slots)@.len() == old(slots)@.len(),
        forall|k: int|
            0 <= k < final(slots)@.len() ==> call_ensures(
                *make,
                (k as usize,),
                #[trigger] final(slots)@[k],
            ),
{
    slots.par_iter_mut().enumerate().for_each(
        |(k, slot)|
            {
                *slot = make(k);
            },
    );
}

} // verus!
