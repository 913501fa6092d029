//! Work that is handed out to threads.
use rayon::iter::{IntoParallelRefIterator, ParallelIterator};
use vstd::prelude::*;

verus! {

/// Calls `f` on every item, on the threads of `rayon`, and collects the results.
///
/// This is `par_iter().map(f).collect()` of `rayon` into a `Result`. Its contract claims
/// that the collected values stand in the order of the items and are what `f` returned for
/// each of them, and that an error is one that `f` returned for some item.
#[verifier::external_body]
pub(crate) fn parallel_map<T: Sync, U: Send, Er: Send, F: Fn(&T) -> Result<U, Er> + Sync + Send>(
    items: &[T],
    f: F,
) -> (res: Result<Vec<U>, Er>)
    requires
        forall|i: int| 0 <= i < items@.len() ==> call_requires(f, (&#[trigger] items@[i],)),
    ensures
        match res {
            Ok(v) => v@.len() == items@.len() && forall|i: int|
                0 <= i < items@.len() ==> call_ensures(f, (&items@[i],), Ok(#[trigger] v@[i])),
            Err(e) => exists|i: int|
                0 <= i < items@.len() && call_ensures(f, (&#[trigger] items@[i],), Err(e)),
        },
{
    items.par_iter().map(|item| f(item)).collect()
}

} // verus!
