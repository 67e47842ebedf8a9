//! The helper that turns a list around.

use vstd::prelude::*;

verus! {

/// The helper that turns a list around.
#[derive(Clone, Copy, Debug)]
pub struct ReverseHelper;

impl ReverseHelper {
    /// The items of `list`, the last one first.
    pub fn reverse<T>(list: Vec<T>) -> (r: Vec<T>)
        ensures
            r@ == list@.reverse(),
    {
        let mut rest = list;
        let mut out: Vec<T> = Vec::new();
        let ghost all = rest@;
        while rest.len() > 0
            invariant
                rest@.len() + out@.len() == all.len(),
                rest@ == all.take(rest@.len() as int),
                forall|k: int| 0 <= k < out@.len() ==> out@[k] == all[all.len() - 1 - k],
            decreases rest.len(),
        {
            match rest.pop() {
                Some(item) => {
                    out.push(item);
                    assert(rest@ =~= all.take(rest@.len() as int));
                },
                None => {},
            }
        }
        assert(out@ =~= all.reverse());
        out
    }
}

} // verus!
