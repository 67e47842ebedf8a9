//! Small decisions that more than one command makes.

use vstd::prelude::*;

verus! {

/// Whether a repository counts as dirty: it is in the middle of an
/// operation, or it has changes. `clean_state` says that no operation is
/// under way; `changed` is the number of entries that differ from the last
/// commit, ignored files left out.
pub fn repo_is_dirty(clean_state: bool, changed: usize) -> (r: bool)
    ensures
        r == (!clean_state || changed > 0),
{
    !clean_state || changed > 0
}

} // verus!
