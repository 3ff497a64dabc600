//! The step of a walk over a directory tree, as `rm -r` and `cp -r` take
//! it: descend into a directory, act on anything else.
use vstd::prelude::*;

verus! {

/// What a walk over a directory tree does with one entry.
#[derive(PartialEq, Eq, Structural, Clone, Copy, Debug)]
pub enum WalkStep {
    /// Walk the directory the entry is, then go on.
    Descend,
    /// Remove or copy the entry itself; a failure stops the command with
    /// its exit code.
    Act,
}

/// The step for an entry that is a directory (or not).
pub fn walk_step(is_dir: bool) -> (s: WalkStep)
    ensures
        s == if is_dir { WalkStep::Descend } else { WalkStep::Act },
{
    if is_dir {
        WalkStep::Descend
    } else {
        WalkStep::Act
    }
}

} // verus!
