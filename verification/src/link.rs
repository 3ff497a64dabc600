//! `ln`: which link it makes from its command line.
use vstd::prelude::*;
use crate::command::INVALID_COMMAND;
use crate::text::{str_is, words};

verus! {

/// Exit code of `ln` when the link cannot be made.
pub const LN_FAILED: i32 = -50;

/// What `ln` does. Paths are indices into the command line.
#[derive(PartialEq, Eq, Structural, Clone, Copy, Debug)]
pub enum LinkPlan {
    /// Stop with this exit code, making nothing.
    Fail { code: i32 },
    /// Make `link` a symbolic link to `target`.
    Symbolic { target: usize, link: usize },
    /// Make `link` a hard link to `target`.
    Hard { target: usize, link: usize },
}

/// Whether `s` asks for a symbolic link: `-s` or `--symbolic`.
pub open spec fn is_symbolic_flag(s: Seq<char>) -> bool {
    s == "-s"@ || s == "--symbolic"@
}

/// What `ln` does: it needs two operands; with `-s` or `--symbolic` first
/// it makes a symbolic link from the two operands after it; without, it
/// takes exactly two operands and makes a hard link.
pub open spec fn link_plan_spec(args: Seq<Seq<char>>) -> LinkPlan {
    if args.len() <= 3 {
        LinkPlan::Fail { code: LN_FAILED }
    } else if args.len() > 4 && !is_symbolic_flag(args[2]) {
        LinkPlan::Fail { code: INVALID_COMMAND }
    } else if is_symbolic_flag(args[2]) && args.len() <= 4 {
        LinkPlan::Fail { code: LN_FAILED }
    } else if is_symbolic_flag(args[2]) {
        LinkPlan::Symbolic { target: 3, link: 4 }
    } else {
        LinkPlan::Hard { target: 2, link: 3 }
    }
}

/// Decides what `ln` does with the command line `args`.
pub fn link_plan(args: &Vec<String>) -> (p: LinkPlan)
    ensures
        p == link_plan_spec(words(args@)),
        args@.len() <= 3 ==> p == (LinkPlan::Fail { code: LN_FAILED }),
        args@.len() >= 5 && is_symbolic_flag(args@[2]@) ==> p == (LinkPlan::Symbolic { target: 3, link: 4, }),
        args@.len() == 4 && is_symbolic_flag(args@[2]@) ==> p == (LinkPlan::Fail { code: LN_FAILED }),
        args@.len() == 4 && !is_symbolic_flag(args@[2]@) ==> p == (LinkPlan::Hard { target: 2, link: 3 }),
        args@.len() >= 5 && !is_symbolic_flag(args@[2]@) ==> p == (LinkPlan::Fail { code: INVALID_COMMAND, }),
{
    proof {
        if args@.len() >= 3 {
            assert(words(args@)[2] == args@[2]@);
        }
    }
    if args.len() <= 3 {
        return LinkPlan::Fail { code: LN_FAILED };
    }
    let ghost w = words(args@);
    assert(w[2] == args@[2]@);
    let symbolic = str_is(&args[2], "-s") || str_is(&args[2], "--symbolic");
    if args.len() > 4 && !symbolic {
        LinkPlan::Fail { code: INVALID_COMMAND }
    } else if symbolic && args.len() <= 4 {
        LinkPlan::Fail { code: LN_FAILED }
    } else if symbolic {
        LinkPlan::Symbolic { target: 3, link: 4 }
    } else {
        LinkPlan::Hard { target: 2, link: 3 }
    }
}

} // verus!
