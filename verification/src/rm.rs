//! `rm`: its options and what it does with each operand.
use vstd::prelude::*;
use crate::command::INVALID_COMMAND;
use crate::text::{str_is, words};

verus! {

/// Exit code of `rm` when an operand could not be removed.
pub const RM_FAILED: i32 = -70;

/// Whether `s` asks for recursive removal: `-r`, `-R` or `--recursive`.
pub open spec fn is_recursive_flag(s: Seq<char>) -> bool {
    s == "-r"@ || s == "-R"@ || s == "--recursive"@
}

/// Whether `s` asks for removal of empty directories: `--dir` or `-d`.
pub open spec fn is_dir_flag(s: Seq<char>) -> bool {
    s == "--dir"@ || s == "-d"@
}

/// Whether `s` is one of the options of `rm`.
pub open spec fn is_rm_flag(s: Seq<char>) -> bool {
    is_recursive_flag(s) || is_dir_flag(s)
}

/// The options of an `rm` command line.
#[derive(PartialEq, Eq, Structural, Clone, Copy, Debug)]
pub struct RmOptions {
    /// Index of the first operand: the operands run from here to the end.
    pub first: usize,
    /// Directories are removed with all they hold.
    pub recursive: bool,
    /// Empty directories may be removed.
    pub empty_dirs: bool,
}

/// The options of `rm`: up to two options in the first two places after
/// the command, each of which must be followed by something; the
/// operands follow them. `Err` holds the exit code of a refused line.
pub open spec fn rm_options_spec(args: Seq<Seq<char>>) -> Result<RmOptions, i32> {
    let first_flag = is_rm_flag(args[2]);
    let second_flag = args.len() >= 4 && is_rm_flag(args[3]);
    if first_flag && args.len() <= 3 {
        Err(INVALID_COMMAND)
    } else if second_flag && args.len() <= 4 {
        Err(INVALID_COMMAND)
    } else {
        Ok(
            RmOptions {
                first: (2 + (if first_flag { 1int } else { 0 }) + (if second_flag { 1int } else { 0 })) as usize,
                recursive: is_recursive_flag(args[2]) || (args.len() >= 4 && is_recursive_flag(args[3])),
                empty_dirs: is_dir_flag(args[2]) || (args.len() >= 4 && is_dir_flag(args[3])),
            },
        )
    }
}

fn recursive_flag(s: &String) -> (b: bool)
    ensures
        b == is_recursive_flag(s@),
{
    str_is(s, "-r") || str_is(s, "-R") || str_is(s, "--recursive")
}

fn dir_flag(s: &String) -> (b: bool)
    ensures
        b == is_dir_flag(s@),
{
    str_is(s, "--dir") || str_is(s, "-d")
}

/// Reads the options of the `rm` command line `args`.
pub fn rm_options(args: &Vec<String>) -> (r: Result<RmOptions, i32>)
    requires
        args@.len() >= 3,
    ensures
        r == rm_options_spec(words(args@)),
        r matches Ok(o) ==> {
            &&& o.first == 2 + (if is_rm_flag(args@[2]@) { 1int } else { 0 }) + (if args@.len() >= 4
                && is_rm_flag(args@[3]@) { 1int } else { 0 })
            &&& o.first < args@.len()
            &&& o.recursive <==> (is_recursive_flag(args@[2]@) || (args@.len() >= 4
                && is_recursive_flag(args@[3]@)))
            &&& o.empty_dirs <==> (is_dir_flag(args@[2]@) || (args@.len() >= 4 && is_dir_flag(
                args@[3]@,
            )))
        },
        r is Err ==> r == Err::<RmOptions, i32>(INVALID_COMMAND),
        r is Err <==> ((is_rm_flag(args@[2]@) && args@.len() == 3) || (args@.len() == 4
            && is_rm_flag(args@[3]@))),
{
    let ghost w = words(args@);
    assert(w[2] == args@[2]@);
    assert(args@.len() >= 4 ==> w[3] == args@[3]@);
    assert(w[2] == args@[2]@);
    let first_recursive = recursive_flag(&args[2]);
    let first_dir = dir_flag(&args[2]);
    let mut first: usize = 2;
    if first_recursive || first_dir {
        first = first + 1;
        if args.len() <= 3 {
            return Err(INVALID_COMMAND);
        }
    }
    let mut second_recursive = false;
    let mut second_dir = false;
    if args.len() >= 4 {
        assert(w[3] == args@[3]@);
        second_recursive = recursive_flag(&args[3]);
        second_dir = dir_flag(&args[3]);
    }
    if second_recursive || second_dir {
        first = first + 1;
        if args.len() <= 4 {
            return Err(INVALID_COMMAND);
        }
    }
    Ok(
        RmOptions {
            first,
            recursive: first_recursive || second_recursive,
            empty_dirs: first_dir || second_dir,
        },
    )
}

/// What `rm` does with one operand.
#[derive(PartialEq, Eq, Structural, Clone, Copy, Debug)]
pub enum RmAction {
    /// The operand cannot be removed: count a failure and go on.
    Refuse,
    /// Remove the directory with everything it holds.
    RemoveTree,
    /// Remove the directory, which must be empty.
    RemoveDir,
    /// Remove the file.
    RemoveFile,
}

/// What `rm` does with an operand: a missing one is refused; a directory
/// is removed as a tree with `-r`, else as an empty directory with `-d`,
/// else refused; anything else is removed as a file.
pub open spec fn rm_action_spec(opts: RmOptions, exists: bool, is_dir: bool) -> RmAction {
    if !exists {
        RmAction::Refuse
    } else if is_dir {
        if opts.recursive {
            RmAction::RemoveTree
        } else if opts.empty_dirs {
            RmAction::RemoveDir
        } else {
            RmAction::Refuse
        }
    } else {
        RmAction::RemoveFile
    }
}

/// Decides what `rm` does with an operand that exists (or not) and is a
/// directory (or not).
pub fn rm_action(opts: RmOptions, exists: bool, is_dir: bool) -> (a: RmAction)
    ensures
        a == rm_action_spec(opts, exists, is_dir),
        !exists ==> a == RmAction::Refuse,
        exists && !is_dir ==> a == RmAction::RemoveFile,
        exists && is_dir && opts.recursive ==> a == RmAction::RemoveTree,
        exists && is_dir && !opts.recursive && opts.empty_dirs ==> a == RmAction::RemoveDir,
        exists && is_dir && !opts.recursive && !opts.empty_dirs ==> a == RmAction::Refuse,
{
    if !exists {
        RmAction::Refuse
    } else if is_dir {
        if opts.recursive {
            RmAction::RemoveTree
        } else if opts.empty_dirs {
            RmAction::RemoveDir
        } else {
            RmAction::Refuse
        }
    } else {
        RmAction::RemoveFile
    }
}

/// What `rm` does with an operand, by what it is: nothing is removed that
/// does not exist; a file is always removed as a file, whatever the
/// options; a directory is removed with everything in it whenever a
/// recursive option is given (with or without `-d`), removed as an empty
/// directory under `-d` alone, and refused with neither.
pub proof fn law_rm_action_by_operand(opts: RmOptions, exists: bool, is_dir: bool)
    ensures
        !exists ==> rm_action_spec(opts, exists, is_dir) == RmAction::Refuse,
        exists && !is_dir ==> rm_action_spec(opts, exists, is_dir) == RmAction::RemoveFile,
        exists && is_dir && opts.recursive ==> rm_action_spec(opts, exists, is_dir)
            == RmAction::RemoveTree,
        exists && is_dir && !opts.recursive && opts.empty_dirs ==> rm_action_spec(opts, exists, is_dir)
            == RmAction::RemoveDir,
        exists && is_dir && !opts.recursive && !opts.empty_dirs ==> rm_action_spec(
            opts,
            exists,
            is_dir,
        ) == RmAction::Refuse,
{
}

/// Adding `-d` to a recursive `rm` changes nothing, and adding `-r` to
/// `rm -d` only widens it: what `-d` removes, `-r -d` removes too or
/// removes as a whole tree.
pub proof fn law_rm_options_widen(opts: RmOptions, exists: bool, is_dir: bool)
    ensures
        opts.recursive ==> rm_action_spec(RmOptions { empty_dirs: true, ..opts }, exists, is_dir)
            == rm_action_spec(RmOptions { empty_dirs: false, ..opts }, exists, is_dir),
        rm_action_spec(RmOptions { recursive: false, ..opts }, exists, is_dir) != RmAction::Refuse
            ==> rm_action_spec(RmOptions { recursive: true, ..opts }, exists, is_dir)
            != RmAction::Refuse,
{
}

/// The exit code of `rm` once every operand has been handled: a failure
/// on any operand, whenever it came, makes the whole command fail.
pub fn rm_exit_code(failed: &Vec<bool>) -> (code: i32)
    ensures
        code == if failed@.contains(true) { RM_FAILED } else { 0 },
{
    let mut i: usize = 0;
    while i < failed.len()
        invariant
            i <= failed@.len(),
            forall|j: int| 0 <= j < i ==> !failed@[j],
        decreases failed@.len() - i,
    {
        if failed[i] {
            return RM_FAILED;
        }
        i = i + 1;
    }
    0
}

} // verus!
