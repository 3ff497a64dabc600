//! `cp` and `mv`: their command lines, where a copy goes, and when a move
//! is a rename or a copy followed by a removal.
use vstd::prelude::*;
use crate::command::INVALID_COMMAND;
use crate::path::{file_name, file_name_spec, join, join_spec};
use crate::rm::is_recursive_flag;
use crate::text::{str_is, words};

verus! {

/// Exit code of `cp` when the source cannot be copied.
pub const CP_FAILED: i32 = -90;

/// Exit code of `mv` when the source cannot be moved.
pub const MV_FAILED: i32 = -40;

/// Whether a `cp` command line is recursive, or the exit code that refuses
/// it: without `-r`, `-R` or `--recursive` first it takes two operands,
/// with one of them two operands after it.
pub open spec fn cp_options_spec(args: Seq<Seq<char>>) -> Result<bool, i32> {
    let recursive = is_recursive_flag(args[2]);
    if !recursive && args.len() != 4 {
        Err(INVALID_COMMAND)
    } else if recursive && args.len() != 5 {
        Err(INVALID_COMMAND)
    } else {
        Ok(recursive)
    }
}

/// Reads whether the `cp` command line `args` is recursive.
pub fn cp_options(args: &Vec<String>) -> (r: Result<bool, i32>)
    requires
        args@.len() >= 3,
    ensures
        r == cp_options_spec(words(args@)),
        is_recursive_flag(args@[2]@) ==> (r == if args@.len() == 5 {
            Ok(true)
        } else {
            Err(INVALID_COMMAND)
        }),
        !is_recursive_flag(args@[2]@) ==> (r == if args@.len() == 4 {
            Ok(false)
        } else {
            Err(INVALID_COMMAND)
        }),
{
    let ghost w = words(args@);
    assert(w[2] == args@[2]@);
    let word = &args[2];
    let recursive = str_is(word, "-r") || str_is(word, "-R") || str_is(word, "--recursive");
    if !recursive && args.len() != 4 {
        Err(INVALID_COMMAND)
    } else if recursive && args.len() != 5 {
        Err(INVALID_COMMAND)
    } else {
        Ok(recursive)
    }
}

/// Where a copy of `source` to `dest` goes: into the directory `dest`
/// under the final name of `source`, or to `dest` itself when it is not
/// a directory. Nothing when the copy goes into a directory and `source`
/// has no final name.
pub open spec fn copy_destination_spec(source: Seq<char>, dest: Seq<char>, dest_is_dir: bool) -> Option<
    Seq<char>,
> {
    if !dest_is_dir {
        Some(dest)
    } else {
        match file_name_spec(source) {
            Some(name) => Some(join_spec(dest, name)),
            None => None,
        }
    }
}

/// Where a copy of `source` to `dest` goes, `dest_is_dir` telling whether
/// `dest` is an existing directory.
pub fn copy_destination(source: &String, dest: &String, dest_is_dir: bool) -> (r: Option<String>)
    ensures
        r matches Some(s) ==> copy_destination_spec(source@, dest@, dest_is_dir) == Some(s@),
        r is None ==> copy_destination_spec(source@, dest@, dest_is_dir) is None,
        !dest_is_dir ==> (r matches Some(s) && s@ == dest@),
        dest_is_dir ==> (r is Some <==> file_name_spec(source@) is Some),
        dest_is_dir ==> (r matches Some(s) ==> (file_name_spec(source@) matches Some(n) && s@
            == join_spec(dest@, n))),
{
    if !dest_is_dir {
        return Some(dest.clone());
    }
    match file_name(source.as_str()) {
        Some(name) => Some(join(dest.as_str(), name.as_str())),
        None => None,
    }
}

/// The operands of a copy of one file: the source and the destination,
/// as indices into the command line, after the option if there is one.
pub open spec fn cp_operands(recursive: bool) -> (usize, usize) {
    if recursive {
        (3, 4)
    } else {
        (2, 3)
    }
}

/// Whether a source may be copied as a file: it exists and is not a
/// directory; otherwise `cp` fails.
pub open spec fn cp_source_ok(exists: bool, is_dir: bool) -> bool {
    exists && !is_dir
}

/// Whether a `cp` command line copies a whole tree: it is recursive and
/// its first operand is a directory.
pub fn copies_tree(recursive: bool, first_is_dir: bool) -> (b: bool)
    ensures
        b == (recursive && first_is_dir),
{
    recursive && first_is_dir
}

/// The source and destination of a copy of one file, as indices into the
/// `cp` command line that is recursive (or not).
pub fn file_operands(recursive: bool) -> (r: (usize, usize))
    ensures
        r == cp_operands(recursive),
{
    if recursive {
        (3, 4)
    } else {
        (2, 3)
    }
}

/// Whether a source may be copied as a file; `Err` holds the exit code
/// of `cp` when it may not.
pub fn check_file_source(present: bool, is_dir: bool) -> (r: Result<(), i32>)
    ensures
        r == if cp_source_ok(present, is_dir) {
            Ok(())
        } else {
            Err(CP_FAILED)
        },
{
    if !present || is_dir {
        Err(CP_FAILED)
    } else {
        Ok(())
    }
}

/// What `mv` does.
#[derive(PartialEq, Eq, Structural, Clone, Copy, Debug)]
pub enum MvPlan {
    /// Stop with this exit code, moving nothing.
    Fail { code: i32 },
    /// Rename the source to the destination.
    Rename,
    /// Copy recursively, then remove the source recursively.
    CopyThenRemove,
}

/// What `mv` does: it takes exactly two operands; a missing source fails;
/// a directory is not moved onto an existing destination that is not a
/// directory; any other existing destination makes it a rename; to a
/// destination that does not exist the source is copied and then removed.
pub open spec fn mv_plan_spec(
    count: nat,
    source_exists: bool,
    dest_exists: bool,
    source_is_dir: bool,
    dest_is_dir: bool,
) -> MvPlan {
    if count != 4 {
        MvPlan::Fail { code: INVALID_COMMAND }
    } else if !source_exists {
        MvPlan::Fail { code: MV_FAILED }
    } else if dest_exists {
        if source_is_dir && !dest_is_dir {
            MvPlan::Fail { code: MV_FAILED }
        } else {
            MvPlan::Rename
        }
    } else {
        MvPlan::CopyThenRemove
    }
}

/// Decides what `mv` does with the command line `args`, given what the
/// file system reports of its two operands.
pub fn mv_plan(
    args: &Vec<String>,
    source_exists: bool,
    dest_exists: bool,
    source_is_dir: bool,
    dest_is_dir: bool,
) -> (p: MvPlan)
    ensures
        p == mv_plan_spec(args@.len(), source_exists, dest_exists, source_is_dir, dest_is_dir),
        args@.len() != 4 ==> p == (MvPlan::Fail { code: INVALID_COMMAND }),
        args@.len() == 4 && !source_exists ==> p == (MvPlan::Fail { code: MV_FAILED }),
        args@.len() == 4 && source_exists && !dest_exists ==> p == MvPlan::CopyThenRemove,
        args@.len() == 4 && source_exists && dest_exists && source_is_dir && !dest_is_dir ==> p
            == (MvPlan::Fail { code: MV_FAILED }),
        args@.len() == 4 && source_exists && dest_exists && (!source_is_dir || dest_is_dir) ==> p
            == MvPlan::Rename,
{
    if args.len() != 4 {
        MvPlan::Fail { code: INVALID_COMMAND }
    } else if !source_exists {
        MvPlan::Fail { code: MV_FAILED }
    } else if dest_exists {
        if source_is_dir && !dest_is_dir {
            MvPlan::Fail { code: MV_FAILED }
        } else {
            MvPlan::Rename
        }
    } else {
        MvPlan::CopyThenRemove
    }
}

/// The command line of the copy that a move makes:
/// `cp -r source dest`.
pub fn mv_copy_args(args: &Vec<String>) -> (r: Vec<String>)
    requires
        args@.len() == 4,
    ensures
        words(r@) == seq![args@[0]@, "cp"@, "-r"@, args@[2]@, args@[3]@],
{
    let mut r: Vec<String> = Vec::new();
    r.push(args[0].clone());
    r.push(String::from_str("cp"));
    r.push(String::from_str("-r"));
    r.push(args[2].clone());
    r.push(args[3].clone());
    assert(words(r@) =~= seq![args@[0]@, "cp"@, "-r"@, args@[2]@, args@[3]@]);
    r
}

/// The command line of the removal that a move makes: `rm -r source`.
pub fn mv_remove_args(args: &Vec<String>) -> (r: Vec<String>)
    requires
        args@.len() == 4,
    ensures
        words(r@) == seq![args@[0]@, "rm"@, "-r"@, args@[2]@],
{
    let mut r: Vec<String> = Vec::new();
    r.push(args[0].clone());
    r.push(String::from_str("rm"));
    r.push(String::from_str("-r"));
    r.push(args[2].clone());
    assert(words(r@) =~= seq![args@[0]@, "rm"@, "-r"@, args@[2]@]);
    r
}

/// A move to a name that does not exist copies and then removes, whatever
/// is reported of that missing name; so the move back, made once the
/// source has gone to the destination and the source's name is free,
/// makes the same plan on the swapped operands.
pub proof fn law_move_back_plans_the_same(source_is_dir: bool, dest_is_dir: bool)
    ensures
        mv_plan_spec(4, true, false, source_is_dir, dest_is_dir) == MvPlan::CopyThenRemove,
{
}

} // verus!
