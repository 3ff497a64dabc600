//! `touch`: its option and what it does with each operand.
use vstd::prelude::*;
use crate::text::{str_is, words};

verus! {

/// Exit code of `touch` when a file cannot be opened or made.
pub const TOUCH_FAILED: i32 = -100;

/// The option of a `touch` command line.
#[derive(PartialEq, Eq, Structural, Clone, Copy, Debug)]
pub enum TouchFlag {
    /// No option: the first word after the command is an operand.
    Plain,
    /// `-c` or `--no-create`: do not make files that are missing.
    NoCreate,
    /// `-a`: change the access time.
    Access,
    /// `-m`: change the modification time.
    Modify,
}

/// The option that the word `s` names, `Plain` for any other word.
pub open spec fn touch_flag_spec(s: Seq<char>) -> TouchFlag {
    if s == "-c"@ || s == "--no-create"@ {
        TouchFlag::NoCreate
    } else if s == "-a"@ {
        TouchFlag::Access
    } else if s == "-m"@ {
        TouchFlag::Modify
    } else {
        TouchFlag::Plain
    }
}

/// The options of `touch`: the option named by the first word after the
/// command, and the index of the first operand (after that word when it
/// is an option).
pub open spec fn touch_options_spec(args: Seq<Seq<char>>) -> (TouchFlag, usize) {
    let flag = touch_flag_spec(args[2]);
    (flag, if flag == TouchFlag::Plain { 2 } else { 3 })
}

/// Reads the options of the `touch` command line `args`.
pub fn touch_options(args: &Vec<String>) -> (r: (TouchFlag, usize))
    requires
        args@.len() >= 3,
    ensures
        r == touch_options_spec(words(args@)),
        r.0 == TouchFlag::Plain <==> r.1 == 2,
        r.0 != TouchFlag::Plain <==> r.1 == 3,
        r.0 == TouchFlag::NoCreate <==> (args@[2]@ == "-c"@ || args@[2]@ == "--no-create"@),
        r.0 == TouchFlag::Access <==> args@[2]@ == "-a"@,
        r.0 == TouchFlag::Modify <==> args@[2]@ == "-m"@,
{
    let ghost w = words(args@);
    proof {
        reveal_strlit("-c");
        reveal_strlit("--no-create");
        reveal_strlit("-a");
        reveal_strlit("-m");
        assert("-c"@.len() == 2 && "-c"@[1] == 'c');
        assert("--no-create"@.len() == 11);
        assert("-a"@.len() == 2 && "-a"@[1] == 'a');
        assert("-m"@.len() == 2 && "-m"@[1] == 'm');
    }
    assert(w[2] == args@[2]@);
    let word = &args[2];
    if str_is(word, "-c") || str_is(word, "--no-create") {
        (TouchFlag::NoCreate, 3)
    } else if str_is(word, "-a") {
        (TouchFlag::Access, 3)
    } else if str_is(word, "-m") {
        (TouchFlag::Modify, 3)
    } else {
        (TouchFlag::Plain, 2)
    }
}

/// What `touch` does with one operand, in this order.
#[derive(PartialEq, Eq, Structural, Clone, Copy, Debug)]
pub struct TouchPlan {
    /// Stop at once with success, leaving this and later operands alone.
    pub stop: bool,
    /// Open the file for reading and read from it, which changes its
    /// access time.
    pub access: bool,
    /// Open the file for writing, write and take back a byte, which
    /// changes its modification time.
    pub modify: bool,
    /// Make the file.
    pub create: bool,
}

/// What `touch` does with an operand: with `-c` a missing file ends the
/// command; otherwise an existing file has both its times changed, `-a`
/// and `-m` change one time even of a missing file (and the failure to
/// open it ends the command), and the file is made when its modification
/// time is not to be changed: after the access step, which for a missing
/// file under `-a` fails first, so that only a missing file without an
/// option is made.
pub open spec fn touch_plan_spec(flag: TouchFlag, exists: bool) -> TouchPlan {
    if !exists && flag == TouchFlag::NoCreate {
        TouchPlan { stop: true, access: false, modify: false, create: false }
    } else {
        let access = flag == TouchFlag::Access || flag == TouchFlag::NoCreate || exists;
        let modify = flag == TouchFlag::Modify || flag == TouchFlag::NoCreate || exists;
        TouchPlan { stop: false, access, modify, create: !modify }
    }
}

/// Decides what `touch` does with an operand that exists (or not).
pub fn touch_plan(flag: TouchFlag, exists: bool) -> (p: TouchPlan)
    ensures
        p == touch_plan_spec(flag, exists),
        p.stop <==> (flag == TouchFlag::NoCreate && !exists),
        flag == TouchFlag::Access ==> p.access,
        flag == TouchFlag::Modify ==> p.modify,
        exists ==> p.access && p.modify && !p.create,
        p.create ==> !exists,
        p.create <==> (!exists && (flag == TouchFlag::Plain || flag == TouchFlag::Access)),
        !p.stop ==> (p.create <==> !p.modify),
{
    let no_create = flag == TouchFlag::NoCreate;
    if !exists && no_create {
        return TouchPlan { stop: true, access: false, modify: false, create: false };
    }
    let access = flag == TouchFlag::Access || no_create || exists;
    let modify = flag == TouchFlag::Modify || no_create || exists;
    TouchPlan { stop: false, access, modify, create: !modify }
}

/// What `touch` does by its option and by whether the file exists: `-a`
/// always changes the access time and `-m` the modification time; an
/// existing file has both times changed and is never made; only `-c` on a
/// missing file stops the command; a file is made only when it is missing
/// and the modification time is not asked for.
pub proof fn law_touch_times(flag: TouchFlag, exists: bool)
    ensures
        touch_plan_spec(TouchFlag::Access, exists).access,
        touch_plan_spec(TouchFlag::Modify, exists).modify,
        exists ==> touch_plan_spec(flag, exists).access && touch_plan_spec(flag, exists).modify,
        exists ==> !touch_plan_spec(flag, exists).create && !touch_plan_spec(flag, exists).stop,
        touch_plan_spec(flag, exists).stop <==> (flag == TouchFlag::NoCreate && !exists),
        touch_plan_spec(flag, exists).create <==> (!exists && (flag == TouchFlag::Plain || flag
            == TouchFlag::Access)),
{
}

/// `touch -c` never makes a file.
pub proof fn law_no_create_never_creates(exists: bool)
    ensures
        !touch_plan_spec(TouchFlag::NoCreate, exists).create,
{
}

/// `touch` never makes a file that exists, and without an option makes
/// every file that is missing.
pub proof fn law_creates_only_missing(flag: TouchFlag, exists: bool)
    ensures
        touch_plan_spec(flag, exists).create ==> !exists,
        flag == TouchFlag::Plain ==> (touch_plan_spec(flag, exists).create <==> !exists),
{
}

} // verus!
