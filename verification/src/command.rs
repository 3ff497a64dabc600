//! Choosing the command from the second word of the command line.
use vstd::prelude::*;
use crate::text::{str_is, words};

verus! {

/// Exit code of a command line that names no valid command or form; the
/// toolbox writes `Invalid command` before it stops with it.
pub const INVALID_COMMAND: i32 = -1;

/// Exit code of `cat` when a file cannot be read.
pub const CAT_FAILED: i32 = -20;

/// Exit code of `mkdir` when a directory cannot be made.
pub const MKDIR_FAILED: i32 = -30;

/// Exit code of `rmdir` when a directory cannot be removed.
pub const RMDIR_FAILED: i32 = -60;

/// The commands of the toolbox.
#[derive(PartialEq, Eq, Structural, Clone, Copy, Debug)]
pub enum Command {
    Pwd,
    Echo,
    Cat,
    Mkdir,
    Rmdir,
    Chmod,
    Rm,
    Touch,
    Ls,
    Ln,
    Grep,
    Cp,
    Mv,
}

/// The name by which a command is called.
pub open spec fn command_name(c: Command) -> Seq<char> {
    match c {
        Command::Pwd => "pwd"@,
        Command::Echo => "echo"@,
        Command::Cat => "cat"@,
        Command::Mkdir => "mkdir"@,
        Command::Rmdir => "rmdir"@,
        Command::Chmod => "chmod"@,
        Command::Rm => "rm"@,
        Command::Touch => "touch"@,
        Command::Ls => "ls"@,
        Command::Ln => "ln"@,
        Command::Grep => "grep"@,
        Command::Cp => "cp"@,
        Command::Mv => "mv"@,
    }
}

/// The command called `name`, if any.
pub open spec fn command_named(name: Seq<char>) -> Option<Command> {
    if name == "pwd"@ {
        Some(Command::Pwd)
    } else if name == "echo"@ {
        Some(Command::Echo)
    } else if name == "cat"@ {
        Some(Command::Cat)
    } else if name == "mkdir"@ {
        Some(Command::Mkdir)
    } else if name == "rmdir"@ {
        Some(Command::Rmdir)
    } else if name == "chmod"@ {
        Some(Command::Chmod)
    } else if name == "rm"@ {
        Some(Command::Rm)
    } else if name == "touch"@ {
        Some(Command::Touch)
    } else if name == "ls"@ {
        Some(Command::Ls)
    } else if name == "ln"@ {
        Some(Command::Ln)
    } else if name == "grep"@ {
        Some(Command::Grep)
    } else if name == "cp"@ {
        Some(Command::Cp)
    } else if name == "mv"@ {
        Some(Command::Mv)
    } else {
        None
    }
}

/// The command of a command line: the one named by its second word;
/// none when there is no second word or it names no command.
pub open spec fn command_spec(args: Seq<Seq<char>>) -> Option<Command> {
    if args.len() <= 1 {
        None
    } else {
        command_named(args[1])
    }
}

/// Chooses the command of the command line `args`.
pub fn parse_command(args: &Vec<String>) -> (c: Option<Command>)
    ensures
        c == command_spec(words(args@)),
        args@.len() <= 1 ==> c is None,
        args@.len() >= 2 && args@[1]@ == "pwd"@ ==> c == Some(Command::Pwd),
        args@.len() >= 2 && args@[1]@ == "echo"@ ==> c == Some(Command::Echo),
        args@.len() >= 2 && args@[1]@ == "cat"@ ==> c == Some(Command::Cat),
        args@.len() >= 2 && args@[1]@ == "mkdir"@ ==> c == Some(Command::Mkdir),
        args@.len() >= 2 && args@[1]@ == "rmdir"@ ==> c == Some(Command::Rmdir),
        args@.len() >= 2 && args@[1]@ == "chmod"@ ==> c == Some(Command::Chmod),
        args@.len() >= 2 && args@[1]@ == "rm"@ ==> c == Some(Command::Rm),
        args@.len() >= 2 && args@[1]@ == "touch"@ ==> c == Some(Command::Touch),
        args@.len() >= 2 && args@[1]@ == "ls"@ ==> c == Some(Command::Ls),
        args@.len() >= 2 && args@[1]@ == "ln"@ ==> c == Some(Command::Ln),
        args@.len() >= 2 && args@[1]@ == "grep"@ ==> c == Some(Command::Grep),
        args@.len() >= 2 && args@[1]@ == "cp"@ ==> c == Some(Command::Cp),
        args@.len() >= 2 && args@[1]@ == "mv"@ ==> c == Some(Command::Mv),
{
    proof {
        if args@.len() >= 2 {
            assert(words(args@)[1] == args@[1]@);
            lemma_name_letters();
        }
    }
    if args.len() <= 1 {
        return None;
    }
    let ghost w = words(args@);
    assert(w[1] == args@[1]@);
    let name = &args[1];
    if str_is(name, "pwd") {
        Some(Command::Pwd)
    } else if str_is(name, "echo") {
        Some(Command::Echo)
    } else if str_is(name, "cat") {
        Some(Command::Cat)
    } else if str_is(name, "mkdir") {
        Some(Command::Mkdir)
    } else if str_is(name, "rmdir") {
        Some(Command::Rmdir)
    } else if str_is(name, "chmod") {
        Some(Command::Chmod)
    } else if str_is(name, "rm") {
        Some(Command::Rm)
    } else if str_is(name, "touch") {
        Some(Command::Touch)
    } else if str_is(name, "ls") {
        Some(Command::Ls)
    } else if str_is(name, "ln") {
        Some(Command::Ln)
    } else if str_is(name, "grep") {
        Some(Command::Grep)
    } else if str_is(name, "cp") {
        Some(Command::Cp)
    } else if str_is(name, "mv") {
        Some(Command::Mv)
    } else {
        None
    }
}

/// The length and first two letters of each command name, which tell
/// the names apart.
proof fn lemma_name_letters()
    ensures
        "pwd"@.len() == 3 && "pwd"@[0] == 'p' && "pwd"@[1] == 'w',
        "echo"@.len() == 4 && "echo"@[0] == 'e' && "echo"@[1] == 'c',
        "cat"@.len() == 3 && "cat"@[0] == 'c' && "cat"@[1] == 'a',
        "mkdir"@.len() == 5 && "mkdir"@[0] == 'm' && "mkdir"@[1] == 'k',
        "rmdir"@.len() == 5 && "rmdir"@[0] == 'r' && "rmdir"@[1] == 'm',
        "chmod"@.len() == 5 && "chmod"@[0] == 'c' && "chmod"@[1] == 'h',
        "rm"@.len() == 2 && "rm"@[0] == 'r' && "rm"@[1] == 'm',
        "touch"@.len() == 5 && "touch"@[0] == 't' && "touch"@[1] == 'o',
        "ls"@.len() == 2 && "ls"@[0] == 'l' && "ls"@[1] == 's',
        "ln"@.len() == 2 && "ln"@[0] == 'l' && "ln"@[1] == 'n',
        "grep"@.len() == 4 && "grep"@[0] == 'g' && "grep"@[1] == 'r',
        "cp"@.len() == 2 && "cp"@[0] == 'c' && "cp"@[1] == 'p',
        "mv"@.len() == 2 && "mv"@[0] == 'm' && "mv"@[1] == 'v',
{
    reveal_strlit("pwd");
    reveal_strlit("echo");
    reveal_strlit("cat");
    reveal_strlit("mkdir");
    reveal_strlit("rmdir");
    reveal_strlit("chmod");
    reveal_strlit("rm");
    reveal_strlit("touch");
    reveal_strlit("ls");
    reveal_strlit("ln");
    reveal_strlit("grep");
    reveal_strlit("cp");
    reveal_strlit("mv");
}

/// Every command is chosen by its own name.
pub proof fn law_command_by_name(c: Command)
    ensures
        command_named(command_name(c)) == Some(c),
{
    lemma_name_letters();
}

} // verus!
