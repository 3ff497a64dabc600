use rustybox::command::{parse_command, Command};
use rustybox::copy::{
    check_file_source, copy_destination, copies_tree, cp_options, file_operands, mv_copy_args, mv_plan, mv_remove_args, MvPlan,
    CP_FAILED, MV_FAILED,
};
use rustybox::echo::echo_text;
use rustybox::link::{link_plan, LinkPlan, LN_FAILED};
use rustybox::rm::{rm_action, rm_exit_code, rm_options, RmAction, RmOptions, RM_FAILED};
use rustybox::walk::{walk_step, WalkStep};
use rustybox::touch::{touch_options, touch_plan, TouchFlag, TouchPlan};

fn line(words: &[&str]) -> Vec<String> {
    words.iter().map(|w| w.to_string()).collect()
}

#[test]
fn command_chosen_by_second_word() {
    assert_eq!(parse_command(&line(&["rb", "ls"])), Some(Command::Ls));
    assert_eq!(parse_command(&line(&["rb", "mv", "a", "b"])), Some(Command::Mv));
    assert_eq!(parse_command(&line(&["rb", "chmod"])), Some(Command::Chmod));
    assert_eq!(parse_command(&line(&["rb"])), None);
    assert_eq!(parse_command(&line(&[])), None);
    assert_eq!(parse_command(&line(&["rb", "dir"])), None);
    assert_eq!(parse_command(&line(&["rb", "LS"])), None);
}

#[test]
fn echo_without_operands_writes_newline() {
    assert_eq!(echo_text(&line(&["rb", "echo"])), "\n");
}

#[test]
fn echo_joins_with_spaces_and_newline() {
    assert_eq!(echo_text(&line(&["rb", "echo", "a", "bc", "d"])), "a bc d\n");
    assert_eq!(echo_text(&line(&["rb", "echo", "x"])), "x\n");
    assert_eq!(echo_text(&line(&["rb", "echo", "", "y"])), " y\n");
}

#[test]
fn echo_n_drops_newline() {
    assert_eq!(echo_text(&line(&["rb", "echo", "-n", "a", "b"])), "a b");
    assert_eq!(echo_text(&line(&["rb", "echo", "-n"])), "");
    assert_eq!(echo_text(&line(&["rb", "echo", "a", "-n"])), "a -n\n");
}

#[test]
fn rm_options_read() {
    assert_eq!(
        rm_options(&line(&["rb", "rm", "a", "b"])),
        Ok(RmOptions { first: 2, recursive: false, empty_dirs: false })
    );
    assert_eq!(
        rm_options(&line(&["rb", "rm", "-r", "a"])),
        Ok(RmOptions { first: 3, recursive: true, empty_dirs: false })
    );
    assert_eq!(
        rm_options(&line(&["rb", "rm", "--dir", "-R", "a"])),
        Ok(RmOptions { first: 4, recursive: true, empty_dirs: true })
    );
    assert_eq!(
        rm_options(&line(&["rb", "rm", "-d", "a"])),
        Ok(RmOptions { first: 3, recursive: false, empty_dirs: true })
    );
}

#[test]
fn rm_option_without_operand_is_invalid() {
    assert_eq!(rm_options(&line(&["rb", "rm", "-r"])), Err(-1));
    assert_eq!(rm_options(&line(&["rb", "rm", "-r", "-d"])), Err(-1));
    assert_eq!(rm_options(&line(&["rb", "rm", "a", "--recursive"])), Err(-1));
}

#[test]
fn rm_actions() {
    let plain = RmOptions { first: 2, recursive: false, empty_dirs: false };
    let rec = RmOptions { first: 3, recursive: true, empty_dirs: true };
    let dir = RmOptions { first: 3, recursive: false, empty_dirs: true };
    assert_eq!(rm_action(plain, false, false), RmAction::Refuse);
    assert_eq!(rm_action(rec, false, true), RmAction::Refuse);
    assert_eq!(rm_action(plain, true, false), RmAction::RemoveFile);
    assert_eq!(rm_action(plain, true, true), RmAction::Refuse);
    assert_eq!(rm_action(rec, true, true), RmAction::RemoveTree);
    assert_eq!(rm_action(dir, true, true), RmAction::RemoveDir);
    assert_eq!(rm_action(rec, true, false), RmAction::RemoveFile);
}

#[test]
fn rm_fails_when_any_operand_failed() {
    assert_eq!(rm_exit_code(&vec![]), 0);
    assert_eq!(rm_exit_code(&vec![false, false]), 0);
    assert_eq!(rm_exit_code(&vec![true, false, false]), RM_FAILED);
    assert_eq!(rm_exit_code(&vec![false, false, true]), -70);
}

#[test]
fn touch_options_read() {
    assert_eq!(touch_options(&line(&["rb", "touch", "f"])), (TouchFlag::Plain, 2));
    assert_eq!(touch_options(&line(&["rb", "touch", "-c", "f"])), (TouchFlag::NoCreate, 3));
    assert_eq!(touch_options(&line(&["rb", "touch", "--no-create"])), (TouchFlag::NoCreate, 3));
    assert_eq!(touch_options(&line(&["rb", "touch", "-a", "f"])), (TouchFlag::Access, 3));
    assert_eq!(touch_options(&line(&["rb", "touch", "-m", "f"])), (TouchFlag::Modify, 3));
}

#[test]
fn touch_plans() {
    let make = TouchPlan { stop: false, access: false, modify: false, create: true };
    let both = TouchPlan { stop: false, access: true, modify: true, create: false };
    assert_eq!(touch_plan(TouchFlag::Plain, false), make);
    assert_eq!(touch_plan(TouchFlag::Plain, true), both);
    assert_eq!(touch_plan(TouchFlag::NoCreate, true), both);
    assert_eq!(
        touch_plan(TouchFlag::NoCreate, false),
        TouchPlan { stop: true, access: false, modify: false, create: false }
    );
    assert_eq!(
        touch_plan(TouchFlag::Access, false),
        TouchPlan { stop: false, access: true, modify: false, create: true }
    );
    assert_eq!(
        touch_plan(TouchFlag::Modify, false),
        TouchPlan { stop: false, access: false, modify: true, create: false }
    );
    assert_eq!(touch_plan(TouchFlag::Modify, true), both);
}

#[test]
fn touch_no_create_never_creates() {
    assert!(!touch_plan(TouchFlag::NoCreate, false).create);
    assert!(!touch_plan(TouchFlag::NoCreate, true).create);
}

#[test]
fn link_plans() {
    assert_eq!(link_plan(&line(&["rb", "ln", "a"])), LinkPlan::Fail { code: LN_FAILED });
    assert_eq!(link_plan(&line(&["rb", "ln", "a", "b"])), LinkPlan::Hard { target: 2, link: 3 });
    assert_eq!(link_plan(&line(&["rb", "ln", "-s", "a"])), LinkPlan::Fail { code: -50 });
    assert_eq!(link_plan(&line(&["rb", "ln", "-s", "a", "b"])), LinkPlan::Symbolic { target: 3, link: 4 });
    assert_eq!(
        link_plan(&line(&["rb", "ln", "--symbolic", "a", "b", "c"])),
        LinkPlan::Symbolic { target: 3, link: 4 }
    );
    assert_eq!(link_plan(&line(&["rb", "ln", "a", "b", "c"])), LinkPlan::Fail { code: -1 });
}

#[test]
fn cp_command_lines() {
    assert_eq!(cp_options(&line(&["rb", "cp", "a", "b"])), Ok(false));
    assert_eq!(cp_options(&line(&["rb", "cp", "-r", "a", "b"])), Ok(true));
    assert_eq!(cp_options(&line(&["rb", "cp", "--recursive", "a", "b"])), Ok(true));
    assert_eq!(cp_options(&line(&["rb", "cp", "a", "b", "c"])), Err(-1));
    assert_eq!(cp_options(&line(&["rb", "cp", "-R", "a"])), Err(-1));
}

#[test]
fn cp_file_sources() {
    assert_eq!(file_operands(false), (2, 3));
    assert_eq!(file_operands(true), (3, 4));
    assert_eq!(check_file_source(true, false), Ok(()));
    assert_eq!(check_file_source(false, false), Err(CP_FAILED));
    assert_eq!(check_file_source(true, true), Err(-90));
    assert!(copies_tree(true, true));
    assert!(!copies_tree(true, false));
    assert!(!copies_tree(false, true));
}

#[test]
fn copy_goes_into_directory_under_its_name() {
    let s = |x: &str| x.to_string();
    assert_eq!(copy_destination(&s("x/notes.txt"), &s("out"), true), Some(s("out/notes.txt")));
    assert_eq!(copy_destination(&s("notes.txt"), &s("out/"), true), Some(s("out/notes.txt")));
    assert_eq!(copy_destination(&s("src/lib/"), &s("dst"), true), Some(s("dst/lib")));
    assert_eq!(copy_destination(&s("notes.txt"), &s("copy.txt"), false), Some(s("copy.txt")));
    assert_eq!(copy_destination(&s(".."), &s("dst"), true), None);
}

#[test]
fn mv_plans() {
    let two = line(&["rb", "mv", "a", "b"]);
    assert_eq!(mv_plan(&line(&["rb", "mv", "a"]), true, true, false, false), MvPlan::Fail { code: -1 });
    assert_eq!(mv_plan(&two, false, true, false, false), MvPlan::Fail { code: MV_FAILED });
    assert_eq!(mv_plan(&two, true, false, true, false), MvPlan::CopyThenRemove);
    assert_eq!(mv_plan(&two, true, false, false, false), MvPlan::CopyThenRemove);
    assert_eq!(mv_plan(&two, true, true, true, false), MvPlan::Fail { code: -40 });
    assert_eq!(mv_plan(&two, true, true, true, true), MvPlan::Rename);
    assert_eq!(mv_plan(&two, true, true, false, false), MvPlan::Rename);
    assert_eq!(mv_plan(&two, true, true, false, true), MvPlan::Rename);
}

#[test]
fn mv_builds_copy_and_removal() {
    let two = line(&["rb", "mv", "a", "b"]);
    assert_eq!(mv_copy_args(&two), line(&["rb", "cp", "-r", "a", "b"]));
    assert_eq!(mv_remove_args(&two), line(&["rb", "rm", "-r", "a"]));
}

#[test]
fn walks_descend_into_directories() {
    assert_eq!(walk_step(true), WalkStep::Descend);
    assert_eq!(walk_step(false), WalkStep::Act);
}
