use rustybox::grep::{compile_pattern, grep_lines, grep_options, grep_prints, line_printed, GrepOptions};
use rustybox::listing::{
    child_prefix, dot_lines, entry_lines, listed_path, ls_options, tree_listing, DirTree, Entry,
    LsOptions,
};
use rustybox::path::{file_name, join};

fn line(words: &[&str]) -> Vec<String> {
    words.iter().map(|w| w.to_string()).collect()
}

fn entries(list: &[(&str, bool)]) -> Vec<Entry> {
    list.iter().map(|(n, d)| Entry { name: n.to_string(), is_dir: *d }).collect()
}

#[test]
fn ls_options_read() {
    assert_eq!(
        ls_options(&line(&["rb", "ls"])),
        Ok(LsOptions { hidden: false, recursive: false, operand: None })
    );
    assert_eq!(
        ls_options(&line(&["rb", "ls", "d"])),
        Ok(LsOptions { hidden: false, recursive: false, operand: Some(2) })
    );
    assert_eq!(
        ls_options(&line(&["rb", "ls", "-a", "-R", "d"])),
        Ok(LsOptions { hidden: true, recursive: true, operand: Some(4) })
    );
    assert_eq!(
        ls_options(&line(&["rb", "ls", "--recursive", "-all"])),
        Ok(LsOptions { hidden: true, recursive: true, operand: None })
    );
    assert_eq!(
        ls_options(&line(&["rb", "ls", "d", "-a"])),
        Ok(LsOptions { hidden: true, recursive: false, operand: Some(3) })
    );
    assert_eq!(
        ls_options(&line(&["rb", "ls", "-la"])),
        Ok(LsOptions { hidden: false, recursive: false, operand: Some(2) })
    );
}

#[test]
fn ls_short_r_is_recursive() {
    assert_eq!(
        ls_options(&line(&["rb", "ls", "-r", "d"])),
        Ok(LsOptions { hidden: false, recursive: true, operand: Some(3) })
    );
}

#[test]
fn ls_long_listing_is_invalid() {
    assert_eq!(ls_options(&line(&["rb", "ls", "-l"])), Err(-1));
    assert_eq!(ls_options(&line(&["rb", "ls", "-a", "-l"])), Err(-1));
    assert_eq!(ls_options(&line(&["rb", "ls", "d", "-l"])), Err(-1));
}

#[test]
fn ls_path_defaults_to_current_directory() {
    let args = line(&["rb", "ls", "-a", "d"]);
    assert_eq!(listed_path(&args, Some(3)), "d");
    assert_eq!(listed_path(&args, None), ".");
}

#[test]
fn hidden_names_skipped_without_a() {
    let es = entries(&[("b", false), (".git", true), ("a", true), ("", false)]);
    assert_eq!(entry_lines(&String::new(), false, &es), line(&["b", "a", ""]));
    assert_eq!(entry_lines(&String::new(), true, &es), line(&["b", ".git", "a", ""]));
    assert_eq!(entry_lines(&"d/".to_string(), false, &es), line(&["d/b", "d/a", "d/"]));
}

#[test]
fn dots_and_recursion() {
    assert_eq!(dot_lines(&"x/".to_string()), line(&["x/.", "x/.."]));
    assert_eq!(dot_lines(&String::new()), line(&[".", ".."]));
    assert_eq!(child_prefix(&"x/".to_string(), &"a".to_string()), "x/a/");
    assert_eq!(child_prefix(&String::new(), &"a".to_string()), "a/");
}

#[test]
fn final_names_of_paths() {
    assert_eq!(file_name("foo.txt"), Some("foo.txt".to_string()));
    assert_eq!(file_name("/usr/bin/"), Some("bin".to_string()));
    assert_eq!(file_name("tmp/foo.txt"), Some("foo.txt".to_string()));
    assert_eq!(file_name("foo.txt/."), Some("foo.txt".to_string()));
    assert_eq!(file_name("foo.txt/.//"), Some("foo.txt".to_string()));
    assert_eq!(file_name("a/./b/"), Some("b".to_string()));
    assert_eq!(file_name("foo.txt/.."), None);
    assert_eq!(file_name("/"), None);
    assert_eq!(file_name("."), None);
    assert_eq!(file_name("./."), None);
    assert_eq!(file_name(""), None);
    assert_eq!(file_name(".hidden"), Some(".hidden".to_string()));
}

#[test]
fn final_names_agree_with_std() {
    for p in ["a", "a/b", "a/b/", "/a/b/.", "a/..", "..", "/", ".", "./x", "x/./", "...", "a//b", ""] {
        let ours = file_name(p);
        let std = std::path::Path::new(p).file_name().map(|s| s.to_str().unwrap().to_string());
        assert_eq!(ours, std, "{}", p);
    }
}

#[test]
fn joined_paths() {
    assert_eq!(join("a", "b"), "a/b");
    assert_eq!(join("a/", "b"), "a/b");
    assert_eq!(join("", "b"), "b");
    assert_eq!(join("a", "/b"), "/b");
    for (b, n) in [("x", "y"), ("x/", "y"), ("", "y"), ("/", "y"), ("x", "/y"), ("x", "")] {
        let std = std::path::Path::new(b).join(n);
        assert_eq!(join(b, n), std.to_str().unwrap(), "{} {}", b, n);
    }
}

#[test]
fn join_keeps_final_name() {
    for b in ["", "d", "d/", "/", "a/b"] {
        assert_eq!(file_name(&join(b, "notes.txt")), Some("notes.txt".to_string()));
    }
}

#[test]
fn grep_options_read() {
    assert_eq!(
        grep_options(&line(&["rb", "grep", "ab", "f"])),
        GrepOptions { invert: false, pattern: 2, file: 3 }
    );
    assert_eq!(
        grep_options(&line(&["rb", "grep", "-i", "ab", "f"])),
        GrepOptions { invert: true, pattern: 3, file: 4 }
    );
}

#[test]
fn grep_selects_matching_lines() {
    let p = compile_pattern(&"a+b".to_string()).ok().unwrap();
    assert!(grep_prints(&p, &"xaab".to_string(), false));
    assert!(!grep_prints(&p, &"xb".to_string(), false));
    assert!(!grep_prints(&p, &"xaab".to_string(), true));
    assert!(grep_prints(&p, &"xb".to_string(), true));
}

#[test]
fn grep_and_grep_i_split_the_lines() {
    let p = compile_pattern(&"^[0-9]+$".to_string()).ok().unwrap();
    let lines = ["12", "a1", "", "007", "x"];
    let plain: Vec<&str> = lines.iter().copied().filter(|l| grep_prints(&p, &l.to_string(), false)).collect();
    let inverted: Vec<&str> = lines.iter().copied().filter(|l| grep_prints(&p, &l.to_string(), true)).collect();
    assert_eq!(plain, vec!["12", "007"]);
    assert_eq!(inverted, vec!["a1", "", "x"]);
    assert_eq!(plain.len() + inverted.len(), lines.len());
}

#[test]
fn invalid_pattern_refused() {
    assert!(compile_pattern(&"(".to_string()).is_err());
    assert!(compile_pattern(&"a(".to_string()).is_err());
    assert!(compile_pattern(&"".to_string()).is_ok());
}

#[test]
fn line_selection_by_match() {
    assert!(line_printed(true, false));
    assert!(!line_printed(false, false));
    assert!(!line_printed(true, true));
    assert!(line_printed(false, true));
}

fn leaf() -> DirTree {
    DirTree { entries: Vec::new(), below: Vec::new() }
}

fn dir(list: &[(&str, Option<DirTree>)]) -> DirTree {
    let mut t = leaf();
    for (name, below) in list {
        t.entries.push(Entry { name: name.to_string(), is_dir: below.is_some() });
        t.below.push(match below {
            Some(b) => DirTree { entries: b.entries.iter().map(|e| Entry { name: e.name.clone(), is_dir: e.is_dir }).collect(), below: Vec::new() },
            None => leaf(),
        });
    }
    t
}

#[test]
fn recursive_listing_descends() {
    let s = dir(&[("x", None)]);
    let d = dir(&[("s", Some(s))]);
    assert_eq!(tree_listing(&String::new(), false, &d), line(&["s", "s/x"]));
}

#[test]
fn recursive_listing_walks_hidden_directories() {
    let h = dir(&[("x", None)]);
    let d = dir(&[("a", None), (".h", Some(h))]);
    assert_eq!(tree_listing(&String::new(), false, &d), line(&["a", ".h/x"]));
    let h = dir(&[("x", None)]);
    let d = dir(&[("a", None), (".h", Some(h))]);
    assert_eq!(
        tree_listing(&String::new(), true, &d),
        line(&[".", "..", "a", ".h", ".h/.", ".h/..", ".h/x"])
    );
}

#[test]
fn recursive_listing_keeps_prefix() {
    let d = dir(&[("b", None), ("c", Some(leaf()))]);
    assert_eq!(tree_listing(&"p/".to_string(), false, &d), line(&["p/b", "p/c"]));
}

#[test]
fn grep_lines_in_order() {
    let p = compile_pattern(&"o".to_string()).ok().unwrap();
    let rows = line(&["one", "two", "three", "four"]);
    assert_eq!(grep_lines(&p, &rows, false), line(&["one", "two", "four"]));
    assert_eq!(grep_lines(&p, &rows, true), line(&["three"]));
    assert_eq!(grep_lines(&p, &Vec::new(), false), Vec::<String>::new());
}
