use rustybox::mode::{
    adjusted_mode, chmod_plan, chmod_plan_given, is_symbolic, read_symbolic, ChmodPlan, CHMOD_FAILED,
};
use rustybox::numeral::parse_octal;

fn line(words: &[&str]) -> Vec<String> {
    words.iter().map(|w| w.to_string()).collect()
}

#[test]
fn octal_numbers_read() {
    assert_eq!(parse_octal("17"), Some(15));
    assert_eq!(parse_octal("0755"), Some(0o755));
    assert_eq!(parse_octal("+7"), Some(7));
    assert_eq!(parse_octal("37777777777"), Some(u32::MAX));
    assert_eq!(parse_octal("40000000000"), None);
    assert_eq!(parse_octal("+"), None);
    assert_eq!(parse_octal(""), None);
    assert_eq!(parse_octal("8"), None);
    assert_eq!(parse_octal("-1"), None);
    assert_eq!(parse_octal("7a"), None);
    assert_eq!(parse_octal("٣"), None);
}

#[test]
fn octal_reading_agrees_with_std() {
    for s in ["0", "7", "10", "777", "1234567", "+17", "+", "", "9", "12 ", "77777777777", "00000000000000017"] {
        assert_eq!(parse_octal(s), u32::from_str_radix(s, 8).ok(), "{}", s);
    }
}

#[test]
fn numeric_mode_assigned() {
    assert_eq!(chmod_plan(&line(&["rb", "chmod", "755", "f"])), ChmodPlan::Assign { target: 3, mode: 0o755 });
    assert_eq!(chmod_plan(&line(&["rb", "chmod", "0", "f"])), ChmodPlan::Assign { target: 3, mode: 0 });
}

#[test]
fn numeric_mode_refused() {
    assert_eq!(chmod_plan(&line(&["rb", "chmod", "755", "f", "g"])), ChmodPlan::Fail { code: CHMOD_FAILED });
    assert_eq!(chmod_plan(&line(&["rb", "chmod", "755"])), ChmodPlan::Fail { code: -25 });
    assert_eq!(chmod_plan(&line(&["rb", "chmod", "789", "f"])), ChmodPlan::Fail { code: -25 });
    assert_eq!(chmod_plan(&line(&["rb", "chmod", "٣", "f"])), ChmodPlan::Fail { code: -25 });
}

#[test]
fn symbolic_masks() {
    assert_eq!(
        chmod_plan(&line(&["rb", "chmod", "u+x", "f"])),
        ChmodPlan::Adjust { source: 3, target: 3, adding: true, mask: 0o100 }
    );
    assert_eq!(
        chmod_plan(&line(&["rb", "chmod", "a-w", "f"])),
        ChmodPlan::Adjust { source: 3, target: 3, adding: false, mask: 0o222 }
    );
    assert_eq!(
        chmod_plan(&line(&["rb", "chmod", "ug+rw", "f"])),
        ChmodPlan::Adjust { source: 3, target: 3, adding: true, mask: 0o660 }
    );
    assert_eq!(
        chmod_plan(&line(&["rb", "chmod", "go-rwx", "src", "dst"])),
        ChmodPlan::Adjust { source: 3, target: 4, adding: false, mask: 0o077 }
    );
    assert_eq!(
        chmod_plan(&line(&["rb", "chmod", "o+", "f"])),
        ChmodPlan::Adjust { source: 3, target: 3, adding: true, mask: 0 }
    );
}

#[test]
fn symbolic_mask_letters_before_sign_ignored() {
    assert_eq!(read_symbolic("ur+w"), (true, 0o200));
}

#[test]
fn symbolic_mask_is_permission_bits() {
    assert_eq!(read_symbolic("u+rwxr"), (true, 0o700));
    assert_eq!(read_symbolic("u+rrw"), (true, 0o600));
    assert_eq!(read_symbolic("u-rrx"), (false, 0o500));
    assert_eq!(read_symbolic("ua+rwx"), (true, 0o777));
    assert_eq!(read_symbolic("ugo-x"), (false, 0o111));
    assert_eq!(read_symbolic("g+rx-w"), (true, 0o070));
    assert_eq!(
        chmod_plan(&line(&["rb", "chmod", "ua+r", "f"])),
        ChmodPlan::Adjust { source: 3, target: 3, adding: true, mask: 0o444 }
    );
}

#[test]
fn all_classes_given_everything() {
    match chmod_plan(&line(&["rb", "chmod", "ua+rwx", "f"])) {
        ChmodPlan::Adjust { adding, mask, .. } => assert_eq!(adjusted_mode(0o100644, adding, mask), 0o777),
        other => panic!("{:?}", other),
    }
}

#[test]
fn plan_given_numeric_answer() {
    let args = line(&["rb", "chmod", "644", "f"]);
    assert_eq!(chmod_plan_given(&args, true), ChmodPlan::Assign { target: 3, mode: 0o644 });
    assert_eq!(chmod_plan_given(&args, false), ChmodPlan::Fail { code: -1 });
    let sym = line(&["rb", "chmod", "u+x", "f"]);
    assert_eq!(chmod_plan_given(&sym, true), ChmodPlan::Fail { code: CHMOD_FAILED });
    assert_eq!(
        chmod_plan_given(&sym, false),
        ChmodPlan::Adjust { source: 3, target: 3, adding: true, mask: 0o100 }
    );
}

#[test]
fn symbolic_mask_needs_class_letter() {
    assert_eq!(chmod_plan(&line(&["rb", "chmod", "x+r", "f"])), ChmodPlan::Fail { code: -1 });
    assert_eq!(chmod_plan(&line(&["rb", "chmod", "+7", "f"])), ChmodPlan::Fail { code: -1 });
    assert_eq!(chmod_plan(&line(&["rb", "chmod", "z"])), ChmodPlan::Fail { code: -1 });
}

#[test]
fn adjusted_modes() {
    assert_eq!(adjusted_mode(0o100644, true, 0o100), 0o744);
    assert_eq!(adjusted_mode(0o644, false, 0o222), 0o444);
    assert_eq!(adjusted_mode(0o4755, false, 0), 0o755);
    assert_eq!(adjusted_mode(0o600, true, 0o1100), 0o1700);
}

#[test]
fn add_then_remove_leaves_no_trace() {
    for current in [0o000u32, 0o644, 0o755, 0o100600] {
        for mask in [0o100u32, 0o222, 0o777, 0o070] {
            let added = adjusted_mode(current, true, mask);
            assert_eq!(added & mask, mask);
            assert_eq!(adjusted_mode(added, true, mask), added);
            assert_eq!(adjusted_mode(added, false, mask), adjusted_mode(current, false, mask));
            assert_eq!(adjusted_mode(current, false, mask) & mask, 0);
            let removed = adjusted_mode(current, false, mask);
            assert_eq!(adjusted_mode(removed, false, mask), removed);
        }
    }
}

#[test]
fn symbolic_masks_recognised() {
    assert!(is_symbolic(&"u+x".to_string()));
    assert!(is_symbolic(&"a".to_string()));
    assert!(!is_symbolic(&"755".to_string()));
    assert!(!is_symbolic(&"".to_string()));
    assert!(!is_symbolic(&"+x".to_string()));
}
