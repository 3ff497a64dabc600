//! `ls`: its options, and the lines it writes for the entries of a
//! directory, with or without recursion.
use vstd::prelude::*;
use crate::command::INVALID_COMMAND;
use crate::path::{last_segment, lemma_segment_of_suffix};
use crate::text::{str_is, words};

verus! {

/// Exit code of `ls` when the directory cannot be read.
pub const LS_FAILED: i32 = -80;

/// The options of an `ls` command line.
#[derive(PartialEq, Eq, Structural, Clone, Copy, Debug)]
pub struct LsOptions {
    /// `-a` or `-all`: also list names that start with `.`.
    pub hidden: bool,
    /// `-R` or `--recursive`: list the directories below too.
    pub recursive: bool,
    /// Index of the operand, if any; without one the current directory
    /// `.` is listed.
    pub operand: Option<usize>,
}

/// Whether `s` is `-a` or `-all`.
pub open spec fn is_hidden_flag(s: Seq<char>) -> bool {
    s == "-a"@ || s == "-all"@
}

/// Whether `s` is `-r`, `-R` or `--recursive`.
pub open spec fn is_recursive_flag(s: Seq<char>) -> bool {
    s == "-r"@ || s == "-R"@ || s == "--recursive"@
}

/// Whether one of the option places holds `-l`, the long listing, which
/// is not offered.
pub open spec fn asks_long_listing(args: Seq<Seq<char>>) -> bool {
    (args.len() >= 3 && args[2] == "-l"@) || (args.len() >= 4 && args[3] == "-l"@)
}

/// How many options the words at indices 2 and 3 hold (at most one each).
pub open spec fn ls_flag_count(args: Seq<Seq<char>>) -> int {
    (if args.len() >= 3 && (is_hidden_flag(args[2]) || is_recursive_flag(args[2])) { 1int } else { 0 })
    + (if args.len() >= 4 && (is_hidden_flag(args[3]) || is_recursive_flag(args[3])) { 1int } else { 0 })
}

/// The options of `ls`: the words at indices 2 and 3 are looked at as
/// options; the operand is the word after as many options as were found.
/// A long listing (`-l`) is refused as an invalid command.
pub open spec fn ls_options_spec(args: Seq<Seq<char>>) -> Result<LsOptions, i32> {
    if asks_long_listing(args) {
        Err(INVALID_COMMAND)
    } else {
        Ok(ls_found_options(args))
    }
}

/// The options found in the option places of an `ls` command line.
pub open spec fn ls_found_options(args: Seq<Seq<char>>) -> LsOptions {
    let skip = ls_flag_count(args);
    LsOptions {
        hidden: (args.len() >= 3 && is_hidden_flag(args[2])) || (args.len() >= 4 && is_hidden_flag(args[3])),
        recursive: (args.len() >= 3 && is_recursive_flag(args[2])) || (args.len() >= 4
            && is_recursive_flag(args[3])),
        operand: if args.len() > 2 + skip { Some((2 + skip) as usize) } else { None },
    }
}

/// Whether `s` is one of the options `ls` reads.
pub open spec fn is_ls_flag(s: Seq<char>) -> bool {
    is_hidden_flag(s) || is_recursive_flag(s)
}

/// What an `ls` command line selects: whether it shows hidden names,
/// whether it recurses, and the word it lists (none for `.`); or the exit
/// code that refuses it.
pub open spec fn ls_selection(args: Seq<Seq<char>>) -> Result<(bool, bool, Option<Seq<char>>), i32> {
    match ls_options_spec(args) {
        Ok(o) => Ok(
            (
                o.hidden,
                o.recursive,
                match o.operand {
                    Some(i) => Some(args[i as int]),
                    None => None,
                },
            ),
        ),
        Err(code) => Err(code),
    }
}

/// Whether the list of options `f` names at most one option of each kind.
pub open spec fn one_of_each_kind(f: Seq<Seq<char>>) -> bool {
    &&& f.len() <= 2
    &&& forall|i: int| 0 <= i < f.len() ==> is_ls_flag(#[trigger] f[i])
    &&& f.len() == 2 ==> !(is_hidden_flag(f[0]) && is_hidden_flag(f[1]))
    &&& f.len() == 2 ==> !(is_recursive_flag(f[0]) && is_recursive_flag(f[1]))
}

/// Whether the list of options `f` asks for hidden names.
pub open spec fn asks_hidden(f: Seq<Seq<char>>) -> bool {
    exists|i: int| 0 <= i < f.len() && is_hidden_flag(#[trigger] f[i])
}

/// Whether the list of options `f` asks for recursion.
pub open spec fn asks_recursive(f: Seq<Seq<char>>) -> bool {
    exists|i: int| 0 <= i < f.len() && is_recursive_flag(#[trigger] f[i])
}

/// No word is an option of both kinds, and no option is `-l`.
proof fn lemma_flag_kinds(s: Seq<char>)
    ensures
        !(is_hidden_flag(s) && is_recursive_flag(s)),
        is_ls_flag(s) ==> s != "-l"@,
{
    reveal_strlit("-a");
    reveal_strlit("-all");
    reveal_strlit("-r");
    reveal_strlit("-R");
    reveal_strlit("--recursive");
    reveal_strlit("-l");
    assert("-a"@.len() == 2 && "-a"@[1] == 'a');
    assert("-all"@.len() == 4);
    assert("-r"@.len() == 2 && "-r"@[1] == 'r');
    assert("-R"@.len() == 2 && "-R"@[1] == 'R');
    assert("--recursive"@.len() == 11);
    assert("-l"@.len() == 2 && "-l"@[1] == 'l');
}

/// `ls` selects the same listing whatever the order and the spelling of
/// its options: two command lines that ask for the same kinds of option,
/// at most one of each, before the same operand (or none) select the same
/// options and the same path.
pub proof fn law_ls_options_any_order(
    p: Seq<Seq<char>>,
    fa: Seq<Seq<char>>,
    fb: Seq<Seq<char>>,
    path: Seq<Seq<char>>,
)
    requires
        p.len() == 2,
        one_of_each_kind(fa),
        one_of_each_kind(fb),
        asks_hidden(fa) == asks_hidden(fb),
        asks_recursive(fa) == asks_recursive(fb),
        path.len() <= 1,
        path.len() == 1 ==> !is_ls_flag(path[0]),
    ensures
        ls_selection(p + fa + path) == ls_selection(p + fb + path),
{
    if fa.len() > 0 {
        lemma_flag_kinds(fa[0]);
    }
    if fa.len() > 1 {
        lemma_flag_kinds(fa[1]);
    }
    if fb.len() > 0 {
        lemma_flag_kinds(fb[0]);
    }
    if fb.len() > 1 {
        lemma_flag_kinds(fb[1]);
    }
    if path.len() == 1 {
        lemma_flag_kinds(path[0]);
    }
    assert(fa.len() == fb.len()) by {
        if fa.len() == 2 {
            assert(asks_hidden(fa) && asks_recursive(fa));
            if fb.len() == 0 {
                assert(!asks_hidden(fb));
            } else if fb.len() == 1 {
                assert(!(asks_hidden(fb) && asks_recursive(fb)));
            }
        } else if fa.len() == 1 {
            assert(asks_hidden(fa) || asks_recursive(fa));
            if fb.len() == 0 {
                assert(!asks_hidden(fb) && !asks_recursive(fb));
            } else if fb.len() == 2 {
                assert(asks_hidden(fb) && asks_recursive(fb));
            }
        } else {
            assert(!asks_hidden(fa) && !asks_recursive(fa));
            if fb.len() > 0 {
                assert(asks_hidden(fb) || asks_recursive(fb));
            }
        }
    }
    let a = p + fa + path;
    let b = p + fb + path;
    assert(a.len() == b.len());
    assert(forall|i: int| 2 <= i < 2 + fa.len() ==> a[i] == fa[i - 2] && b[i] == fb[i - 2]);
    assert(forall|i: int| 2 + fa.len() <= i < a.len() ==> a[i] == path[i - 2 - fa.len()] && b[i]
        == path[i - 2 - fa.len()]);
    if fa.len() == 1 {
        assert(asks_hidden(fa) == is_hidden_flag(fa[0]));
        assert(asks_hidden(fb) == is_hidden_flag(fb[0]));
        assert(asks_recursive(fa) == is_recursive_flag(fa[0]));
        assert(asks_recursive(fb) == is_recursive_flag(fb[0]));
    }
    if fa.len() == 2 {
        assert(asks_hidden(fa) && asks_recursive(fa));
        assert(asks_hidden(fa) == (is_hidden_flag(fa[0]) || is_hidden_flag(fa[1])));
        assert(asks_hidden(fb) == (is_hidden_flag(fb[0]) || is_hidden_flag(fb[1])));
        assert(asks_recursive(fa) == (is_recursive_flag(fa[0]) || is_recursive_flag(fa[1])));
        assert(asks_recursive(fb) == (is_recursive_flag(fb[0]) || is_recursive_flag(fb[1])));
    }
}

/// Reads the options of the `ls` command line `args`.
pub fn ls_options(args: &Vec<String>) -> (o: Result<LsOptions, i32>)
    ensures
        o == ls_options_spec(words(args@)),
        o is Err <==> ((args@.len() >= 3 && args@[2]@ == "-l"@) || (args@.len() >= 4 && args@[3]@
            == "-l"@)),
        o is Err ==> o == Err::<LsOptions, i32>(INVALID_COMMAND),
        o matches Ok(opts) ==> {
            &&& opts.hidden <==> ((args@.len() >= 3 && is_hidden_flag(args@[2]@)) || (args@.len() >= 4
                && is_hidden_flag(args@[3]@)))
            &&& opts.recursive <==> ((args@.len() >= 3 && is_recursive_flag(args@[2]@)) || (
            args@.len() >= 4 && is_recursive_flag(args@[3]@)))
            &&& opts.operand matches Some(i) ==> 2 <= i < args@.len() && i == 2 + ls_flag_count(
                words(args@),
            )
            &&& opts.operand is None <==> args@.len() <= 2 + ls_flag_count(words(args@))
        },
{
    let ghost w = words(args@);
    proof {
        if args@.len() >= 3 {
            assert(w[2] == args@[2]@);
            lemma_flag_kinds(args@[2]@);
        }
        if args@.len() >= 4 {
            assert(w[3] == args@[3]@);
            lemma_flag_kinds(args@[3]@);
        }
    }
    if args.len() >= 3 {
        assert(w[2] == args@[2]@);
        if str_is(&args[2], "-l") {
            return Err(INVALID_COMMAND);
        }
    }
    if args.len() >= 4 {
        assert(w[3] == args@[3]@);
        if str_is(&args[3], "-l") {
            return Err(INVALID_COMMAND);
        }
    }
    let mut hidden = false;
    let mut recursive = false;
    let mut skip: usize = 0;
    if args.len() >= 3 {
        assert(w[2] == args@[2]@);
        let h = str_is(&args[2], "-a") || str_is(&args[2], "-all");
        let r = str_is(&args[2], "-r") || str_is(&args[2], "-R") || str_is(&args[2], "--recursive");
        if h || r {
            skip = skip + 1;
        }
        hidden = h;
        recursive = r;
    }
    if args.len() >= 4 {
        assert(w[3] == args@[3]@);
        let h = str_is(&args[3], "-a") || str_is(&args[3], "-all");
        let r = str_is(&args[3], "-r") || str_is(&args[3], "-R") || str_is(&args[3], "--recursive");
        if h || r {
            skip = skip + 1;
        }
        hidden = hidden || h;
        recursive = recursive || r;
    }
    let operand = if args.len() > 2 + skip {
        Some(2 + skip)
    } else {
        None
    };
    Ok(LsOptions { hidden, recursive, operand })
}

/// The path `ls` lists: its operand, or the current directory `.`.
pub fn listed_path(args: &Vec<String>, operand: Option<usize>) -> (p: String)
    requires
        operand matches Some(i) ==> i < args@.len(),
    ensures
        p@ == match operand {
            Some(i) => args@[i as int]@,
            None => seq!['.'],
        },
{
    match operand {
        Some(i) => args[i].clone(),
        None => {
            proof {
                reveal_strlit(".");
                assert("."@ =~= seq!['.']);
            }
            String::from_str(".")
        },
    }
}

/// One entry of a directory: its name and whether it is a directory.
pub struct Entry {
    pub name: String,
    pub is_dir: bool,
}

/// Whether the entry called `name` is listed: always with `-a`, else only
/// when the name does not start with `.`.
pub open spec fn shown(name: Seq<char>, hidden: bool) -> bool {
    hidden || !(name.len() > 0 && name[0] == '.')
}

/// Whether the name `s` starts with `.`.
fn starts_with_dot(s: &String) -> (b: bool)
    ensures
        b == (s@.len() > 0 && s@[0] == '.'),
{
    let t = s.as_str();
    t.unicode_len() > 0 && t.get_char(0) == '.'
}

/// The lines for the entries `entries` of a directory: each listed name,
/// in the order of the entries, after `prefix`.
pub open spec fn entry_lines_spec(prefix: Seq<char>, hidden: bool, entries: Seq<Entry>) -> Seq<Seq<char>>
    decreases entries.len(),
{
    if entries.len() == 0 {
        Seq::empty()
    } else {
        let rest = entry_lines_spec(prefix, hidden, entries.drop_last());
        let name = entries.last().name@;
        if shown(name, hidden) {
            rest.push(prefix + name)
        } else {
            rest
        }
    }
}

/// The lines `ls` writes for the entries of a directory, each name after
/// `prefix`.
pub fn entry_lines(prefix: &String, hidden: bool, entries: &Vec<Entry>) -> (lines: Vec<String>)
    ensures
        words(lines@) == entry_lines_spec(prefix@, hidden, entries@),
{
    let mut lines: Vec<String> = Vec::new();
    let mut i: usize = 0;
    assert(entries@.take(0) =~= Seq::<Entry>::empty());
    while i < entries.len()
        invariant
            i <= entries@.len(),
            words(lines@) == entry_lines_spec(prefix@, hidden, entries@.take(i as int)),
        decreases entries@.len() - i,
    {
        assert(entries@.take(i + 1).drop_last() =~= entries@.take(i as int));
        let name = &entries[i].name;
        if hidden || !starts_with_dot(name) {
            let mut line = prefix.clone();
            line.append(name.as_str());
            lines.push(line);
            assert(words(lines@) =~= entry_lines_spec(prefix@, hidden, entries@.take(i as int)).push(prefix@ + name@));
        }
        i = i + 1;
    }
    assert(entries@.take(i as int) =~= entries@);
    lines
}

/// The lines for the current and the parent directory, after `prefix`.
pub fn dot_lines(prefix: &String) -> (lines: Vec<String>)
    ensures
        words(lines@) == seq![prefix@ + seq!['.'], prefix@ + seq!['.', '.']],
{
    proof {
        reveal_strlit(".");
        reveal_strlit("..");
        assert("."@ =~= seq!['.']);
        assert(".."@ =~= seq!['.', '.']);
    }
    let mut here = prefix.clone();
    here.append(".");
    let mut parent = prefix.clone();
    parent.append("..");
    let mut lines: Vec<String> = Vec::new();
    lines.push(here);
    lines.push(parent);
    assert(words(lines@)[0] == here@);
    assert(words(lines@)[1] == parent@);
    assert(words(lines@) =~= seq![prefix@ + seq!['.'], prefix@ + seq!['.', '.']]);
    lines
}

/// The prefix of the lines of the directory `name` below a directory
/// whose lines have `prefix`: `prefix`, the name and a slash.
pub fn child_prefix(prefix: &String, name: &String) -> (p: String)
    ensures
        p@ == prefix@ + name@ + seq!['/'],
{
    proof {
        reveal_strlit("/");
    }
    let mut p = prefix.clone();
    p.append(name.as_str());
    p.append("/");
    p
}

/// Without `-a` no name that starts with `.` is listed, and every other
/// name is.
pub proof fn law_hidden_names_skipped(prefix: Seq<char>, entries: Seq<Entry>)
    ensures
        entry_lines_spec(prefix, false, entries) == entries.filter(
            |e: Entry| !(e.name@.len() > 0 && e.name@[0] == '.'),
        ).map_values(|e: Entry| prefix + e.name@),
    decreases entries.len(),
{
    let keep = |e: Entry| !(e.name@.len() > 0 && e.name@[0] == '.');
    if entries.len() > 0 {
        law_hidden_names_skipped(prefix, entries.drop_last());
        reveal_with_fuel(Seq::filter, 1);
        assert(entries.filter(keep) == {
            let r = entries.drop_last().filter(keep);
            if keep(entries.last()) { r.push(entries.last()) } else { r }
        });
        assert(entries.filter(keep).map_values(|e: Entry| prefix + e.name@) =~= {
            let r = entries.drop_last().filter(keep).map_values(|e: Entry| prefix + e.name@);
            if keep(entries.last()) { r.push(prefix + entries.last().name@) } else { r }
        });
    } else {
        assert(entries.filter(keep) =~= Seq::<Entry>::empty());
        assert(entries.filter(keep).map_values(|e: Entry| prefix + e.name@) =~= Seq::<Seq<char>>::empty());
    }
}

/// With `-a` every entry is listed, in order.
pub proof fn law_all_listed_with_hidden(prefix: Seq<char>, entries: Seq<Entry>)
    ensures
        entry_lines_spec(prefix, true, entries) == entries.map_values(|e: Entry| prefix + e.name@),
    decreases entries.len(),
{
    if entries.len() > 0 {
        law_all_listed_with_hidden(prefix, entries.drop_last());
        assert(entries.map_values(|e: Entry| prefix + e.name@) =~= entries.drop_last().map_values(
            |e: Entry| prefix + e.name@,
        ).push(prefix + entries.last().name@));
    } else {
        assert(entries.map_values(|e: Entry| prefix + e.name@) =~= Seq::<Seq<char>>::empty());
    }
}

/// A directory as a recursive listing reads it: its entries in order, and
/// the directory below each entry (looked at only for entries that are
/// directories).
pub struct DirTree {
    pub entries: Vec<Entry>,
    pub below: Vec<DirTree>,
}

/// The lines for the current and the parent directory after `prefix`,
/// when hidden names are shown.
pub open spec fn dots_spec(prefix: Seq<char>, hidden: bool) -> Seq<Seq<char>> {
    if hidden {
        seq![prefix + seq!['.'], prefix + seq!['.', '.']]
    } else {
        Seq::empty()
    }
}

/// Everything a recursive listing of `t` writes, its lines after
/// `prefix`: the dots (with `-a`), the listed entries, then the listing
/// of each directory entry in order, under the prefix `prefix`, its name
/// and a slash. `tree_listing` computes it.
pub open spec fn tree_lines(prefix: Seq<char>, hidden: bool, t: DirTree) -> Seq<Seq<char>>
    decreases t, t.entries@.len() + 1,
{
    dots_spec(prefix, hidden) + entry_lines_spec(prefix, hidden, t.entries@) + below_lines(
        prefix,
        hidden,
        t,
        t.entries@.len(),
    )
}

/// The listings of the directories among the first `n` entries of `t`.
pub open spec fn below_lines(prefix: Seq<char>, hidden: bool, t: DirTree, n: nat) -> Seq<Seq<char>>
    decreases t, n,
{
    if n == 0 {
        Seq::empty()
    } else {
        let rest = below_lines(prefix, hidden, t, (n - 1) as nat);
        let k = n - 1;
        if k < t.entries@.len() && t.entries@[k].is_dir && k < t.below@.len() {
            proof {
                assert(decreases_to!(t.below => t.below@));
                assert(decreases_to!(t.below@ => t.below@[k]));
            }
            rest + tree_lines(prefix + t.entries@[k].name@ + seq!['/'], hidden, t.below@[k])
        } else {
            rest
        }
    }
}

proof fn lemma_words_add(a: Seq<String>, b: Seq<String>)
    ensures
        words(a + b) == words(a) + words(b),
{
    assert(words(a + b) =~= words(a) + words(b));
}

/// Everything the recursive listing of the tree `t` writes, its lines
/// after `prefix`: the dots (with `-a`), the listed entries, then, for each
/// directory entry in order, the listing of the directory below it under
/// the prefix `prefix`, its name and a slash.
pub fn tree_listing(prefix: &String, hidden: bool, t: &DirTree) -> (lines: Vec<String>)
    ensures
        words(lines@) == tree_lines(prefix@, hidden, *t),
        all_start_with(words(lines@), prefix@),
    decreases t,
{
    let mut lines: Vec<String> = if hidden {
        dot_lines(prefix)
    } else {
        Vec::new()
    };
    assert(words(lines@) =~= dots_spec(prefix@, hidden));
    let mut own = entry_lines(prefix, hidden, &t.entries);
    proof {
        lemma_words_add(lines@, own@);
    }
    lines.append(&mut own);
    let n = t.entries.len();
    let mut k: usize = 0;
    assert(below_lines(prefix@, hidden, *t, 0) =~= Seq::<Seq<char>>::empty());
    while k < n
        invariant
            k <= n,
            n == t.entries@.len(),
            words(lines@) == dots_spec(prefix@, hidden) + entry_lines_spec(prefix@, hidden, t.entries@)
                + below_lines(prefix@, hidden, *t, k as nat),
        decreases n - k,
    {
        if k < t.below.len() && t.entries[k].is_dir {
            let child = child_prefix(prefix, &t.entries[k].name);
            proof {
                assert(decreases_to!(t.below => t.below@));
                assert(decreases_to!(t.below@ => t.below@[k as int]));
            }
            let mut sub = tree_listing(&child, hidden, &t.below[k]);
            proof {
                lemma_words_add(lines@, sub@);
            }
            lines.append(&mut sub);
        }
        k = k + 1;
    }
    proof {
        law_lines_start_with_prefix(prefix@, hidden, *t);
    }
    lines
}

/// Whether no name in the tree holds a `/`, as no directory entry does.
pub open spec fn well_named(t: DirTree) -> bool
    decreases t, t.below@.len() + 1,
{
    &&& forall|i: int| 0 <= i < t.entries@.len() ==> !t.entries@[i].name@.contains('/')
    &&& below_named(t, t.below@.len())
}

/// Whether the first `n` directories below `t` are well named.
pub open spec fn below_named(t: DirTree, n: nat) -> bool
    decreases t, n,
{
    if n == 0 {
        true
    } else {
        let k = n - 1;
        &&& below_named(t, (n - 1) as nat)
        &&& k < t.below@.len() ==> {
            proof {
                assert(decreases_to!(t.below => t.below@));
                assert(decreases_to!(t.below@ => t.below@[k]));
            }
            well_named(t.below@[k])
        }
    }
}

proof fn lemma_below_named(t: DirTree, n: nat, k: int)
    requires
        below_named(t, n),
        0 <= k < n,
        k < t.below@.len(),
    ensures
        well_named(t.below@[k]),
    decreases n,
{
    if k < n - 1 {
        lemma_below_named(t, (n - 1) as nat, k);
    }
}

/// Whether the last component of a line of a listing does not start with
/// a dot.
pub open spec fn not_dot_named(line: Seq<char>) -> bool {
    !(last_segment(line).len() > 0 && last_segment(line)[0] == '.')
}

/// The lines whose last component does not start with a dot.
pub open spec fn dot_free(lines: Seq<Seq<char>>) -> Seq<Seq<char>> {
    lines.filter(|l: Seq<char>| not_dot_named(l))
}

proof fn lemma_dot_free_add(a: Seq<Seq<char>>, b: Seq<Seq<char>>)
    ensures
        dot_free(a + b) == dot_free(a) + dot_free(b),
{
    Seq::filter_distributes_over_add(a, b, |l: Seq<char>| not_dot_named(l));
}

proof fn lemma_last_of_line(prefix: Seq<char>, name: Seq<char>)
    requires
        prefix.len() == 0 || prefix.last() == '/',
        !name.contains('/'),
    ensures
        last_segment(prefix + name) == name,
{
    assert forall|i: int| 0 <= i < name.len() implies name[i] != '/' by {
        if name[i] == '/' {
            assert(name.contains('/'));
        }
    }
    lemma_segment_of_suffix(prefix, name, name.len() as int);
    assert((prefix + name).subrange(prefix.len() as int, (prefix + name).len() as int) =~= name);
}

proof fn lemma_entries_dot_free(prefix: Seq<char>, entries: Seq<Entry>)
    requires
        prefix.len() == 0 || prefix.last() == '/',
        forall|i: int| 0 <= i < entries.len() ==> !entries[i].name@.contains('/'),
    ensures
        dot_free(entry_lines_spec(prefix, true, entries)) == entry_lines_spec(prefix, false, entries),
    decreases entries.len(),
{
    if entries.len() > 0 {
        let init = entries.drop_last();
        lemma_entries_dot_free(prefix, init);
        let name = entries.last().name@;
        lemma_last_of_line(prefix, name);
        lemma_dot_free_add(entry_lines_spec(prefix, true, init), seq![prefix + name]);
        reveal_with_fuel(Seq::filter, 2);
        assert(entry_lines_spec(prefix, true, entries) == entry_lines_spec(prefix, true, init) + seq![
            prefix + name,
        ]);
        assert(seq![prefix + name].drop_last() =~= Seq::<Seq<char>>::empty());
        if not_dot_named(prefix + name) {
            assert(dot_free(seq![prefix + name]) =~= seq![prefix + name]);
            assert(entry_lines_spec(prefix, false, init).push(prefix + name) =~= entry_lines_spec(
                prefix,
                false,
                init,
            ) + seq![prefix + name]);
        } else {
            assert(dot_free(seq![prefix + name]) =~= Seq::<Seq<char>>::empty());
            assert(entry_lines_spec(prefix, false, init) + Seq::<Seq<char>>::empty() =~= entry_lines_spec(
                prefix,
                false,
                init,
            ));
        }
    } else {
        assert(dot_free(Seq::<Seq<char>>::empty()) =~= Seq::<Seq<char>>::empty());
    }
}

proof fn lemma_dots_dot_free(prefix: Seq<char>)
    requires
        prefix.len() == 0 || prefix.last() == '/',
    ensures
        dot_free(dots_spec(prefix, true)) == Seq::<Seq<char>>::empty(),
{
    lemma_last_of_line(prefix, seq!['.']);
    lemma_last_of_line(prefix, seq!['.', '.']);
    reveal_with_fuel(Seq::filter, 3);
    let d = dots_spec(prefix, true);
    assert(d.drop_last() =~= seq![prefix + seq!['.']]);
    assert(d.drop_last().drop_last() =~= Seq::<Seq<char>>::empty());
    assert(dot_free(d) =~= Seq::<Seq<char>>::empty());
}

/// Hiding drops exactly the dot-named lines of a whole recursive listing:
/// without `-a` the listing is the listing with `-a` less every line whose
/// last component starts with a dot (the `.` and `..` lines among them),
/// in the same order. Directories with dot names are still walked.
pub proof fn law_hiding_drops_dot_names(prefix: Seq<char>, t: DirTree)
    requires
        prefix.len() == 0 || prefix.last() == '/',
        well_named(t),
    ensures
        tree_lines(prefix, false, t) == dot_free(tree_lines(prefix, true, t)),
    decreases t, t.entries@.len() + 1,
{
    lemma_dots_dot_free(prefix);
    lemma_entries_dot_free(prefix, t.entries@);
    lemma_below_dot_free(prefix, t, t.entries@.len());
    let d = dots_spec(prefix, true);
    let e = entry_lines_spec(prefix, true, t.entries@);
    let b = below_lines(prefix, true, t, t.entries@.len());
    lemma_dot_free_add(d + e, b);
    lemma_dot_free_add(d, e);
    assert(dots_spec(prefix, false) + entry_lines_spec(prefix, false, t.entries@) =~= Seq::<
        Seq<char>,
    >::empty() + dot_free(e));
}

proof fn lemma_below_dot_free(prefix: Seq<char>, t: DirTree, n: nat)
    requires
        prefix.len() == 0 || prefix.last() == '/',
        well_named(t),
    ensures
        below_lines(prefix, false, t, n) == dot_free(below_lines(prefix, true, t, n)),
    decreases t, n,
{
    if n == 0 {
        assert(dot_free(Seq::<Seq<char>>::empty()) =~= Seq::<Seq<char>>::empty());
    } else {
        let k = n - 1;
        lemma_below_dot_free(prefix, t, (n - 1) as nat);
        if k < t.entries@.len() && t.entries@[k].is_dir && k < t.below@.len() {
            let child = prefix + t.entries@[k].name@ + seq!['/'];
            lemma_below_named(t, t.below@.len(), k);
            assert(decreases_to!(t.below => t.below@));
                assert(decreases_to!(t.below@ => t.below@[k]));
            law_hiding_drops_dot_names(child, t.below@[k]);
            lemma_dot_free_add(
                below_lines(prefix, true, t, (n - 1) as nat),
                tree_lines(child, true, t.below@[k]),
            );
        }
    }
}

/// Whether every line of `lines` starts with `prefix`.
pub open spec fn all_start_with(lines: Seq<Seq<char>>, prefix: Seq<char>) -> bool {
    forall|i: int|
        0 <= i < lines.len() ==> prefix.len() <= (#[trigger] lines[i]).len() && lines[i].subrange(
            0,
            prefix.len() as int,
        ) == prefix
}

proof fn lemma_start_add(a: Seq<Seq<char>>, b: Seq<Seq<char>>, p: Seq<char>)
    requires
        all_start_with(a, p),
        all_start_with(b, p),
    ensures
        all_start_with(a + b, p),
{
    assert forall|i: int| 0 <= i < (a + b).len() implies p.len() <= (#[trigger] (a + b)[i]).len()
        && (a + b)[i].subrange(0, p.len() as int) == p by {
        if i < a.len() {
            assert((a + b)[i] == a[i]);
        } else {
            assert((a + b)[i] == b[i - a.len()]);
        }
    }
}

proof fn lemma_start_line(p: Seq<char>, rest: Seq<char>)
    ensures
        (p + rest).subrange(0, p.len() as int) == p,
{
    assert((p + rest).subrange(0, p.len() as int) =~= p);
}

proof fn lemma_start_longer(lines: Seq<Seq<char>>, p: Seq<char>, q: Seq<char>)
    requires
        all_start_with(lines, p + q),
    ensures
        all_start_with(lines, p),
{
    assert forall|i: int| 0 <= i < lines.len() implies p.len() <= (#[trigger] lines[i]).len()
        && lines[i].subrange(0, p.len() as int) == p by {
        let l = lines[i];
        assert(l.subrange(0, (p + q).len() as int) == p + q);
        assert(l.subrange(0, p.len() as int) =~= (p + q).subrange(0, p.len() as int));
        lemma_start_line(p, q);
    }
}

proof fn lemma_entry_lines_start(p: Seq<char>, hidden: bool, entries: Seq<Entry>)
    ensures
        all_start_with(entry_lines_spec(p, hidden, entries), p),
    decreases entries.len(),
{
    if entries.len() > 0 {
        lemma_entry_lines_start(p, hidden, entries.drop_last());
        let rest = entry_lines_spec(p, hidden, entries.drop_last());
        let l = p + entries.last().name@;
        lemma_start_line(p, entries.last().name@);
        assert(all_start_with(seq![l], p));
        lemma_start_add(rest, seq![l], p);
        assert(rest.push(l) =~= rest + seq![l]);
    }
}

/// Every line of a recursive listing, at every depth, starts with the
/// prefix it was asked for: the listing of a directory below is written
/// under the full path from the listed directory.
pub proof fn law_lines_start_with_prefix(p: Seq<char>, hidden: bool, t: DirTree)
    ensures
        all_start_with(tree_lines(p, hidden, t), p),
    decreases t, t.entries@.len() + 1,
{
    let d = dots_spec(p, hidden);
    assert(all_start_with(d, p)) by {
        lemma_start_line(p, seq!['.']);
        lemma_start_line(p, seq!['.', '.']);
    }
    lemma_entry_lines_start(p, hidden, t.entries@);
    lemma_below_start(p, hidden, t, t.entries@.len());
    lemma_start_add(d, entry_lines_spec(p, hidden, t.entries@), p);
    lemma_start_add(
        d + entry_lines_spec(p, hidden, t.entries@),
        below_lines(p, hidden, t, t.entries@.len()),
        p,
    );
}

proof fn lemma_below_start(p: Seq<char>, hidden: bool, t: DirTree, n: nat)
    ensures
        all_start_with(below_lines(p, hidden, t, n), p),
    decreases t, n,
{
    if n > 0 {
        let k = n - 1;
        lemma_below_start(p, hidden, t, (n - 1) as nat);
        if k < t.entries@.len() && t.entries@[k].is_dir && k < t.below@.len() {
            let q = t.entries@[k].name@ + seq!['/'];
            assert(decreases_to!(t.below => t.below@));
            assert(decreases_to!(t.below@ => t.below@[k]));
            law_lines_start_with_prefix(p + q, hidden, t.below@[k]);
            assert(p + t.entries@[k].name@ + seq!['/'] =~= p + q);
            lemma_start_longer(tree_lines(p + q, hidden, t.below@[k]), p, q);
            lemma_start_add(below_lines(p, hidden, t, (n - 1) as nat), tree_lines(p + q, hidden, t.below@[k]), p);
        }
    }
}

/// The listing of each directory entry's tree, under the prefix, the
/// entry's name and a slash, is part of the listing of the directory:
/// every line of it is a line of the whole listing.
pub proof fn law_subtree_listing_included(p: Seq<char>, hidden: bool, t: DirTree, k: int)
    requires
        0 <= k < t.entries@.len(),
        k < t.below@.len(),
        t.entries@[k].is_dir,
    ensures
        forall|l: Seq<char>|
            tree_lines(p + t.entries@[k].name@ + seq!['/'], hidden, t.below@[k]).contains(l)
                ==> #[trigger] tree_lines(p, hidden, t).contains(l),
{
    lemma_below_included(p, hidden, t, t.entries@.len(), k);
    let whole = tree_lines(p, hidden, t);
    let front = dots_spec(p, hidden) + entry_lines_spec(p, hidden, t.entries@);
    let b = below_lines(p, hidden, t, t.entries@.len());
    assert forall|l: Seq<char>|
        tree_lines(p + t.entries@[k].name@ + seq!['/'], hidden, t.below@[k]).contains(l)
            implies #[trigger] whole.contains(l) by {
        assert(b.contains(l));
        let i = choose|i: int| 0 <= i < b.len() && b[i] == l;
        assert(whole == front + b);
        assert(whole[front.len() + i] == l);
    }
}

proof fn lemma_below_included(p: Seq<char>, hidden: bool, t: DirTree, n: nat, k: int)
    requires
        0 <= k < n,
        k < t.entries@.len(),
        k < t.below@.len(),
        t.entries@[k].is_dir,
    ensures
        forall|l: Seq<char>|
            tree_lines(p + t.entries@[k].name@ + seq!['/'], hidden, t.below@[k]).contains(l)
                ==> #[trigger] below_lines(p, hidden, t, n).contains(l),
    decreases n,
{
    let sub = tree_lines(p + t.entries@[k].name@ + seq!['/'], hidden, t.below@[k]);
    let rest = below_lines(p, hidden, t, (n - 1) as nat);
    let all = below_lines(p, hidden, t, n);
    if k < n - 1 {
        lemma_below_included(p, hidden, t, (n - 1) as nat, k);
        let j = n - 1;
        assert forall|l: Seq<char>| sub.contains(l) implies #[trigger] all.contains(l) by {
            assert(rest.contains(l));
            let i = choose|i: int| 0 <= i < rest.len() && rest[i] == l;
            if j < t.entries@.len() && t.entries@[j].is_dir && j < t.below@.len() {
                let more = tree_lines(p + t.entries@[j].name@ + seq!['/'], hidden, t.below@[j]);
                assert(all == rest + more);
                assert(all[i] == l);
            } else {
                assert(all == rest);
                assert(all[i] == l);
            }
        }
    } else {
        assert forall|l: Seq<char>| sub.contains(l) implies #[trigger] all.contains(l) by {
            let i = choose|i: int| 0 <= i < sub.len() && sub[i] == l;
            assert(all == rest + sub);
            assert(all[rest.len() + i] == l);
        }
    }
}

} // verus!
