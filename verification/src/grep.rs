//! `grep`: its command line, and which lines it writes, through regular
//! expressions of the `regex` crate.
use vstd::prelude::*;
use crate::text::{str_is, words};

verus! {

#[verifier::external_type_specification]
#[verifier::external_body]
pub struct ExRegex(regex::Regex);

#[verifier::external_type_specification]
#[verifier::external_body]
pub struct ExRegexError(regex::Error);

/// Whether `regex::Regex::new` accepts `pattern`: its syntax is valid and
/// the compiled form stays under the crate's default size limit.
pub uninterp spec fn regex_accepts(pattern: Seq<char>) -> bool;

/// Whether the regular expression `pattern` matches somewhere in
/// `haystack`, as `regex::Regex::is_match` answers it.
pub uninterp spec fn regex_finds(pattern: Seq<char>, haystack: Seq<char>) -> bool;

/// A compiled regular expression, with the text it was compiled from.
pub struct Pattern {
    source: String,
    compiled: regex::Regex,
}

impl View for Pattern {
    type V = Seq<char>;

    /// The text the expression was compiled from.
    closed spec fn view(&self) -> Seq<char> {
        self.source@
    }
}

/// Calls `regex::Regex::new`. Claimed: it succeeds exactly when
/// `regex_accepts(pattern@)`, and the expression it gives is kept with
/// the text `pattern`. Which error it gives is not stated.
#[verifier::external_body]
fn regex_new(pattern: &str) -> (r: Result<Pattern, regex::Error>)
    ensures
        r is Ok <==> regex_accepts(pattern@),
        r matches Ok(p) ==> p@ == pattern@,
{
    match regex::Regex::new(pattern) {
        Ok(compiled) => Ok(Pattern { source: pattern.to_string(), compiled }),
        Err(e) => Err(e),
    }
}

/// Calls `regex::Regex::is_match` on the expression compiled from
/// `pattern@`. Claimed: the answer is `regex_finds(pattern@, haystack@)`.
#[verifier::external_body]
fn regex_is_match(pattern: &Pattern, haystack: &str) -> (b: bool)
    ensures
        b == regex_finds(pattern@, haystack@),
{
    pattern.compiled.is_match(haystack)
}

/// A pattern that cannot be compiled.
#[derive(PartialEq, Eq, Structural, Clone, Copy, Debug)]
pub enum PatternError {
    Invalid,
}

/// Compiles the regular expression `source`.
pub fn compile_pattern(source: &String) -> (r: Result<Pattern, PatternError>)
    ensures
        r is Ok <==> regex_accepts(source@),
        r matches Ok(p) ==> p@ == source@,
{
    match regex_new(source.as_str()) {
        Ok(p) => Ok(p),
        Err(_) => Err(PatternError::Invalid),
    }
}

/// The operands of a `grep` command line, as indices into it.
#[derive(PartialEq, Eq, Structural, Clone, Copy, Debug)]
pub struct GrepOptions {
    /// `-i`: write the lines that do not match.
    pub invert: bool,
    /// The regular expression.
    pub pattern: usize,
    /// The file to read.
    pub file: usize,
}

/// The options of `grep`: `-i` first turns the selection around; then
/// come the expression and the file.
pub open spec fn grep_options_spec(args: Seq<Seq<char>>) -> GrepOptions {
    let invert = args[2] == "-i"@;
    let pattern: usize = if invert { 3 } else { 2 };
    GrepOptions { invert, pattern, file: (pattern + 1) as usize }
}

/// Reads the options of the `grep` command line `args`; the operands it
/// points at may lie past the end of the line.
pub fn grep_options(args: &Vec<String>) -> (o: GrepOptions)
    requires
        args@.len() >= 3,
    ensures
        o == grep_options_spec(words(args@)),
        o.invert <==> args@[2]@ == "-i"@,
        o.pattern == if o.invert { 3usize } else { 2usize },
        o.file == o.pattern + 1,
{
    let ghost w = words(args@);
    assert(w[2] == args@[2]@);
    if str_is(&args[2], "-i") {
        GrepOptions { invert: true, pattern: 3, file: 4 }
    } else {
        GrepOptions { invert: false, pattern: 2, file: 3 }
    }
}

/// Whether `grep` writes a line: one in which the expression is found,
/// or with `-i` one in which it is not.
pub open spec fn printed(pattern: Seq<char>, line: Seq<char>, invert: bool) -> bool {
    regex_finds(pattern, line) != invert
}

/// Whether `grep` writes a line in which the expression was found
/// (`found`) or not.
pub fn line_printed(found: bool, invert: bool) -> (b: bool)
    ensures
        b == (found != invert),
{
    if invert {
        !found
    } else {
        found
    }
}

/// Whether `grep` with the expression `pattern` writes `line`.
pub fn grep_prints(pattern: &Pattern, line: &String, invert: bool) -> (b: bool)
    ensures
        b == printed(pattern@, line@, invert),
{
    let found = regex_is_match(pattern, line.as_str());
    line_printed(found, invert)
}

/// The lines `grep` writes of the lines of a file, in order.
pub open spec fn grep_output(pattern: Seq<char>, lines: Seq<Seq<char>>, invert: bool) -> Seq<
    Seq<char>,
> {
    lines.filter(|l: Seq<char>| printed(pattern, l, invert))
}

/// The lines `grep` with the expression `pattern` writes of the lines
/// `lines` of a file, in order.
pub fn grep_lines(pattern: &Pattern, lines: &Vec<String>, invert: bool) -> (out: Vec<String>)
    ensures
        words(out@) == grep_output(pattern@, words(lines@), invert),
{
    let ghost all = words(lines@);
    let mut out: Vec<String> = Vec::new();
    let mut i: usize = 0;
    assert(all.take(0) =~= Seq::<Seq<char>>::empty());
    assert(grep_output(pattern@, Seq::<Seq<char>>::empty(), invert) =~= Seq::<Seq<char>>::empty());
    while i < lines.len()
        invariant
            i <= lines@.len(),
            all == words(lines@),
            words(out@) == grep_output(pattern@, all.take(i as int), invert),
        decreases lines@.len() - i,
    {
        let ghost before = all.take(i as int);
        let ghost after = all.take(i + 1);
        assert(after.drop_last() =~= before);
        assert(after.last() == lines@[i as int]@);
        proof {
            reveal_with_fuel(Seq::filter, 1);
        }
        assert(grep_output(pattern@, after, invert) == {
            let r = grep_output(pattern@, before, invert);
            if printed(pattern@, after.last(), invert) { r.push(after.last()) } else { r }
        });
        if grep_prints(pattern, &lines[i], invert) {
            out.push(lines[i].clone());
            assert(words(out@) =~= grep_output(pattern@, before, invert).push(lines@[i as int]@));
        }
        i = i + 1;
    }
    assert(all.take(i as int) =~= all);
    out
}

/// `grep` writes exactly the lines of the file in which the expression
/// is found, and `grep -i` exactly those in which it is not, each in the
/// order of the file.
pub proof fn law_grep_selects(pattern: Seq<char>, lines: Seq<Seq<char>>, l: Seq<char>)
    ensures
        printed(pattern, l, false) == regex_finds(pattern, l),
        printed(pattern, l, true) == !regex_finds(pattern, l),
        grep_output(pattern, lines, false).contains(l) <==> (lines.contains(l) && regex_finds(
            pattern,
            l,
        )),
        grep_output(pattern, lines, true).contains(l) <==> (lines.contains(l) && !regex_finds(
            pattern,
            l,
        )),
{
    let f = |x: Seq<char>| printed(pattern, x, false);
    let t = |x: Seq<char>| printed(pattern, x, true);
    if lines.contains(l) {
        let i = choose|i: int| 0 <= i < lines.len() && lines[i] == l;
        if f(lines[i]) {
            lines.lemma_filter_contains(f, i);
        } else {
            lines.lemma_filter_contains(t, i);
        }
    }
    if grep_output(pattern, lines, false).contains(l) {
        let o = grep_output(pattern, lines, false);
        let i = choose|i: int| 0 <= i < o.len() && o[i] == l;
        lines.lemma_filter_contains_rev(f, l);
        lines.lemma_filter_pred(f, i);
    }
    if grep_output(pattern, lines, true).contains(l) {
        let o = grep_output(pattern, lines, true);
        let i = choose|i: int| 0 <= i < o.len() && o[i] == l;
        lines.lemma_filter_contains_rev(t, l);
        lines.lemma_filter_pred(t, i);
    }
}

/// `grep -i` writes exactly the lines that `grep` leaves out: each line of
/// the file is written by one of the two and not by the other, so their
/// outputs together are as long as the file.
pub proof fn law_invert_complements(pattern: Seq<char>, lines: Seq<Seq<char>>)
    ensures
        forall|i: int|
            0 <= i < lines.len() ==> (printed(pattern, lines[i], false) != printed(
                pattern,
                lines[i],
                true,
            )),
        grep_output(pattern, lines, false).len() + grep_output(pattern, lines, true).len()
            == lines.len(),
    decreases lines.len(),
{
    if lines.len() > 0 {
        law_invert_complements(pattern, lines.drop_last());
        reveal_with_fuel(Seq::filter, 1);
        assert(grep_output(pattern, lines, false) == {
            let r = grep_output(pattern, lines.drop_last(), false);
            if printed(pattern, lines.last(), false) { r.push(lines.last()) } else { r }
        });
        assert(grep_output(pattern, lines, true) == {
            let r = grep_output(pattern, lines.drop_last(), true);
            if printed(pattern, lines.last(), true) { r.push(lines.last()) } else { r }
        });
    } else {
        assert(grep_output(pattern, lines, false) =~= Seq::<Seq<char>>::empty());
        assert(grep_output(pattern, lines, true) =~= Seq::<Seq<char>>::empty());
    }
}

} // verus!
