//! `chmod`: reading a mode given in octal (`chmod 644 f`) or as a symbolic
//! change (`chmod u+rw f`), and the mode that results.
use vstd::prelude::*;
use crate::command::INVALID_COMMAND;
use crate::numeral::{octal_u32, parse_octal};
use crate::text::words;

verus! {

/// Exit code of `chmod` when the mask or the file cannot be used.
pub const CHMOD_FAILED: i32 = -25;

/// The permission bits that `chmod` keeps of a file's current mode.
pub const PERMISSION_BITS: u32 = 0o777;

/// Whether `c` is in one of Unicode's number categories (Nd, Nl, No), as
/// `char::is_numeric` answers it.
pub uninterp spec fn unicode_numeric(c: char) -> bool;

/// Calls `char::is_numeric`. Claimed: the answer is `unicode_numeric(c)`,
/// and for an ASCII character it is true exactly for `0` to `9` (no other
/// ASCII character lies in a number category).
#[verifier::external_body]
fn char_is_numeric(c: char) -> (b: bool)
    ensures
        b == unicode_numeric(c),
        (c as u32) < 128 ==> (b <==> ('0' <= c && c <= '9')),
{
    c.is_numeric()
}

/// Whether `c` is numeric, the ASCII characters spelled out: among them
/// exactly `0` to `9`; beyond ASCII, the Unicode number categories.
pub open spec fn numeric_char(c: char) -> bool {
    if (c as u32) < 128 {
        '0' <= c && c <= '9'
    } else {
        unicode_numeric(c)
    }
}

/// Whether `c` names a class of users: `u`, `g`, `o` or `a`.
pub open spec fn is_class_char(c: char) -> bool {
    c == 'u' || c == 'g' || c == 'o' || c == 'a'
}

/// What a left-to-right reading of a symbolic mask has collected.
pub struct MaskScan {
    /// `u` was seen.
    pub user: bool,
    /// `g` was seen.
    pub group: bool,
    /// `o` was seen.
    pub other: bool,
    /// `a` was seen.
    pub all: bool,
    /// `+` was seen: permissions are added, else removed.
    pub adding: bool,
    /// A `+` or `-` was seen: `r`, `w`, `x` count from here on.
    pub started: bool,
    /// The permissions named after the first `+` or `-`: 4 for `r`, 2 for
    /// `w`, 1 for `x`, each counted once.
    pub perms: u32,
}

/// The reading of a symbolic mask before any character.
pub open spec fn scan_start() -> MaskScan {
    MaskScan {
        user: false,
        group: false,
        other: false,
        all: false,
        adding: false,
        started: false,
        perms: 0,
    }
}

/// The permission bit of one letter: 4 for `r`, 2 for `w`, 1 for `x`.
pub open spec fn letter_bit(c: char) -> u32 {
    if c == 'r' {
        4
    } else if c == 'w' {
        2
    } else if c == 'x' {
        1
    } else {
        0
    }
}

/// The reading after one more character `c`.
pub open spec fn scan_step(m: MaskScan, c: char) -> MaskScan {
    let started = m.started || c == '+' || c == '-';
    MaskScan {
        user: m.user || c == 'u',
        group: m.group || c == 'g',
        other: m.other || c == 'o',
        all: m.all || c == 'a',
        adding: m.adding || c == '+',
        started,
        perms: if started { m.perms | letter_bit(c) } else { m.perms },
    }
}

/// The reading of the whole mask `s`.
pub open spec fn scan(s: Seq<char>) -> MaskScan
    decreases s.len(),
{
    if s.len() == 0 {
        scan_start()
    } else {
        scan_step(scan(s.drop_last()), s.last())
    }
}

/// The permission bits a reading stands for: its permissions in the user
/// bits for `u`, in the group bits for `g`, in the others' bits for `o`,
/// and in all three for `a`.
pub open spec fn class_mask(m: MaskScan) -> u32 {
    (if m.user || m.all { m.perms << 6u32 } else { 0 }) | (if m.group || m.all {
        m.perms << 3u32
    } else {
        0
    }) | (if m.other || m.all { m.perms } else { 0 })
}

/// The mask of bits of the symbolic change `s`.
pub open spec fn symbolic_mask(s: Seq<char>) -> u32 {
    class_mask(scan(s))
}

/// The permissions of a reading are among `rwx`.
proof fn lemma_perms_small(s: Seq<char>)
    ensures
        scan(s).perms <= 7,
    decreases s.len(),
{
    if s.len() > 0 {
        lemma_perms_small(s.drop_last());
        let p = scan(s.drop_last()).perms;
        let b = letter_bit(s.last());
        assert(p <= 7 && b <= 7 ==> p | b <= 7) by (bit_vector);
    }
}

/// A symbolic change touches only permission bits, and gives each class
/// the permissions it names: the user bits hold them when `u` or `a` is
/// named, the group bits when `g` or `a` is, the others' bits when `o` or
/// `a` is, and every other class keeps a zero.
pub proof fn law_symbolic_mask_by_class(s: Seq<char>)
    ensures
        symbolic_mask(s) & !PERMISSION_BITS == 0,
        (symbolic_mask(s) >> 6u32) & 7 == if scan(s).user || scan(s).all { scan(s).perms } else { 0 },
        (symbolic_mask(s) >> 3u32) & 7 == if scan(s).group || scan(s).all { scan(s).perms } else { 0 },
        symbolic_mask(s) & 7 == if scan(s).other || scan(s).all { scan(s).perms } else { 0 },
{
    lemma_perms_small(s);
    let m = scan(s);
    let p = m.perms;
    let u = m.user || m.all;
    let g = m.group || m.all;
    let o = m.other || m.all;
    let v = symbolic_mask(s);
    assert(v == (if u { p << 6u32 } else { 0 }) | (if g { p << 3u32 } else { 0 }) | (if o { p } else { 0 }));
    assert(p <= 7 && v == (if u { p << 6u32 } else { 0 }) | (if g { p << 3u32 } else { 0 }) | (if o { p } else { 0 }) ==> {
        &&& v & !0o777u32 == 0
        &&& (v >> 6u32) & 7 == if u { p } else { 0 }
        &&& (v >> 3u32) & 7 == if g { p } else { 0 }
        &&& v & 7 == if o { p } else { 0 }
    }) by (bit_vector);
}

/// Whether a sign `+` or `-` comes somewhere before a `c` in `s`.
pub open spec fn after_sign(s: Seq<char>, c: char) -> bool {
    exists|i: int, j: int| 0 <= i < j < s.len() && (s[i] == '+' || s[i] == '-') && s[j] == c
}

proof fn lemma_contains_last(s: Seq<char>, x: char)
    requires
        s.len() > 0,
    ensures
        s.contains(x) <==> (s.drop_last().contains(x) || s.last() == x),
{
    let t = s.drop_last();
    if s.contains(x) {
        let i = choose|i: int| 0 <= i < s.len() && s[i] == x;
        if i < s.len() - 1 {
            assert(t[i] == x);
        }
    }
    if t.contains(x) {
        let i = choose|i: int| 0 <= i < t.len() && t[i] == x;
        assert(s[i] == x);
    }
    if s.last() == x {
        assert(s[s.len() - 1] == x);
    }
}

proof fn lemma_after_sign_last(s: Seq<char>, c: char)
    requires
        s.len() > 0,
    ensures
        after_sign(s, c) <==> (after_sign(s.drop_last(), c) || (s.last() == c && (s.drop_last().contains(
            '+',
        ) || s.drop_last().contains('-')))),
{
    let t = s.drop_last();
    if after_sign(s, c) {
        let (i, j) = choose|i: int, j: int|
            0 <= i < j < s.len() && (s[i] == '+' || s[i] == '-') && s[j] == c;
        if j < s.len() - 1 {
            assert(t[i] == s[i] && t[j] == s[j]);
        } else {
            assert(t[i] == s[i]);
            if s[i] == '+' {
                assert(t.contains('+'));
            } else {
                assert(t.contains('-'));
            }
        }
    }
    if after_sign(t, c) {
        let (i, j) = choose|i: int, j: int|
            0 <= i < j < t.len() && (t[i] == '+' || t[i] == '-') && t[j] == c;
        assert(s[i] == t[i] && s[j] == t[j]);
    }
    if s.last() == c && (t.contains('+') || t.contains('-')) {
        let i = if t.contains('+') {
            choose|i: int| 0 <= i < t.len() && t[i] == '+'
        } else {
            choose|i: int| 0 <= i < t.len() && t[i] == '-'
        };
        assert(s[i] == t[i]);
        assert(s[s.len() - 1] == c);
    }
}

proof fn lemma_or_bit(p: u32, b: u32, m: u32)
    requires
        m == 1 || m == 2 || m == 4,
    ensures
        ((p | b) & m != 0) == ((p & m != 0) || (b & m != 0)),
        (0u32 | b) == b,
{
    assert(m == 1 || m == 2 || m == 4 ==> (((p | b) & m != 0) == ((p & m != 0) || (b & m != 0)))
        && (0u32 | b) == b) by (bit_vector);
}

/// What a symbolic mask says, letter by letter: a class is chosen exactly
/// when its letter (`u`, `g`, `o`, `a`) occurs anywhere in the mask,
/// whatever other letters occur; the change adds exactly when a `+`
/// occurs; and each of `r`, `w`, `x` is granted (or taken) exactly when it
/// occurs after some `+` or `-`.
pub proof fn law_mask_letters(s: Seq<char>)
    ensures
        scan(s).user <==> s.contains('u'),
        scan(s).group <==> s.contains('g'),
        scan(s).other <==> s.contains('o'),
        scan(s).all <==> s.contains('a'),
        scan(s).adding <==> s.contains('+'),
        scan(s).started <==> (s.contains('+') || s.contains('-')),
        (scan(s).perms & 4 != 0) <==> after_sign(s, 'r'),
        (scan(s).perms & 2 != 0) <==> after_sign(s, 'w'),
        (scan(s).perms & 1 != 0) <==> after_sign(s, 'x'),
        !scan(s).started ==> scan(s).perms == 0,
    decreases s.len(),
{
    if s.len() == 0 {
        assert(!s.contains('u') && !s.contains('g') && !s.contains('o') && !s.contains('a'));
        assert(!s.contains('+') && !s.contains('-'));
        assert(!after_sign(s, 'r') && !after_sign(s, 'w') && !after_sign(s, 'x'));
        assert(0u32 & 4 == 0 && 0u32 & 2 == 0 && 0u32 & 1 == 0) by (bit_vector);
    } else {
        let t = s.drop_last();
        let c = s.last();
        law_mask_letters(t);
        lemma_contains_last(s, 'u');
        lemma_contains_last(s, 'g');
        lemma_contains_last(s, 'o');
        lemma_contains_last(s, 'a');
        lemma_contains_last(s, '+');
        lemma_contains_last(s, '-');
        lemma_after_sign_last(s, 'r');
        lemma_after_sign_last(s, 'w');
        lemma_after_sign_last(s, 'x');
        let p = scan(t).perms;
        let b = letter_bit(c);
        lemma_or_bit(p, b, 4);
        lemma_or_bit(p, b, 2);
        lemma_or_bit(p, b, 1);
        assert(b & 4 != 0 <==> c == 'r') by {
            assert(4u32 & 4 != 0 && 2u32 & 4 == 0 && 1u32 & 4 == 0 && 0u32 & 4 == 0) by (bit_vector);
        }
        assert(b & 2 != 0 <==> c == 'w') by {
            assert(4u32 & 2 == 0 && 2u32 & 2 != 0 && 1u32 & 2 == 0 && 0u32 & 2 == 0) by (bit_vector);
        }
        assert(b & 1 != 0 <==> c == 'x') by {
            assert(4u32 & 1 == 0 && 2u32 & 1 == 0 && 1u32 & 1 != 0 && 0u32 & 1 == 0) by (bit_vector);
        }
        if !scan(t).started {
            assert(!after_sign(t, 'r') && !after_sign(t, 'w') && !after_sign(t, 'x')) by {
                if after_sign(t, 'r') {
                    let (i, j) = choose|i: int, j: int|
                        0 <= i < j < t.len() && (t[i] == '+' || t[i] == '-') && t[j] == 'r';
                    assert(t.contains(t[i]));
                }
                if after_sign(t, 'w') {
                    let (i, j) = choose|i: int, j: int|
                        0 <= i < j < t.len() && (t[i] == '+' || t[i] == '-') && t[j] == 'w';
                    assert(t.contains(t[i]));
                }
                if after_sign(t, 'x') {
                    let (i, j) = choose|i: int, j: int|
                        0 <= i < j < t.len() && (t[i] == '+' || t[i] == '-') && t[j] == 'x';
                    assert(t.contains(t[i]));
                }
            }
            assert(0u32 & 4 == 0 && 0u32 & 2 == 0 && 0u32 & 1 == 0) by (bit_vector);
        }
    }
}

/// Whether `mask` is a symbolic change: it starts with `u`, `g`, `o` or
/// `a`. Such a change reads the mode of the operand after the mask.
pub fn is_symbolic(mask: &String) -> (b: bool)
    ensures
        b == (mask@.len() > 0 && is_class_char(mask@[0])),
{
    let s = mask.as_str();
    if s.unicode_len() == 0 {
        return false;
    }
    let c = s.get_char(0);
    c == 'u' || c == 'g' || c == 'o' || c == 'a'
}

/// Reads the symbolic mask `s`: whether it adds, and the mask of bits.
pub fn read_symbolic(s: &str) -> (r: (bool, u32))
    ensures
        r == (scan(s@).adding, symbolic_mask(s@)),
        r.0 <==> s@.contains('+'),
        r.1 & !PERMISSION_BITS == 0,
        (r.1 >> 6u32) & 7 == if s@.contains('u') || s@.contains('a') { scan(s@).perms } else { 0 },
        (r.1 >> 3u32) & 7 == if s@.contains('g') || s@.contains('a') { scan(s@).perms } else { 0 },
        r.1 & 7 == if s@.contains('o') || s@.contains('a') { scan(s@).perms } else { 0 },
        (scan(s@).perms & 4 != 0) <==> after_sign(s@, 'r'),
        (scan(s@).perms & 2 != 0) <==> after_sign(s@, 'w'),
        (scan(s@).perms & 1 != 0) <==> after_sign(s@, 'x'),
        scan(s@).perms <= 7,
{
    proof {
        law_mask_letters(s@);
        law_symbolic_mask_by_class(s@);
        lemma_perms_small(s@);
    }
    let n = s.unicode_len();
    let mut user = false;
    let mut group = false;
    let mut other = false;
    let mut all = false;
    let mut adding = false;
    let mut started = false;
    let mut perms: u32 = 0;
    let mut i: usize = 0;
    assert(s@.take(0) =~= Seq::<char>::empty());
    while i < n
        invariant
            i <= n,
            n == s@.len(),
            scan(s@.take(i as int)) == (MaskScan { user, group, other, all, adding, started, perms }),
        decreases n - i,
    {
        let c = s.get_char(i);
        assert(s@.take(i + 1).drop_last() =~= s@.take(i as int));
        if c == '+' {
            started = true;
            adding = true;
        }
        if c == '-' {
            started = true;
        }
        if c == 'u' {
            user = true;
        }
        if c == 'g' {
            group = true;
        }
        if c == 'o' {
            other = true;
        }
        if c == 'a' {
            all = true;
        }
        if started {
            if c == 'r' {
                perms = perms | 4;
            }
            if c == 'w' {
                perms = perms | 2;
            }
            if c == 'x' {
                perms = perms | 1;
            }
            assert(perms | 0 == perms) by (bit_vector);
        }
        i = i + 1;
    }
    assert(s@.take(n as int) =~= s@);
    let mut mask: u32 = 0;
    if user || all {
        mask = mask | (perms << 6u32);
    }
    if group || all {
        mask = mask | (perms << 3u32);
    }
    if other || all {
        mask = mask | perms;
    }
    let ghost u = user || all;
    let ghost g = group || all;
    let ghost o = other || all;
    assert(mask == (if u { perms << 6u32 } else { 0 }) | (if g { perms << 3u32 } else { 0 }) | (if o { perms } else { 0 })) by {
        assert(forall|x: u32| #![auto] 0u32 | x == x && x | 0u32 == x) by (bit_vector);
    }
    (adding, mask)
}

/// The mode that adding (or removing) `mask` gives a file of mode `current`.
pub open spec fn adjusted(current: u32, adding: bool, mask: u32) -> u32 {
    if adding {
        mask | (current & PERMISSION_BITS)
    } else {
        !mask & (current & PERMISSION_BITS)
    }
}

/// Adding a mask sets every bit of the mask and keeps the other
/// permission bits of the file as they were; bits above the permission
/// bits are dropped unless the mask has them.
pub proof fn law_adding_sets_mask(current: u32, mask: u32)
    ensures
        adjusted(current, true, mask) & mask == mask,
        adjusted(current, true, mask) & !mask == current & PERMISSION_BITS & !mask,
{
    assert(((mask | (current & 0o777u32)) & mask == mask) && ((mask | (current & 0o777u32))
        & !mask == current & 0o777u32 & !mask)) by (bit_vector);
}

/// Removing a mask clears every bit of the mask and keeps the other
/// permission bits of the file as they were.
pub proof fn law_removing_clears_mask(current: u32, mask: u32)
    ensures
        adjusted(current, false, mask) & mask == 0,
        adjusted(current, false, mask) == current & PERMISSION_BITS & !mask,
{
    assert(((!mask & (current & 0o777u32)) & mask == 0) && (!mask & (current & 0o777u32)
        == current & 0o777u32 & !mask)) by (bit_vector);
}

/// Adding the same mask twice is adding it once.
pub proof fn law_adding_twice(current: u32, mask: u32)
    ensures
        adjusted(adjusted(current, true, mask), true, mask) == adjusted(current, true, mask),
{
    assert(mask | ((mask | (current & 0o777u32)) & 0o777u32) == mask | (current & 0o777u32))
        by (bit_vector);
}

/// Removing the same mask twice is removing it once.
pub proof fn law_removing_twice(current: u32, mask: u32)
    ensures
        adjusted(adjusted(current, false, mask), false, mask) == adjusted(current, false, mask),
{
    assert(!mask & ((!mask & (current & 0o777u32)) & 0o777u32) == !mask & (current & 0o777u32))
        by (bit_vector);
}

/// Removing a mask after adding it is removing it: the addition leaves no
/// trace.
pub proof fn law_remove_after_add(current: u32, mask: u32)
    ensures
        adjusted(adjusted(current, true, mask), false, mask) == adjusted(current, false, mask),
{
    assert(!mask & ((mask | (current & 0o777u32)) & 0o777u32) == !mask & (current & 0o777u32))
        by (bit_vector);
}

/// The mode a symbolic change gives a file whose mode is `current`: the
/// permission bits of `current`, with the bits of `mask` set when adding
/// and cleared otherwise.
pub fn adjusted_mode(current: u32, adding: bool, mask: u32) -> (m: u32)
    ensures
        m == adjusted(current, adding, mask),
{
    let kept = current & PERMISSION_BITS;
    if adding {
        mask | kept
    } else {
        !mask & kept
    }
}

/// What `chmod` does with its command line. Paths are given as indices
/// into the command line.
#[derive(PartialEq, Eq, Structural, Clone, Copy, Debug)]
pub enum ChmodPlan {
    /// Stop with this exit code, changing nothing.
    Fail { code: i32 },
    /// Give the file `target` the mode `mode`.
    Assign { target: usize, mode: u32 },
    /// Read the mode of `source`, and give `target` that mode's permission
    /// bits with `mask` added (or removed, when `adding` is false).
    Adjust { source: usize, target: usize, adding: bool, mask: u32 },
}

/// The command lines on which `chmod` runs to an end when its mask starts
/// with a numeric character (`first_numeric`) or not: a mask that is not
/// empty, and for a symbolic mask a file operand after it.
pub open spec fn chmod_defined_given(args: Seq<Seq<char>>, first_numeric: bool) -> bool {
    &&& args.len() >= 3
    &&& args[2].len() > 0
    &&& !first_numeric && is_class_char(args[2][0]) ==> args.len() >= 4
}

/// The command lines on which `chmod` runs to an end.
pub open spec fn chmod_defined(args: Seq<Seq<char>>) -> bool {
    &&& args.len() >= 3
    &&& args[2].len() > 0
    &&& is_class_char(args[2][0]) ==> args.len() >= 4
}

/// What `chmod` does when its mask starts with a numeric character
/// (`first_numeric`) or not: a numeric mask is an octal mode for the last
/// operand, which must be the only one; a mask starting with `u`, `g`, `o`
/// or `a` is a change of the mode of the operand after the mask, given to
/// the last operand; any other mask is refused.
pub open spec fn chmod_spec_given(args: Seq<Seq<char>>, first_numeric: bool) -> ChmodPlan {
    let mask = args[2];
    let target = (args.len() - 1) as usize;
    if first_numeric {
        if args.len() != 4 {
            ChmodPlan::Fail { code: CHMOD_FAILED }
        } else {
            match octal_u32(mask) {
                Some(mode) => ChmodPlan::Assign { target, mode },
                None => ChmodPlan::Fail { code: CHMOD_FAILED },
            }
        }
    } else if !is_class_char(mask[0]) {
        ChmodPlan::Fail { code: INVALID_COMMAND }
    } else {
        ChmodPlan::Adjust {
            source: 3,
            target,
            adding: scan(mask).adding,
            mask: symbolic_mask(mask),
        }
    }
}

/// What `chmod` does with the command line `args`.
pub open spec fn chmod_spec(args: Seq<Seq<char>>) -> ChmodPlan {
    chmod_spec_given(args, numeric_char(args[2][0]))
}

/// Decides what `chmod` does with the command line `args`, given whether
/// the first character of its mask is numeric.
pub fn chmod_plan_given(args: &Vec<String>, first_numeric: bool) -> (p: ChmodPlan)
    requires
        chmod_defined_given(words(args@), first_numeric),
    ensures
        p == chmod_spec_given(words(args@), first_numeric),
{
    let ghost w = words(args@);
    assert(w[2] == args@[2]@);
    let mask = args[2].as_str();
    let first = mask.get_char(0);
    let target = args.len() - 1;
    if first_numeric {
        if args.len() != 4 {
            return ChmodPlan::Fail { code: CHMOD_FAILED };
        }
        match parse_octal(mask) {
            Some(mode) => ChmodPlan::Assign { target, mode },
            None => ChmodPlan::Fail { code: CHMOD_FAILED },
        }
    } else if first != 'u' && first != 'g' && first != 'o' && first != 'a' {
        ChmodPlan::Fail { code: INVALID_COMMAND }
    } else {
        let (adding, m) = read_symbolic(mask);
        ChmodPlan::Adjust { source: 3, target, adding, mask: m }
    }
}

/// Decides what `chmod` does with the command line `args`
/// (`args[0]` the program, `args[1]` the command name).
pub fn chmod_plan(args: &Vec<String>) -> (p: ChmodPlan)
    requires
        chmod_defined(words(args@)),
    ensures
        p == chmod_spec(words(args@)),
        ('0' <= args@[2]@[0] && args@[2]@[0] <= '9' && args@.len() != 4) ==> p
            == (ChmodPlan::Fail { code: CHMOD_FAILED }),
        ('0' <= args@[2]@[0] && args@[2]@[0] <= '9' && args@.len() == 4) ==> p == (match octal_u32(args@[2]@) {
            Some(v) => ChmodPlan::Assign { target: 3, mode: v },
            None => ChmodPlan::Fail { code: CHMOD_FAILED },
        }),
        is_class_char(args@[2]@[0]) ==> p == (ChmodPlan::Adjust { source: 3, target: (args@.len() - 1) as usize, adding: args@[2]@.contains('+'), mask: symbolic_mask(args@[2]@), }),
        ((args@[2]@[0] as u32) < 128 && !('0' <= args@[2]@[0] && args@[2]@[0] <= '9')
            && !is_class_char(args@[2]@[0])) ==> p == (ChmodPlan::Fail { code: INVALID_COMMAND }),
{
    let ghost w = words(args@);
    proof {
        law_mask_letters(args@[2]@);
    }
    assert(w[2] == args@[2]@);
    let first = args[2].as_str().get_char(0);
    let numeric = char_is_numeric(first);
    assert(numeric == numeric_char(w[2][0]));
    chmod_plan_given(args, numeric)
}

} // verus!
