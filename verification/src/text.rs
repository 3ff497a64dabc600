//! Text helpers shared by the commands: the words of a command line,
//! literal comparison and joining words with spaces.
use vstd::prelude::*;

verus! {

/// The view of every argument of a command line.
pub open spec fn words(args: Seq<String>) -> Seq<Seq<char>> {
    args.map_values(|s: String| s@)
}

/// `words` separated by single spaces, as `[..].join(" ")` builds it.
pub open spec fn joined(words: Seq<Seq<char>>) -> Seq<char>
    decreases words.len(),
{
    if words.len() == 0 {
        Seq::empty()
    } else if words.len() == 1 {
        words[0]
    } else {
        joined(words.drop_last()) + seq![' '] + words.last()
    }
}

/// Joining nothing gives nothing, joining one word gives that word, and
/// joining two non-empty lists of words gives their joinings with exactly
/// one space between: every word appears in full, in order, separated by
/// single spaces.
pub proof fn law_joined(w: Seq<char>, a: Seq<Seq<char>>, b: Seq<Seq<char>>)
    requires
        a.len() > 0,
        b.len() > 0,
    ensures
        joined(Seq::empty()) == Seq::<char>::empty(),
        joined(seq![w]) == w,
        joined(a + b) == joined(a) + seq![' '] + joined(b),
    decreases b.len(),
{
    assert(seq![w].len() == 1);
    if b.len() == 1 {
        assert((a + b).drop_last() =~= a);
        assert((a + b).last() == b[0]);
    } else {
        law_joined(w, a, b.drop_last());
        assert((a + b).drop_last() =~= a + b.drop_last());
        assert((a + b).last() == b.last());
        assert(joined(a + b) =~= joined(a) + seq![' '] + joined(b));
    }
}

/// Whether `s` is exactly the text `lit`.
pub fn str_is(s: &String, lit: &str) -> (b: bool)
    ensures
        b == (s@ == lit@),
{
    let t = String::from_str(lit);
    *s == t
}

/// The arguments from index `from` on, separated by single spaces.
pub fn join_from(args: &Vec<String>, from: usize) -> (out: String)
    requires
        from <= args@.len(),
    ensures
        out@ == joined(words(args@).skip(from as int)),
{
    let ghost w = words(args@);
    let mut out = String::new();
    let mut i = from;
    assert(w.skip(from as int).take(0) =~= Seq::<Seq<char>>::empty());
    while i < args.len()
        invariant
            from <= i <= args@.len(),
            w == words(args@),
            out@ == joined(w.skip(from as int).take(i - from)),
        decreases args@.len() - i,
    {
        let ghost before = w.skip(from as int).take(i - from);
        let ghost after = w.skip(from as int).take(i + 1 - from);
        assert(after.drop_last() =~= before);
        assert(after.last() == args@[i as int]@);
        if i > from {
            out.append(" ");
            proof {
                reveal_strlit(" ");
            }
        }
        out.append(args[i].as_str());
        i = i + 1;
    }
    assert(w.skip(from as int).take(i - from) =~= w.skip(from as int));
    out
}

} // verus!
