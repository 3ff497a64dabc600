//! `echo`: the text it writes.
use vstd::prelude::*;
use crate::text::{join_from, joined, str_is, words};

verus! {

/// What `echo` writes: a bare newline without operands; with `-n` first,
/// the other operands separated by spaces and nothing after; otherwise
/// the operands separated by spaces and a newline.
pub open spec fn echo_spec(args: Seq<Seq<char>>) -> Seq<char> {
    if args.len() <= 2 {
        seq!['\n']
    } else if args[2] == "-n"@ {
        joined(args.skip(3))
    } else {
        joined(args.skip(2)).push('\n')
    }
}

/// The text `echo` writes for the command line `args`.
pub fn echo_text(args: &Vec<String>) -> (out: String)
    ensures
        out@ == echo_spec(words(args@)),
        args@.len() <= 2 ==> out@ == seq!['\n'],
        args@.len() >= 3 && args@[2]@ == "-n"@ ==> out@ == joined(words(args@).skip(3)),
        args@.len() >= 3 && args@[2]@ != "-n"@ ==> out@ == joined(words(args@).skip(2)).push('\n'),
{
    let ghost w = words(args@);
    assert(args@.len() >= 3 ==> w[2] == args@[2]@);
    if args.len() <= 2 {
        proof {
            reveal_strlit("\n");
        }
        return String::from_str("\n");
    }
    assert(w[2] == args@[2]@);
    if str_is(&args[2], "-n") {
        join_from(args, 3)
    } else {
        let mut out = join_from(args, 2);
        out.append("\n");
        proof {
            reveal_strlit("\n");
        }
        out
    }
}

/// `-n` first takes away exactly the final newline: for any operands that
/// do not themselves start with `-n`, `echo -n` followed by them writes what
/// `echo` writes of them, less the newline at its end; the `-n` itself is
/// never written.
pub proof fn law_n_drops_newline(args: Seq<Seq<char>>)
    requires
        args.len() >= 2,
        args.len() == 2 || args[2] != "-n"@,
    ensures
        echo_spec(args.take(2) + seq!["-n"@] + args.skip(2)).push('\n') == echo_spec(args),
{
    let with_n = args.take(2) + seq!["-n"@] + args.skip(2);
    assert(with_n[2] == "-n"@);
    assert(with_n.skip(3) =~= args.skip(2));
    if args.len() == 2 {
        assert(args.skip(2) =~= Seq::<Seq<char>>::empty());
        assert(joined(Seq::<Seq<char>>::empty()) == Seq::<char>::empty());
        assert(Seq::<char>::empty().push('\n') =~= seq!['\n']);
    }
}

/// Without `-n` first, what `echo` writes always ends in a newline, and
/// all before it is the operands, each in full, joined by single spaces.
pub proof fn law_echo_ends_in_newline(args: Seq<Seq<char>>)
    requires
        args.len() <= 2 || args[2] != "-n"@,
    ensures
        echo_spec(args).len() > 0,
        echo_spec(args).last() == '\n',
        args.len() > 2 ==> echo_spec(args).drop_last() == joined(args.skip(2)),
{
    if args.len() > 2 {
        assert(joined(args.skip(2)).push('\n').drop_last() =~= joined(args.skip(2)));
    }
}

} // verus!
