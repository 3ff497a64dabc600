//! Paths as `std::path` reads them on Unix: the final name of a path and
//! joining a name onto a directory.
use vstd::prelude::*;

verus! {

/// Where the segment that ends at index `j` of `p` starts: just after the
/// last `/` before `j`, or at 0.
pub open spec fn segment_start(p: Seq<char>, j: int) -> int
    decreases j,
{
    if j <= 0 {
        0
    } else if p[j - 1] == '/' {
        j
    } else {
        segment_start(p, j - 1)
    }
}

/// The text after the last `/` of `p`.
pub open spec fn last_segment(p: Seq<char>) -> Seq<char> {
    p.subrange(segment_start(p, p.len() as int), p.len() as int)
}

/// The final name of the path `p`, as `Path::file_name` gives it:
/// trailing slashes and `.` components are passed over; a path that ends
/// in `..`, or that has no name left (empty, `/`, `.`), has none.
pub open spec fn file_name_spec(p: Seq<char>) -> Option<Seq<char>>
    decreases p.len(),
{
    if p.len() == 0 {
        None
    } else if p.last() == '/' {
        file_name_spec(p.drop_last())
    } else if last_segment(p) == seq!['.'] {
        if p.len() == 1 {
            None
        } else {
            file_name_spec(p.drop_last())
        }
    } else if last_segment(p) == seq!['.', '.'] {
        None
    } else {
        Some(last_segment(p))
    }
}

/// The path `name` joined onto `base`, as `Path::join` builds it: an
/// absolute `name` replaces `base`; otherwise a `/` goes between them
/// unless `base` is empty or already ends in one.
pub open spec fn join_spec(base: Seq<char>, name: Seq<char>) -> Seq<char> {
    if name.len() > 0 && name[0] == '/' {
        name
    } else if base.len() > 0 && base.last() != '/' {
        base + seq!['/'] + name
    } else {
        base + name
    }
}

proof fn lemma_segment_start_bounds(p: Seq<char>, j: int)
    requires
        0 <= j <= p.len(),
    ensures
        0 <= segment_start(p, j) <= j,
    decreases j,
{
    if j > 0 && p[j - 1] != '/' {
        lemma_segment_start_bounds(p, j - 1);
    }
}

/// Finds where the last segment of `p` starts.
fn find_segment_start(p: &str, n: usize) -> (j: usize)
    requires
        n == p@.len(),
    ensures
        j == segment_start(p@, n as int),
{
    let mut j = n;
    while j > 0 && p.get_char(j - 1) != '/'
        invariant
            j <= n,
            n == p@.len(),
            segment_start(p@, j as int) == segment_start(p@, n as int),
        decreases j,
    {
        j = j - 1;
    }
    j
}

/// The final name of the path `p`, as `Path::file_name` gives it.
pub fn file_name(p: &str) -> (r: Option<String>)
    ensures
        r matches Some(s) ==> file_name_spec(p@) == Some(s@),
        r is None ==> file_name_spec(p@) is None,
    decreases p@.len(),
{
    let n = p.unicode_len();
    if n == 0 {
        return None;
    }
    if p.get_char(n - 1) == '/' {
        let q = p.substring_char(0, n - 1);
        assert(q@ =~= p@.drop_last());
        return file_name(q);
    }
    let j = find_segment_start(p, n);
    proof {
        lemma_segment_start_bounds(p@, n as int);
    }
    let ghost seg = last_segment(p@);
    assert(seg.len() == n - j);
    assert(forall|k: int| 0 <= k < seg.len() ==> seg[k] == p@[j + k]);
    if n - j == 1 && p.get_char(j) == '.' {
        assert(seg =~= seq!['.']);
        if n == 1 {
            return None;
        }
        let q = p.substring_char(0, n - 1);
        assert(q@ =~= p@.drop_last());
        return file_name(q);
    }
    assert(seg != seq!['.']) by {
        if seg == seq!['.'] {
            assert(seq!['.'][0] == '.');
            assert(seg[0] == p@[j as int]);
        }
    }
    if n - j == 2 && p.get_char(j) == '.' && p.get_char(j + 1) == '.' {
        assert(seg =~= seq!['.', '.']);
        return None;
    }
    assert(seg != seq!['.', '.']) by {
        if seg == seq!['.', '.'] {
            assert(seq!['.', '.'][0] == '.' && seq!['.', '.'][1] == '.');
            assert(seg[0] == p@[j as int]);
            assert(seg[1] == p@[j + 1]);
        }
    }
    let name = String::from_str(p.substring_char(j, n));
    Some(name)
}

/// The path `name` joined onto `base`, as `Path::join` builds it.
pub fn join(base: &str, name: &str) -> (r: String)
    ensures
        r@ == join_spec(base@, name@),
{
    proof {
        reveal_strlit("/");
        assert("/"@ =~= seq!['/']);
    }
    let ln = name.unicode_len();
    if ln > 0 && name.get_char(0) == '/' {
        return String::from_str(name);
    }
    let lb = base.unicode_len();
    let mut r = String::from_str(base);
    if lb > 0 && base.get_char(lb - 1) != '/' {
        r.append("/");
    }
    r.append(name);
    r
}

/// Whether `name` is a plain name: not empty, without `/`, and neither
/// `.` nor `..`.
pub open spec fn is_plain_name(name: Seq<char>) -> bool {
    &&& name.len() > 0
    &&& forall|i: int| 0 <= i < name.len() ==> name[i] != '/'
    &&& name != seq!['.']
    &&& name != seq!['.', '.']
}

pub proof fn lemma_segment_of_suffix(pre: Seq<char>, name: Seq<char>, k: int)
    requires
        pre.len() == 0 || pre.last() == '/',
        forall|i: int| 0 <= i < name.len() ==> name[i] != '/',
        0 <= k <= name.len(),
    ensures
        segment_start(pre + name, pre.len() + k) == pre.len(),
    decreases k,
{
    let p = pre + name;
    if k > 0 {
        assert(p[pre.len() + k - 1] == name[k - 1]);
        lemma_segment_of_suffix(pre, name, k - 1);
    } else if pre.len() > 0 {
        assert(p[pre.len() - 1] == pre.last());
    }
}

/// The final name of a directory joined with a plain name is that name:
/// what `cp` copies into a directory keeps its name.
pub proof fn law_file_name_of_join(base: Seq<char>, name: Seq<char>)
    requires
        is_plain_name(name),
    ensures
        file_name_spec(join_spec(base, name)) == Some(name),
{
    let pre = if base.len() > 0 && base.last() != '/' { base + seq!['/'] } else { base };
    assert(join_spec(base, name) =~= pre + name);
    let p = pre + name;
    lemma_segment_of_suffix(pre, name, name.len() as int);
    assert(last_segment(p) =~= name);
    assert(p.last() == name.last());
}

/// The final name of a path is read from its end: a plain name after a
/// directory part (or alone) is the final name; a path ending in `..` has
/// none; trailing slashes and a trailing `/.` are passed over; and a name
/// joined onto a directory with a slash keeps the directory part out of
/// the final name.
pub proof fn law_file_name_from_end(pre: Seq<char>, name: Seq<char>, p: Seq<char>)
    requires
        pre.len() == 0 || pre.last() == '/',
        is_plain_name(name),
        p.len() > 0,
        p != seq!['/'],
    ensures
        file_name_spec(pre + name) == Some(name),
        file_name_spec(pre + seq!['.', '.']) is None,
        file_name_spec(p + seq!['/']) == file_name_spec(p),
        p.last() != '/' ==> file_name_spec(p + seq!['/', '.']) == file_name_spec(p),
{
    lemma_segment_of_suffix(pre, name, name.len() as int);
    assert(last_segment(pre + name) =~= name);
    assert((pre + name).last() == name.last());
    let dd = seq!['.', '.'];
    assert forall|i: int| 0 <= i < dd.len() implies dd[i] != '/' by {}
    lemma_segment_of_suffix(pre, dd, 2);
    assert(last_segment(pre + dd) =~= dd);
    assert((pre + dd).last() == '.');
    assert((p + seq!['/']).drop_last() =~= p);
    assert((p + seq!['/']).last() == '/');
    if p.last() != '/' {
        let q = p + seq!['/', '.'];
        let dot = seq!['.'];
        assert(q =~= (p + seq!['/']) + dot);
        assert forall|i: int| 0 <= i < dot.len() implies dot[i] != '/' by {}
        lemma_segment_of_suffix(p + seq!['/'], dot, 1);
        assert(last_segment(q) =~= dot);
        assert(q.last() == '.');
        assert(q.drop_last() =~= p + seq!['/']);
    }
}

/// Joining a relative name onto a directory keeps the directory as the
/// front of the path and the name as its end, with at most one slash
/// added between them.
pub proof fn law_join_keeps_parts(base: Seq<char>, name: Seq<char>)
    requires
        name.len() == 0 || name[0] != '/',
    ensures
        join_spec(base, name).subrange(0, base.len() as int) == base,
        join_spec(base, name).subrange(
            join_spec(base, name).len() - name.len(),
            join_spec(base, name).len() as int,
        ) == name,
        join_spec(base, name).len() == base.len() + name.len() || join_spec(base, name).len()
            == base.len() + name.len() + 1,
{
    let j = join_spec(base, name);
    assert(j.subrange(0, base.len() as int) =~= base);
    assert(j.subrange(j.len() - name.len(), j.len() as int) =~= name);
}

} // verus!
