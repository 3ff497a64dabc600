//! Octal parsing of unsigned numbers, as `chmod` reads a numeric mode
//! with `u32::from_str_radix(s, 8)`.
use vstd::prelude::*;
use vstd::arithmetic::power::pow;

verus! {

/// Whether `c` is one of `0` to `7`.
pub open spec fn is_octal_digit(c: char) -> bool {
    '0' <= c && c <= '7'
}

/// Whether every character of `s` is an octal digit.
pub open spec fn all_octal(s: Seq<char>) -> bool {
    forall|i: int| 0 <= i < s.len() ==> is_octal_digit(#[trigger] s[i])
}

/// The value of the octal digits `s` (most significant first).
pub open spec fn octal_value(s: Seq<char>) -> nat
    decreases s.len(),
{
    if s.len() == 0 {
        0
    } else {
        octal_value(s.drop_last()) * 8 + ((s.last() as nat) - ('0' as nat)) as nat
    }
}

/// The digits that follow an optional leading `+`.
pub open spec fn unsigned_digits(s: Seq<char>) -> Seq<char> {
    if s.len() > 0 && s[0] == '+' {
        s.drop_first()
    } else {
        s
    }
}

/// What `u32::from_str_radix(s, 8)` gives: an optional `+`, then at least
/// one octal digit, and a value that fits in 32 bits; otherwise nothing.
pub open spec fn octal_u32(s: Seq<char>) -> Option<u32> {
    let d = unsigned_digits(s);
    if d.len() > 0 && all_octal(d) && octal_value(d) <= u32::MAX {
        Some(octal_value(d) as u32)
    } else {
        None
    }
}

/// A longer run of octal digits never has a smaller value.
pub proof fn lemma_octal_prefix_le(s: Seq<char>, k: int)
    requires
        0 <= k <= s.len(),
        all_octal(s),
    ensures
        octal_value(s.take(k)) <= octal_value(s),
    decreases s.len(),
{
    if k < s.len() {
        let t = s.drop_last();
        assert(all_octal(t)) by {
            assert forall|i: int| 0 <= i < t.len() implies is_octal_digit(#[trigger] t[i]) by {
                assert(t[i] == s[i]);
            }
        }
        assert(t.take(k) =~= s.take(k));
        lemma_octal_prefix_le(t, k);
        assert(octal_value(t) <= octal_value(s)) by (nonlinear_arith)
            requires
                octal_value(s) == octal_value(t) * 8 + ((s.last() as nat) - ('0' as nat)) as nat,
        ;
    } else {
        assert(s.take(k) =~= s);
    }
}

/// Octal digits are read positionally: one digit is worth itself, and
/// digits `a` followed by digits `b` are worth `a` shifted left by one
/// octal place per digit of `b`, plus `b`.
pub proof fn law_octal_positional(c: char, a: Seq<char>, b: Seq<char>)
    ensures
        octal_value(seq![c]) == ((c as nat) - ('0' as nat)) as nat,
        octal_value(a + b) == octal_value(a) * pow(8, b.len()) + octal_value(b),
    decreases b.len(),
{
    assert(seq![c].drop_last() =~= Seq::<char>::empty());
    assert(seq![c].last() == c);
    assert(octal_value(Seq::<char>::empty()) == 0);
    assert(octal_value(seq![c]) == octal_value(Seq::<char>::empty()) * 8 + ((c as nat) - ('0' as nat)) as nat);
    if b.len() == 0 {
        assert(a + b =~= a);
        reveal(pow);
    } else {
        let b1 = b.drop_last();
        law_octal_positional(c, a, b1);
        assert((a + b).drop_last() =~= a + b1);
        assert((a + b).last() == b.last());
        reveal(pow);
        assert(pow(8, b.len()) == 8 * pow(8, b1.len()));
        let d = ((b.last() as nat) - ('0' as nat)) as nat;
        let x = octal_value(a);
        let p = pow(8, b1.len());
        let y = octal_value(b1);
        assert((x * p + y) * 8 + d == x * (8 * p) + (y * 8 + d)) by (nonlinear_arith);
    }
}

/// `s` read as an unsigned octal number of 32 bits, as
/// `u32::from_str_radix(s, 8)` reads it.
pub fn parse_octal(s: &str) -> (r: Option<u32>)
    ensures
        r == octal_u32(s@),
{
    let n = s.unicode_len();
    let mut start: usize = 0;
    if n > 0 && s.get_char(0) == '+' {
        start = 1;
    }
    let ghost d = unsigned_digits(s@);
    assert(d =~= s@.skip(start as int));
    if start == n {
        return None;
    }
    let mut acc: u64 = 0;
    let mut i = start;
    assert(d.take(0) =~= Seq::<char>::empty());
    while i < n
        invariant
            start <= i <= n,
            n == s@.len(),
            d =~= s@.skip(start as int),
            d == unsigned_digits(s@),
            all_octal(d.take(i - start)),
            acc as nat == octal_value(d.take(i - start)),
            acc <= u32::MAX,
        decreases n - i,
    {
        let c = s.get_char(i);
        let ghost before = d.take(i - start);
        let ghost after = d.take(i + 1 - start);
        assert(after.drop_last() =~= before);
        assert(after.last() == c);
        if c < '0' || c > '7' {
            assert(!is_octal_digit(d[i - start]));
            assert(!all_octal(d));
            return None;
        }
        let digit = (c as u64) - ('0' as u64);
        acc = acc * 8 + digit;
        assert(acc as nat == octal_value(after));
        assert(all_octal(after)) by {
            assert forall|j: int| 0 <= j < after.len() implies is_octal_digit(#[trigger] after[j]) by {
                if j < after.len() - 1 {
                    assert(after[j] == before[j]);
                }
            }
        }
        if acc > 0xffff_ffff {
            proof {
                if all_octal(d) {
                    lemma_octal_prefix_le(d, i + 1 - start);
                    assert(octal_value(d) > u32::MAX);
                }
            }
            return None;
        }
        i = i + 1;
    }
    assert(d.take(i - start) =~= d);
    Some(acc as u32)
}

} // verus!
