//! Verified building blocks on character sequences: lexicographic order,
//! prefix tests, scheme stripping and decimal rendering of integers.

use vstd::prelude::*;
use vstd::string::StrSliceExecFns;
use vstd::string::StringExecFns;

verus! {

/// Lexicographic order on character sequences, comparing code points.
/// For the strings this library handles it coincides with byte order of
/// the UTF-8 encodings, since UTF-8 preserves code-point order.
pub open spec fn lex_le(a: Seq<char>, b: Seq<char>) -> bool
    decreases a.len(),
{
    if a.len() == 0 {
        true
    } else if b.len() == 0 {
        false
    } else if a[0] != b[0] {
        a[0] < b[0]
    } else {
        lex_le(a.drop_first(), b.drop_first())
    }
}

pub proof fn lemma_lex_le_total(a: Seq<char>, b: Seq<char>)
    ensures
        lex_le(a, b) || lex_le(b, a),
    decreases a.len(),
{
    if a.len() == 0 || b.len() == 0 {
    } else if a[0] == b[0] {
        lemma_lex_le_total(a.drop_first(), b.drop_first());
    } else {
    }
}

pub proof fn lemma_lex_le_antisymmetric(a: Seq<char>, b: Seq<char>)
    requires
        lex_le(a, b),
        lex_le(b, a),
    ensures
        a == b,
    decreases a.len(),
{
    if a.len() == 0 {
        assert(b.len() == 0);
        assert(a =~= b);
    } else {
        assert(b.len() > 0);
        assert(a[0] == b[0]);
        lemma_lex_le_antisymmetric(a.drop_first(), b.drop_first());
        assert(a.drop_first().len() == b.drop_first().len());
        assert(a.len() == b.len());
        assert forall|i: int| 0 <= i < a.len() implies a[i] == b[i] by {
            if i > 0 {
                assert(a[i] == a.drop_first()[i - 1]);
                assert(b[i] == b.drop_first()[i - 1]);
            }
        }
        assert(a =~= b);
    }
}

pub proof fn lemma_lex_le_transitive(a: Seq<char>, b: Seq<char>, c: Seq<char>)
    requires
        lex_le(a, b),
        lex_le(b, c),
    ensures
        lex_le(a, c),
    decreases a.len(),
{
    if a.len() > 0 && b.len() > 0 && c.len() > 0 && a[0] == b[0] && b[0] == c[0] {
        lemma_lex_le_transitive(a.drop_first(), b.drop_first(), c.drop_first());
    }
}

/// Compares two strings in the order given by `lex_le`.
pub fn str_le(a: &str, b: &str) -> (r: bool)
    ensures
        r == lex_le(a@, b@),
{
    let la = a.unicode_len();
    let lb = b.unicode_len();
    let mut i: usize = 0;
    proof {
        assert(a@.skip(0) =~= a@);
        assert(b@.skip(0) =~= b@);
    }
    while i < la && i < lb
        invariant
            la == a@.len(),
            lb == b@.len(),
            i <= la,
            i <= lb,
            lex_le(a@, b@) == lex_le(a@.skip(i as int), b@.skip(i as int)),
        decreases la - i,
    {
        let ca = a.get_char(i);
        let cb = b.get_char(i);
        if ca != cb {
            return ca < cb;
        }
        proof {
            assert(a@.skip(i as int).drop_first() =~= a@.skip(i + 1));
            assert(b@.skip(i as int).drop_first() =~= b@.skip(i + 1));
        }
        i = i + 1;
    }
    la <= lb
}

/// Tests whether `prefix` is a prefix of `s`.
pub fn str_starts_with(s: &str, prefix: &str) -> (r: bool)
    ensures
        r == prefix@.is_prefix_of(s@),
{
    let lp = prefix.unicode_len();
    let ls = s.unicode_len();
    if lp > ls {
        return false;
    }
    let mut i: usize = 0;
    while i < lp
        invariant
            lp == prefix@.len(),
            ls == s@.len(),
            lp <= ls,
            i <= lp,
            forall|j: int| 0 <= j < i ==> prefix@[j] == s@[j],
        decreases lp - i,
    {
        if prefix.get_char(i) != s.get_char(i) {
            assert(!prefix@.is_prefix_of(s@));
            return false;
        }
        i = i + 1;
    }
    assert(prefix@ =~= s@.subrange(0, lp as int));
    true
}

/// Tests whether `s` begins with the character `c`.
pub fn starts_with_char(s: &str, c: char) -> (r: bool)
    ensures
        r == (s@.len() > 0 && s@[0] == c),
{
    let len = s.unicode_len();
    if len == 0 {
        return false;
    }
    let first = s.get_char(0);
    first == c
}

/// `s` with a leading `prefix` removed, or `s` itself when the prefix is absent.
pub open spec fn spec_strip_prefix(prefix: Seq<char>, s: Seq<char>) -> Seq<char> {
    if prefix.is_prefix_of(s) {
        s.skip(prefix.len() as int)
    } else {
        s
    }
}

pub fn strip_prefix_str(s: &str, prefix: &str) -> (r: String)
    ensures
        r@ == spec_strip_prefix(prefix@, s@),
{
    if str_starts_with(s, prefix) {
        let lp = prefix.unicode_len();
        let ls = s.unicode_len();
        let rest = s.substring_char(lp, ls);
        proof {
            assert(s@.subrange(lp as int, ls as int) =~= s@.skip(lp as int));
        }
        rest.to_owned()
    } else {
        s.to_owned()
    }
}

/// The character for one decimal digit.
pub open spec fn dec_digit(d: int) -> char {
    if d == 0 {
        '0'
    } else if d == 1 {
        '1'
    } else if d == 2 {
        '2'
    } else if d == 3 {
        '3'
    } else if d == 4 {
        '4'
    } else if d == 5 {
        '5'
    } else if d == 6 {
        '6'
    } else if d == 7 {
        '7'
    } else if d == 8 {
        '8'
    } else {
        '9'
    }
}

/// The decimal rendering of a non-negative integer, without leading zeros.
pub open spec fn dec_str_of(n: int) -> Seq<char>
    decreases n,
{
    if n < 10 {
        seq![dec_digit(n)]
    } else {
        dec_str_of(n / 10).push(dec_digit(n % 10))
    }
}

fn digit_str(d: u64) -> (r: &'static str)
    requires
        d < 10,
    ensures
        r@ =~= seq![dec_digit(d as int)],
{
    let r: &'static str = if d == 0 {
        "0"
    } else if d == 1 {
        "1"
    } else if d == 2 {
        "2"
    } else if d == 3 {
        "3"
    } else if d == 4 {
        "4"
    } else if d == 5 {
        "5"
    } else if d == 6 {
        "6"
    } else if d == 7 {
        "7"
    } else if d == 8 {
        "8"
    } else {
        "9"
    };
    proof {
        reveal_strlit("0");
        reveal_strlit("1");
        reveal_strlit("2");
        reveal_strlit("3");
        reveal_strlit("4");
        reveal_strlit("5");
        reveal_strlit("6");
        reveal_strlit("7");
        reveal_strlit("8");
        reveal_strlit("9");
    }
    r
}

/// Renders an unsigned integer in decimal.
pub fn u64_to_dec(n: u64) -> (s: String)
    ensures
        s@ == dec_str_of(n as int),
    decreases n,
{
    let digit = digit_str(n % 10);
    if n < 10 {
        proof {
            assert(seq![dec_digit(n as int)] =~= digit@);
        }
        digit.to_owned()
    } else {
        let mut s = u64_to_dec(n / 10);
        s.append(digit);
        proof {
            assert(dec_str_of((n / 10) as int).push(dec_digit((n % 10) as int)) =~= dec_str_of(
                (n / 10) as int,
            ) + digit@);
        }
        s
    }
}

} // verus!
