//! Character-level groundwork: lexicographic order on strings, decimal
//! digits, decimal rendering of integers, and splitting on a separator.
//!
//! Every executable function here is proved against a direct mathematical
//! statement over `Seq<char>` views.

use vstd::prelude::*;
use vstd::string::StrSliceExecFns;
use vstd::string::StringExecFns;

verus! {

/// Strict order on characters by code point.
pub open spec fn char_lt(a: char, b: char) -> bool {
    (a as u32) < (b as u32)
}

/// Strict lexicographic order on character sequences: the order in which
/// normalized string lists are kept.
pub open spec fn lex_lt(a: Seq<char>, b: Seq<char>) -> bool
    decreases a.len(),
{
    if b.len() == 0 {
        false
    } else if a.len() == 0 {
        true
    } else if a[0] == b[0] {
        lex_lt(a.drop_first(), b.drop_first())
    } else {
        char_lt(a[0], b[0])
    }
}

/// Dropping an equal prefix does not change how two sequences compare.
pub proof fn lemma_lex_skip(a: Seq<char>, b: Seq<char>, i: int)
    requires
        0 <= i <= a.len(),
        i <= b.len(),
        forall|j: int| 0 <= j < i ==> a[j] == b[j],
    ensures
        lex_lt(a, b) == lex_lt(a.skip(i), b.skip(i)),
    decreases i,
{
    if i > 0 {
        assert(a.drop_first().skip(i - 1) =~= a.skip(i));
        assert(b.drop_first().skip(i - 1) =~= b.skip(i));
        lemma_lex_skip(a.drop_first(), b.drop_first(), i - 1);
    } else {
        assert(a.skip(0) =~= a);
        assert(b.skip(0) =~= b);
    }
}

/// The order is total: of two sequences, one precedes the other or they are
/// equal.
pub proof fn lemma_lex_connex(a: Seq<char>, b: Seq<char>)
    ensures
        lex_lt(a, b) || lex_lt(b, a) || a == b,
    decreases a.len(),
{
    if a.len() == 0 && b.len() == 0 {
        assert(a =~= b);
    } else if a.len() > 0 && b.len() > 0 {
        if a[0] != b[0] {
            vstd::utf8::char_u32_cast(a[0], a[0] as u32);
            vstd::utf8::char_u32_cast(b[0], b[0] as u32);
            assert((a[0] as u32) != (b[0] as u32));
            assert(char_lt(a[0], b[0]) || char_lt(b[0], a[0]));
        } else {
            lemma_lex_connex(a.drop_first(), b.drop_first());
            if a.drop_first() == b.drop_first() {
                assert(a =~= seq![a[0]] + a.drop_first());
                assert(b =~= seq![b[0]] + b.drop_first());
            }
        }
    }
}

/// The order is irreflexive.
pub proof fn lemma_lex_irrefl(a: Seq<char>)
    ensures
        !lex_lt(a, a),
    decreases a.len(),
{
    if a.len() > 0 {
        lemma_lex_irrefl(a.drop_first());
    }
}

/// The order is transitive.
pub proof fn lemma_lex_trans(a: Seq<char>, b: Seq<char>, c: Seq<char>)
    requires
        lex_lt(a, b),
        lex_lt(b, c),
    ensures
        lex_lt(a, c),
    decreases a.len(),
{
    if a.len() == 0 {
    } else {
        if a[0] == b[0] && b[0] == c[0] {
            lemma_lex_trans(a.drop_first(), b.drop_first(), c.drop_first());
        }
    }
}

/// Decides `lex_lt` on two strings.
pub fn str_lex_lt(a: &str, b: &str) -> (r: bool)
    ensures
        r == lex_lt(a@, b@),
{
    let alen = a.unicode_len();
    let blen = b.unicode_len();
    let mut i: usize = 0;
    loop
        invariant
            alen == a@.len(),
            blen == b@.len(),
            i <= alen,
            i <= blen,
            forall|j: int| 0 <= j < i ==> a@[j] == b@[j],
        decreases alen - i,
    {
        proof {
            lemma_lex_skip(a@, b@, i as int);
        }
        if i >= alen {
            return i < blen;
        }
        if i >= blen {
            return false;
        }
        let ca = a.get_char(i);
        let cb = b.get_char(i);
        if ca != cb {
            return (ca as u32) < (cb as u32);
        }
        i = i + 1;
    }
}

/// Decides equality of the views of two strings.
pub fn str_eq(a: &str, b: &str) -> (r: bool)
    ensures
        r == (a@ == b@),
{
    let sa = String::from_str(a);
    let sb = String::from_str(b);
    sa == sb
}

/// Whether `c` is a decimal digit.
pub open spec fn is_digit(c: char) -> bool {
    48 <= (c as u32) && (c as u32) <= 57
}

/// Whether every character of `s` is a decimal digit.
pub open spec fn all_digits(s: Seq<char>) -> bool {
    forall|i: int| 0 <= i < s.len() ==> is_digit(#[trigger] s[i])
}

/// The numeric value of a digit character.
pub open spec fn digit_val(c: char) -> int {
    (c as u32) - 48
}

/// The digit character for a value below ten.
pub open spec fn digit_char(d: int) -> char {
    if d == 0 {
        '0'
    } else if d == 1 {
        '1'
    } else if d == 2 {
        '2'
    } else if d == 3 {
        '3'
    } else if d == 4 {
        '4'
    } else if d == 5 {
        '5'
    } else if d == 6 {
        '6'
    } else if d == 7 {
        '7'
    } else if d == 8 {
        '8'
    } else {
        '9'
    }
}

/// The digits of a numeric token: any single leading `+` sign is skipped,
/// mirroring how unsigned decimal integers are read from text.
pub open spec fn token_digits(t: Seq<char>) -> Seq<char> {
    if t.len() > 0 && t[0] == '+' {
        t.drop_first()
    } else {
        t
    }
}

/// The value denoted by a sequence of decimal digits, most significant first.
pub open spec fn digits_val(s: Seq<char>) -> int
    decreases s.len(),
{
    if s.len() == 0 {
        0
    } else {
        digits_val(s.drop_last()) * 10 + digit_val(s.last())
    }
}

/// The decimal rendering of a nonnegative integer, without leading zeros.
pub open spec fn dec_chars(n: nat) -> Seq<char>
    decreases n,
{
    if n < 10 {
        seq![digit_char(n as int)]
    } else {
        dec_chars(n / 10).push(digit_char((n % 10) as int))
    }
}

/// The one-character string for a digit value.
fn digit_str(d: u32) -> (r: &'static str)
    requires
        d < 10,
    ensures
        r@ == seq![digit_char(d as int)],
{
    let r: &'static str = if d == 0 {
        "0"
    } else if d == 1 {
        "1"
    } else if d == 2 {
        "2"
    } else if d == 3 {
        "3"
    } else if d == 4 {
        "4"
    } else if d == 5 {
        "5"
    } else if d == 6 {
        "6"
    } else if d == 7 {
        "7"
    } else if d == 8 {
        "8"
    } else {
        "9"
    };
    proof {
        reveal_strlit("0");
        reveal_strlit("1");
        reveal_strlit("2");
        reveal_strlit("3");
        reveal_strlit("4");
        reveal_strlit("5");
        reveal_strlit("6");
        reveal_strlit("7");
        reveal_strlit("8");
        reveal_strlit("9");
        assert(r@ =~= seq![digit_char(d as int)]);
    }
    r
}

/// Renders an unsigned 32-bit integer as its exact decimal string.
///
/// This is the numeric-to-string coercion applied to the `port` field of a
/// container workload during structural parsing.
pub fn u32_to_string(value: u32) -> (r: String)
    ensures
        r@ == dec_chars(value as nat),
    decreases value,
{
    if value < 10 {
        digit_str(value).to_owned()
    } else {
        proof {
            assert(value / 10 < value) by (nonlinear_arith)
                requires
                    value >= 10,
            ;
        }
        let mut s = u32_to_string(value / 10);
        s.append(digit_str(value % 10));
        s
    }
}

/// Splitting a sequence at every occurrence of `sep`; the result always has
/// one part more than there are separators, so an empty input yields one
/// empty part.
pub open spec fn split_on(s: Seq<char>, sep: char) -> Seq<Seq<char>>
    decreases s.len(),
{
    if s.len() == 0 {
        seq![Seq::<char>::empty()]
    } else if s[0] == sep {
        seq![Seq::<char>::empty()] + split_on(s.drop_first(), sep)
    } else {
        let r = split_on(s.drop_first(), sep);
        seq![seq![s[0]] + r[0]] + r.drop_first()
    }
}

/// A split always has at least one part.
pub proof fn lemma_split_len(s: Seq<char>, sep: char)
    ensures
        split_on(s, sep).len() >= 1,
    decreases s.len(),
{
    if s.len() > 0 {
        lemma_split_len(s.drop_first(), sep);
    }
}

/// How a split grows when one character is appended.
pub proof fn lemma_split_push(s: Seq<char>, sep: char, c: char)
    ensures
        c == sep ==> split_on(s.push(c), sep) == split_on(s, sep).push(Seq::<char>::empty()),
        c != sep ==> split_on(s.push(c), sep) == split_on(s, sep).update(
            split_on(s, sep).len() - 1,
            split_on(s, sep).last().push(c),
        ),
    decreases s.len(),
{
    lemma_split_len(s, sep);
    let e = Seq::<char>::empty();
    if s.len() == 0 {
        assert(s.push(c).drop_first() =~= e);
        assert(s.push(c)[0] == c);
        if c == sep {
            assert(split_on(s.push(c), sep) == seq![e] + split_on(e, sep));
            assert(seq![e] + split_on(e, sep) =~= split_on(s, sep).push(e));
        } else {
            assert(split_on(s.push(c), sep) == seq![seq![c] + split_on(e, sep)[0]] + split_on(
                e,
                sep,
            ).drop_first());
            assert(seq![c] + split_on(e, sep)[0] =~= e.push(c));
            assert(split_on(s.push(c), sep) =~= split_on(s, sep).update(
                0,
                split_on(s, sep).last().push(c),
            ));
        }
    } else {
        let t = s.drop_first();
        lemma_split_len(t, sep);
        lemma_split_push(t, sep, c);
        assert(s.push(c).drop_first() =~= t.push(c));
        assert(s.push(c)[0] == s[0]);
        let r = split_on(t, sep);
        let rc = split_on(t.push(c), sep);
        if s[0] == sep {
            assert(split_on(s.push(c), sep) == seq![e] + rc);
            assert(split_on(s, sep) == seq![e] + r);
            if c == sep {
                assert(rc == r.push(e));
                assert(seq![e] + r.push(e) =~= (seq![e] + r).push(e));
            } else {
                assert(rc == r.update(r.len() - 1, r.last().push(c)));
                assert((seq![e] + r).last() == r.last());
                assert(seq![e] + r.update(r.len() - 1, r.last().push(c)) =~= (seq![e] + r).update(
                    (seq![e] + r).len() - 1,
                    (seq![e] + r).last().push(c),
                ));
            }
        } else {
            assert(split_on(s.push(c), sep) == seq![seq![s[0]] + rc[0]] + rc.drop_first());
            assert(split_on(s, sep) == seq![seq![s[0]] + r[0]] + r.drop_first());
            if c == sep {
                assert(rc == r.push(e));
                assert(rc[0] == r[0]);
                assert(rc.drop_first() =~= r.drop_first().push(e));
                assert(seq![seq![s[0]] + r[0]] + r.drop_first().push(e) =~= (seq![seq![s[0]] + r[0]]
                    + r.drop_first()).push(e));
            } else {
                assert(rc == r.update(r.len() - 1, r.last().push(c)));
                let g = split_on(s, sep);
                if r.len() == 1 {
                    assert(rc[0] == r[0].push(c));
                    assert(rc.drop_first() =~= r.drop_first());
                    assert(g.len() == 1);
                    assert(g.last() == seq![s[0]] + r[0]);
                    assert(seq![s[0]] + r[0].push(c) =~= (seq![s[0]] + r[0]).push(c));
                    assert(split_on(s.push(c), sep) =~= g.update(g.len() - 1, g.last().push(c)));
                } else {
                    assert(rc[0] == r[0]);
                    assert(rc.drop_first() =~= r.drop_first().update(
                        r.len() - 2,
                        r.last().push(c),
                    ));
                    assert(g.last() == r.last());
                    assert(split_on(s.push(c), sep) =~= g.update(g.len() - 1, g.last().push(c)));
                }
            }
        }
    }
}

/// Splits a string at every occurrence of `sep`, as the source documents'
/// range separator `-` and the IP-literal group separator `.` require.
pub fn split_str(s: &str, sep: char) -> (r: Vec<String>)
    ensures
        r.deep_view() == split_on(s@, sep),
{
    let n = s.unicode_len();
    let mut out: Vec<String> = Vec::new();
    let mut start: usize = 0;
    let mut i: usize = 0;
    proof {
        assert(s@.take(0) =~= Seq::<char>::empty());
        assert(out.deep_view() =~= Seq::<Seq<char>>::empty());
        assert(out.deep_view().push(s@.subrange(0, 0)) =~= split_on(s@.take(0), sep));
    }
    while i < n
        invariant
            n == s@.len(),
            start <= i <= n,
            out.deep_view().push(s@.subrange(start as int, i as int)) == split_on(
                s@.take(i as int),
                sep,
            ),
        decreases n - i,
    {
        let ghost prev_dv = out.deep_view();
        let ghost prev = prev_dv.push(s@.subrange(start as int, i as int));
        let c = s.get_char(i);
        proof {
            assert(s@.take(i as int).push(s@[i as int]) =~= s@.take(i as int + 1));
            lemma_split_push(s@.take(i as int), sep, s@[i as int]);
            lemma_split_len(s@.take(i as int), sep);
        }
        if c == sep {
            let part = s.substring_char(start, i).to_owned();
            out.push(part);
            start = i + 1;
            proof {
                assert(out.deep_view() =~= prev_dv.push(part@));
                assert(split_on(s@.take(i as int + 1), sep) == prev.push(Seq::<char>::empty()));
                assert(s@.subrange(start as int, i as int + 1) =~= Seq::<char>::empty());
                assert(out.deep_view().push(s@.subrange(start as int, i as int + 1)) =~= prev.push(
                    Seq::<char>::empty(),
                ));
            }
        } else {
            proof {
                assert(split_on(s@.take(i as int + 1), sep) == prev.update(
                    prev.len() - 1,
                    prev.last().push(s@[i as int]),
                ));
                assert(prev.last() == s@.subrange(start as int, i as int));
                assert(s@.subrange(start as int, i as int).push(s@[i as int]) =~= s@.subrange(
                    start as int,
                    i as int + 1,
                ));
                assert(prev.update(prev.len() - 1, prev.last().push(s@[i as int]))
                    =~= out.deep_view().push(s@.subrange(start as int, i as int + 1)));
            }
        }
        i = i + 1;
    }
    let ghost prev_dv = out.deep_view();
    let tail = s.substring_char(start, n).to_owned();
    out.push(tail);
    proof {
        assert(s@.take(n as int) =~= s@);
        assert(out.deep_view() =~= prev_dv.push(s@.subrange(start as int, n as int)));
        assert(out.deep_view() =~= split_on(s@, sep));
    }
    out
}

} // verus!
