//! Normalization of string lists: sorting lexicographically and removing
//! duplicates, so that equivalent documents produce identical canonical
//! output.

use vstd::prelude::*;
use crate::strings::{lex_lt, str_eq, str_lex_lt, lemma_lex_connex, lemma_lex_irrefl,
    lemma_lex_trans};

verus! {

/// The list is strictly ascending in lexicographic order; in particular it
/// has no duplicates.
pub open spec fn strict_sorted(s: Seq<Seq<char>>) -> bool {
    forall|i: int, j: int| 0 <= i < j < s.len() ==> lex_lt(#[trigger] s[i], #[trigger] s[j])
}

/// Inserting one string into a sorted duplicate-free list, keeping it so.
pub open spec fn sorted_insert(s: Seq<Seq<char>>, x: Seq<char>) -> Seq<Seq<char>>
    decreases s.len(),
{
    if s.len() == 0 {
        seq![x]
    } else if lex_lt(x, s[0]) {
        seq![x] + s
    } else if x == s[0] {
        s
    } else {
        seq![s[0]] + sorted_insert(s.drop_first(), x)
    }
}

/// The normal form of a string list: its elements, sorted lexicographically,
/// each kept once.
pub open spec fn normalize_list(l: Seq<Seq<char>>) -> Seq<Seq<char>>
    decreases l.len(),
{
    if l.len() == 0 {
        Seq::empty()
    } else {
        sorted_insert(normalize_list(l.drop_last()), l.last())
    }
}

/// `sorted_insert` keeps the list sorted and adds exactly the new element.
pub proof fn lemma_sorted_insert_props(s: Seq<Seq<char>>, x: Seq<char>)
    requires
        strict_sorted(s),
    ensures
        strict_sorted(sorted_insert(s, x)),
        forall|y: Seq<char>|
            #[trigger] sorted_insert(s, x).contains(y) <==> (s.contains(y) || y == x),
    decreases s.len(),
{
    let r = sorted_insert(s, x);
    if s.len() == 0 {
        assert(r == seq![x]);
        assert(r[0] == x);
        assert(forall|y: Seq<char>| r.contains(y) <==> (s.contains(y) || y == x));
    } else if lex_lt(x, s[0]) {
        assert(r == seq![x] + s);
        assert forall|i: int, j: int| 0 <= i < j < r.len() implies lex_lt(r[i], r[j]) by {
            if i == 0 {
                if j > 1 {
                    lemma_lex_trans(x, s[0], s[j - 1]);
                }
            }
        }
        assert forall|y: Seq<char>| r.contains(y) implies (s.contains(y) || y == x) by {
            let k = choose|k: int| 0 <= k < r.len() && r[k] == y;
            if k > 0 {
                assert(s[k - 1] == y);
            }
        }
        assert forall|y: Seq<char>| s.contains(y) || y == x implies r.contains(y) by {
            if y == x {
                assert(r[0] == y);
            } else {
                let k = choose|k: int| 0 <= k < s.len() && s[k] == y;
                assert(r[k + 1] == y);
            }
        }
    } else if x == s[0] {
        assert(r == s);
        assert(s[0] == x);
    } else {
        lemma_lex_connex(x, s[0]);
        assert(lex_lt(s[0], x));
        let rest = s.drop_first();
        assert forall|i: int, j: int| 0 <= i < j < rest.len() implies lex_lt(rest[i], rest[j]) by {
            assert(rest[i] == s[i + 1]);
            assert(rest[j] == s[j + 1]);
        }
        lemma_sorted_insert_props(rest, x);
        let ri = sorted_insert(rest, x);
        assert(r == seq![s[0]] + ri);
        assert forall|i: int, j: int| 0 <= i < j < r.len() implies lex_lt(r[i], r[j]) by {
            if i == 0 {
                let y = ri[j - 1];
                assert(ri.contains(y));
                if rest.contains(y) {
                    let k = choose|k: int| 0 <= k < rest.len() && rest[k] == y;
                    assert(s[k + 1] == y);
                    assert(lex_lt(s[0], s[k + 1]));
                } else {
                    assert(y == x);
                }
            } else {
                assert(r[i] == ri[i - 1]);
                assert(r[j] == ri[j - 1]);
            }
        }
        assert forall|y: Seq<char>| r.contains(y) implies (s.contains(y) || y == x) by {
            let k = choose|k: int| 0 <= k < r.len() && r[k] == y;
            if k == 0 {
                assert(s[0] == y);
            } else {
                assert(r.len() == 1 + ri.len());
                assert(0 <= k - 1 < ri.len());
                assert(ri[k - 1] == y);
                assert(ri.contains(y)) by {
                    assert(exists|m: int| 0 <= m < ri.len() && ri[m] == y) by {
                        assert(0 <= k - 1 < ri.len() && ri[k - 1] == y);
                    }
                }
                if rest.contains(y) {
                    let m = choose|m: int| 0 <= m < rest.len() && rest[m] == y;
                    assert(s[m + 1] == y);
                }
            }
        }
        assert forall|y: Seq<char>| s.contains(y) || y == x implies r.contains(y) by {
            if y == x {
                assert(rest.contains(y) || y == x);
                assert(sorted_insert(rest, x).contains(y));
                assert(ri.contains(y));
                let m = choose|m: int| 0 <= m < ri.len() && ri[m] == y;
                assert(r[m + 1] == y);
            } else {
                let k = choose|k: int| 0 <= k < s.len() && s[k] == y;
                if k == 0 {
                    assert(r[0] == y);
                } else {
                    assert(rest[k - 1] == y);
                    assert(rest.contains(y));
                    assert(ri.contains(y));
                    let m = choose|m: int| 0 <= m < ri.len() && ri[m] == y;
                    assert(r[m + 1] == y);
                }
            }
        }
    }
}

/// The normal form is sorted and keeps exactly the input's elements.
pub proof fn lemma_normalize_props(l: Seq<Seq<char>>)
    ensures
        strict_sorted(normalize_list(l)),
        forall|y: Seq<char>| normalize_list(l).contains(y) <==> l.contains(y),
    decreases l.len(),
{
    if l.len() > 0 {
        let head = l.drop_last();
        lemma_normalize_props(head);
        lemma_sorted_insert_props(normalize_list(head), l.last());
        assert forall|y: Seq<char>| head.contains(y) || y == l.last() implies l.contains(y) by {
            if y == l.last() {
                assert(l[l.len() - 1] == y);
            } else {
                let k = choose|k: int| 0 <= k < head.len() && head[k] == y;
                assert(l[k] == y);
            }
        }
        assert forall|y: Seq<char>| l.contains(y) implies (head.contains(y) || y == l.last()) by {
            let k = choose|k: int| 0 <= k < l.len() && l[k] == y;
            if k < l.len() - 1 {
                assert(head[k] == y);
            }
        }
    }
}

/// Inserting an element larger than every element appends it.
proof fn lemma_insert_at_end(s: Seq<Seq<char>>, x: Seq<char>)
    requires
        strict_sorted(s),
        forall|k: int| 0 <= k < s.len() ==> lex_lt(#[trigger] s[k], x),
    ensures
        sorted_insert(s, x) == s.push(x),
    decreases s.len(),
{
    if s.len() == 0 {
        assert(sorted_insert(s, x) =~= s.push(x));
    } else {
        lemma_lex_irrefl(s[0]);
        if lex_lt(x, s[0]) {
            lemma_lex_trans(s[0], x, s[0]);
            assert(false);
        }
        if x == s[0] {
            assert(false);
        }
        let rest = s.drop_first();
        assert forall|k: int| 0 <= k < rest.len() implies lex_lt(#[trigger] rest[k], x) by {
            assert(rest[k] == s[k + 1]);
        }
        assert forall|i: int, j: int| 0 <= i < j < rest.len() implies lex_lt(rest[i], rest[j]) by {
            assert(rest[i] == s[i + 1]);
            assert(rest[j] == s[j + 1]);
        }
        lemma_insert_at_end(rest, x);
        assert(sorted_insert(s, x) == seq![s[0]] + rest.push(x));
        assert(seq![s[0]] + rest.push(x) =~= s.push(x));
    }
}

/// A list already in normal form is its own normal form.
proof fn lemma_normalize_sorted_id(s: Seq<Seq<char>>)
    requires
        strict_sorted(s),
    ensures
        normalize_list(s) == s,
    decreases s.len(),
{
    if s.len() == 0 {
        assert(normalize_list(s) =~= s);
    } else {
        let head = s.drop_last();
        assert forall|i: int, j: int| 0 <= i < j < head.len() implies lex_lt(head[i], head[j]) by {
            assert(head[i] == s[i]);
            assert(head[j] == s[j]);
        }
        lemma_normalize_sorted_id(head);
        assert forall|k: int| 0 <= k < head.len() implies lex_lt(#[trigger] head[k], s.last()) by {
            assert(head[k] == s[k]);
            assert(lex_lt(s[k], s[s.len() - 1]));
        }
        lemma_insert_at_end(head, s.last());
        assert(normalize_list(s) == head.push(s.last()));
        assert(head.push(s.last()) =~= s);
    }
}

/// Normalizing is idempotent, and a normal form is strictly sorted, hence
/// free of adjacent duplicates.
pub proof fn lemma_normalize_idempotent(l: Seq<Seq<char>>)
    ensures
        normalize_list(normalize_list(l)) == normalize_list(l),
        strict_sorted(normalize_list(l)),
{
    lemma_normalize_props(l);
    lemma_normalize_sorted_id(normalize_list(l));
}

/// Where a new element lands in a sorted duplicate-free list.
proof fn lemma_sorted_insert_position(s: Seq<Seq<char>>, x: Seq<char>, j: int)
    requires
        strict_sorted(s),
        0 <= j <= s.len(),
        forall|k: int| 0 <= k < j ==> lex_lt(#[trigger] s[k], x),
        j < s.len() ==> !lex_lt(s[j], x),
    ensures
        sorted_insert(s, x) == if j < s.len() && x == s[j] {
            s
        } else {
            s.insert(j, x)
        },
    decreases s.len(),
{
    if s.len() == 0 {
        assert(sorted_insert(s, x) =~= s.insert(0, x));
    } else if j == 0 {
        if x == s[0] {
            lemma_lex_irrefl(x);
        } else {
            lemma_lex_connex(x, s[0]);
            assert(lex_lt(x, s[0]));
            assert(seq![x] + s =~= s.insert(0, x));
        }
    } else {
        assert(lex_lt(s[0], x));
        lemma_lex_irrefl(s[0]);
        if lex_lt(x, s[0]) {
            lemma_lex_trans(s[0], x, s[0]);
        }
        assert(x != s[0]);
        let rest = s.drop_first();
        assert forall|i: int, jj: int| 0 <= i < jj < rest.len() implies lex_lt(
            rest[i],
            rest[jj],
        ) by {
            assert(rest[i] == s[i + 1]);
            assert(rest[jj] == s[jj + 1]);
        }
        assert forall|k: int| 0 <= k < j - 1 implies lex_lt(#[trigger] rest[k], x) by {
            assert(rest[k] == s[k + 1]);
        }
        assert(j - 1 < rest.len() ==> rest[j - 1] == s[j]);
        lemma_sorted_insert_position(rest, x, j - 1);
        if j < s.len() && x == s[j] {
            assert(sorted_insert(s, x) == seq![s[0]] + rest);
            assert(seq![s[0]] + rest =~= s);
        } else {
            assert(sorted_insert(s, x) == seq![s[0]] + rest.insert(j - 1, x));
            assert(seq![s[0]] + rest.insert(j - 1, x) =~= s.insert(j, x));
        }
    }
}

/// The index before which every element precedes `x`, and from which no
/// element does: the insertion point of `x` in a sorted list.
fn find_position(out: &Vec<String>, x: &String) -> (j: usize)
    ensures
        j <= out.len(),
        forall|k: int| 0 <= k < j ==> lex_lt(#[trigger] out.deep_view()[k], x@),
        j < out.len() ==> !lex_lt(out.deep_view()[j as int], x@),
{
    let mut j: usize = 0;
    loop
        invariant
            j <= out.len(),
            forall|k: int| 0 <= k < j ==> lex_lt(#[trigger] out.deep_view()[k], x@),
        ensures
            j <= out.len(),
            forall|k: int| 0 <= k < j ==> lex_lt(#[trigger] out.deep_view()[k], x@),
            j < out.len() ==> !lex_lt(out.deep_view()[j as int], x@),
        decreases out.len() - j,
    {
        if j >= out.len() {
            break ;
        }
        if !str_lex_lt(out[j].as_str(), x.as_str()) {
            break ;
        }
        j = j + 1;
    }
    j
}

/// Sorts a list of strings lexicographically and removes every duplicate,
/// producing the normal form used for the `environment`, `network`, and
/// `allowService` fields.
#[verifier::loop_isolation(false)]
pub fn remove_duplicates_array(arr: Vec<String>) -> (r: Vec<String>)
    ensures
        r.deep_view() == normalize_list(arr.deep_view()),
        strict_sorted(r.deep_view()),
{
    let mut out: Vec<String> = Vec::new();
    let mut i: usize = 0;
    proof {
        assert(arr.deep_view().take(0) =~= Seq::<Seq<char>>::empty());
        assert(out.deep_view() =~= normalize_list(arr.deep_view().take(0)));
    }
    while i < arr.len()
        invariant
            i <= arr.len(),
            out.deep_view() == normalize_list(arr.deep_view().take(i as int)),
            strict_sorted(out.deep_view()),
        decreases arr.len() - i,
    {
        let x = arr[i].clone();
        let ghost dv = out.deep_view();
        let j = find_position(&out, &x);
        let dup = if j < out.len() {
            str_eq(out[j].as_str(), x.as_str())
        } else {
            false
        };
        proof {
            lemma_sorted_insert_position(dv, x@, j as int);
            lemma_sorted_insert_props(dv, x@);
            assert(arr.deep_view().take(i as int + 1).drop_last() =~= arr.deep_view().take(
                i as int,
            ));
            assert(arr.deep_view().take(i as int + 1).last() == arr.deep_view()[i as int]);
            assert(normalize_list(arr.deep_view().take(i as int + 1)) == sorted_insert(dv, x@));
        }
        if !dup {
            out.insert(j, x);
            proof {
                assert(out.deep_view() =~= dv.insert(j as int, x@));
            }
        }
        i = i + 1;
    }
    proof {
        assert(arr.deep_view().take(arr.len() as int) =~= arr.deep_view());
    }
    out
}

} // verus!
