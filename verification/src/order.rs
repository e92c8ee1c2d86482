//! The order of `String`s: lexicographic by Unicode scalar value, which is the
//! byte order of their UTF-8 encodings that `String`'s `Ord` uses.
use vstd::prelude::*;

use crate::text::{chars_of, string_views};

verus! {

broadcast use vstd::string::group_string_axioms;

/// `a` comes strictly before `b`.
pub open spec fn lex_lt(a: Seq<char>, b: Seq<char>) -> bool
    decreases a.len(),
{
    if a.len() == 0 {
        b.len() > 0
    } else if b.len() == 0 {
        false
    } else if a[0] != b[0] {
        a[0] < b[0]
    } else {
        lex_lt(a.drop_first(), b.drop_first())
    }
}

/// Every element strictly before every later one: sorted, without repeats.
pub open spec fn strictly_sorted(s: Seq<Seq<char>>) -> bool {
    forall|i: int, j: int| 0 <= i < j < s.len() ==> lex_lt(#[trigger] s[i], #[trigger] s[j])
}

/// The order is transitive.
pub proof fn lemma_lex_transitive(a: Seq<char>, b: Seq<char>, c: Seq<char>)
    requires
        lex_lt(a, b),
        lex_lt(b, c),
    ensures
        lex_lt(a, c),
    decreases a.len(),
{
    if a.len() > 0 && b.len() > 0 && c.len() > 0 {
        if a[0] == b[0] && b[0] == c[0] {
            lemma_lex_transitive(a.drop_first(), b.drop_first(), c.drop_first());
        }
    }
}

/// Of two different strings, one comes before the other.
pub proof fn lemma_lex_total(a: Seq<char>, b: Seq<char>)
    ensures
        lex_lt(a, b) || lex_lt(b, a) || a == b,
    decreases a.len(),
{
    if a.len() > 0 && b.len() > 0 {
        if a[0] == b[0] {
            lemma_lex_total(a.drop_first(), b.drop_first());
            if a.drop_first() == b.drop_first() {
                assert(a =~= seq![a[0]] + a.drop_first());
                assert(b =~= seq![b[0]] + b.drop_first());
            }
        } else {
        }
    } else if a.len() == 0 && b.len() == 0 {
        assert(a =~= b);
    }
}

/// Whether `a` comes strictly before `b`.
pub fn precedes(a: &str, b: &str) -> (r: bool)
    ensures
        r == lex_lt(a@, b@),
{
    let x = chars_of(a);
    let y = chars_of(b);
    let mut i: usize = 0;
    assert(a@.skip(0) =~= a@);
    assert(b@.skip(0) =~= b@);
    while i < x.len() && i < y.len()
        invariant
            x@ == a@,
            y@ == b@,
            i <= x@.len(),
            i <= y@.len(),
            lex_lt(a@, b@) == lex_lt(a@.skip(i as int), b@.skip(i as int)),
        decreases x@.len() - i,
    {
        if x[i] != y[i] {
            proof {
                assert(a@.skip(i as int)[0] == x@[i as int]);
                assert(b@.skip(i as int)[0] == y@[i as int]);
            }
            return x[i] < y[i];
        }
        proof {
            assert(a@.skip(i as int).drop_first() =~= a@.skip(i + 1));
            assert(b@.skip(i as int).drop_first() =~= b@.skip(i + 1));
        }
        i = i + 1;
    }
    x.len() - i == 0 && y.len() - i > 0
}

/// Inserts `candidate` into the strictly sorted `out` unless it is there already.
fn insert_sorted(out: &mut Vec<String>, candidate: &str)
    requires
        strictly_sorted(string_views(old(out)@)),
    ensures
        strictly_sorted(string_views(final(out)@)),
        forall|x: Seq<char>|
            string_views(final(out)@).contains(x) <==> (string_views(old(out)@).contains(x) || x
                == candidate@),
{
    let ghost old_out = string_views(out@);
    let mut p: usize = 0;
    while p < out.len() && precedes(out[p].as_str(), candidate)
        invariant
            p <= out@.len(),
            old_out == string_views(out@),
            forall|k: int| 0 <= k < p ==> lex_lt(#[trigger] old_out[k], candidate@),
        decreases out@.len() - p,
    {
        p = p + 1;
    }
    let present = p < out.len() && crate::text::str_equal(out[p].as_str(), candidate);
    if present {
        assert(old_out[p as int] == candidate@);
        return;
    }
    let owned = candidate.to_owned();
    out.insert(p, owned);
    proof {
        let nv = string_views(out@);
        assert(nv =~= old_out.insert(p as int, candidate@));
        if p < old_out.len() {
            lemma_lex_total(old_out[p as int], candidate@);
            assert(lex_lt(candidate@, old_out[p as int]));
        }
        assert forall|a: int, b: int| 0 <= a < b < nv.len() implies lex_lt(
            #[trigger] nv[a],
            #[trigger] nv[b],
        ) by {
            if a < p && b < p {
                assert(nv[a] == old_out[a] && nv[b] == old_out[b]);
            } else if a < p && b == p {
            } else if a < p && b > p {
                assert(nv[b] == old_out[b - 1]);
                assert(nv[a] == old_out[a]);
            } else if a == p {
                assert(nv[b] == old_out[b - 1]);
                if b - 1 > p {
                    lemma_lex_transitive(candidate@, old_out[p as int], old_out[b - 1]);
                }
            } else {
                assert(nv[a] == old_out[a - 1] && nv[b] == old_out[b - 1]);
            }
        }
        assert forall|x: Seq<char>| nv.contains(x) <==> (old_out.contains(x) || x
            == candidate@) by {
            if nv.contains(x) {
                let k = choose|k: int| 0 <= k < nv.len() && nv[k] == x;
                if k < p {
                    assert(old_out[k] == x);
                } else if k > p {
                    assert(old_out[k - 1] == x);
                }
            }
            if old_out.contains(x) {
                let k = choose|k: int| 0 <= k < old_out.len() && old_out[k] == x;
                if k < p {
                    assert(nv[k] == x);
                } else {
                    assert(nv[k + 1] == x);
                }
            }
            if x == candidate@ {
                assert(nv[p as int] == x);
            }
        }
    }
}

/// The strings of `items` and `extra`, sorted and without repeats, as
/// pushing `extra`, sorting and removing adjacent duplicates gives them.
pub fn sorted_unique_with(items: &Vec<String>, extra: &str) -> (r: Vec<String>)
    ensures
        strictly_sorted(string_views(r@)),
        forall|x: Seq<char>|
            string_views(r@).contains(x) <==> (string_views(items@).contains(x) || x == extra@),
{
    let mut out: Vec<String> = Vec::new();
    let mut i: usize = 0;
    assert(string_views(out@) =~= Seq::<Seq<char>>::empty());
    while i < items.len()
        invariant
            i <= items@.len(),
            strictly_sorted(string_views(out@)),
            forall|x: Seq<char>|
                string_views(out@).contains(x) <==> string_views(items@).take(i as int).contains(
                    x,
                ),
        decreases items@.len() - i,
    {
        insert_sorted(&mut out, items[i].as_str());
        proof {
            let before = string_views(items@).take(i as int);
            let after = string_views(items@).take(i + 1);
            assert(after =~= before.push(items@[i as int]@));
            assert forall|x: Seq<char>| after.contains(x) <==> (before.contains(x) || x
                == items@[i as int]@) by {
                if after.contains(x) {
                    let k = choose|k: int| 0 <= k < after.len() && after[k] == x;
                    if k < i {
                        assert(before[k] == x);
                    }
                }
                if before.contains(x) {
                    let k = choose|k: int| 0 <= k < before.len() && before[k] == x;
                    assert(after[k] == x);
                }
                if x == items@[i as int]@ {
                    assert(after[i as int] == x);
                }
            }
        }
        i = i + 1;
    }
    assert(string_views(items@).take(i as int) =~= string_views(items@));
    insert_sorted(&mut out, extra);
    out
}

} // verus!
