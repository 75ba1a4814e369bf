//! Lexicographic order on strings (by Unicode scalar value, which is the order
//! of `String`'s `Ord`, since UTF-8 keeps code point order) and the
//! "sort, then drop duplicates" operation the panel applies to symbol lists
//! and Telegram chat ids.
use vstd::prelude::*;

use crate::text::chars_of;

verus! {

/// `a` comes strictly before `b` in lexicographic order.
pub open spec fn char_seq_lt(a: Seq<char>, b: Seq<char>) -> bool
    decreases a.len(),
{
    if a.len() == 0 {
        b.len() > 0
    } else if b.len() == 0 {
        false
    } else if (a[0] as u32) < (b[0] as u32) {
        true
    } else if a[0] == b[0] {
        char_seq_lt(a.drop_first(), b.drop_first())
    } else {
        false
    }
}

/// The character contents of a sequence of strings.
pub open spec fn views(s: Seq<String>) -> Seq<Seq<char>> {
    s.map_values(|x: String| x@)
}

/// Every element comes strictly before every later one (so no element repeats).
pub open spec fn strictly_sorted(s: Seq<Seq<char>>) -> bool {
    forall|i: int, j: int| 0 <= i < j < s.len() ==> char_seq_lt(#[trigger] s[i], #[trigger] s[j])
}

/// `r` is `s` sorted in lexicographic order with duplicates removed.
pub open spec fn is_sorted_dedup_of(r: Seq<Seq<char>>, s: Seq<Seq<char>>) -> bool {
    &&& strictly_sorted(r)
    &&& forall|x: Seq<char>| r.contains(x) <==> s.contains(x)
}

pub proof fn lemma_lt_irreflexive(a: Seq<char>)
    ensures
        !char_seq_lt(a, a),
    decreases a.len(),
{
    if a.len() > 0 {
        lemma_lt_irreflexive(a.drop_first());
    }
}

pub proof fn lemma_lt_total(a: Seq<char>, b: Seq<char>)
    ensures
        char_seq_lt(a, b) || a == b || char_seq_lt(b, a),
    decreases a.len(),
{
    if a.len() == 0 {
        if b.len() == 0 {
            assert(a =~= b);
        }
    } else if b.len() == 0 {
    } else if a[0] == b[0] {
        lemma_lt_total(a.drop_first(), b.drop_first());
        if a.drop_first() == b.drop_first() {
            assert(a =~= seq![a[0]] + a.drop_first());
            assert(b =~= seq![b[0]] + b.drop_first());
        }
    } else {
        vstd::utf8::char_u32_cast(a[0], a[0] as u32);
        vstd::utf8::char_u32_cast(b[0], b[0] as u32);
    }
}

pub proof fn lemma_lt_asymmetric(a: Seq<char>, b: Seq<char>)
    requires
        char_seq_lt(a, b),
    ensures
        !char_seq_lt(b, a),
    decreases a.len(),
{
    if a.len() > 0 && b.len() > 0 && a[0] == b[0] {
        lemma_lt_asymmetric(a.drop_first(), b.drop_first());
    }
}

pub proof fn lemma_lt_transitive(a: Seq<char>, b: Seq<char>, c: Seq<char>)
    requires
        char_seq_lt(a, b),
        char_seq_lt(b, c),
    ensures
        char_seq_lt(a, c),
    decreases a.len(),
{
    if a.len() > 0 && b.len() > 0 && c.len() > 0 && a[0] == b[0] && b[0] == c[0] {
        lemma_lt_transitive(a.drop_first(), b.drop_first(), c.drop_first());
    }
}

proof fn lemma_lt_skip(a: Seq<char>, b: Seq<char>, i: int)
    requires
        0 <= i <= a.len(),
        i <= b.len(),
        a.take(i) == b.take(i),
    ensures
        char_seq_lt(a, b) == char_seq_lt(a.skip(i), b.skip(i)),
    decreases i,
{
    if i > 0 {
        assert(a[0] == a.take(i)[0]);
        assert(b[0] == b.take(i)[0]);
        assert(a.drop_first().take(i - 1) =~= a.take(i).drop_first());
        assert(b.drop_first().take(i - 1) =~= b.take(i).drop_first());
        lemma_lt_skip(a.drop_first(), b.drop_first(), i - 1);
        assert(a.drop_first().skip(i - 1) =~= a.skip(i));
        assert(b.drop_first().skip(i - 1) =~= b.skip(i));
    } else {
        assert(a.skip(0) =~= a);
        assert(b.skip(0) =~= b);
    }
}

/// Whether `a` comes strictly before `b`.
pub fn chars_lt(a: &Vec<char>, b: &Vec<char>) -> (r: bool)
    ensures
        r == char_seq_lt(a@, b@),
{
    let mut i: usize = 0;
    while i < a.len() && i < b.len()
        invariant
            i <= a.len(),
            i <= b.len(),
            a@.take(i as int) == b@.take(i as int),
        decreases a.len() - i,
    {
        let x = a[i];
        let y = b[i];
        if x != y {
            proof {
                lemma_lt_skip(a@, b@, i as int);
                assert(a@.skip(i as int)[0] == x);
                assert(b@.skip(i as int)[0] == y);
            }
            return (x as u32) < (y as u32);
        }
        assert(a@.take(i + 1) =~= a@.take(i as int).push(x));
        assert(b@.take(i + 1) =~= b@.take(i as int).push(y));
        i += 1;
    }
    proof {
        lemma_lt_skip(a@, b@, i as int);
    }
    i == a.len() && i < b.len()
}

/// Whether string `a` comes strictly before string `b`.
pub fn str_lt(a: &str, b: &str) -> (r: bool)
    ensures
        r == char_seq_lt(a@, b@),
{
    let x = chars_of(a);
    let y = chars_of(b);
    chars_lt(&x, &y)
}

/// Inserts `x` into a strictly sorted list unless it is already there.
pub fn insert_sorted_unique(out: &mut Vec<String>, x: String)
    requires
        strictly_sorted(views(old(out)@)),
    ensures
        strictly_sorted(views(final(out)@)),
        forall|y: Seq<char>|
            views(final(out)@).contains(y) <==> (views(old(out)@).contains(y) || y == x@),
        final(out)@.len() <= old(out)@.len() + 1,
{
    let ghost before = views(out@);
    let mut k: usize = 0;
    while k < out.len()
        invariant
            k <= out.len(),
            out@ == old(out)@,
            before == views(out@),
            strictly_sorted(before),
            forall|j: int| 0 <= j < k ==> char_seq_lt(#[trigger] before[j], x@),
        ensures
            k <= out.len(),
            out@ == old(out)@,
            before == views(out@),
            forall|j: int| 0 <= j < k ==> char_seq_lt(#[trigger] before[j], x@),
            k < out.len() ==> !char_seq_lt(before[k as int], x@),
        decreases out.len() - k,
    {
        if !str_lt(out[k].as_str(), x.as_str()) {
            break;
        }
        k += 1;
    }
    if k < out.len() && out[k] == x {
        assert(before[k as int] == x@);
        return;
    }
    proof {
        if k < out.len() {
            lemma_lt_total(before[k as int], x@);
        }
    }
    let ghost xv = x@;
    out.insert(k, x);
    let ghost after = views(out@);
    assert(after =~= before.insert(k as int, xv));
    assert forall|i: int, j: int| 0 <= i < j < after.len() implies char_seq_lt(
        #[trigger] after[i],
        #[trigger] after[j],
    ) by {
        if j < k {
            assert(char_seq_lt(before[i], before[j]));
        } else if j == k {
        } else if i == k {
            if j - 1 > k {
                assert(char_seq_lt(before[k as int], before[j - 1]));
                lemma_lt_transitive(xv, before[k as int], before[j - 1]);
            }
        } else if i < k {
            assert(char_seq_lt(before[i], xv));
            assert(char_seq_lt(xv, before[k as int]));
            lemma_lt_transitive(before[i], xv, before[k as int]);
            if j - 1 > k {
                assert(char_seq_lt(before[k as int], before[j - 1]));
                lemma_lt_transitive(before[i], before[k as int], before[j - 1]);
            }
        } else {
            assert(char_seq_lt(before[i - 1], before[j - 1]));
        }
    }
    assert forall|y: Seq<char>| after.contains(y) <==> (before.contains(y) || y == xv) by {
        if after.contains(y) {
            let i = choose|i: int| 0 <= i < after.len() && after[i] == y;
            if i < k {
                assert(before[i] == y);
            } else if i > k {
                assert(before[i - 1] == y);
            }
        }
        if before.contains(y) {
            let i = choose|i: int| 0 <= i < before.len() && before[i] == y;
            if i < k {
                assert(after[i] == y);
            } else {
                assert(after[i + 1] == y);
            }
        }
        if y == xv {
            assert(after[k as int] == y);
        }
    }
}

/// The given strings sorted in lexicographic order with duplicates removed
/// (what `sort` followed by `dedup` leaves).
pub fn sort_dedup(items: &Vec<String>) -> (r: Vec<String>)
    ensures
        is_sorted_dedup_of(views(r@), views(items@)),
        r@.len() <= items@.len(),
{
    let mut out: Vec<String> = Vec::new();
    let mut i: usize = 0;
    while i < items.len()
        invariant
            i <= items.len(),
            out@.len() <= i,
            strictly_sorted(views(out@)),
            forall|y: Seq<char>|
                views(out@).contains(y) <==> views(items@).take(i as int).contains(y),
        decreases items.len() - i,
    {
        let ghost prev = views(items@).take(i as int);
        let ghost v = items@[i as int]@;
        insert_sorted_unique(&mut out, items[i].clone());
        assert(views(items@).take(i + 1) =~= prev.push(v));
        assert forall|y: Seq<char>| prev.push(v).contains(y) <==> (prev.contains(y) || y == v) by {
            if prev.push(v).contains(y) {
                let j = choose|j: int| 0 <= j < prev.push(v).len() && prev.push(v)[j] == y;
                if j < prev.len() {
                    assert(prev[j] == y);
                }
            }
            if prev.contains(y) {
                let j = choose|j: int| 0 <= j < prev.len() && prev[j] == y;
                assert(prev.push(v)[j] == y);
            }
            if y == v {
                assert(prev.push(v)[prev.len() as int] == y);
            }
        }
        i += 1;
    }
    assert(views(items@).take(items.len() as int) =~= views(items@));
    out
}

/// Two strictly sorted lists with the same elements are the same list.
pub proof fn lemma_sorted_dedup_unique(a: Seq<Seq<char>>, b: Seq<Seq<char>>)
    requires
        strictly_sorted(a),
        strictly_sorted(b),
        forall|x: Seq<char>| a.contains(x) <==> b.contains(x),
    ensures
        a == b,
    decreases a.len() + b.len(),
{
    if a.len() == 0 {
        if b.len() > 0 {
            assert(b.contains(b[0]));
        }
        assert(a =~= b);
    } else if b.len() == 0 {
        assert(a.contains(a[0]));
    } else {
        // the first elements are the least elements, so they agree
        assert(a.contains(a[0]));
        assert(b.contains(b[0]));
        let ia = choose|i: int| 0 <= i < a.len() && a[i] == b[0];
        let ib = choose|i: int| 0 <= i < b.len() && b[i] == a[0];
        if ia > 0 {
            assert(char_seq_lt(a[0], a[ia]));
            if ib > 0 {
                assert(char_seq_lt(b[0], b[ib]));
                lemma_lt_asymmetric(a[0], b[0]);
            } else {
                lemma_lt_irreflexive(a[0]);
            }
        } else if ib > 0 {
            assert(char_seq_lt(b[0], b[ib]));
            lemma_lt_irreflexive(b[0]);
        }
        assert(a[0] == b[0]);
        let ta = a.drop_first();
        let tb = b.drop_first();
        assert forall|x: Seq<char>| ta.contains(x) <==> tb.contains(x) by {
            if ta.contains(x) {
                let i = choose|i: int| 0 <= i < ta.len() && ta[i] == x;
                assert(char_seq_lt(a[0], a[i + 1]));
                assert(a.contains(x));
                let j = choose|j: int| 0 <= j < b.len() && b[j] == x;
                if j == 0 {
                    lemma_lt_irreflexive(x);
                }
                assert(tb[j - 1] == x);
            }
            if tb.contains(x) {
                let i = choose|i: int| 0 <= i < tb.len() && tb[i] == x;
                assert(char_seq_lt(b[0], b[i + 1]));
                assert(b.contains(x));
                let j = choose|j: int| 0 <= j < a.len() && a[j] == x;
                if j == 0 {
                    lemma_lt_irreflexive(x);
                }
                assert(ta[j - 1] == x);
            }
        }
        lemma_sorted_dedup_unique(ta, tb);
        assert(a =~= seq![a[0]] + ta);
        assert(b =~= seq![b[0]] + tb);
    }
}

} // verus!
