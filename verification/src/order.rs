//! The order of texts: lexicographic by code point.
use vstd::prelude::*;

use crate::text::{chars_of, texts};

verus! {

/// Whether `a` comes before `b`: the first place where they differ decides by code point, and a
/// proper prefix comes first.
pub open spec fn before(a: Seq<char>, b: Seq<char>) -> bool
    decreases a.len(),
{
    if b.len() == 0 {
        false
    } else if a.len() == 0 {
        true
    } else {
        a[0] < b[0] || (a[0] == b[0] && before(a.drop_first(), b.drop_first()))
    }
}

/// No text comes before itself.
pub proof fn lemma_before_irreflexive(a: Seq<char>)
    ensures
        !before(a, a),
    decreases a.len(),
{
    if a.len() > 0 {
        lemma_before_irreflexive(a.drop_first());
    }
}

/// What comes before something that comes before a third comes before the third.
pub proof fn lemma_before_transitive(a: Seq<char>, b: Seq<char>, c: Seq<char>)
    requires
        before(a, b),
        before(b, c),
    ensures
        before(a, c),
    decreases a.len(),
{
    if a.len() > 0 && a[0] == b[0] && b[0] == c[0] {
        lemma_before_transitive(a.drop_first(), b.drop_first(), c.drop_first());
    }
}

/// Of two different texts one comes before the other.
pub proof fn lemma_before_total(a: Seq<char>, b: Seq<char>)
    ensures
        a == b || before(a, b) || before(b, a),
    decreases a.len(),
{
    if a.len() > 0 && b.len() > 0 && a[0] == b[0] {
        lemma_before_total(a.drop_first(), b.drop_first());
        if a.drop_first() == b.drop_first() {
            assert(a == seq![a[0]] + a.drop_first());
            assert(b == seq![b[0]] + b.drop_first());
        }
    } else if a.len() == 0 && b.len() == 0 {
        assert(a == b);
    }
}

/// Not both of two texts come before the other.
pub proof fn lemma_before_asymmetric(a: Seq<char>, b: Seq<char>)
    requires
        before(a, b),
    ensures
        !before(b, a),
        a != b,
{
    if before(b, a) {
        lemma_before_transitive(a, b, a);
    }
    lemma_before_irreflexive(a);
}

/// A common prefix plays no part in the order.
proof fn lemma_before_skips(a: Seq<char>, b: Seq<char>, k: int)
    requires
        0 <= k <= a.len(),
        k <= b.len(),
        forall|i: int| 0 <= i < k ==> #[trigger] a[i] == b[i],
    ensures
        before(a, b) == before(a.skip(k), b.skip(k)),
    decreases k,
{
    if k == 0 {
        assert(a.skip(0) == a);
        assert(b.skip(0) == b);
    } else {
        let x = a.drop_first();
        let y = b.drop_first();
        assert forall|i: int| 0 <= i < k - 1 implies #[trigger] x[i] == y[i] by {
            assert(x[i] == a[i + 1]);
        }
        lemma_before_skips(x, y, k - 1);
        assert(x.skip(k - 1) == a.skip(k));
        assert(y.skip(k - 1) == b.skip(k));
        assert(a[0] == b[0]);
    }
}

/// Whether `a` comes before `b`.
pub fn comes_before(a: &str, b: &str) -> (r: bool)
    ensures
        r == before(a@, b@),
{
    let x: Vec<char> = chars_of(a);
    let y: Vec<char> = chars_of(b);
    let mut i: usize = 0;
    while i < x.len() && i < y.len() && x[i] == y[i]
        invariant
            i <= x@.len(),
            i <= y@.len(),
            forall|k: int| 0 <= k < i ==> #[trigger] x@[k] == y@[k],
        decreases x@.len() - i,
    {
        i = i + 1;
    }
    proof {
        lemma_before_skips(x@, y@, i as int);
    }
    if i == y.len() {
        false
    } else if i == x.len() {
        true
    } else {
        proof {
            assert(x@.skip(i as int)[0] == x@[i as int]);
            assert(y@.skip(i as int)[0] == y@[i as int]);
        }
        x[i] < y[i]
    }
}

// ----- sorted lists without repetition -----

/// Each text of `s` comes before the texts that follow it.
pub open spec fn ascending(s: Seq<Seq<char>>) -> bool {
    forall|i: int, j: int| 0 <= i < j < s.len() ==> before(#[trigger] s[i], #[trigger] s[j])
}

/// An ascending list is determined by what it holds.
pub proof fn law_ascending_is_unique(a: Seq<Seq<char>>, b: Seq<Seq<char>>)
    requires
        ascending(a),
        ascending(b),
        forall|t: Seq<char>| a.contains(t) <==> b.contains(t),
    ensures
        a == b,
    decreases a.len(),
{
    if a.len() == 0 {
        if b.len() > 0 {
            assert(b.contains(b[0]));
        }
        assert(a == b);
    } else {
        assert(a.contains(a[0]));
        let k = choose|k: int| 0 <= k < b.len() && b[k] == a[0];
        assert(b.contains(b[0]));
        let m = choose|m: int| 0 <= m < a.len() && a[m] == b[0];
        if k > 0 {
            assert(before(b[0], b[k]));
            if m > 0 {
                assert(before(a[0], a[m]));
                lemma_before_asymmetric(a[0], b[0]);
            } else {
                lemma_before_irreflexive(a[0]);
            }
        }
        assert(b[0] == a[0]);
        let x = a.drop_first();
        let y = b.drop_first();
        assert forall|i: int, j: int| 0 <= i < j < x.len() implies before(
            #[trigger] x[i],
            #[trigger] x[j],
        ) by {
            assert(x[i] == a[i + 1] && x[j] == a[j + 1]);
        }
        assert forall|i: int, j: int| 0 <= i < j < y.len() implies before(
            #[trigger] y[i],
            #[trigger] y[j],
        ) by {
            assert(y[i] == b[i + 1] && y[j] == b[j + 1]);
        }
        assert forall|t: Seq<char>| x.contains(t) <==> y.contains(t) by {
            if x.contains(t) {
                let i = choose|i: int| 0 <= i < x.len() && x[i] == t;
                assert(a[i + 1] == t);
                assert(before(a[0], a[i + 1]));
                lemma_before_irreflexive(a[0]);
                assert(b.contains(t));
                let j = choose|j: int| 0 <= j < b.len() && b[j] == t;
                assert(y[j - 1] == t);
            }
            if y.contains(t) {
                let i = choose|i: int| 0 <= i < y.len() && y[i] == t;
                assert(b[i + 1] == t);
                assert(before(b[0], b[i + 1]));
                lemma_before_irreflexive(b[0]);
                assert(a.contains(t));
                let j = choose|j: int| 0 <= j < a.len() && a[j] == t;
                assert(x[j - 1] == t);
            }
        }
        law_ascending_is_unique(x, y);
        assert(a == seq![a[0]] + x);
        assert(b == seq![b[0]] + y);
    }
}

/// Puts `t` in its place in an ascending list, unless it is there already.
pub fn insert_ascending(list: &mut Vec<String>, t: String)
    requires
        ascending(texts(old(list)@)),
    ensures
        ascending(texts(final(list)@)),
        forall|x: Seq<char>|
            texts(final(list)@).contains(x) <==> (texts(old(list)@).contains(x) || x == t@),
{
    let ghost was = texts(list@);
    let mut i: usize = 0;
    while i < list.len() && comes_before(list[i].as_str(), t.as_str())
        invariant
            i <= list@.len(),
            was == texts(list@),
            forall|k: int| 0 <= k < i ==> before(#[trigger] was[k], t@),
        decreases list@.len() - i,
    {
        assert(was[i as int] == list@[i as int]@);
        i = i + 1;
    }
    if i < list.len() && crate::text::same(list[i].as_str(), t.as_str()) {
        proof {
            assert(was[i as int] == t@);
            assert forall|x: Seq<char>|
                was.contains(x) <==> (was.contains(x) || x == t@) by {
                if x == t@ {
                    assert(was[i as int] == x);
                }
            }
        }
        return;
    }
    let ghost text = t@;
    proof {
        if i < was.len() {
            lemma_before_total(was[i as int], text);
            assert(before(text, was[i as int]));
        }
    }
    list.insert(i, t);
    proof {
        let now = texts(list@);
        assert(now == was.insert(i as int, text));
        assert forall|a: int, b: int| 0 <= a < b < now.len() implies before(
            #[trigger] now[a],
            #[trigger] now[b],
        ) by {
            if b < i {
                assert(before(was[a], was[b]));
            } else if b == i {
                assert(before(was[a], text));
            } else if a == i {
                if b - 1 > i {
                    assert(before(was[i as int], was[b - 1]));
                    lemma_before_transitive(text, was[i as int], was[b - 1]);
                }
            } else if a < i {
                assert(before(was[a], was[b - 1]));
            } else {
                assert(before(was[a - 1], was[b - 1]));
            }
        }
        assert forall|x: Seq<char>| now.contains(x) <==> (was.contains(x) || x == text) by {
            if now.contains(x) {
                let k = choose|k: int| 0 <= k < now.len() && now[k] == x;
                if k < i {
                    assert(was[k] == x);
                } else if k > i {
                    assert(was[k - 1] == x);
                }
            }
            if was.contains(x) {
                let k = choose|k: int| 0 <= k < was.len() && was[k] == x;
                if k < i {
                    assert(now[k] == x);
                } else {
                    assert(now[k + 1] == x);
                }
            }
            if x == text {
                assert(now[i as int] == x);
            }
        }
    }
}

/// One text comes before another where they part: at the first place where they differ it has the
/// lesser character, or it is at its end there. No text comes before itself, of two that differ one
/// comes before the other, and the order carries on.
pub proof fn law_texts_are_ordered_where_they_part(
    front: Seq<char>,
    x: char,
    y: char,
    a: Seq<char>,
    b: Seq<char>,
)
    ensures
        x < y ==> before(front + seq![x] + a, front + seq![y] + b),
        x > y ==> !before(front + seq![x] + a, front + seq![y] + b),
        before(front, front + seq![x] + a),
        !before(front + seq![x] + a, front),
        !before(a, a),
        a != b ==> (before(a, b) <==> !before(b, a)),
{
    let k: int = front.len() as int;
    let p = front + seq![x] + a;
    let q = front + seq![y] + b;
    lemma_before_skips(p, q, k);
    assert(p.skip(k)[0] == x && q.skip(k)[0] == y);
    lemma_before_skips(front, p, k);
    assert(front.skip(k).len() == 0 && p.skip(k).len() > 0);
    lemma_before_skips(p, front, k);
    lemma_before_irreflexive(a);
    lemma_before_total(a, b);
    if before(a, b) {
        lemma_before_asymmetric(a, b);
    }
}

/// A list ascends where each text comes before the next, and so has no text twice.
pub proof fn law_lists_ascend(s: Seq<Seq<char>>, x: Seq<char>)
    requires
        s.len() > 0,
        ascending(s),
    ensures
        ascending(s.push(x)) <==> before(s.last(), x),
        !s.contains(x) || !ascending(s.push(x)),
        ascending(seq![x]),
{
    let t = s.push(x);
    let n: int = s.len() as int;
    if ascending(t) {
        assert(before(t[n - 1], t[n]));
        if s.contains(x) {
            let i = choose|i: int| 0 <= i < s.len() && s[i] == x;
            assert(before(t[i], t[n]));
            lemma_before_irreflexive(x);
        }
    }
    if before(s.last(), x) {
        assert forall|i: int, j: int| 0 <= i < j < t.len() implies before(
            #[trigger] t[i],
            #[trigger] t[j],
        ) by {
            if j < n {
                assert(before(s[i], s[j]));
            } else if i < n - 1 {
                assert(before(s[i], s[n - 1]));
                lemma_before_transitive(s[i], s[n - 1], x);
            }
        }
    }
}

} // verus!
