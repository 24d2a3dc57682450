//! Finding and replacing parts of texts.
use vstd::prelude::*;
use vstd::string::*;
use vstd::utf8::*;

use crate::text::{chars_of, text_of};

verus! {

/// Whether `s` begins with `p`.
pub open spec fn begins_with(s: Seq<char>, p: Seq<char>) -> bool {
    p.len() <= s.len() && s.take(p.len() as int) == p
}

/// Whether `p` occurs somewhere in `s`.
pub open spec fn occurs_in(s: Seq<char>, p: Seq<char>) -> bool {
    exists|k: int| 0 <= k <= s.len() && begins_with(#[trigger] s.skip(k), p)
}

/// Whether the characters of `v` from `at` on begin with `p`.
fn matches_at(v: &Vec<char>, at: usize, p: &Vec<char>) -> (r: bool)
    requires
        at <= v@.len(),
    ensures
        r == begins_with(v@.skip(at as int), p@),
{
    let ghost s = v@.skip(at as int);
    let n: usize = v.len();
    if p.len() > n - at {
        return false;
    }
    let mut i: usize = 0;
    while i < p.len()
        invariant
            n == v@.len(),
            i <= p@.len() <= n - at,
            s == v@.skip(at as int),
            forall|k: int| 0 <= k < i ==> s[k] == #[trigger] p@[k],
        decreases p@.len() - i,
    {
        if v[at + i] != p[i] {
            proof {
                assert(s[i as int] == v@[at + i]);
                assert(s.take(p@.len() as int)[i as int] != p@[i as int]);
            }
            return false;
        }
        i = i + 1;
    }
    assert(s.take(p@.len() as int) == p@);
    true
}

/// Whether `s` begins with `p`.
pub fn starts_with(s: &str, p: &str) -> (r: bool)
    ensures
        r == begins_with(s@, p@),
{
    let v: Vec<char> = chars_of(s);
    let w: Vec<char> = chars_of(p);
    assert(v@.skip(0) == v@);
    matches_at(&v, 0, &w)
}

/// Whether `p` occurs somewhere in `s`.
pub fn contains(s: &str, p: &str) -> (r: bool)
    ensures
        r == occurs_in(s@, p@),
{
    let v: Vec<char> = chars_of(s);
    let w: Vec<char> = chars_of(p);
    let mut i: usize = 0;
    while i < v.len()
        invariant
            i <= v@.len(),
            v@ == s@,
            w@ == p@,
            forall|k: int| 0 <= k < i ==> !begins_with(#[trigger] s@.skip(k), p@),
        decreases v@.len() - i,
    {
        if matches_at(&v, i, &w) {
            return true;
        }
        i = i + 1;
    }
    let r: bool = matches_at(&v, i, &w);
    proof {
        if !r && occurs_in(s@, p@) {
            let k = choose|k: int| 0 <= k <= s@.len() && begins_with(#[trigger] s@.skip(k), p@);
            assert(k < i || k == i);
        }
    }
    r
}

/// The place of the first `c` in `v`, or `None`.
pub fn position_of(v: &Vec<char>, c: char) -> (r: Option<usize>)
    ensures
        match r {
            Some(k) => k < v@.len() && v@[k as int] == c && forall|i: int|
                0 <= i < k ==> #[trigger] v@[i] != c,
            None => !v@.contains(c),
        },
{
    let mut i: usize = 0;
    while i < v.len()
        invariant
            i <= v@.len(),
            forall|k: int| 0 <= k < i ==> #[trigger] v@[k] != c,
        decreases v@.len() - i,
    {
        if v[i] == c {
            return Some(i);
        }
        i = i + 1;
    }
    None
}

/// The place of the last `c` in `v`, or `None`.
pub fn last_position_of(v: &Vec<char>, c: char) -> (r: Option<usize>)
    ensures
        match r {
            Some(k) => k < v@.len() && v@[k as int] == c && forall|i: int|
                k < i < v@.len() ==> #[trigger] v@[i] != c,
            None => !v@.contains(c),
        },
{
    let mut i: usize = v.len();
    while i > 0
        invariant
            i <= v@.len(),
            forall|k: int| i <= k < v@.len() ==> #[trigger] v@[k] != c,
        decreases i,
    {
        i = i - 1;
        if v[i] == c {
            return Some(i);
        }
    }
    None
}

/// How often `c` occurs in `s`.
pub open spec fn count_of(s: Seq<char>, c: char) -> nat
    decreases s.len(),
{
    if s.len() == 0 {
        0
    } else {
        count_of(s.drop_last(), c) + if s.last() == c {
            1nat
        } else {
            0
        }
    }
}

/// How often `c` occurs in `v`.
pub fn count(v: &Vec<char>, c: char) -> (n: usize)
    ensures
        n == count_of(v@, c),
{
    let mut n: usize = 0;
    let mut i: usize = 0;
    assert(v@.take(0).len() == 0);
    while i < v.len()
        invariant
            n <= i <= v@.len(),
            n == count_of(v@.take(i as int), c),
        decreases v@.len() - i,
    {
        assert(v@.take(i + 1).drop_last() == v@.take(i as int));
        if v[i] == c {
            n = n + 1;
        }
        i = i + 1;
    }
    assert(v@.take(i as int) == v@);
    n
}

/// A character that is nowhere in a text occurs in it no times.
pub proof fn lemma_count_absent(s: Seq<char>, c: char)
    requires
        forall|i: int| 0 <= i < s.len() ==> #[trigger] s[i] != c,
    ensures
        count_of(s, c) == 0,
    decreases s.len(),
{
    if s.len() > 0 {
        lemma_count_absent(s.drop_last(), c);
        assert(s[s.len() - 1] != c);
    }
}

/// `s` with every occurrence of `p` replaced by `t`: occurrences are taken from the left and do
/// not overlap. An empty `p` replaces nothing.
pub open spec fn replaced(s: Seq<char>, p: Seq<char>, t: Seq<char>) -> Seq<char>
    decreases s.len(),
{
    if s.len() == 0 || p.len() == 0 {
        s
    } else if begins_with(s, p) {
        t + replaced(s.skip(p.len() as int), p, t)
    } else {
        seq![s[0]] + replaced(s.drop_first(), p, t)
    }
}

/// `s` with every occurrence of `p` replaced by `t`, from the left.
pub fn replace(s: &str, p: &str, t: &str) -> (r: String)
    requires
        p@.len() > 0,
    ensures
        r@ == replaced(s@, p@, t@),
{
    let v: Vec<char> = chars_of(s);
    let w: Vec<char> = chars_of(p);
    let mut out: String = String::new();
    let mut i: usize = 0;
    proof {
        assert(v@.skip(0) == v@);
        assert(out@ + replaced(v@, p@, t@) == replaced(s@, p@, t@));
    }
    while i < v.len()
        invariant
            i <= v@.len(),
            w@ == p@,
            p@.len() > 0,
            out@ + replaced(v@.skip(i as int), p@, t@) == replaced(s@, p@, t@),
        decreases v@.len() - i,
    {
        let ghost here = v@.skip(i as int);
        let ghost before = out@;
        if matches_at(&v, i, &w) {
            out.append(t);
            i = i + w.len();
            proof {
                assert(here.skip(w@.len() as int) == v@.skip(i as int));
                assert(before + (t@ + replaced(v@.skip(i as int), p@, t@)) == out@ + replaced(
                    v@.skip(i as int),
                    p@,
                    t@,
                ));
            }
        } else {
            out.push(v[i]);
            i = i + 1;
            proof {
                assert(here.drop_first() == v@.skip(i as int));
                assert(here[0] == v@[i - 1]);
                assert(before + (seq![here[0]] + replaced(v@.skip(i as int), p@, t@)) == out@
                    + replaced(v@.skip(i as int), p@, t@));
            }
        }
    }
    assert(v@.skip(i as int).len() == 0);
    assert(out@ == replaced(s@, p@, t@));
    out
}

/// Replacing brings in no character but those of the replacement.
pub proof fn lemma_replaced_chars(s: Seq<char>, p: Seq<char>, t: Seq<char>)
    ensures
        forall|i: int|
            0 <= i < replaced(s, p, t).len() ==> s.contains(#[trigger] replaced(s, p, t)[i])
                || t.contains(replaced(s, p, t)[i]),
    decreases s.len(),
{
    let r = replaced(s, p, t);
    if s.len() == 0 || p.len() == 0 {
        assert forall|i: int| 0 <= i < r.len() implies s.contains(#[trigger] r[i]) by {
            assert(s[i] == r[i]);
        }
    } else {
        let hit = begins_with(s, p);
        let step: int = if hit {
            p.len() as int
        } else {
            1
        };
        let front = if hit {
            t
        } else {
            seq![s[0]]
        };
        let rest = s.skip(step);
        lemma_replaced_chars(rest, p, t);
        assert(s.drop_first() == s.skip(1));
        assert(r == front + replaced(rest, p, t));
        assert forall|i: int| 0 <= i < r.len() implies s.contains(#[trigger] r[i]) || t.contains(
            r[i],
        ) by {
            if i < front.len() {
                assert(front[i] == r[i]);
            } else {
                let x = replaced(rest, p, t)[i - front.len()];
                assert(x == r[i]);
                if rest.contains(x) {
                    let k = choose|k: int| 0 <= k < rest.len() && rest[k] == x;
                    assert(s[k + step] == x);
                }
            }
        }
    }
}

/// A text that lacks the first character of what is to be replaced stays as it is.
pub proof fn lemma_replaced_absent(s: Seq<char>, p: Seq<char>, t: Seq<char>)
    requires
        p.len() > 0,
        forall|i: int| 0 <= i < s.len() ==> #[trigger] s[i] != p[0],
    ensures
        replaced(s, p, t) == s,
    decreases s.len(),
{
    if s.len() > 0 {
        if begins_with(s, p) {
            assert(s.take(p.len() as int)[0] == s[0]);
        }
        let rest = s.drop_first();
        assert forall|i: int| 0 <= i < rest.len() implies #[trigger] rest[i] != p[0] by {
            assert(rest[i] == s[i + 1]);
        }
        lemma_replaced_absent(rest, p, t);
        assert(seq![s[0]] + rest == s);
    }
}

/// The characters of `s` that satisfy `keep`, in order.
pub open spec fn kept(s: Seq<char>, keep: spec_fn(char) -> bool) -> Seq<char>
    decreases s.len(),
{
    if s.len() == 0 {
        s
    } else if keep(s.last()) {
        kept(s.drop_last(), keep).push(s.last())
    } else {
        kept(s.drop_last(), keep)
    }
}

/// Every character that is kept satisfies the condition and comes from the text.
pub proof fn lemma_kept(s: Seq<char>, keep: spec_fn(char) -> bool)
    ensures
        kept(s, keep).len() <= s.len(),
        forall|i: int| 0 <= i < kept(s, keep).len() ==> keep(#[trigger] kept(s, keep)[i]),
        forall|i: int|
            0 <= i < kept(s, keep).len() ==> s.contains(#[trigger] kept(s, keep)[i]),
    decreases s.len(),
{
    if s.len() > 0 {
        let t = s.drop_last();
        lemma_kept(t, keep);
        assert forall|i: int| 0 <= i < kept(s, keep).len() implies s.contains(
            #[trigger] kept(s, keep)[i],
        ) by {
            if i < kept(t, keep).len() {
                let c = kept(t, keep)[i];
                let k = choose|k: int| 0 <= k < t.len() && t[k] == c;
                assert(s[k] == c);
            } else {
                assert(s[s.len() - 1] == s.last());
            }
        }
    }
}

/// A text whose characters all satisfy the condition is kept whole.
pub proof fn lemma_kept_whole(s: Seq<char>, keep: spec_fn(char) -> bool)
    requires
        forall|i: int| 0 <= i < s.len() ==> keep(#[trigger] s[i]),
    ensures
        kept(s, keep) == s,
    decreases s.len(),
{
    if s.len() > 0 {
        let t = s.drop_last();
        assert forall|i: int| 0 <= i < t.len() implies keep(#[trigger] t[i]) by {
            assert(t[i] == s[i]);
        }
        lemma_kept_whole(t, keep);
        assert(keep(s[s.len() - 1]));
        assert(t.push(s.last()) == s);
    }
}

/// The first `n` characters of `s`, or all of it where it is shorter.
pub open spec fn first_chars(s: Seq<char>, n: int) -> Seq<char> {
    if s.len() <= n {
        s
    } else {
        s.take(n)
    }
}

/// The first `n` characters of `s`, or all of it where it is shorter.
pub fn take_chars(s: &str, n: usize) -> (r: String)
    ensures
        r@ == first_chars(s@, n as int),
{
    let v: Vec<char> = chars_of(s);
    let to: usize = if v.len() <= n {
        v.len()
    } else {
        n
    };
    assert(v@.subrange(0, to as int) == first_chars(s@, n as int));
    text_of(&v, 0, to)
}

/// The number of bytes that the first `k` characters of a text take up.
pub open spec fn bytes_upto(s: Seq<char>, k: int) -> nat {
    encode_utf8(s.take(k)).len()
}

/// The number of bytes of one character's UTF-8 encoding.
pub open spec fn char_bytes(c: char) -> nat {
    if (c as u32) < 0x80 {
        1
    } else if (c as u32) < 0x800 {
        2
    } else if (c as u32) < 0x10000 {
        3
    } else {
        4
    }
}

/// What is left of a text behind its first `n` bytes, where a character ends there.
pub open spec fn after_bytes(s: Seq<char>, n: int) -> Option<Seq<char>>
    decreases s.len(),
{
    if n == 0 {
        Some(s)
    } else if n < 0 || s.len() == 0 {
        None
    } else {
        after_bytes(s.drop_first(), n - char_bytes(s[0]))
    }
}

fn width(c: char) -> (n: usize)
    ensures
        n == char_bytes(c),
        1 <= n <= 4,
{
    let x: u32 = c as u32;
    if x < 0x80 {
        1
    } else if x < 0x800 {
        2
    } else if x < 0x10000 {
        3
    } else {
        4
    }
}

/// The place in a text where its first `n` bytes end.
pub fn cut_at(v: &Vec<char>, n: usize) -> (r: Option<usize>)
    ensures
        match r {
            Some(k) => k <= v@.len() && after_bytes(v@, n as int) == Some(v@.skip(k as int)),
            None => after_bytes(v@, n as int) is None,
        },
{
    let mut left: usize = n;
    let mut i: usize = 0;
    assert(v@.skip(0) == v@);
    while left > 0
        invariant
            i <= v@.len(),
            after_bytes(v@, n as int) == after_bytes(v@.skip(i as int), left as int),
        decreases v@.len() - i, left,
    {
        if i == v.len() {
            return None;
        }
        let ghost here = v@.skip(i as int);
        assert(here[0] == v@[i as int]);
        assert(here.drop_first() == v@.skip(i + 1));
        let w = width(v[i]);
        if w > left {
            assert(after_bytes(here.drop_first(), left - w) is None);
            return None;
        }
        left = left - w;
        i = i + 1;
    }
    Some(i)
}

/// The part of a text between two byte offsets, where characters end at both.
pub open spec fn between_bytes(s: Seq<char>, a: int, b: int) -> Option<Seq<char>> {
    match (after_bytes(s, a), after_bytes(s, b)) {
        (Some(x), Some(y)) => if y.len() <= x.len() {
            Some(x.take(x.len() - y.len()))
        } else {
            None
        },
        _ => None,
    }
}

/// The part of a text between two byte offsets, where characters end at both.
pub fn slice_bytes(s: &str, a: usize, b: usize) -> (r: Option<String>)
    ensures
        crate::text::opt_text(r) == between_bytes(s@, a as int, b as int),
{
    let v = chars_of(s);
    match (cut_at(&v, a), cut_at(&v, b)) {
        (Some(i), Some(j)) => {
            if i <= j {
                assert(v@.subrange(i as int, j as int) == v@.skip(i as int).take(j - i));
                Some(text_of(&v, i, j))
            } else {
                None
            }
        },
        _ => None,
    }
}

// ----- laws -----

/// A text begins with another exactly where it is that other and something more.
pub proof fn law_begins_with(s: Seq<char>, p: Seq<char>, rest: Seq<char>)
    ensures
        begins_with(p + rest, p),
        begins_with(s, p) ==> s == p + s.skip(p.len() as int),
        begins_with(s, p) <==> p.is_prefix_of(s),
{
    assert((p + rest).take(p.len() as int) =~= p);
    if begins_with(s, p) {
        assert(s =~= p + s.skip(p.len() as int));
    }
}

/// A text occurs in another exactly where that other has it between two parts.
pub proof fn law_occurs_in(s: Seq<char>, a: Seq<char>, p: Seq<char>, b: Seq<char>)
    ensures
        occurs_in(a + p + b, p),
        occurs_in(s, p) <==> exists|x: Seq<char>, y: Seq<char>| s == #[trigger] (x + p + y),
{
    let whole = a + p + b;
    assert(whole.skip(a.len() as int).take(p.len() as int) =~= p);
    assert(begins_with(whole.skip(a.len() as int), p));
    if occurs_in(s, p) {
        let k = choose|k: int| 0 <= k <= s.len() && begins_with(#[trigger] s.skip(k), p);
        let x = s.take(k);
        let y = s.skip(k + p.len());
        assert(s =~= x + p + y) by {
            assert forall|i: int| 0 <= i < p.len() implies s[k + i] == p[i] by {
                assert(s.skip(k).take(p.len() as int)[i] == p[i]);
            }
        }
    }
    if exists|x: Seq<char>, y: Seq<char>| s == #[trigger] (x + p + y) {
        let (x, y) = choose|x: Seq<char>, y: Seq<char>| s == #[trigger] (x + p + y);
        assert(s.skip(x.len() as int).take(p.len() as int) =~= p);
        assert(begins_with(s.skip(x.len() as int), p));
    }
}

/// Replacing changes the first occurrence and goes on behind it; a text without an occurrence stays
/// as it is.
pub proof fn law_replaced(a: Seq<char>, p: Seq<char>, b: Seq<char>, t: Seq<char>)
    requires
        p.len() > 0,
    ensures
        !occurs_in(a, p) ==> replaced(a, p, t) == a,
        (forall|k: int| 0 <= k < a.len() ==> !begins_with(#[trigger] (a + p + b).skip(k), p))
            ==> replaced(a + p + b, p, t) == a + t + replaced(b, p, t),
    decreases a.len(),
{
    let whole = a + p + b;
    if a.len() == 0 {
        assert(whole =~= p + b);
        assert(whole.take(p.len() as int) =~= p);
        assert(whole.skip(p.len() as int) =~= b);
        assert(a + t + replaced(b, p, t) =~= t + replaced(b, p, t));
    } else {
        let rest = a.drop_first();
        law_replaced(rest, p, b, t);
        if !occurs_in(a, p) {
            assert(a.skip(0) =~= a);
            assert(!begins_with(a.skip(0), p));
            assert(!occurs_in(rest, p)) by {
                if occurs_in(rest, p) {
                    let k = choose|k: int|
                        0 <= k <= rest.len() && begins_with(#[trigger] rest.skip(k), p);
                    assert(rest.skip(k) =~= a.skip(k + 1));
                }
            }
            assert(seq![a[0]] + rest =~= a);
        }
        if forall|k: int| 0 <= k < a.len() ==> !begins_with(#[trigger] whole.skip(k), p) {
            assert(whole.skip(0) =~= whole);
            assert(!begins_with(whole.skip(0), p));
            assert(whole.drop_first() =~= rest + p + b);
            assert forall|k: int| 0 <= k < rest.len() implies !begins_with(
                #[trigger] (rest + p + b).skip(k),
                p,
            ) by {
                assert((rest + p + b).skip(k) =~= whole.skip(k + 1));
            }
            assert(seq![whole[0]] + (rest + t + replaced(b, p, t)) =~= a + t + replaced(b, p, t));
        }
    }
}

/// Replacing one sign by another changes just that sign, wherever it stands.
pub proof fn law_replaced_signs(s: Seq<char>, x: char, y: char)
    ensures
        replaced(s, seq![x], seq![y]).len() == s.len(),
        forall|i: int|
            0 <= i < s.len() ==> #[trigger] replaced(s, seq![x], seq![y])[i] == (if s[i] == x {
                y
            } else {
                s[i]
            }),
    decreases s.len(),
{
    if s.len() > 0 {
        law_replaced_signs(s.drop_first(), x, y);
        let p = seq![x];
        assert(s.skip(1) =~= s.drop_first());
        assert(s.take(1) =~= seq![s[0]]);
        if begins_with(s, p) {
            assert(s.take(1)[0] == p[0]);
        }
        if s[0] == x {
            assert(s.take(1) =~= p);
        }
        let r = replaced(s, p, seq![y]);
        let rest = replaced(s.drop_first(), p, seq![y]);
        assert(r.len() == 1 + rest.len());
        assert forall|i: int| 0 <= i < s.len() implies #[trigger] r[i] == (if s[i] == x {
            y
        } else {
            s[i]
        }) by {
            if i > 0 {
                assert(r[i] == rest[i - 1]);
                assert(s[i] == s.drop_first()[i - 1]);
            }
        }
    }
}

/// What is kept of two texts one behind the other is what is kept of each; a single character is
/// kept exactly where it satisfies the condition.
pub proof fn law_kept_in_parts(a: Seq<char>, b: Seq<char>, c: char, keep: spec_fn(char) -> bool)
    ensures
        kept(a + b, keep) == kept(a, keep) + kept(b, keep),
        kept(seq![c], keep) == (if keep(c) {
            seq![c]
        } else {
            Seq::empty()
        }),
    decreases b.len(),
{
    assert(seq![c].drop_last() =~= Seq::<char>::empty());
    assert(kept(Seq::<char>::empty(), keep) =~= Seq::<char>::empty());
    assert(Seq::<char>::empty().push(c) =~= seq![c]);
    if b.len() == 0 {
        assert(a + b =~= a);
        assert(kept(a, keep) + kept(b, keep) =~= kept(a, keep));
    } else {
        law_kept_in_parts(a, b.drop_last(), c, keep);
        assert((a + b).drop_last() =~= a + b.drop_last());
        assert((a + b).last() == b.last());
        if keep(b.last()) {
            assert((kept(a, keep) + kept(b.drop_last(), keep)).push(b.last()) =~= kept(a, keep) + kept(
                b.drop_last(),
                keep,
            ).push(b.last()));
        }
    }
}

/// The first characters of a text are its beginning: as many as asked for, or all there are.
pub proof fn law_first_chars(s: Seq<char>, n: int)
    requires
        n >= 0,
    ensures
        first_chars(s, n).is_prefix_of(s),
        first_chars(s, n).len() == n || (first_chars(s, n) == s && s.len() < n),
{
}

/// A character occurs in two texts one behind the other as often as in both together.
pub proof fn law_counts_add_up(a: Seq<char>, b: Seq<char>, c: char, d: char)
    ensures
        count_of(a + b, c) == count_of(a, c) + count_of(b, c),
        count_of(seq![d], c) == (if d == c {
            1int
        } else {
            0
        }),
    decreases b.len(),
{
    assert(seq![d].drop_last() =~= Seq::<char>::empty());
    assert(count_of(Seq::<char>::empty(), c) == 0);
    if b.len() == 0 {
        assert(a + b =~= a);
    } else {
        law_counts_add_up(a, b.drop_last(), c, d);
        assert((a + b).drop_last() =~= a + b.drop_last());
        assert((a + b).last() == b.last());
    }
}

/// A text is cut behind a number of bytes exactly where its characters up to there take up that many.
pub proof fn law_bytes_are_those_of_the_encoding(a: Seq<char>, b: Seq<char>, s: Seq<char>, n: int)
    ensures
        after_bytes(a + b, encode_utf8(a).len() as int) == Some(b),
        after_bytes(s, n) matches Some(t) ==> {
            &&& t.len() <= s.len()
            &&& t == s.skip(s.len() - t.len())
            &&& encode_utf8(s.take(s.len() - t.len())).len() == n
        },
{
    lemma_cut_behind(a, b);
    lemma_cut_is_at(s, n);
}

proof fn lemma_cut_behind(a: Seq<char>, b: Seq<char>)
    ensures
        after_bytes(a + b, encode_utf8(a).len() as int) == Some(b),
    decreases a.len(),
{
    if a.len() == 0 {
        assert(a + b =~= b);
    } else {
        lemma_cut_behind(a.drop_first(), b);
        assert((a + b).drop_first() =~= a.drop_first() + b);
        assert((a + b)[0] == a[0]);
        char_is_scalar(a[0]);
        assert(encode_scalar(a[0] as u32).len() == char_bytes(a[0]));
    }
}

proof fn lemma_cut_is_at(s: Seq<char>, n: int)
    ensures
        after_bytes(s, n) matches Some(t) ==> {
            &&& t.len() <= s.len()
            &&& t == s.skip(s.len() - t.len())
            &&& encode_utf8(s.take(s.len() - t.len())).len() == n
        },
    decreases s.len(),
{
    if n == 0 {
        assert(s.skip(0) =~= s);
        assert(s.take(0).len() == 0);
    } else if n > 0 && s.len() > 0 {
        let rest = s.drop_first();
        lemma_cut_is_at(rest, n - char_bytes(s[0]));
        if let Some(t) = after_bytes(s, n) {
            let k = s.len() - t.len();
            assert(rest.skip(k - 1) =~= s.skip(k));
            assert(s.take(k).drop_first() =~= rest.take(k - 1));
            assert(s.take(k)[0] == s[0]);
            char_is_scalar(s[0]);
            assert(encode_scalar(s[0] as u32).len() == char_bytes(s[0]));
        }
    }
}

/// What is cut out between two places of a text is what stands between them.
pub proof fn law_slice_is_what_stands_between(a: Seq<char>, m: Seq<char>, b: Seq<char>)
    ensures
        between_bytes(a + m + b, encode_utf8(a).len() as int, encode_utf8(a + m).len() as int)
            == Some(m),
{
    lemma_cut_behind(a, m + b);
    lemma_cut_behind(a + m, b);
    assert(a + (m + b) =~= a + m + b);
    assert((m + b).take(m.len() as int) =~= m);
}

/// A text that stands at a place of another occurs in it.
pub proof fn lemma_occurs_at(s: Seq<char>, k: int, p: Seq<char>)
    requires
        0 <= k,
        k + p.len() <= s.len(),
        forall|i: int| 0 <= i < p.len() ==> #[trigger] p[i] == s[k + i],
    ensures
        occurs_in(s, p),
{
    assert(s.skip(k).take(p.len() as int) =~= p);
    assert(begins_with(s.skip(k), p));
}

} // verus!
