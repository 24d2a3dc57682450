//! Trimming, splitting and joining texts.
use vstd::prelude::*;
use vstd::string::*;

use crate::text::{chars_of, is_white, is_whitespace, text_of, texts};

verus! {

// ----- trimming -----

/// `s` without its leading white space.
pub open spec fn trim_start(s: Seq<char>) -> Seq<char>
    decreases s.len(),
{
    if s.len() > 0 && is_white(s[0]) {
        trim_start(s.drop_first())
    } else {
        s
    }
}

/// `s` without its trailing white space.
pub open spec fn trim_end(s: Seq<char>) -> Seq<char>
    decreases s.len(),
{
    if s.len() > 0 && is_white(s.last()) {
        trim_end(s.drop_last())
    } else {
        s
    }
}

/// `s` without its leading and trailing white space.
pub open spec fn trimmed(s: Seq<char>) -> Seq<char> {
    trim_end(trim_start(s))
}

/// Skipping `k` leading white characters does not change what trimming leaves.
proof fn lemma_trim_start_skips(s: Seq<char>, k: int)
    requires
        0 <= k <= s.len(),
        forall|i: int| 0 <= i < k ==> is_white(#[trigger] s[i]),
    ensures
        trim_start(s) == trim_start(s.skip(k)),
    decreases k,
{
    if k == 0 {
        assert(s.skip(0) == s);
    } else {
        let t = s.drop_first();
        assert forall|i: int| 0 <= i < k - 1 implies is_white(#[trigger] t[i]) by {
            assert(t[i] == s[i + 1]);
        }
        lemma_trim_start_skips(t, k - 1);
        assert(t.skip(k - 1) == s.skip(k));
        assert(is_white(s[0]));
    }
}

/// Dropping white characters from the end does not change what trimming leaves.
proof fn lemma_trim_end_takes(s: Seq<char>, k: int)
    requires
        0 <= k <= s.len(),
        forall|i: int| k <= i < s.len() ==> is_white(#[trigger] s[i]),
    ensures
        trim_end(s) == trim_end(s.take(k)),
    decreases s.len() - k,
{
    if k == s.len() {
        assert(s.take(k) == s);
    } else {
        let t = s.drop_last();
        assert forall|i: int| k <= i < t.len() implies is_white(#[trigger] t[i]) by {
            assert(t[i] == s[i]);
        }
        lemma_trim_end_takes(t, k);
        assert(t.take(k) == s.take(k));
        assert(is_white(s[s.len() - 1]));
    }
}

/// A text whose first and last characters are not white is left as it is by trimming.
pub proof fn lemma_trim_keeps(s: Seq<char>)
    requires
        s.len() > 0 ==> !is_white(s[0]) && !is_white(s.last()),
    ensures
        trimmed(s) == s,
{
}

/// What trimming the start leaves is a suffix that begins with no white character.
pub proof fn lemma_trim_start_shape(s: Seq<char>)
    ensures
        trim_start(s).len() <= s.len(),
        trim_start(s) == s.skip(s.len() - trim_start(s).len()),
        trim_start(s).len() > 0 ==> !is_white(trim_start(s)[0]),
    decreases s.len(),
{
    if s.len() > 0 && is_white(s[0]) {
        lemma_trim_start_shape(s.drop_first());
        let n = trim_start(s).len();
        assert(s.drop_first().skip(s.drop_first().len() - n) == s.skip(s.len() - n));
    } else {
        assert(s.skip(0) == s);
    }
}

/// What trimming the end leaves is a prefix that ends with no white character.
pub proof fn lemma_trim_end_shape(s: Seq<char>)
    ensures
        trim_end(s).len() <= s.len(),
        trim_end(s) == s.take(trim_end(s).len() as int),
        trim_end(s).len() > 0 ==> !is_white(trim_end(s).last()),
    decreases s.len(),
{
    if s.len() > 0 && is_white(s.last()) {
        lemma_trim_end_shape(s.drop_last());
        let n = trim_end(s).len() as int;
        assert(s.drop_last().take(n) == s.take(n));
    } else {
        assert(s.take(s.len() as int) == s);
    }
}

/// A trimmed text neither begins nor ends with white space.
pub proof fn lemma_trimmed_shape(s: Seq<char>)
    ensures
        trimmed(s).len() <= s.len(),
        trimmed(s).len() > 0 ==> !is_white(trimmed(s)[0]) && !is_white(trimmed(s).last()),
{
    lemma_trim_start_shape(s);
    lemma_trim_end_shape(trim_start(s));
    if trimmed(s).len() > 0 {
        assert(trimmed(s)[0] == trim_start(s)[0]);
    }
}

/// A trimmed text is a part of the text, from the place that is returned on.
pub proof fn lemma_trimmed_part(s: Seq<char>) -> (a: int)
    ensures
        0 <= a,
        a + trimmed(s).len() <= s.len(),
        trimmed(s) == s.subrange(a, a + trimmed(s).len()),
{
    lemma_trim_start_shape(s);
    lemma_trim_end_shape(trim_start(s));
    let a = s.len() - trim_start(s).len();
    assert(trimmed(s) == s.subrange(a, a + trimmed(s).len()));
    a
}

/// Trimming a trimmed text changes nothing.
pub proof fn law_trim_is_idempotent(s: Seq<char>)
    ensures
        trimmed(trimmed(s)) == trimmed(s),
{
    lemma_trimmed_shape(s);
    lemma_trim_keeps(trimmed(s));
}

/// Where the trimmed text lies in `v`: its first character and the end behind its last.
fn trim_bounds(v: &Vec<char>) -> (r: (usize, usize))
    ensures
        r.0 <= r.1 <= v@.len(),
        v@.subrange(r.0 as int, r.1 as int) == trimmed(v@),
{
    let n: usize = v.len();
    let mut from: usize = 0;
    while from < n && is_whitespace(v[from])
        invariant
            from <= n == v@.len(),
            forall|i: int| 0 <= i < from ==> is_white(#[trigger] v@[i]),
        decreases n - from,
    {
        from = from + 1;
    }
    let ghost rest = v@.skip(from as int);
    proof {
        lemma_trim_start_skips(v@, from as int);
        assert(trim_start(rest) == rest);
    }
    let mut to: usize = n;
    while to > from && is_whitespace(v[to - 1])
        invariant
            from <= to <= n == v@.len(),
            rest == v@.skip(from as int),
            forall|i: int| to - from <= i < rest.len() ==> is_white(#[trigger] rest[i]),
        decreases to,
    {
        to = to - 1;
        assert forall|i: int| to - from <= i < rest.len() implies is_white(#[trigger] rest[i]) by {
            assert(rest[i] == v@[i + from]);
        }
    }
    proof {
        lemma_trim_end_takes(rest, to - from);
        let kept = rest.take(to - from);
        if kept.len() > 0 {
            assert(kept.last() == v@[to - 1]);
        }
        assert(trim_end(kept) == kept);
        assert(kept == v@.subrange(from as int, to as int));
    }
    (from, to)
}

/// `s` without its leading and trailing white space.
pub fn trim(s: &str) -> (r: String)
    ensures
        r@ == trimmed(s@),
{
    let v: Vec<char> = chars_of(s);
    let b: (usize, usize) = trim_bounds(&v);
    text_of(&v, b.0, b.1)
}

/// The trimmed text, or nothing where only white space was there.
pub open spec fn nonblank(s: Seq<char>) -> Option<Seq<char>> {
    if trimmed(s).len() == 0 {
        None
    } else {
        Some(trimmed(s))
    }
}

/// The trimmed text, or `None` where nothing is left of it.
pub fn trim_to_option(s: &str) -> (r: Option<String>)
    ensures
        crate::text::opt_text(r) == nonblank(s@),
{
    let t: String = trim(s);
    if t.as_str().is_empty() {
        None
    } else {
        Some(t)
    }
}

// ----- words -----

/// The leading characters of `s` up to the first white one.
pub open spec fn leading_word(s: Seq<char>) -> Seq<char>
    decreases s.len(),
{
    if s.len() > 0 && !is_white(s[0]) {
        seq![s[0]] + leading_word(s.drop_first())
    } else {
        Seq::empty()
    }
}

/// A leading word is no longer than its text.
pub proof fn lemma_leading_word_len(s: Seq<char>)
    ensures
        leading_word(s).len() <= s.len(),
        s.len() > 0 && !is_white(s[0]) ==> leading_word(s).len() > 0,
    decreases s.len(),
{
    if s.len() > 0 && !is_white(s[0]) {
        lemma_leading_word_len(s.drop_first());
    }
}

/// The maximal runs of characters of `s` that are not white, in order.
pub open spec fn words(s: Seq<char>) -> Seq<Seq<char>>
    decreases s.len(),
{
    let t = trim_start(s);
    if t.len() == 0 {
        Seq::empty()
    } else {
        proof {
            lemma_trim_start_shape(s);
            lemma_leading_word_len(t);
        }
        seq![leading_word(t)] + words(t.skip(leading_word(t).len() as int))
    }
}

/// The characters `0..k` form the leading word when none of them is white and the next is.
proof fn lemma_leading_word_is(s: Seq<char>, k: int)
    requires
        0 <= k <= s.len(),
        forall|i: int| 0 <= i < k ==> !is_white(#[trigger] s[i]),
        k < s.len() ==> is_white(s[k]),
    ensures
        leading_word(s) == s.take(k),
    decreases k,
{
    if k > 0 {
        let t = s.drop_first();
        assert forall|i: int| 0 <= i < k - 1 implies !is_white(#[trigger] t[i]) by {
            assert(t[i] == s[i + 1]);
        }
        lemma_leading_word_is(t, k - 1);
        assert(!is_white(s[0]));
        assert(seq![s[0]] + t.take(k - 1) == s.take(k));
    }
}

/// The words of `s`: its maximal runs of characters that are not white.
pub fn split_whitespace(s: &str) -> (r: Vec<String>)
    ensures
        texts(r@) == words(s@),
{
    let v: Vec<char> = chars_of(s);
    let n: usize = v.len();
    let mut out: Vec<String> = Vec::new();
    let mut i: usize = 0;
    proof {
        assert(v@.skip(0) == v@);
        assert(texts(out@) + words(v@) == words(s@));
    }
    while i < n
        invariant
            i <= n == v@.len(),
            texts(out@) + words(v@.skip(i as int)) == words(s@),
        decreases n - i,
    {
        let ghost here = v@.skip(i as int);
        let ghost start = i;
        while i < n && is_whitespace(v[i])
            invariant
                start <= i <= n == v@.len(),
                here == v@.skip(start as int),
                forall|k: int| 0 <= k < i - start ==> is_white(#[trigger] here[k]),
            decreases n - i,
        {
            assert(here[i - start] == v@[i as int]);
            i = i + 1;
        }
        proof {
            lemma_trim_start_skips(here, i - start);
            assert(here.skip(i - start) == v@.skip(i as int));
        }
        let ghost t = v@.skip(i as int);
        assert(trim_start(here) == t);
        if i < n {
            let from: usize = i;
            while i < n && !is_whitespace(v[i])
                invariant
                    from <= i <= n == v@.len(),
                    t == v@.skip(from as int),
                    forall|k: int| 0 <= k < i - from ==> !is_white(#[trigger] t[k]),
                decreases n - i,
            {
                assert(t[i - from] == v@[i as int]);
                i = i + 1;
            }
            proof {
                if i < n {
                    assert(t[i - from] == v@[i as int]);
                }
                assert(t[0] == v@[from as int]);
                lemma_leading_word_is(t, i - from);
            }
            let w: String = text_of(&v, from, i);
            let ghost before = texts(out@);
            out.push(w);
            proof {
                assert(w@ == leading_word(t));
                assert(t.skip(i - from) == v@.skip(i as int));
                assert(texts(out@) == before.push(w@));
                assert(before + words(here) == words(s@));
                assert(words(here) == seq![w@] + words(v@.skip(i as int)));
                assert(before + (seq![w@] + words(v@.skip(i as int))) == before.push(w@) + words(
                    v@.skip(i as int),
                ));
            }
        } else {
            proof {
                assert(words(here).len() == 0);
                assert(words(v@.skip(i as int)).len() == 0);
                assert(words(here) == words(v@.skip(i as int)));
            }
        }
    }
    assert(words(v@.skip(i as int)).len() == 0);
    assert(texts(out@) == words(s@));
    out
}

// ----- lines -----

/// Where the first `c` of `s` is, or the length of `s` where there is none.
pub open spec fn first_at(s: Seq<char>, c: char) -> int
    decreases s.len(),
{
    if s.len() == 0 || s[0] == c {
        0
    } else {
        1 + first_at(s.drop_first(), c)
    }
}

/// What [`first_at`] says of the characters before and at the place.
pub proof fn lemma_first_at(s: Seq<char>, c: char)
    ensures
        0 <= first_at(s, c) <= s.len(),
        forall|i: int| 0 <= i < first_at(s, c) ==> #[trigger] s[i] != c,
        first_at(s, c) < s.len() ==> s[first_at(s, c)] == c,
        s.contains(c) <==> first_at(s, c) < s.len(),
    decreases s.len(),
{
    if s.len() > 0 && s[0] != c {
        let t = s.drop_first();
        lemma_first_at(t, c);
        assert forall|i: int| 0 <= i < first_at(s, c) implies #[trigger] s[i] != c by {
            if i > 0 {
                assert(t[i - 1] == s[i]);
            }
        }
        if first_at(s, c) < s.len() {
            assert(s[first_at(s, c)] == t[first_at(t, c)]);
        }
        if s.contains(c) {
            let k = choose|k: int| 0 <= k < s.len() && s[k] == c;
            assert(t[k - 1] == c);
        }
    }
}

/// The only place that fits what [`lemma_first_at`] says is [`first_at`].
pub proof fn lemma_first_at_is(s: Seq<char>, c: char, k: int)
    requires
        0 <= k <= s.len(),
        forall|i: int| 0 <= i < k ==> #[trigger] s[i] != c,
        k < s.len() ==> s[k] == c,
    ensures
        first_at(s, c) == k,
{
    lemma_first_at(s, c);
}

/// A line without the carriage return that belongs to its line ending.
pub open spec fn without_return(s: Seq<char>) -> Seq<char> {
    if s.len() > 0 && s.last() == '\r' {
        s.drop_last()
    } else {
        s
    }
}

/// The lines of `s`: line endings are `\n` and `\r\n`, and the last one is optional.
pub open spec fn lines_of(s: Seq<char>) -> Seq<Seq<char>>
    decreases s.len(),
{
    let k = first_at(s, '\n');
    if s.len() == 0 {
        Seq::empty()
    } else if k >= s.len() {
        seq![s]
    } else {
        proof {
            lemma_first_at(s, '\n');
        }
        seq![without_return(s.take(k))] + lines_of(s.skip(k + 1))
    }
}

/// The lines of `s`, without their line endings.
pub fn lines(s: &str) -> (r: Vec<String>)
    ensures
        texts(r@) == lines_of(s@),
{
    let v: Vec<char> = chars_of(s);
    let n: usize = v.len();
    let mut out: Vec<String> = Vec::new();
    let mut i: usize = 0;
    proof {
        assert(v@.skip(0) == v@);
        assert(texts(out@) + lines_of(v@) == lines_of(s@));
    }
    while i < n
        invariant
            i <= n == v@.len(),
            texts(out@) + lines_of(v@.skip(i as int)) == lines_of(s@),
        decreases n - i,
    {
        let ghost here = v@.skip(i as int);
        let from: usize = i;
        while i < n && v[i] != '\n'
            invariant
                from <= i <= n == v@.len(),
                here == v@.skip(from as int),
                forall|k: int| 0 <= k < i - from ==> #[trigger] here[k] != '\n',
            decreases n - i,
        {
            assert(here[i - from] == v@[i as int]);
            i = i + 1;
        }
        let ghost before = texts(out@);
        if i == n {
            proof {
                lemma_first_at_is(here, '\n', i - from);
                assert(here == v@.subrange(from as int, n as int));
            }
            let w: String = text_of(&v, from, n);
            out.push(w);
            proof {
                assert(texts(out@) == before.push(here));
                assert(v@.skip(n as int).len() == 0);
                assert(lines_of(v@.skip(n as int)).len() == 0);
                assert(texts(out@) + lines_of(v@.skip(i as int)) == before + seq![here]);
            }
        } else {
            proof {
                assert(here[i - from] == v@[i as int]);
                lemma_first_at_is(here, '\n', i - from);
                assert(here.take(i - from) == v@.subrange(from as int, i as int));
                if i > from {
                    assert(here.take(i - from).last() == v@[i - 1]);
                }
                assert(here.skip(i - from + 1) == v@.skip(i + 1));
            }
            let to: usize = if i > from && v[i - 1] == '\r' {
                i - 1
            } else {
                i
            };
            let w: String = text_of(&v, from, to);
            out.push(w);
            i = i + 1;
            proof {
                assert(w@ == without_return(here.take(i - 1 - from)));
                assert(texts(out@) == before.push(w@));
                assert(lines_of(here) == seq![w@] + lines_of(v@.skip(i as int)));
                assert(before + (seq![w@] + lines_of(v@.skip(i as int))) == before.push(w@)
                    + lines_of(v@.skip(i as int)));
            }
        }
    }
    assert(v@.skip(n as int).len() == 0);
    assert(texts(out@) == lines_of(s@));
    out
}

// ----- joining -----

/// The texts of `list` with `sep` between neighbours.
pub open spec fn joined(list: Seq<Seq<char>>, sep: Seq<char>) -> Seq<char>
    decreases list.len(),
{
    if list.len() == 0 {
        Seq::empty()
    } else if list.len() == 1 {
        list[0]
    } else {
        joined(list.drop_last(), sep) + sep + list.last()
    }
}

/// Joins the texts of `list` from index `from` on, with `sep` between neighbours.
pub fn join_from(list: &Vec<String>, from: usize, sep: &str) -> (r: String)
    requires
        from <= list@.len(),
    ensures
        r@ == joined(texts(list@).skip(from as int), sep@),
{
    let mut out: String = String::new();
    let mut i: usize = from;
    let ghost all = texts(list@).skip(from as int);
    assert(all.take(0).len() == 0);
    while i < list.len()
        invariant
            from <= i <= list@.len(),
            all == texts(list@).skip(from as int),
            out@ == joined(all.take(i - from), sep@),
        decreases list@.len() - i,
    {
        if i > from {
            out.append(sep);
        }
        out.append(list[i].as_str());
        proof {
            let upto = all.take(i - from + 1);
            assert(upto.drop_last() == all.take(i - from));
            assert(upto.last() == list@[i as int]@);
        }
        i = i + 1;
    }
    assert(all.take(i - from) == all);
    out
}

/// Joins the texts of `list`, with `sep` between neighbours.
pub fn join(list: &Vec<String>, sep: &str) -> (r: String)
    ensures
        r@ == joined(texts(list@), sep@),
{
    assert(texts(list@).skip(0) == texts(list@));
    join_from(list, 0, sep)
}

// ----- laws -----

/// Trimming takes the white space off both ends and nothing else.
pub proof fn law_trim_takes_white_space(a: Seq<char>, m: Seq<char>, b: Seq<char>)
    requires
        forall|i: int| 0 <= i < a.len() ==> is_white(#[trigger] a[i]),
        forall|i: int| 0 <= i < b.len() ==> is_white(#[trigger] b[i]),
        m.len() > 0 ==> !is_white(m[0]) && !is_white(m.last()),
    ensures
        trimmed(a + m + b) == m,
{
    let s = a + m + b;
    if m.len() == 0 {
        assert forall|i: int| 0 <= i < s.len() implies is_white(#[trigger] s[i]) by {
            if i < a.len() {
                assert(s[i] == a[i]);
            } else {
                assert(s[i] == b[i - a.len()]);
            }
        }
        lemma_trim_start_skips(s, s.len() as int);
        assert(s.skip(s.len() as int).len() == 0);
        assert(trimmed(s) =~= m);
    } else {
        assert forall|i: int| 0 <= i < a.len() implies is_white(#[trigger] s[i]) by {
            assert(s[i] == a[i]);
        }
        lemma_trim_start_skips(s, a.len() as int);
        let t = s.skip(a.len() as int);
        assert(t =~= m + b);
        assert(t[0] == m[0]);
        assert forall|i: int| m.len() <= i < t.len() implies is_white(#[trigger] t[i]) by {
            assert(t[i] == b[i - m.len()]);
        }
        lemma_trim_end_takes(t, m.len() as int);
        assert(t.take(m.len() as int) =~= m);
    }
}

/// There is something in a text exactly where not all of it is white space; then it is the text
/// without the white space at its ends.
pub proof fn law_blank_texts_are_none(s: Seq<char>)
    ensures
        nonblank(s) is None <==> forall|i: int| 0 <= i < s.len() ==> is_white(#[trigger] s[i]),
        nonblank(s) matches Some(t) ==> t == trimmed(s) && t.len() > 0,
{
    if forall|i: int| 0 <= i < s.len() ==> is_white(#[trigger] s[i]) {
        let none = Seq::<char>::empty();
        law_trim_takes_white_space(s, none, none);
        assert(s + none + none =~= s);
    } else {
        let i = choose|i: int| 0 <= i < s.len() && !is_white(#[trigger] s[i]);
        lemma_nonblank_stays(s, i);
    }
}

proof fn lemma_nonblank_stays(s: Seq<char>, i: int)
    requires
        0 <= i < s.len(),
        !is_white(s[i]),
    ensures
        trimmed(s).len() > 0,
{
    lemma_trim_start_shape(s);
    let t = trim_start(s);
    lemma_start_keeps(s, i);
    let j = i - (s.len() - t.len());
    assert(t[j] == s[i]);
    lemma_end_keeps(t, j);
}

proof fn lemma_start_keeps(s: Seq<char>, i: int)
    requires
        0 <= i < s.len(),
        !is_white(s[i]),
    ensures
        trim_start(s).len() >= s.len() - i,
    decreases s.len(),
{
    if is_white(s[0]) {
        assert(s.drop_first()[i - 1] == s[i]);
        lemma_start_keeps(s.drop_first(), i - 1);
    }
}

proof fn lemma_end_keeps(s: Seq<char>, i: int)
    requires
        0 <= i < s.len(),
        !is_white(s[i]),
    ensures
        trim_end(s).len() > i,
    decreases s.len(),
{
    if is_white(s.last()) {
        assert(s.drop_last()[i] == s[i]);
        lemma_end_keeps(s.drop_last(), i);
    }
}

/// The words of a text are cut at white space: a text without any is one word, and what stands
/// before and behind a white sign is cut on its own.
pub proof fn law_words_are_cut_at_white_space(a: Seq<char>, c: char, b: Seq<char>)
    requires
        is_white(c),
    ensures
        words(Seq::empty()).len() == 0,
        a.len() > 0 && (forall|i: int| 0 <= i < a.len() ==> !is_white(#[trigger] a[i])) ==> words(a)
            == seq![a],
        words(a + seq![c] + b) == words(a) + words(b),
    decreases a.len(),
{
    if a.len() > 0 && (forall|i: int| 0 <= i < a.len() ==> !is_white(#[trigger] a[i])) {
        lemma_leading_word_is(a, a.len() as int);
        assert(a.take(a.len() as int) =~= a);
        assert(trim_start(a) == a);
        assert(words(a.skip(a.len() as int)).len() == 0);
        assert(words(a) =~= seq![a]);
    }
    let s = a + seq![c] + b;
    lemma_trim_start_shape(a);
    let t = trim_start(a);
    let k = a.len() - t.len();
    lemma_white_head(a);
    assert forall|i: int| 0 <= i < k implies is_white(#[trigger] s[i]) by {
        assert(s[i] == a[i]);
    }
    if t.len() == 0 {
        assert forall|i: int| 0 <= i < k + 1 implies is_white(#[trigger] s[i]) by {
            if i < k {
                assert(s[i] == a[i]);
            }
        }
        lemma_trim_start_skips(s, k + 1);
        assert(s.skip(k + 1) =~= b);
        lemma_same_words(s, b);
        assert(words(a) + words(b) =~= words(b));
    } else {
        lemma_trim_start_skips(s, k);
        assert(s.skip(k) =~= t + seq![c] + b);
        assert(trim_start(s.skip(k)) == s.skip(k));
        lemma_leading_word_len(t);
        let n: int = leading_word(t).len() as int;
        lemma_leading_word_ends(t);
        let u = t + seq![c] + b;
        assert forall|i: int| 0 <= i < n implies !is_white(#[trigger] u[i]) by {
            assert(u[i] == t[i]);
        }
        lemma_leading_word_is(u, n);
        assert(u.take(n) =~= t.take(n));
        assert(u.skip(n) =~= t.skip(n) + seq![c] + b);
        law_words_are_cut_at_white_space(t.skip(n), c, b);
        assert(words(s) == seq![leading_word(t)] + words(u.skip(n)));
        assert(words(s) =~= words(a) + words(b));
    }
}

proof fn lemma_white_head(s: Seq<char>)
    ensures
        forall|i: int| 0 <= i < s.len() - trim_start(s).len() ==> is_white(#[trigger] s[i]),
    decreases s.len(),
{
    if s.len() > 0 && is_white(s[0]) {
        lemma_white_head(s.drop_first());
        assert forall|i: int| 0 <= i < s.len() - trim_start(s).len() implies is_white(
            #[trigger] s[i],
        ) by {
            if i > 0 {
                assert(s[i] == s.drop_first()[i - 1]);
            }
        }
    }
}

proof fn lemma_same_words(s: Seq<char>, b: Seq<char>)
    requires
        trim_start(s) == trim_start(b),
    ensures
        words(s) == words(b),
{
}

proof fn lemma_leading_word_ends(s: Seq<char>)
    ensures
        leading_word(s).len() <= s.len(),
        leading_word(s) == s.take(leading_word(s).len() as int),
        forall|i: int| 0 <= i < leading_word(s).len() ==> !is_white(#[trigger] s[i]),
        leading_word(s).len() < s.len() ==> is_white(s[leading_word(s).len() as int]),
    decreases s.len(),
{
    if s.len() > 0 && !is_white(s[0]) {
        let rest = s.drop_first();
        lemma_leading_word_ends(rest);
        let n: int = leading_word(s).len() as int;
        assert(leading_word(s) =~= s.take(n)) by {
            assert(seq![s[0]] + rest.take(n - 1) =~= s.take(n));
        }
        assert forall|i: int| 0 <= i < n implies !is_white(#[trigger] s[i]) by {
            if i > 0 {
                assert(s[i] == rest[i - 1]);
            }
        }
        if n < s.len() {
            assert(s[n] == rest[n - 1]);
        }
    } else {
        assert(leading_word(s) =~= s.take(0));
    }
}

/// The lines of a text are cut at line feeds, a carriage return before one going with it; a text
/// that ends in a line feed has no line behind it.
pub proof fn law_lines_are_cut_at_line_feeds(a: Seq<char>, b: Seq<char>)
    requires
        !a.contains('\n'),
    ensures
        lines_of(Seq::empty()).len() == 0,
        a.len() > 0 ==> lines_of(a) == seq![a],
        a.len() == 0 || a.last() != '\r' ==> lines_of(a + seq!['\n'] + b) == seq![a] + lines_of(b),
        a.len() > 0 && a.last() == '\r' ==> lines_of(a + seq!['\n'] + b) == seq![a.drop_last()]
            + lines_of(b),
{
    assert forall|i: int| 0 <= i < a.len() implies #[trigger] a[i] != '\n' by {
        if a[i] == '\n' {
            assert(a.contains('\n'));
        }
    }
    lemma_first_at_is(a, '\n', a.len() as int);
    let s = a + seq!['\n'] + b;
    assert forall|i: int| 0 <= i < a.len() implies #[trigger] s[i] != '\n' by {
        assert(s[i] == a[i]);
    }
    lemma_first_at_is(s, '\n', a.len() as int);
    assert(s.take(a.len() as int) =~= a);
    assert(s.skip(1int + a.len()) =~= b);
}

/// Joining puts the separator between two neighbours and nowhere else.
pub proof fn law_joined(a: Seq<Seq<char>>, b: Seq<Seq<char>>, x: Seq<char>, sep: Seq<char>)
    ensures
        joined(Seq::empty(), sep).len() == 0,
        joined(seq![x], sep) == x,
        a.len() > 0 && b.len() > 0 ==> joined(a + b, sep) == joined(a, sep) + sep + joined(b, sep),
    decreases b.len(),
{
    if a.len() > 0 && b.len() > 0 {
        assert((a + b).drop_last() =~= a + b.drop_last());
        assert((a + b).last() == b.last());
        if b.len() == 1 {
            assert(a + b.drop_last() =~= a);
            assert(b.last() == b[0]);
        } else {
            law_joined(a, b.drop_last(), x, sep);
            assert(joined(a, sep) + sep + joined(b.drop_last(), sep) + sep + b.last() =~= joined(
                a,
                sep,
            ) + sep + (joined(b.drop_last(), sep) + sep + b.last()));
        }
    }
}

} // verus!
