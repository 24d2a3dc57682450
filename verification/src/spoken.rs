//! Making sense of what was spoken: addresses that were spelled out, the word that calls for an
//! action, and texts that have to travel in a link.
use vstd::prelude::*;
use vstd::string::*;
use vstd::utf8::*;

use crate::numerals::{hex_char, hex_digit};
use crate::search::{
    begins_with, count, count_of, kept, law_kept_in_parts, law_replaced, lemma_count_absent,
    lemma_kept, lemma_kept_whole, lemma_replaced_absent, lemma_replaced_chars, occurs_in,
    position_of, replace, replaced, starts_with,
};
use crate::split::{
    first_at, law_trim_takes_white_space, lemma_first_at, lemma_first_at_is, lemma_trim_keeps, trim,
    trimmed,
};
use crate::text::{
    all_low, chars_of, glue3, is_ascii_punct, is_ascii_punctuation, is_low, is_white,
    is_whitespace, lower, lowercase, opt_text, text_of,
};

verus! {

// ----- spoken addresses -----

/// A text with the spoken forms of the at sign replaced by it.
pub open spec fn with_at_signs(s: Seq<char>) -> Seq<char> {
    replaced(replaced(replaced(s, " at "@, "@"@), " [at] "@, "@"@), " (at) "@, "@"@)
}

/// A text without its hyphens.
pub open spec fn unhyphened(s: Seq<char>) -> Seq<char> {
    kept(s, |x: char| x != '-')
}

/// A text without its hyphens where it has at least two, as a word that was spelled out has.
pub open spec fn unspelled(s: Seq<char>) -> Seq<char> {
    if count_of(s, '-') >= 2 {
        unhyphened(s)
    } else {
        s
    }
}

/// The address that a lower-case text stands for: spoken at signs are written, white space goes,
/// hyphens go from the domain, and from the rest where it was spelled out.
pub open spec fn address(low: Seq<char>) -> Seq<char> {
    let tight = kept(with_at_signs(low), |c: char| !is_white(c));
    let k = first_at(tight, '@');
    if k < tight.len() {
        unspelled(tight.take(k)) + "@"@ + unhyphened(tight.skip(k + 1))
    } else {
        unspelled(tight)
    }
}

fn drop_white(s: &str) -> (r: String)
    ensures
        r@ == kept(s@, |c: char| !is_white(c)),
{
    let v = chars_of(s);
    let ghost keep = |c: char| !is_white(c);
    let mut out = String::new();
    let mut i: usize = 0;
    assert(v@.take(0).len() == 0);
    while i < v.len()
        invariant
            i <= v@.len(),
            keep == (|c: char| !is_white(c)),
            out@ == kept(v@.take(i as int), keep),
        decreases v@.len() - i,
    {
        proof {
            assert(v@.take(i + 1).drop_last() == v@.take(i as int));
            assert(keep(v@[i as int]) == !is_white(v@[i as int]));
        }
        if !is_whitespace(v[i]) {
            out.push(v[i]);
        }
        i = i + 1;
    }
    assert(v@.take(i as int) == v@);
    out
}

fn drop_hyphens(v: &Vec<char>) -> (r: String)
    ensures
        r@ == unhyphened(v@),
{
    let ghost keep = |x: char| x != '-';
    let mut out = String::new();
    let mut i: usize = 0;
    assert(v@.take(0).len() == 0);
    while i < v.len()
        invariant
            i <= v@.len(),
            keep == (|x: char| x != '-'),
            out@ == kept(v@.take(i as int), keep),
        decreases v@.len() - i,
    {
        proof {
            assert(v@.take(i + 1).drop_last() == v@.take(i as int));
            assert(keep(v@[i as int]) == (v@[i as int] != '-'));
        }
        if v[i] != '-' {
            out.push(v[i]);
        }
        i = i + 1;
    }
    assert(v@.take(i as int) == v@);
    out
}

fn unspell(s: &str) -> (r: String)
    ensures
        r@ == unspelled(s@),
{
    let v = chars_of(s);
    if count(&v, '-') >= 2 {
        drop_hyphens(&v)
    } else {
        s.to_owned()
    }
}

/// The address that a lower-case text stands for.
pub fn address_of_lowered(low: &str) -> (r: String)
    ensures
        r@ == address(low@),
{
    proof {
        reveal_strlit(" at ");
        reveal_strlit(" [at] ");
        reveal_strlit(" (at) ");
    }
    let a = replace(low, " at ", "@");
    let b = replace(a.as_str(), " [at] ", "@");
    let c = replace(b.as_str(), " (at) ", "@");
    let tight = drop_white(c.as_str());
    let v = chars_of(tight.as_str());
    let n: usize = v.len();
    match position_of(&v, '@') {
        Some(k) => {
            proof {
                lemma_first_at_is(v@, '@', k as int);
                assert(v@.subrange(0, k as int) == v@.take(k as int));
                assert(v@.subrange(k + 1, n as int) == v@.skip(k + 1));
            }
            let local_part = text_of(&v, 0, k);
            let domain = text_of(&v, k + 1, n);
            let clean_local = unspell(local_part.as_str());
            let clean_domain = drop_hyphens(&chars_of(domain.as_str()));
            glue3(clean_local.as_str(), "@", clean_domain.as_str())
        },
        None => {
            proof {
                lemma_first_at(v@, '@');
            }
            unspell(tight.as_str())
        },
    }
}

/// Whether a text is an address as it is written: in lower case, and with nothing to mend.
pub open spec fn is_settled(s: Seq<char>) -> bool {
    all_low(s) && address(s) == s
}

/// The address that a spoken text stands for: as [`address`] says of its lower-case form. It is an
/// address as it is written, and such an address comes back unchanged.
pub fn normalize_spoken_email(raw: &str) -> (r: String)
    ensures
        r@ == address(lower(raw@)),
        is_settled(r@),
        is_settled(raw@) ==> r@ == raw@,
{
    let low = lowercase(raw);
    let r = address_of_lowered(low.as_str());
    proof {
        lemma_address(low@);
        law_address_is_settled(low@);
        assert forall|i: int| 0 <= i < r@.len() implies is_low(#[trigger] r@[i]) by {
            if low@.contains(r@[i]) {
                let k = choose|k: int| 0 <= k < low@.len() && low@[k] == r@[i];
                assert(is_low(low@[k]));
            }
        }
    }
    r
}

proof fn lemma_written_at_signs(low: Seq<char>)
    ensures
        forall|i: int|
            0 <= i < with_at_signs(low).len() ==> low.contains(#[trigger] with_at_signs(low)[i])
                || with_at_signs(low)[i] == '@',
{
    reveal_strlit("@");
    let a = replaced(low, " at "@, "@"@);
    let b = replaced(a, " [at] "@, "@"@);
    let c = replaced(b, " (at) "@, "@"@);
    lemma_replaced_chars(low, " at "@, "@"@);
    lemma_replaced_chars(a, " [at] "@, "@"@);
    lemma_replaced_chars(b, " (at) "@, "@"@);
    assert forall|i: int| 0 <= i < c.len() implies low.contains(#[trigger] c[i]) || c[i] == '@' by {
        let x = c[i];
        if x != '@' {
            let j = choose|j: int| 0 <= j < b.len() && b[j] == x;
            assert(b.contains(x));
            assert(a.contains(b[j]));
            let k = choose|k: int| 0 <= k < a.len() && a[k] == x;
            assert(low.contains(a[k]));
        }
    }
}

proof fn lemma_unspelled(s: Seq<char>)
    ensures
        count_of(unspelled(s), '-') <= 1,
        forall|i: int| 0 <= i < unspelled(s).len() ==> s.contains(#[trigger] unspelled(s)[i]),
{
    let hyphen = |x: char| x != '-';
    let r = unspelled(s);
    if count_of(s, '-') >= 2 {
        lemma_kept(s, hyphen);
        assert forall|i: int| 0 <= i < r.len() implies #[trigger] r[i] != '-' by {
            assert(hyphen(r[i]));
        }
        lemma_count_absent(r, '-');
    } else {
        assert forall|i: int| 0 <= i < r.len() implies s.contains(#[trigger] r[i]) by {
            assert(s[i] == r[i]);
        }
    }
}

/// What an address is made of: characters of the text and at signs, none of them white; one hyphen
/// at most before the first at sign and none behind it.
proof fn lemma_address(low: Seq<char>)
    ensures
        forall|i: int|
            0 <= i < address(low).len() ==> !is_white(#[trigger] address(low)[i]) && (low.contains(
                address(low)[i],
            ) || address(low)[i] == '@'),
        0 <= first_at(address(low), '@') <= address(low).len(),
        forall|i: int|
            first_at(address(low), '@') < i < address(low).len() ==> #[trigger] address(low)[i]
                != '-',
        count_of(address(low).take(first_at(address(low), '@')), '-') <= 1,
{
    let white = |c: char| !is_white(c);
    let hyphen = |x: char| x != '-';
    let src = with_at_signs(low);
    let tight = kept(src, white);
    lemma_kept(src, white);
    lemma_written_at_signs(low);
    assert forall|i: int| 0 <= i < tight.len() implies !is_white(#[trigger] tight[i]) && (
    low.contains(tight[i]) || tight[i] == '@') by {
        assert(white(tight[i]));
        let k = choose|k: int| 0 <= k < src.len() && src[k] == tight[i];
        assert(src.contains(tight[i]));
        assert(low.contains(src[k]) || src[k] == '@');
    }
    let k = first_at(tight, '@');
    let r = address(low);
    lemma_first_at(tight, '@');
    lemma_first_at(r, '@');
    reveal_strlit("@");
    if k < tight.len() {
        let l = tight.take(k);
        let d = tight.skip(k + 1);
        lemma_unspelled(l);
        lemma_kept(d, hyphen);
        let a = unspelled(l);
        let b = unhyphened(d);
        assert(r == a + "@"@ + b);
        assert forall|i: int| 0 <= i < a.len() implies tight.contains(#[trigger] a[i]) && a[i]
            != '@' by {
            assert(l.contains(a[i]));
            let j = choose|j: int| 0 <= j < l.len() && l[j] == a[i];
            assert(tight[j] == a[i]);
        }
        assert forall|i: int| 0 <= i < b.len() implies tight.contains(#[trigger] b[i]) && b[i]
            != '-' by {
            assert(hyphen(b[i]));
            assert(d.contains(b[i]));
            let j = choose|j: int| 0 <= j < d.len() && d[j] == b[i];
            assert(tight[k + 1 + j] == b[i]);
        }
        assert forall|i: int| 0 <= i < r.len() implies tight.contains(#[trigger] r[i]) by {
            if i < a.len() {
                assert(r[i] == a[i]);
            } else if i > a.len() {
                assert(r[i] == b[i - a.len() - 1]);
            } else {
                assert(tight[k] == r[i]);
            }
        }
        lemma_first_at_is(r, '@', a.len() as int);
        assert(r.take(a.len() as int) == a);
        assert forall|i: int| first_at(r, '@') < i < r.len() implies #[trigger] r[i] != '-' by {
            assert(r[i] == b[i - a.len() - 1]);
        }
    } else {
        lemma_unspelled(tight);
        assert forall|i: int| 0 <= i < r.len() implies tight.contains(#[trigger] r[i]) && r[i]
            != '@' by {
            let j = choose|j: int| 0 <= j < tight.len() && tight[j] == r[i];
            assert(tight[j] == r[i]);
        }
        assert(r.take(r.len() as int) == r);
    }
    assert forall|i: int| 0 <= i < r.len() implies !is_white(#[trigger] r[i]) && (low.contains(r[i])
        || r[i] == '@') by {
        assert(tight.contains(r[i]));
        let j = choose|j: int| 0 <= j < tight.len() && tight[j] == r[i];
        assert(!is_white(tight[j]));
    }
}

/// An address holds no white space, one hyphen at most before its first at sign, and none behind
/// it.
pub proof fn law_address_is_tight(low: Seq<char>)
    ensures
        forall|i: int| 0 <= i < address(low).len() ==> !is_white(#[trigger] address(low)[i]),
        count_of(address(low).take(first_at(address(low), '@')), '-') <= 1,
        forall|i: int|
            first_at(address(low), '@') < i < address(low).len() ==> #[trigger] address(low)[i]
                != '-',
{
    lemma_address(low);
}

/// An address stands for itself: there is nothing left in it to mend.
pub proof fn law_address_is_settled(low: Seq<char>)
    ensures
        address(address(low)) == address(low),
{
    let white = |c: char| !is_white(c);
    let hyphen = |x: char| x != '-';
    let r = address(low);
    lemma_address(low);
    reveal_strlit(" at ");
    reveal_strlit(" [at] ");
    reveal_strlit(" (at) ");
    reveal_strlit("@");
    assert forall|i: int| 0 <= i < r.len() implies white(#[trigger] r[i]) && r[i] != ' ' by {}
    lemma_replaced_absent(r, " at "@, "@"@);
    lemma_replaced_absent(r, " [at] "@, "@"@);
    lemma_replaced_absent(r, " (at) "@, "@"@);
    lemma_kept_whole(r, white);
    let k = first_at(r, '@');
    lemma_first_at(r, '@');
    if k < r.len() {
        let b = r.skip(k + 1);
        assert forall|i: int| 0 <= i < b.len() implies hyphen(#[trigger] b[i]) by {
            assert(b[i] == r[k + 1 + i]);
        }
        lemma_kept_whole(b, hyphen);
        assert(r.take(k) + "@"@ + b == r);
    } else {
        assert(r.take(k) == r);
    }
}

// ----- texts in links -----

/// The bytes that stand for themselves in a link.
pub open spec fn is_unreserved(b: u8) -> bool {
    ||| 0x61 <= b <= 0x7a
    ||| 0x41 <= b <= 0x5a
    ||| 0x30 <= b <= 0x39
    ||| b == 0x2d
    ||| b == 0x2e
    ||| b == 0x5f
    ||| b == 0x7e
}

/// A byte as it stands in a link.
pub open spec fn encoded_byte(b: u8) -> Seq<char> {
    if is_unreserved(b) {
        seq![b as char]
    } else {
        seq!['%', hex_digit((b / 16) as nat), hex_digit((b % 16) as nat)]
    }
}

/// Bytes as they stand in a link.
pub open spec fn encoded(bytes: Seq<u8>) -> Seq<char>
    decreases bytes.len(),
{
    if bytes.len() == 0 {
        Seq::empty()
    } else {
        encoded(bytes.drop_last()) + encoded_byte(bytes.last())
    }
}

/// A text as it stands in a link: letters, digits and `-._~` as they are, every other byte as `%`
/// and two hexadecimal digits.
pub fn percent_encode(s: &str) -> (r: String)
    ensures
        r@ == encoded(encode_utf8(s@)),
{
    let bytes: &[u8] = s.as_bytes();
    let mut out = String::new();
    let mut i: usize = 0;
    assert(bytes@.take(0).len() == 0);
    while i < bytes.len()
        invariant
            i <= bytes@.len(),
            out@ == encoded(bytes@.take(i as int)),
        decreases bytes@.len() - i,
    {
        let b: u8 = bytes[i];
        proof {
            assert(bytes@.take(i + 1).drop_last() == bytes@.take(i as int));
        }
        if (0x61 <= b && b <= 0x7a) || (0x41 <= b && b <= 0x5a) || (0x30 <= b && b <= 0x39) || b
            == 0x2d || b == 0x2e || b == 0x5f || b == 0x7e {
            out.push(b as char);
        } else {
            out.push('%');
            out.push(hex_char(b / 16));
            out.push(hex_char(b % 16));
        }
        assert(out@ == encoded(bytes@.take(i + 1)));
        i = i + 1;
    }
    assert(bytes@.take(i as int) == bytes@);
    out
}

/// The value of an upper-case hexadecimal digit.
pub open spec fn hex_value(c: char) -> nat {
    if '0' <= c <= '9' {
        (c as u32 - '0' as u32) as nat
    } else {
        (c as u32 - 'A' as u32 + 10) as nat
    }
}

/// The bytes that a link's text stands for.
pub open spec fn decoded(s: Seq<char>) -> Seq<u8>
    decreases s.len(),
{
    if s.len() == 0 {
        Seq::empty()
    } else if s[0] == '%' && s.len() >= 3 {
        seq![(16 * hex_value(s[1]) + hex_value(s[2])) as u8] + decoded(s.skip(3))
    } else {
        seq![s[0] as u8] + decoded(s.skip(1))
    }
}

proof fn lemma_encoded_front(bytes: Seq<u8>)
    requires
        bytes.len() > 0,
    ensures
        encoded(bytes) == encoded_byte(bytes[0]) + encoded(bytes.skip(1)),
    decreases bytes.len(),
{
    if bytes.len() == 1 {
        assert(bytes.drop_last() == Seq::<u8>::empty());
        assert(bytes.skip(1) == Seq::<u8>::empty());
    } else {
        lemma_encoded_front(bytes.drop_last());
        assert(bytes.drop_last().skip(1) == bytes.skip(1).drop_last());
        assert(bytes.skip(1).last() == bytes.last());
        assert(encoded_byte(bytes[0]) + encoded(bytes.skip(1).drop_last()) + encoded_byte(
            bytes.last(),
        ) == encoded_byte(bytes[0]) + (encoded(bytes.skip(1).drop_last()) + encoded_byte(
            bytes.last(),
        )));
    }
}

/// What was encoded is read back byte by byte.
pub proof fn law_encoding_reads_back(bytes: Seq<u8>)
    ensures
        decoded(encoded(bytes)) == bytes,
    decreases bytes.len(),
{
    if bytes.len() > 0 {
        lemma_encoded_front(bytes);
        law_encoding_reads_back(bytes.skip(1));
        let e = encoded(bytes);
        let rest = encoded(bytes.skip(1));
        let b = bytes[0];
        if is_unreserved(b) {
            assert(e.skip(1) == rest);
            assert(e[0] == b as char);
            assert(b as char != '%');
        } else {
            assert(e.skip(3) == rest);
            let hi = (b / 16) as nat;
            let lo = (b % 16) as nat;
            assert(hex_value(hex_digit(hi)) == hi);
            assert(hex_value(hex_digit(lo)) == lo);
            assert(16 * hi + lo == b);
        }
        assert(seq![b] + bytes.skip(1) == bytes);
    }
}

/// Nothing in an encoded text means anything to a link but `%`: no space, no `&`, no `?`, no `#`.
pub proof fn law_encoding_is_plain(bytes: Seq<u8>, i: int)
    requires
        0 <= i < encoded(bytes).len(),
    ensures
        ({
            let c = encoded(bytes)[i];
            c == '%' || ((c as u32) < 0x80 && is_unreserved(c as u8))
        }),
    decreases bytes.len(),
{
    if bytes.len() > 0 {
        let front = encoded(bytes.drop_last());
        if i < front.len() {
            law_encoding_is_plain(bytes.drop_last(), i);
        } else {
            let b = bytes.last();
            assert(encoded(bytes)[i] == encoded_byte(b)[i - front.len()]);
        }
    }
}

/// Texts are encoded one after the other: what stands for two that are joined is what stands for
/// the first, then what stands for the second.
pub proof fn law_encoding_joins(a: Seq<u8>, b: Seq<u8>)
    ensures
        encoded(a + b) == encoded(a) + encoded(b),
    decreases b.len(),
{
    if b.len() == 0 {
        assert(a + b == a);
        assert(encoded(a) + encoded(b) == encoded(a));
    } else {
        law_encoding_joins(a, b.drop_last());
        assert((a + b).drop_last() == a + b.drop_last());
        assert(encoded(a) + encoded(b.drop_last()) + encoded_byte(b.last()) == encoded(a) + (
        encoded(b.drop_last()) + encoded_byte(b.last())));
    }
}

/// As [`law_encoding_joins`], of texts.
pub proof fn law_texts_are_encoded_in_turn(a: Seq<char>, b: Seq<char>)
    ensures
        encoded(encode_utf8(a + b)) == encoded(encode_utf8(a)) + encoded(encode_utf8(b)),
{
    lemma_bytes_join(a, b);
    law_encoding_joins(encode_utf8(a), encode_utf8(b));
}

proof fn lemma_bytes_join(a: Seq<char>, b: Seq<char>)
    ensures
        encode_utf8(a + b) == encode_utf8(a) + encode_utf8(b),
    decreases a.len(),
{
    if a.len() == 0 {
        assert(a + b == b);
        assert(encode_utf8(a) + encode_utf8(b) == encode_utf8(b));
    } else {
        lemma_bytes_join(a.drop_first(), b);
        assert((a + b).drop_first() == a.drop_first() + b);
        assert((a + b)[0] == a[0]);
        let first = encode_scalar(a[0] as u32);
        assert(first + (encode_utf8(a.drop_first()) + encode_utf8(b)) == first + encode_utf8(
            a.drop_first(),
        ) + encode_utf8(b));
    }
}

// ----- the trigger word -----

/// Whether a character parts the trigger word from what follows.
pub open spec fn is_break(c: char) -> bool {
    is_white(c) || is_ascii_punct(c)
}

/// Whether a lower-case text is the trigger word or begins with it, set apart from the rest.
pub open spec fn calls(low: Seq<char>, trigger: Seq<char>) -> bool {
    begins_with(low, trigger) && (low.len() == trigger.len() || is_break(
        low[trigger.len() as int],
    ))
}

/// The length of the trigger word that a lower-case text begins with: `echo`, or one of the ways
/// in which it is misheard.
pub open spec fn call_length(low: Seq<char>) -> Option<int> {
    if calls(low, "echo"@) {
        Some(4)
    } else if calls(low, "eco"@) {
        Some(3)
    } else if calls(low, "hecho"@) {
        Some(5)
    } else if calls(low, "ekko"@) {
        Some(4)
    } else {
        None
    }
}

/// A text without the breaks in front.
pub open spec fn without_breaks(s: Seq<char>) -> Seq<char>
    decreases s.len(),
{
    if s.len() > 0 && is_break(s[0]) {
        without_breaks(s.drop_first())
    } else {
        s
    }
}

/// A text without its first `n` characters; empty where it has no more.
pub open spec fn behind(t: Seq<char>, n: int) -> Seq<char> {
    if n <= t.len() {
        t.skip(n)
    } else {
        Seq::empty()
    }
}

/// What follows the trigger word in a trimmed text, given its lower-case form; `None` where the
/// text does not begin with one. As many characters are cut off as the trigger word has, whatever
/// letters it is written with.
pub open spec fn command_in(t: Seq<char>, low: Seq<char>) -> Option<Seq<char>> {
    match call_length(low) {
        Some(n) => if low.len() == n {
            Some(Seq::empty())
        } else {
            Some(without_breaks(behind(t, n)))
        },
        None => None,
    }
}

fn breaks(c: char) -> (r: bool)
    ensures
        r == is_break(c),
{
    is_whitespace(c) || is_ascii_punctuation(c)
}

fn is_called(low: &str, v: &Vec<char>, trigger: &str, n: usize) -> (r: bool)
    requires
        v@ == low@,
        trigger@.len() == n,
    ensures
        r == calls(low@, trigger@),
{
    if !starts_with(low, trigger) {
        return false;
    }
    v.len() == n || breaks(v[n])
}

fn find_call(low: &str, v: &Vec<char>) -> (r: Option<usize>)
    requires
        v@ == low@,
    ensures
        match r {
            Some(n) => call_length(low@) == Some(n as int),
            None => call_length(low@) is None,
        },
{
    proof {
        reveal_strlit("echo");
        reveal_strlit("eco");
        reveal_strlit("hecho");
        reveal_strlit("ekko");
    }
    if is_called(low, v, "echo", 4) {
        Some(4)
    } else if is_called(low, v, "eco", 3) {
        Some(3)
    } else if is_called(low, v, "hecho", 5) {
        Some(5)
    } else if is_called(low, v, "ekko", 4) {
        Some(4)
    } else {
        None
    }
}

fn skip_breaks(v: &Vec<char>, from: usize) -> (r: usize)
    requires
        from <= v@.len(),
    ensures
        from <= r <= v@.len(),
        v@.skip(r as int) == without_breaks(v@.skip(from as int)),
{
    let mut i: usize = from;
    while i < v.len() && breaks(v[i])
        invariant
            from <= i <= v@.len(),
            without_breaks(v@.skip(i as int)) == without_breaks(v@.skip(from as int)),
        decreases v@.len() - i,
    {
        assert(v@.skip(i as int)[0] == v@[i as int]);
        assert(v@.skip(i as int).drop_first() == v@.skip(i + 1));
        i = i + 1;
    }
    if i < v.len() {
        assert(v@.skip(i as int)[0] == v@[i as int]);
    }
    i
}

/// What follows the trigger word in a trimmed text, given its lower-case form.
pub fn command_after_trigger(text: &str, low: &str) -> (r: Option<String>)
    ensures
        opt_text(r) == command_in(text@, low@),
{
    let w = chars_of(low);
    match find_call(low, &w) {
        None => None,
        Some(n) => {
            let v = chars_of(text);
            let end: usize = v.len();
            if w.len() == n {
                return Some(String::new());
            }
            let cut: usize = if n <= end {
                n
            } else {
                end
            };
            assert(v@.skip(cut as int) == behind(text@, n as int));
            let from = skip_breaks(&v, cut);
            assert(v@.subrange(from as int, end as int) == v@.skip(from as int));
            Some(text_of(&v, from, end))
        },
    }
}

/// The command in a dictation, if it is one.
pub open spec fn command_said(text: Seq<char>) -> Option<Seq<char>> {
    command_in(trimmed(text), lower(trimmed(text)))
}

/// White space around a dictation makes no difference to the command in it.
pub proof fn law_space_around_a_command(a: Seq<char>, m: Seq<char>, b: Seq<char>)
    requires
        forall|i: int| 0 <= i < a.len() ==> is_white(#[trigger] a[i]),
        forall|i: int| 0 <= i < b.len() ==> is_white(#[trigger] b[i]),
        m.len() > 0,
        !is_white(m[0]) && !is_white(m.last()),
    ensures
        command_said(a + m + b) == command_said(m),
        command_said(m) == command_in(m, lower(m)),
{
    law_trim_takes_white_space(a, m, b);
    lemma_trim_keeps(m);
}

/// What follows the trigger word in a dictation, or `None` where it does not begin with one.
pub fn strip_trigger_prefix(text: &str) -> (r: Option<String>)
    ensures
        opt_text(r) == command_said(text@),
{
    let t = trim(text);
    let low = lowercase(t.as_str());
    command_after_trigger(t.as_str(), low.as_str())
}

proof fn lemma_without_breaks(s: Seq<char>) -> (k: int)
    ensures
        0 <= k <= s.len(),
        without_breaks(s) == s.skip(k),
        k < s.len() ==> !is_break(s[k]),
    decreases s.len(),
{
    if s.len() > 0 && is_break(s[0]) {
        let k = lemma_without_breaks(s.drop_first());
        assert(s.drop_first().skip(k) == s.skip(k + 1));
        k + 1
    } else {
        assert(s.skip(0) == s);
        0
    }
}

/// A command is the end of what was dictated, and begins with neither white space nor punctuation.
pub proof fn law_command_is_the_end(t: Seq<char>, low: Seq<char>)
    requires
        command_in(t, low) is Some,
    ensures
        ({
            let c = command_in(t, low)->0;
            &&& c.len() <= t.len()
            &&& c == t.skip(t.len() - c.len())
            &&& c.len() > 0 ==> !is_break(c[0])
        }),
{
    let n = call_length(low)->0;
    assert(t.skip(t.len() as int) == Seq::<char>::empty());
    if low.len() != n {
        let rest = behind(t, n);
        let k = lemma_without_breaks(rest);
        if n <= t.len() {
            assert(rest.skip(k) == t.skip(n + k));
        }
    }
}

/// Whether a text has no white space.
pub open spec fn is_solid(s: Seq<char>) -> bool {
    forall|i: int| 0 <= i < s.len() ==> !is_white(#[trigger] s[i])
}

/// An address that is spoken with `at`, `[at]` or `(at)` between spaces, or written with the sign, has
/// the sign between its two parts. A name that was spelled out, with two hyphens at least, loses them;
/// a host loses every hyphen.
pub proof fn law_spoken_at_is_the_sign(user: Seq<char>, host: Seq<char>)
    requires
        is_solid(user),
        is_solid(host),
        !user.contains('@'),
    ensures
        address(user + seq!['@'] + host) == unspelled(user) + seq!['@'] + unhyphened(host),
        address(user + seq![' ', 'a', 't', ' '] + host) == unspelled(user) + seq!['@'] + unhyphened(host),
        address(user + seq![' ', '[', 'a', 't', ']', ' '] + host) == unspelled(user) + seq!['@'] + unhyphened(host),
        address(user + seq![' ', '(', 'a', 't', ')', ' '] + host) == unspelled(user) + seq!['@'] + unhyphened(host),
        address(user) == unspelled(user),
{
    reveal_strlit(" at ");
    assert(" at "@ =~= seq![' ', 'a', 't', ' ']);
    reveal_strlit(" [at] ");
    assert(" [at] "@ =~= seq![' ', '[', 'a', 't', ']', ' ']);
    reveal_strlit(" (at) ");
    assert(" (at) "@ =~= seq![' ', '(', 'a', 't', ')', ' ']);
    reveal_strlit("@");
    assert("@"@ =~= seq!['@']);
    let plain = user + "@"@ + host;
    lemma_plain_is_solid(user, host);
    lemma_solid_stays(plain);
    lemma_solid_stays(user);
    lemma_parts_of_address(user, host);
    lemma_spoken_plainly(user, host);
    lemma_spoken_in_square(user, host);
    lemma_spoken_in_round(user, host);
}

proof fn lemma_plain_is_solid(user: Seq<char>, host: Seq<char>)
    requires
        is_solid(user),
        is_solid(host),
    ensures
        is_solid(user + "@"@ + host),
{
    reveal_strlit("@");
    assert("@"@ =~= seq!['@']);
    let plain = user + "@"@ + host;
    assert forall|i: int| 0 <= i < plain.len() implies !is_white(#[trigger] plain[i]) by {
        if i < user.len() {
            assert(plain[i] == user[i]);
        } else if i > user.len() {
            assert(plain[i] == host[i - user.len() - 1]);
        }
    }
}

proof fn lemma_spoken_plainly(user: Seq<char>, host: Seq<char>)
    requires
        is_solid(user),
        is_solid(host),
    ensures
        with_at_signs(user + " at "@ + host) == user + "@"@ + host,
{
    lemma_signs_are_spoken();
    lemma_plain_is_solid(user, host);
    lemma_solid_stays(user + "@"@ + host);
    lemma_spoken_sign(user, " at "@, host);
}

proof fn lemma_spoken_in_square(user: Seq<char>, host: Seq<char>)
    requires
        is_solid(user),
        is_solid(host),
    ensures
        with_at_signs(user + " [at] "@ + host) == user + "@"@ + host,
{
    lemma_signs_are_spoken();
    lemma_plain_is_solid(user, host);
    lemma_solid_stays(user + "@"@ + host);
    lemma_other_sign(user, " [at] "@, host, " at "@);
    lemma_spoken_sign(user, " [at] "@, host);
}

proof fn lemma_spoken_in_round(user: Seq<char>, host: Seq<char>)
    requires
        is_solid(user),
        is_solid(host),
    ensures
        with_at_signs(user + " (at) "@ + host) == user + "@"@ + host,
{
    lemma_signs_are_spoken();
    lemma_plain_is_solid(user, host);
    lemma_solid_stays(user + "@"@ + host);
    lemma_other_sign(user, " (at) "@, host, " at "@);
    lemma_other_sign(user, " (at) "@, host, " [at] "@);
    lemma_spoken_sign(user, " (at) "@, host);
}

proof fn lemma_signs_are_spoken()
    ensures
        is_spoken_sign(" at "@) && is_spoken_sign(" [at] "@) && is_spoken_sign(" (at) "@),
        " at "@[1] == 'a' && " [at] "@[1] == '[' && " (at) "@[1] == '(',
{
    reveal_strlit(" at ");
    assert(" at "@ =~= seq![' ', 'a', 't', ' ']);
    reveal_strlit(" [at] ");
    assert(" [at] "@ =~= seq![' ', '[', 'a', 't', ']', ' ']);
    reveal_strlit(" (at) ");
    assert(" (at) "@ =~= seq![' ', '(', 'a', 't', ')', ' ']);
}

proof fn lemma_other_sign(user: Seq<char>, m: Seq<char>, host: Seq<char>, p: Seq<char>)
    requires
        is_solid(user),
        is_solid(host),
        is_spoken_sign(m),
        is_spoken_sign(p),
        m[1] != p[1],
    ensures
        replaced(user + m + host, p, "@"@) == user + m + host,
{
    let s = user + m + host;
    if occurs_in(s, p) {
        let k = choose|k: int| 0 <= k <= s.len() && begins_with(#[trigger] s.skip(k), p);
        lemma_spaced(user, m, host, p, k);
        assert(p[1] == s[k + 1]);
        assert(s[k + 1] == m[1]);
    }
    law_replaced(s, p, s, "@"@);
}

/// A spoken sign, with a space at its beginning, its end and nowhere else.
spec fn is_spoken_sign(p: Seq<char>) -> bool {
    &&& p.len() >= 3
    &&& p[0] == ' '
    &&& p.last() == ' '
    &&& forall|i: int| 0 < i < p.len() - 1 ==> !is_white(#[trigger] p[i])
}

proof fn lemma_spaced(a: Seq<char>, m: Seq<char>, b: Seq<char>, p: Seq<char>, k: int)
    requires
        is_solid(a),
        is_solid(b),
        is_spoken_sign(m),
        is_spoken_sign(p),
        0 <= k <= (a + m + b).len(),
        begins_with((a + m + b).skip(k), p),
    ensures
        k == a.len(),
        p.len() == m.len(),
        forall|i: int| 0 <= i < p.len() ==> #[trigger] p[i] == (a + m + b)[k + i],
{
    let s = a + m + b;
    let n: int = p.len() as int;
    assert forall|i: int| 0 <= i < p.len() implies #[trigger] p[i] == s[k + i] by {
        assert(s.skip(k).take(n)[i] == p[i]);
    }
    assert(s[k] == p[0]);
    assert(s[k + n - 1] == p[n - 1]);
    assert(is_white(' '));
    lemma_where_white(a, m, b, k);
    lemma_where_white(a, m, b, k + n - 1);
    if k == a.len() {
        if k + n - 1 < a.len() + m.len() - 1 {
            assert(s[k + n - 1] == m[n - 1]);
        }
    }
}

proof fn lemma_where_white(a: Seq<char>, m: Seq<char>, b: Seq<char>, i: int)
    requires
        is_solid(a),
        is_solid(b),
        is_spoken_sign(m),
        0 <= i < (a + m + b).len(),
        is_white((a + m + b)[i]),
    ensures
        i == a.len() || i == a.len() + m.len() - 1,
{
    let s = a + m + b;
    if i < a.len() {
        assert(s[i] == a[i]);
    } else if i < a.len() + m.len() {
        assert(s[i] == m[i - a.len()]);
    } else {
        assert(s[i] == b[i - a.len() - m.len()]);
    }
}

proof fn lemma_solid_stays(s: Seq<char>)
    requires
        is_solid(s),
    ensures
        with_at_signs(s) == s,
        kept(s, |c: char| !is_white(c)) == s,
        replaced(s, " at "@, "@"@) == s,
        replaced(s, " [at] "@, "@"@) == s,
        replaced(s, " (at) "@, "@"@) == s,
{
    reveal_strlit(" at ");
    assert(" at "@ =~= seq![' ', 'a', 't', ' ']);
    reveal_strlit(" [at] ");
    assert(" [at] "@ =~= seq![' ', '[', 'a', 't', ']', ' ']);
    reveal_strlit(" (at) ");
    assert(" (at) "@ =~= seq![' ', '(', 'a', 't', ')', ' ']);
    assert forall|i: int| 0 <= i < s.len() implies #[trigger] s[i] != ' ' by {
        assert(is_white(' '));
    }
    lemma_replaced_absent(s, " at "@, "@"@);
    lemma_replaced_absent(s, " [at] "@, "@"@);
    lemma_replaced_absent(s, " (at) "@, "@"@);
    lemma_kept_whole(s, |c: char| !is_white(c));
}

proof fn lemma_spoken_sign(user: Seq<char>, p: Seq<char>, host: Seq<char>)
    requires
        is_solid(user),
        is_solid(host),
        is_spoken_sign(p),
    ensures
        replaced(user + p + host, p, "@"@) == user + "@"@ + host,
{
    let s = user + p + host;
    assert forall|k: int| 0 <= k < user.len() implies !begins_with(#[trigger] s.skip(k), p) by {
        if begins_with(s.skip(k), p) {
            lemma_spaced(user, p, host, p, k);
        }
    }
    law_replaced(user, p, host, "@"@);
    assert forall|i: int| 0 <= i < host.len() implies #[trigger] host[i] != p[0] by {
        assert(is_white(' '));
    }
    lemma_replaced_absent(host, p, "@"@);
}

proof fn lemma_parts_of_address(user: Seq<char>, host: Seq<char>)
    requires
        !user.contains('@'),
    ensures
        ({
            let tight = user + "@"@ + host;
            let k = first_at(tight, '@');
            k == user.len() && tight.take(k) == user && tight.skip(k + 1) == host
        }),
        first_at(user, '@') >= user.len(),
{
    reveal_strlit("@");
    assert("@"@ =~= seq!['@']);
    let tight = user + "@"@ + host;
    let n: int = user.len() as int;
    assert forall|i: int| 0 <= i < n implies #[trigger] user[i] != '@' by {
        if user[i] == '@' {
            assert(user.contains('@'));
        }
    }
    assert forall|i: int| 0 <= i < n implies #[trigger] tight[i] != '@' by {
        assert(tight[i] == user[i]);
    }
    lemma_first_at_is(tight, '@', n);
    lemma_first_at_is(user, '@', n);
    assert(tight.take(n) =~= user);
    assert(tight.skip(n + 1) =~= host);
}

/// A name is spelled out exactly where it has two hyphens or more; then all of them go, and nothing
/// else does.
pub proof fn law_spelling_is_undone(a: Seq<char>, b: Seq<char>)
    ensures
        count_of(a, '-') < 2 ==> unspelled(a) == a,
        count_of(a, '-') >= 2 ==> unspelled(a) == unhyphened(a),
        unhyphened(a + b) == unhyphened(a) + unhyphened(b),
        unhyphened(seq!['-']).len() == 0,
        !a.contains('-') ==> unhyphened(a) == a,
{
    let keep = |x: char| x != '-';
    law_kept_in_parts(a, b, '-', keep);
    if !a.contains('-') {
        assert forall|i: int| 0 <= i < a.len() implies keep(#[trigger] a[i]) by {
            if a[i] == '-' {
                assert(a.contains('-'));
            }
        }
        lemma_kept_whole(a, keep);
    }
}

/// The bytes that travel as they are: letters, digits, and the signs `-`, `.`, `_` and `~`.
pub proof fn law_what_travels_as_it_is(b: u8)
    ensures
        is_unreserved(b) <==> {
            let c = b as char;
            ||| 'a' <= c <= 'z'
            ||| 'A' <= c <= 'Z'
            ||| '0' <= c <= '9'
            ||| c == '-' || c == '.' || c == '_' || c == '~'
        },
        is_unreserved(b) ==> encoded(seq![b]) == seq![b as char],
        !is_unreserved(b) ==> encoded(seq![b]) == seq![
            '%',
            hex_digit((b / 16) as nat),
            hex_digit((b % 16) as nat),
        ],
{
    assert(seq![b].drop_last() =~= Seq::<u8>::empty());
    assert(encoded(Seq::<u8>::empty()) =~= Seq::<char>::empty());
    assert(encoded(seq![b]) =~= encoded_byte(b));
}

/// The words that call for an action.
pub open spec fn is_call(w: Seq<char>) -> bool {
    ||| w == seq!['e', 'c', 'h', 'o']
    ||| w == seq!['e', 'c', 'o']
    ||| w == seq!['h', 'e', 'c', 'h', 'o']
    ||| w == seq!['e', 'k', 'k', 'o']
}

/// A dictation calls for an action exactly where it begins with one of the words for it and then ends
/// or breaks off; the word is told by its length.
pub proof fn law_call_is_a_whole_word(low: Seq<char>, w: Seq<char>, rest: Seq<char>)
    ensures
        is_call(w) && (rest.len() == 0 || is_break(rest[0])) ==> call_length(w + rest) == Some(
            w.len() as int,
        ),
        call_length(low) matches Some(n) ==> {
            &&& 0 <= n <= low.len()
            &&& is_call(low.take(n))
            &&& low.len() == n || is_break(low[n])
        },
{
    reveal_strlit("echo");
    assert("echo"@ =~= seq!['e', 'c', 'h', 'o']);
    reveal_strlit("eco");
    assert("eco"@ =~= seq!['e', 'c', 'o']);
    reveal_strlit("hecho");
    assert("hecho"@ =~= seq!['h', 'e', 'c', 'h', 'o']);
    reveal_strlit("ekko");
    assert("ekko"@ =~= seq!['e', 'k', 'k', 'o']);
    let s = w + rest;
    if is_call(w) && (rest.len() == 0 || is_break(rest[0])) {
        assert(s.take(w.len() as int) =~= w);
        if rest.len() == 0 {
            assert(s =~= w);
        } else {
            assert(s[w.len() as int] == rest[0]);
        }
        assert(calls(s, w));
        lemma_calls_differ(s);
    }
}

proof fn lemma_calls_differ(s: Seq<char>)
    ensures
        !(begins_with(s, "echo"@) && begins_with(s, "eco"@)),
        !(begins_with(s, "echo"@) && begins_with(s, "hecho"@)),
        !(begins_with(s, "echo"@) && begins_with(s, "ekko"@)),
        !(begins_with(s, "eco"@) && begins_with(s, "hecho"@)),
        !(begins_with(s, "eco"@) && begins_with(s, "ekko"@)),
        !(begins_with(s, "hecho"@) && begins_with(s, "ekko"@)),
{
    reveal_strlit("echo");
    reveal_strlit("eco");
    reveal_strlit("hecho");
    reveal_strlit("ekko");
    if begins_with(s, "echo"@) {
        assert(s.take(4)[0] == 'e' && s.take(4)[2] == 'h');
    }
    if begins_with(s, "eco"@) {
        assert(s.take(3)[0] == 'e' && s.take(3)[1] == 'c' && s.take(3)[2] == 'o');
    }
    if begins_with(s, "hecho"@) {
        assert(s.take(5)[0] == 'h');
    }
    if begins_with(s, "ekko"@) {
        assert(s.take(4)[0] == 'e' && s.take(4)[1] == 'k' && s.take(4)[2] == 'k');
    }
}

/// The command is what stands behind the call and the signs that follow it, as it was dictated; a call
/// with nothing behind it is an empty command, and a dictation without a call is none.
pub proof fn law_command_stands_behind_the_call(
    call: Seq<char>,
    word: Seq<char>,
    gap: Seq<char>,
    command: Seq<char>,
    low: Seq<char>,
)
    requires
        is_call(word),
        call.len() == word.len(),
        low.len() == gap.len() + command.len(),
        gap.len() > 0 ==> is_break(low[0]),
        forall|i: int| 0 <= i < gap.len() ==> is_break(#[trigger] gap[i]),
        command.len() > 0 ==> !is_break(command[0]) && gap.len() > 0,
    ensures
        command_in(call + gap + command, word + low) == Some(command),
        call_length(low) is None ==> command_in(command, low) is None,
{
    law_call_is_a_whole_word(low, word, low);
    let t = call + gap + command;
    let n: int = word.len() as int;
    if low.len() == 0 {
        assert(command =~= Seq::<char>::empty());
    } else {
        assert(t.skip(n) =~= gap + command);
        lemma_breaks_skipped(gap, command);
    }
}

proof fn lemma_breaks_skipped(gap: Seq<char>, rest: Seq<char>)
    requires
        forall|i: int| 0 <= i < gap.len() ==> is_break(#[trigger] gap[i]),
        rest.len() > 0 ==> !is_break(rest[0]),
    ensures
        without_breaks(gap + rest) == rest,
    decreases gap.len(),
{
    if gap.len() == 0 {
        assert(gap + rest =~= rest);
    } else {
        let g = gap.drop_first();
        assert forall|i: int| 0 <= i < g.len() implies is_break(#[trigger] g[i]) by {
            assert(g[i] == gap[i + 1]);
        }
        lemma_breaks_skipped(g, rest);
        assert((gap + rest)[0] == gap[0]);
        assert((gap + rest).drop_first() =~= g + rest);
    }
}

/// A call breaks off at white space and at punctuation, and nowhere else.
pub proof fn law_calls_break_off(c: char)
    ensures
        is_white(c) ==> is_break(c),
        is_ascii_punct(c) ==> is_break(c),
        is_break(c) ==> is_white(c) || is_ascii_punct(c),
        c == ',' || c == '.' || c == ':' || c == '!' || c == '?' || c == '-' || c == ' ' ==> is_break(c),
{
}

} // verus!
