//! Text primitives: what trimming, splitting, joining, replacing and ordering mean on sequences
//! of characters, and functions on `str` and `String` that are proved to do it.
//!
//! Texts are viewed as `Seq<char>`. Lists of texts are viewed through [`texts`], optional texts
//! through [`opt_text`].
use vstd::prelude::*;
use vstd::string::*;
use vstd::utf8::*;

verus! {

// ----- views -----

/// The texts held by a list of strings.
pub open spec fn texts(v: Seq<String>) -> Seq<Seq<char>> {
    v.map_values(|s: String| s@)
}

/// The text held by an optional string.
pub open spec fn opt_text(o: Option<String>) -> Option<Seq<char>> {
    match o {
        Some(s) => Some(s@),
        None => None,
    }
}

/// The text held by an optional string slice.
pub open spec fn opt_str(o: Option<&str>) -> Option<Seq<char>> {
    match o {
        Some(s) => Some(s@),
        None => None,
    }
}

// ----- characters -----

/// The characters with Unicode's `White_Space` property.
pub open spec fn is_white(c: char) -> bool {
    ||| 0x09 <= c as u32 <= 0x0d
    ||| c as u32 == 0x20
    ||| c as u32 == 0x85
    ||| c as u32 == 0xa0
    ||| c as u32 == 0x1680
    ||| 0x2000 <= c as u32 <= 0x200a
    ||| c as u32 == 0x2028
    ||| c as u32 == 0x2029
    ||| c as u32 == 0x202f
    ||| c as u32 == 0x205f
    ||| c as u32 == 0x3000
}

/// The characters of Unicode's general category `Cc`.
pub open spec fn is_ctrl(c: char) -> bool {
    c as u32 <= 0x1f || 0x7f <= c as u32 <= 0x9f
}

/// ASCII letters and digits.
pub open spec fn is_ascii_alnum(c: char) -> bool {
    'a' <= c <= 'z' || 'A' <= c <= 'Z' || '0' <= c <= '9'
}

/// ASCII characters that are printable, not a space and neither letter nor digit.
pub open spec fn is_ascii_punct(c: char) -> bool {
    0x21 <= c as u32 <= 0x7e && !is_ascii_alnum(c)
}

/// The lower-case form of an ASCII letter; every other character as it is.
pub open spec fn ascii_lower(c: char) -> char {
    if 'A' <= c <= 'Z' {
        (c as u32 + 32) as char
    } else {
        c
    }
}

/// Whether `c` has Unicode's `White_Space` property.
pub fn is_whitespace(c: char) -> (r: bool)
    ensures
        r == is_white(c),
{
    let n: u32 = c as u32;
    (0x09 <= n && n <= 0x0d) || n == 0x20 || n == 0x85 || n == 0xa0 || n == 0x1680 || (0x2000 <= n
        && n <= 0x200a) || n == 0x2028 || n == 0x2029 || n == 0x202f || n == 0x205f || n == 0x3000
}

/// Whether `c` is a control character.
pub fn is_control(c: char) -> (r: bool)
    ensures
        r == is_ctrl(c),
{
    let n: u32 = c as u32;
    n <= 0x1f || (0x7f <= n && n <= 0x9f)
}

/// Whether `c` is an ASCII letter or digit.
pub fn is_ascii_alphanumeric(c: char) -> (r: bool)
    ensures
        r == is_ascii_alnum(c),
{
    ('a' <= c && c <= 'z') || ('A' <= c && c <= 'Z') || ('0' <= c && c <= '9')
}

/// Whether `c` is an ASCII punctuation character.
pub fn is_ascii_punctuation(c: char) -> (r: bool)
    ensures
        r == is_ascii_punct(c),
{
    let n: u32 = c as u32;
    0x21 <= n && n <= 0x7e && !is_ascii_alphanumeric(c)
}

/// The lower-case form of an ASCII letter; every other character as it is.
pub fn to_ascii_lower(c: char) -> (r: char)
    ensures
        r == ascii_lower(c),
{
    if 'A' <= c && c <= 'Z' {
        let n: u8 = c as u8;
        let lower: u8 = n + 32;
        lower as char
    } else {
        c
    }
}

/// Whether a character is alphabetic or numeric in Unicode's sense.
pub uninterp spec fn is_alnum(c: char) -> bool;

/// `char::is_alphanumeric`: whether `c` has the `Alphabetic` property or is numeric. The result
/// is a fixed function of the character, named [`is_alnum`]; among ASCII characters it holds of
/// the letters and digits alone.
#[verifier::external_body]
pub(crate) fn is_alphanumeric(c: char) -> (r: bool)
    ensures
        r == is_alnum(c),
        (c as u32) < 0x80 ==> r == is_ascii_alnum(c),
{
    c.is_alphanumeric()
}

/// The lower-case form of a text under Unicode's case mapping.
pub uninterp spec fn lower(s: Seq<char>) -> Seq<char>;

/// Whether a character stands unchanged in a lower-case text: an ASCII character that is no
/// capital, or another that is its own lower-case form.
pub open spec fn is_low(c: char) -> bool {
    if (c as u32) < 0x80 {
        !('A' <= c <= 'Z')
    } else {
        lower(seq![c]) == seq![c]
    }
}

/// Whether a text is in lower case throughout.
pub open spec fn all_low(s: Seq<char>) -> bool {
    forall|i: int| 0 <= i < s.len() ==> is_low(#[trigger] s[i])
}

/// `str::to_lowercase`: the lower-case form of `s`, a fixed function of the text that is named
/// [`lower`]. A text of ASCII characters is mapped letter by letter. Whatever the text, its
/// lower-case form is in lower case throughout, and a text that is so already is left as it is.
#[verifier::external_body]
pub(crate) fn lowercase(s: &str) -> (r: String)
    ensures
        r@ == lower(s@),
        is_ascii_chars(s@) ==> r@ == s@.map_values(|c: char| ascii_lower(c)),
        all_low(r@),
        all_low(s@) ==> r@ == s@,
{
    s.to_lowercase()
}

/// `String::push` appends one character to a text.
pub assume_specification[ String::push ](s: &mut String, c: char)
    ensures
        final(s)@ == old(s)@.push(c),
;

// ----- characters of a text -----

/// The characters of a text.
pub fn chars_of(s: &str) -> (v: Vec<char>)
    ensures
        v@ == s@,
{
    let mut v: Vec<char> = Vec::new();
    for c in it: s.chars()
        invariant
            v@ == it.seq().take(it.index()),
            it.seq() == s@,
    {
        v.push(c);
    }
    assert(v@ == s@);
    v
}

/// The text made of the characters `from..to`.
pub fn text_of(v: &Vec<char>, from: usize, to: usize) -> (s: String)
    requires
        from <= to <= v@.len(),
    ensures
        s@ == v@.subrange(from as int, to as int),
{
    let mut s: String = String::new();
    let mut i: usize = from;
    while i < to
        invariant
            from <= i <= to <= v@.len(),
            s@ == v@.subrange(from as int, i as int),
        decreases to - i,
    {
        s.push(v[i]);
        i = i + 1;
    }
    s
}

/// Equal UTF-8 encodings belong to equal texts.
pub proof fn lemma_encoding_is_injective(a: Seq<char>, b: Seq<char>)
    requires
        encode_utf8(a) == encode_utf8(b),
    ensures
        a == b,
{
    encode_utf8_decode_utf8(a);
    encode_utf8_decode_utf8(b);
}

/// Whether two texts are the same.
pub fn same(a: &str, b: &str) -> (r: bool)
    ensures
        r == (a@ == b@),
{
    let x: &[u8] = a.as_bytes();
    let y: &[u8] = b.as_bytes();
    if x.len() != y.len() {
        return false;
    }
    let mut i: usize = 0;
    while i < x.len()
        invariant
            i <= x@.len(),
            x@.len() == y@.len(),
            x@ == encode_utf8(a@),
            y@ == encode_utf8(b@),
            forall|k: int| 0 <= k < i ==> x@[k] == y@[k],
        decreases x@.len() - i,
    {
        if x[i] != y[i] {
            return false;
        }
        i = i + 1;
    }
    assert(x@ == y@);
    proof {
        lemma_encoding_is_injective(a@, b@);
    }
    true
}

/// Whether two optional texts are the same.
pub fn same_opt(a: Option<&str>, b: Option<&str>) -> (r: bool)
    ensures
        r == (opt_str(a) == opt_str(b)),
{
    match a {
        Some(x) => match b {
            Some(y) => same(x, y),
            None => false,
        },
        None => match b {
            Some(_) => false,
            None => true,
        },
    }
}

/// Whether a list holds a text.
pub fn holds_text(list: &Vec<String>, t: &str) -> (r: bool)
    ensures
        r == texts(list@).contains(t@),
{
    let mut i: usize = 0;
    while i < list.len()
        invariant
            i <= list@.len(),
            forall|k: int| 0 <= k < i ==> #[trigger] texts(list@)[k] != t@,
        decreases list@.len() - i,
    {
        assert(texts(list@)[i as int] == list@[i as int]@);
        if same(list[i].as_str(), t) {
            return true;
        }
        i = i + 1;
    }
    false
}

/// A text with its ASCII letters in lower case.
pub open spec fn lowered_ascii(s: Seq<char>) -> Seq<char> {
    s.map_values(|c: char| ascii_lower(c))
}

/// A text with its ASCII letters in lower case.
pub fn to_ascii_lowercase(s: &str) -> (r: String)
    ensures
        r@ == lowered_ascii(s@),
{
    let v: Vec<char> = chars_of(s);
    let mut out = String::new();
    let mut i: usize = 0;
    while i < v.len()
        invariant
            i <= v@.len(),
            out@ == lowered_ascii(v@.take(i as int)),
        decreases v@.len() - i,
    {
        assert(lowered_ascii(v@.take(i + 1)) == lowered_ascii(v@.take(i as int)).push(
            ascii_lower(v@[i as int]),
        ));
        out.push(to_ascii_lower(v[i]));
        i = i + 1;
    }
    assert(v@.take(i as int) == v@);
    out
}

/// Two texts, one behind the other.
pub fn glue(a: &str, b: &str) -> (r: String)
    ensures
        r@ == a@ + b@,
{
    let mut s = a.to_owned();
    s.append(b);
    s
}

/// Three texts, one behind the other.
pub fn glue3(a: &str, b: &str, c: &str) -> (r: String)
    ensures
        r@ == a@ + b@ + c@,
{
    let mut s = a.to_owned();
    s.append(b);
    s.append(c);
    s
}

/// The number of bytes of a text's UTF-8 encoding.
pub fn byte_len(s: &str) -> (n: usize)
    ensures
        n == encode_utf8(s@).len(),
{
    s.as_bytes().len()
}

// ----- laws -----

/// White space is these signs and no others.
pub proof fn law_white_space(c: char)
    ensures
        is_white(c) <==> {
            ||| c == ' ' || c == '\t' || c == '\n' || c == '\r' || c == '\u{b}' || c == '\u{c}'
            ||| c == '\u{85}' || c == '\u{a0}' || c == '\u{1680}'
            ||| c == '\u{2000}' || c == '\u{2001}' || c == '\u{2002}' || c == '\u{2003}'
            ||| c == '\u{2004}' || c == '\u{2005}' || c == '\u{2006}' || c == '\u{2007}'
            ||| c == '\u{2008}' || c == '\u{2009}' || c == '\u{200a}' || c == '\u{2028}'
            ||| c == '\u{2029}' || c == '\u{202f}' || c == '\u{205f}' || c == '\u{3000}'
        },
{
}

/// Every sign of ASCII is one of these: a control sign, the space, a letter or a digit, or
/// punctuation. No sign beyond ASCII is punctuation, a letter or a digit in this sense.
pub proof fn law_signs_of_ascii(c: char)
    ensures
        (c as u32) < 0x80 ==> is_ctrl(c) || c == ' ' || is_ascii_alnum(c) || is_ascii_punct(c),
        !(is_ascii_alnum(c) && is_ascii_punct(c)),
        is_ascii_punct(c) ==> !is_ctrl(c) && c != ' ' && (c as u32) < 0x80,
        is_ascii_alnum(c) ==> !is_ctrl(c) && c != ' ' && (c as u32) < 0x80,
        is_ctrl(c) <==> c < ' ' || ('\u{7f}' <= c && c <= '\u{9f}'),
        is_ascii_alnum(c) <==> {
            ||| '0' <= c <= '9'
            ||| 'A' <= c <= 'Z'
            ||| 'a' <= c <= 'z'
        },
{
}

/// The lower case of an ASCII capital is the small letter at the same place of the alphabet; every
/// other sign is its own.
pub proof fn law_lower_case_of_ascii(c: char)
    ensures
        'A' <= c <= 'Z' ==> 'a' <= ascii_lower(c) <= 'z' && ascii_lower(c) as u32 - 'a' as u32
            == c as u32 - 'A' as u32,
        !('A' <= c <= 'Z') ==> ascii_lower(c) == c,
        ascii_lower(ascii_lower(c)) == ascii_lower(c),
        ascii_lower('A') == 'a' && ascii_lower('Z') == 'z',
{
}

/// A list of texts has the text of each string, in order; so has an option.
pub proof fn law_texts_are_those_of_the_strings(v: Seq<String>, s: String, i: int)
    ensures
        texts(v).len() == v.len(),
        0 <= i < v.len() ==> texts(v)[i] == v[i]@,
        opt_text(Some(s)) == Some(s@),
        opt_text(None) is None,
        lowered_ascii(s@).len() == s@.len(),
        0 <= i < s@.len() ==> lowered_ascii(s@)[i] == ascii_lower(s@[i]),
{
}

} // verus!
