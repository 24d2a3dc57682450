//! Names for uploaded files, made from what a recording is called.
use vstd::prelude::*;
use vstd::string::*;

use crate::calendar::{is_date_at, Date};
use crate::paths::{extension, extension_of};
use crate::recordings::RecordingRow;
use crate::search::{
    begins_with, first_chars, kept, law_kept_in_parts, lemma_kept, lemma_kept_whole, take_chars,
};
use crate::split::{
    lemma_trim_keeps, lemma_trimmed_part, lemma_trimmed_shape, nonblank, trim, trim_to_option, trimmed,
};
use crate::text::{
    chars_of, glue3, is_control, is_ctrl, is_white, is_whitespace, opt_str, opt_text, same,
};

verus! {

// ----- clean names -----

/// The characters that some file system keeps for itself.
pub open spec fn is_reserved(c: char) -> bool {
    c == '/' || c == '\\' || c == ':' || c == '*' || c == '?' || c == '"' || c == '<' || c == '>'
        || c == '|'
}

/// White space, and what is neither a control character nor reserved.
pub open spec fn is_plain(c: char) -> bool {
    is_white(c) || !(is_ctrl(c) || is_reserved(c))
}

/// A text with one space for each run of white space.
pub open spec fn collapsed(s: Seq<char>) -> Seq<char>
    decreases s.len(),
{
    if s.len() == 0 {
        s
    } else {
        let r = collapsed(s.drop_last());
        if !is_white(s.last()) {
            r.push(s.last())
        } else if r.len() > 0 && r.last() == ' ' {
            r
        } else {
            r.push(' ')
        }
    }
}

/// A text made fit to be part of a file name: without reserved and control characters, with single
/// spaces, at most 120 characters long, and trimmed.
pub open spec fn cleaned(s: Seq<char>) -> Seq<char> {
    trimmed(first_chars(trimmed(collapsed(kept(s, |c: char| is_plain(c)))), 120))
}

fn reserved(c: char) -> (r: bool)
    ensures
        r == is_reserved(c),
{
    c == '/' || c == '\\' || c == ':' || c == '*' || c == '?' || c == '"' || c == '<' || c == '>'
        || c == '|'
}

/// A text made fit to be part of a file name.
pub fn sanitize_filename_component(s: &str) -> (r: String)
    ensures
        r@ == cleaned(s@),
{
    let v = chars_of(s);
    let ghost plain = |c: char| is_plain(c);
    let mut out = String::new();
    let mut last_ws = false;
    let mut i: usize = 0;
    assert(v@.take(0).len() == 0);
    while i < v.len()
        invariant
            i <= v@.len(),
            plain == (|c: char| is_plain(c)),
            out@ == collapsed(kept(v@.take(i as int), plain)),
            last_ws == (out@.len() > 0 && out@.last() == ' '),
        decreases v@.len() - i,
    {
        let c = v[i];
        proof {
            let upto = v@.take(i + 1);
            assert(upto.drop_last() == v@.take(i as int));
            let t = kept(upto.drop_last(), plain);
            assert(t.push(c).drop_last() == t);
            assert(plain(c) == is_plain(c));
        }
        if is_whitespace(c) {
            if !last_ws {
                out.push(' ');
                last_ws = true;
            }
        } else if !(is_control(c) || reserved(c)) {
            out.push(c);
            last_ws = false;
        }
        i = i + 1;
    }
    assert(v@.take(i as int) == v@);
    let t = trim(out.as_str());
    let short = take_chars(t.as_str(), 120);
    trim(short.as_str())
}

proof fn lemma_collapsed(s: Seq<char>)
    ensures
        forall|i: int|
            0 <= i < collapsed(s).len() ==> (#[trigger] collapsed(s)[i] == ' ' || (!is_white(
                collapsed(s)[i],
            ) && s.contains(collapsed(s)[i]))),
        forall|i: int|
            0 < i < collapsed(s).len() && #[trigger] collapsed(s)[i] == ' ' ==> collapsed(s)[i - 1]
                != ' ',
    decreases s.len(),
{
    if s.len() > 0 {
        let t = s.drop_last();
        lemma_collapsed(t);
        let r = collapsed(s);
        let q = collapsed(t);
        assert forall|i: int| 0 <= i < r.len() implies (#[trigger] r[i] == ' ' || (!is_white(r[i])
            && s.contains(r[i]))) by {
            if i < q.len() {
                assert(r[i] == q[i]);
                if q[i] != ' ' {
                    let k = choose|k: int| 0 <= k < t.len() && t[k] == q[i];
                    assert(s[k] == q[i]);
                }
            } else if r[i] != ' ' {
                assert(s[s.len() - 1] == r[i]);
            }
        }
    }
}

/// A cleaned name is safe: no reserved and no control character, no white space but single spaces
/// inside, at most 120 characters.
pub proof fn law_cleaned_name_is_safe(s: Seq<char>)
    ensures
        cleaned(s).len() <= 120,
        forall|i: int|
            0 <= i < cleaned(s).len() ==> {
                let c = #[trigger] cleaned(s)[i];
                !is_reserved(c) && !is_ctrl(c) && (is_white(c) ==> c == ' ')
            },
        forall|i: int|
            0 < i < cleaned(s).len() && #[trigger] cleaned(s)[i] == ' ' ==> cleaned(s)[i - 1]
                != ' ',
        cleaned(s).len() > 0 ==> cleaned(s)[0] != ' ' && cleaned(s).last() != ' ',
{
    let plain = |c: char| is_plain(c);
    let k = kept(s, plain);
    let c = collapsed(k);
    lemma_kept(s, plain);
    lemma_collapsed(k);
    let a = lemma_trimmed_part(c);
    let f = first_chars(trimmed(c), 120);
    let b = lemma_trimmed_part(f);
    lemma_trimmed_shape(f);
    let r = cleaned(s);
    assert(r == c.subrange(a + b, a + b + r.len()));
    assert forall|i: int| 0 <= i < r.len() implies {
        let x = #[trigger] r[i];
        !is_reserved(x) && !is_ctrl(x) && (is_white(x) ==> x == ' ')
    } by {
        let x = r[i];
        assert(x == c[a + b + i]);
        if x != ' ' {
            let j = choose|j: int| 0 <= j < k.len() && k[j] == x;
            assert(plain(k[j]));
        }
    }
    assert forall|i: int| 0 < i < r.len() && #[trigger] r[i] == ' ' implies r[i - 1] != ' ' by {
        assert(r[i] == c[a + b + i]);
        assert(r[i - 1] == c[a + b + i - 1]);
    }
}

proof fn lemma_collapsed_whole(s: Seq<char>)
    requires
        forall|i: int| 0 <= i < s.len() && is_white(#[trigger] s[i]) ==> s[i] == ' ',
        forall|i: int| 0 < i < s.len() && #[trigger] s[i] == ' ' ==> s[i - 1] != ' ',
    ensures
        collapsed(s) == s,
    decreases s.len(),
{
    if s.len() > 0 {
        let t = s.drop_last();
        assert forall|i: int| 0 <= i < t.len() && is_white(#[trigger] t[i]) implies t[i] == ' ' by {
            assert(t[i] == s[i]);
        }
        assert forall|i: int| 0 < i < t.len() && #[trigger] t[i] == ' ' implies t[i - 1] != ' ' by {
            assert(t[i] == s[i]);
        }
        lemma_collapsed_whole(t);
        assert(s[s.len() - 1] == s.last());
        assert(t.push(s.last()) == s);
    }
}

/// Cleaning a clean name changes nothing.
pub proof fn law_cleaning_is_idempotent(s: Seq<char>)
    ensures
        cleaned(cleaned(s)) == cleaned(s),
{
    let plain = |c: char| is_plain(c);
    let r = cleaned(s);
    law_cleaned_name_is_safe(s);
    assert forall|i: int| 0 <= i < r.len() implies plain(#[trigger] r[i]) by {}
    lemma_kept_whole(r, plain);
    lemma_collapsed_whole(r);
    if r.len() > 0 {
        assert(r[r.len() - 1] == r.last());
    }
    lemma_trim_keeps(r);
}

// ----- upload names -----

/// What a recording is called: its title, else where it came from, else "Recording".
pub open spec fn display_name(title: Option<Seq<char>>, label: Option<Seq<char>>) -> Seq<char> {
    match title {
        Some(t) if nonblank(t) is Some => nonblank(t)->0,
        _ => match label {
            Some(l) if nonblank(l) is Some => nonblank(l)->0,
            _ => "Recording"@,
        },
    }
}

/// What tells the versions of a recording apart.
pub open spec fn version_tag(quality: Seq<char>) -> Seq<char> {
    if quality == "rendered"@ {
        " (edited)"@
    } else if quality == "original"@ {
        Seq::empty()
    } else {
        " ("@ + quality + "p)"@
    }
}

/// What stands behind the dot: the file's own extension, else `mp4`.
pub open spec fn upload_extension(path: Seq<char>) -> Seq<char> {
    match extension_of(path) {
        Some(e) if e.len() > 0 => e,
        _ => "mp4"@,
    }
}

/// The first part of an upload's name.
pub open spec fn upload_base(title: Option<Seq<char>>, label: Option<Seq<char>>) -> Seq<char> {
    let base = cleaned(display_name(title, label));
    if base.len() == 0 {
        "Recording"@
    } else {
        base
    }
}

/// An upload's name: what the recording is called, its version, its date where there is one, and
/// the extension.
pub open spec fn upload_name(
    title: Option<Seq<char>>,
    label: Option<Seq<char>>,
    path: Seq<char>,
    quality: Seq<char>,
    date: Option<Seq<char>>,
) -> Seq<char> {
    let named = upload_base(title, label) + version_tag(quality);
    let dated = match date {
        Some(d) if d.len() > 0 => named + " "@ + d,
        _ => named,
    };
    dated + "."@ + upload_extension(path)
}

fn find_display_name(title: Option<&str>, label: Option<&str>) -> (r: String)
    ensures
        r@ == display_name(opt_str(title), opt_str(label)),
{
    if let Some(t) = title {
        if let Some(x) = trim_to_option(t) {
            return x;
        }
    }
    if let Some(l) = label {
        if let Some(x) = trim_to_option(l) {
            return x;
        }
    }
    "Recording".to_owned()
}

fn make_version_tag(quality: &str) -> (r: String)
    ensures
        r@ == version_tag(quality@),
{
    if same(quality, "rendered") {
        " (edited)".to_owned()
    } else if same(quality, "original") {
        String::new()
    } else {
        glue3(" (", quality, "p)")
    }
}

/// The name of an upload, where the recording's date is known or left out.
pub fn upload_name_on(
    title: Option<&str>,
    label: Option<&str>,
    path: &str,
    quality: &str,
    date: Option<&str>,
) -> (r: String)
    ensures
        r@ == upload_name(opt_str(title), opt_str(label), path@, quality@, opt_str(date)),
{
    let display = find_display_name(title, label);
    let mut name = sanitize_filename_component(display.as_str());
    if name.as_str().is_empty() {
        name = "Recording".to_owned();
    }
    let tag = make_version_tag(quality);
    name.append(tag.as_str());
    if let Some(d) = date {
        if !d.is_empty() {
            name.append(" ");
            name.append(d);
        }
    }
    name.append(".");
    match extension(path) {
        Some(e) => {
            if e.as_str().is_empty() {
                name.append("mp4");
            } else {
                name.append(e.as_str());
            }
        },
        None => {
            name.append("mp4");
        },
    }
    name
}

/// Whether a text is the date, somewhere on earth, at a time in milliseconds from 1970 on.
pub open spec fn is_local_date(d: Seq<char>, ms: int) -> bool {
    exists|off: int, date: Date|
        -86_400 < off < 86_400 && #[trigger] is_date_at(date, ms / 1000 + off) && d == date.text()
}

/// Whether a time in milliseconds lies between the years -262143 and 262142, which is where the
/// calendar has dates.
pub open spec fn has_date(ms: int) -> bool {
    -8_334_601_228_800_000 <= ms <= 8_210_266_876_799_999
}

/// `DateTime::from_timestamp_millis`, then `with_timezone(&Local)` and `format("%Y-%m-%d")`: the
/// date of a moment in the machine's time zone. There is one for every moment of the years that the
/// calendar reaches, and for no other. From the second day of 1970 to the last but one of 9998 it
/// is the date at an offset of less than a day from UTC; which offset, the machine decides. Nothing
/// is said of what the date is at other moments.
#[verifier::external_body]
pub(crate) fn local_date(ms: i64) -> (r: Option<String>)
    ensures
        r is Some <==> has_date(ms as int),
        86_400_000 <= ms < 253_370_678_400_000 ==> r is Some && is_local_date(r->0@, ms as int),
{
    chrono::DateTime::from_timestamp_millis(ms).map(
        |dt| dt.with_timezone(&chrono::Local).format("%Y-%m-%d").to_string(),
    )
}

/// Whether `r` is a name under which a recording is uploaded; it is dated where its time has a date.
pub open spec fn is_drive_name(
    r: Seq<char>,
    row: RecordingRow,
    upload_path: Seq<char>,
    quality: Seq<char>,
) -> bool {
    exists|date: Option<Seq<char>>|
        {
            &&& r == #[trigger] upload_name(
                opt_text(row.title),
                opt_text(row.source_label),
                upload_path,
                quality,
                date,
            )
            &&& date is Some <==> has_date(row.created_at as int)
            &&& 86_400_000 <= row.created_at < 253_370_678_400_000 ==> date is Some
                && is_local_date(date->0, row.created_at as int)
        }
}

/// A recording is uploaded under its title, or its label where it has none, and its version; and the
/// name ends in the extension of what is sent.
pub proof fn law_upload_goes_by_its_title(
    r: Seq<char>,
    row: RecordingRow,
    upload_path: Seq<char>,
    quality: Seq<char>,
)
    requires
        is_drive_name(r, row, upload_path, quality),
    ensures
        row.title matches Some(t) ==> (cleaned(trimmed(t@)).len() > 0 ==> begins_with(
            r,
            cleaned(trimmed(t@)) + version_tag(quality),
        )),
        row.title is None ==> (row.source_label matches Some(l) ==> (cleaned(trimmed(l@)).len() > 0
            ==> begins_with(r, cleaned(trimmed(l@)) + version_tag(quality)))),
        r.len() > upload_extension(upload_path).len(),
        r.skip(r.len() - upload_extension(upload_path).len()) == upload_extension(upload_path),
        r[r.len() - upload_extension(upload_path).len() - 1] == '.',
{
    let title = opt_text(row.title);
    let label = opt_text(row.source_label);
    let date = choose|date: Option<Seq<char>>|
        {
            &&& r == #[trigger] upload_name(title, label, upload_path, quality, date)
            &&& date is Some <==> has_date(row.created_at as int)
            &&& 86_400_000 <= row.created_at < 253_370_678_400_000 ==> date is Some
                && is_local_date(date->0, row.created_at as int)
        };
    let base = upload_base(title, label) + version_tag(quality);
    let ext = upload_extension(upload_path);
    reveal_strlit(".");
    assert(r.take(base.len() as int) =~= base);
    assert(r.skip(r.len() - ext.len()) =~= ext);
    if let Some(t) = row.title {
        lemma_clean_of_blank(t@);
    }
    if let Some(l) = row.source_label {
        lemma_clean_of_blank(l@);
    }
}

proof fn lemma_clean_of_blank(t: Seq<char>)
    ensures
        trimmed(t).len() == 0 ==> cleaned(trimmed(t)).len() == 0,
{
    if trimmed(t).len() == 0 {
        law_tidy_names_stay(trimmed(t));
    }
}

/// The name under which a recording is uploaded. The date is that of the recording in the
/// machine's time zone; it is left out where the time is none that the calendar knows.
pub fn drive_upload_name(row: &RecordingRow, upload_path: &str, quality: &str) -> (r: String)
    ensures
        is_drive_name(r@, *row, upload_path@, quality@),
{
    let found = local_date(row.created_at);
    let date: Option<&str> = match &found {
        Some(d) => Some(d.as_str()),
        None => None,
    };
    let title: Option<&str> = match &row.title {
        Some(t) => Some(t.as_str()),
        None => None,
    };
    let label: Option<&str> = match &row.source_label {
        Some(l) => Some(l.as_str()),
        None => None,
    };
    upload_name_on(title, label, upload_path, quality, date)
}

// ----- laws -----

proof fn lemma_version_tags_differ(a: Seq<char>, b: Seq<char>)
    requires
        a != b,
    ensures
        version_tag(a) != version_tag(b),
{
    reveal_strlit(" (edited)");
    reveal_strlit(" (");
    reveal_strlit("p)");
    let x = version_tag(a);
    let y = version_tag(b);
    let edited = " (edited)"@;
    let ta = " ("@ + a + "p)"@;
    let tb = " ("@ + b + "p)"@;
    assert(edited[edited.len() - 2] == 'd');
    assert(ta[ta.len() - 2] == 'p');
    assert(tb[tb.len() - 2] == 'p');
    assert(ta.subrange(2, ta.len() - 2) == a);
    assert(tb.subrange(2, tb.len() - 2) == b);
    assert(ta.len() > 0 && tb.len() > 0 && edited.len() > 0);
}

/// The versions of a recording never share a name: with everything else equal, another quality
/// gives another name.
pub proof fn law_versions_have_distinct_names(
    title: Option<Seq<char>>,
    label: Option<Seq<char>>,
    path: Seq<char>,
    a: Seq<char>,
    b: Seq<char>,
    date: Option<Seq<char>>,
)
    requires
        a != b,
    ensures
        upload_name(title, label, path, a, date) != upload_name(title, label, path, b, date),
{
    lemma_version_tags_differ(a, b);
    let base = upload_base(title, label);
    let x = version_tag(a);
    let y = version_tag(b);
    let rest = match date {
        Some(d) if d.len() > 0 => " "@ + d,
        _ => Seq::empty(),
    } + "."@ + upload_extension(path);
    let p = upload_name(title, label, path, a, date);
    let q = upload_name(title, label, path, b, date);
    assert(p == base + x + rest);
    assert(q == base + y + rest);
    if p == q {
        assert(x.len() == y.len());
        assert(p.subrange(base.len() as int, (base.len() + x.len()) as int) == x);
        assert(q.subrange(base.len() as int, (base.len() + y.len()) as int) == y);
    }
}

/// The signs that no file name has.
pub open spec fn reserved_signs() -> Seq<char> {
    seq!['/', '\\', ':', '*', '?', '"', '<', '>', '|']
}

/// A reserved sign, or a control sign that is no white space, is taken out without a trace, wherever
/// it stands.
pub proof fn law_reserved_signs_are_dropped(a: Seq<char>, c: char, b: Seq<char>)
    ensures
        reserved_signs().contains(c) || (is_ctrl(c) && !is_white(c)) ==> cleaned(a + seq![c] + b)
            == cleaned(a + b),
        is_reserved(c) <==> reserved_signs().contains(c),
{
    let plain = |x: char| is_plain(x);
    let r = reserved_signs();
    if is_reserved(c) {
        assert(r[0] == '/' && r[1] == '\\' && r[2] == ':' && r[3] == '*' && r[4] == '?');
        assert(r[5] == '"' && r[6] == '<' && r[7] == '>' && r[8] == '|');
        assert(r.contains(c));
    }
    if r.contains(c) {
        let i = choose|i: int| 0 <= i < r.len() && r[i] == c;
        assert(is_reserved(r[i]));
    }
    if is_reserved(c) || (is_ctrl(c) && !is_white(c)) {
        law_kept_in_parts(a + seq![c], b, c, plain);
        law_kept_in_parts(a, seq![c], c, plain);
        law_kept_in_parts(a, b, c, plain);
        assert(!plain(c));
        assert(kept(a, plain) + Seq::<char>::empty() =~= kept(a, plain));
        assert(kept(a + seq![c] + b, plain) =~= kept(a + b, plain));
    }
}

proof fn lemma_collapsed_alike(x: Seq<char>, y: Seq<char>, b: Seq<char>)
    requires
        collapsed(x) == collapsed(y),
    ensures
        collapsed(x + b) == collapsed(y + b),
    decreases b.len(),
{
    if b.len() == 0 {
        assert(x + b =~= x && y + b =~= y);
    } else {
        lemma_collapsed_alike(x, y, b.drop_last());
        assert((x + b).drop_last() =~= x + b.drop_last());
        assert((y + b).drop_last() =~= y + b.drop_last());
    }
}

/// Any white space counts as a space, and several in a row as one.
pub proof fn law_white_space_is_one_space(a: Seq<char>, v: char, w: char, b: Seq<char>)
    requires
        is_white(v),
        is_white(w),
    ensures
        cleaned(a + seq![w] + b) == cleaned(a + seq![' '] + b),
        cleaned(a + seq![v, w] + b) == cleaned(a + seq![' '] + b),
{
    let plain = |x: char| is_plain(x);
    let ka = kept(a, plain);
    let kb = kept(b, plain);
    lemma_kept_around(a, v, b);
    lemma_kept_around(a, w, b);
    lemma_kept_around(a, ' ', b);
    lemma_kept_around(a.push(v), w, b);
    lemma_kept_around(a, v, Seq::empty());
    assert(a.push(v) =~= a + seq![v] + Seq::<char>::empty());
    assert(kept(Seq::<char>::empty(), plain) =~= Seq::<char>::empty());
    assert(a + seq![v, w] + b =~= a.push(v) + seq![w] + b);
    assert(kept(a.push(v), plain) =~= ka.push(v));
    lemma_collapsed_white(ka, v, w);
    lemma_collapsed_alike(ka.push(w), ka.push(' '), kb);
    lemma_collapsed_alike(ka.push(v).push(w), ka.push(' '), kb);
    assert(ka + seq![w] + kb =~= ka.push(w) + kb);
    assert(ka + seq![' '] + kb =~= ka.push(' ') + kb);
    assert(ka.push(v) + seq![w] + kb =~= ka.push(v).push(w) + kb);
}

proof fn lemma_collapsed_white(x: Seq<char>, v: char, w: char)
    requires
        is_white(v),
        is_white(w),
    ensures
        collapsed(x.push(w)) == collapsed(x.push(' ')),
        collapsed(x.push(v).push(w)) == collapsed(x.push(' ')),
{
    assert(x.push(w).drop_last() =~= x);
    assert(x.push(' ').drop_last() =~= x);
    assert(x.push(v).drop_last() =~= x);
    assert(x.push(v).push(w).drop_last() =~= x.push(v));
    let r = collapsed(x.push(v));
    assert(r.len() > 0 && r.last() == ' ');
    assert(x.push(v).push(w).last() == w);
    assert(collapsed(x.push(v).push(w)) == r);
}

proof fn lemma_kept_around(a: Seq<char>, w: char, b: Seq<char>)
    requires
        is_white(w),
    ensures
        kept(a + seq![w] + b, |c: char| is_plain(c)) == kept(a, |c: char| is_plain(c)) + seq![w]
            + kept(b, |c: char| is_plain(c)),
{
    let plain = |x: char| is_plain(x);
    law_kept_in_parts(a + seq![w], b, w, plain);
    law_kept_in_parts(a, seq![w], w, plain);
    assert(plain(w));
}

/// A name that is safe and tidy already stays as it is.
pub proof fn law_tidy_names_stay(s: Seq<char>)
    requires
        s.len() <= 120,
        forall|i: int|
            0 <= i < s.len() ==> !reserved_signs().contains(#[trigger] s[i]) && !is_ctrl(s[i]) && (
            is_white(s[i]) ==> s[i] == ' '),
        forall|i: int| 0 < i < s.len() && #[trigger] s[i] == ' ' ==> s[i - 1] != ' ',
        s.len() > 0 ==> s[0] != ' ' && s.last() != ' ',
    ensures
        cleaned(s) == s,
{
    let plain = |c: char| is_plain(c);
    let none = Seq::<char>::empty();
    assert forall|i: int| 0 <= i < s.len() implies plain(#[trigger] s[i]) by {
        law_reserved_signs_are_dropped(none, s[i], none);
    }
    lemma_kept_whole(s, plain);
    lemma_collapsed_whole(s);
    if s.len() > 0 {
        assert(s[s.len() - 1] == s.last());
    }
    lemma_trim_keeps(s);
}

/// A recording is called by its title, where that says anything; else by its label; else `Recording`.
pub proof fn law_title_comes_before_label(title: Option<Seq<char>>, label: Option<Seq<char>>)
    ensures
        title matches Some(t) ==> (trimmed(t).len() > 0 ==> display_name(title, label) == trimmed(
            t,
        )),
        (title is None || trimmed(title->0).len() == 0) ==> {
            &&& label matches Some(l) ==> (trimmed(l).len() > 0 ==> display_name(title, label)
                == trimmed(l))
            &&& label is None || trimmed(label->0).len() == 0 ==> display_name(title, label)
                == seq!['R', 'e', 'c', 'o', 'r', 'd', 'i', 'n', 'g']
        },
        cleaned(display_name(title, label)).len() > 0 ==> upload_base(title, label) == cleaned(
            display_name(title, label),
        ),
        cleaned(display_name(title, label)).len() == 0 ==> upload_base(title, label)
            == seq!['R', 'e', 'c', 'o', 'r', 'd', 'i', 'n', 'g'],
{
    reveal_strlit("Recording");
    assert("Recording"@ =~= seq!['R', 'e', 'c', 'o', 'r', 'd', 'i', 'n', 'g']);
}

/// An uploaded file is called by its recording, its version in parentheses, the day behind a space,
/// and the extension of what is sent, `mp4` where it has none. The original has no version, an edited
/// one is `edited`, and any other is the number of its lines.
pub proof fn law_upload_name_in_parts(
    title: Option<Seq<char>>,
    label: Option<Seq<char>>,
    path: Seq<char>,
    quality: Seq<char>,
    date: Seq<char>,
)
    ensures
        version_tag(seq!['o', 'r', 'i', 'g', 'i', 'n', 'a', 'l']).len() == 0,
        version_tag(seq![
            'r', 'e', 'n', 'd', 'e', 'r', 'e', 'd',
        ]) == seq![
            ' ', '(', 'e', 'd', 'i', 't', 'e', 'd', ')',
        ],
        quality != seq![
            'o', 'r', 'i', 'g', 'i', 'n', 'a', 'l',
        ] && quality != seq![
            'r', 'e', 'n', 'd', 'e', 'r', 'e', 'd',
        ] ==> version_tag(quality) == seq![' ', '('] + quality
            + seq!['p', ')'],
        extension_of(path) matches Some(e) ==> (e.len() > 0 ==> upload_extension(path) == e),
        extension_of(path) is None || extension_of(path)->0.len() == 0 ==> upload_extension(path)
            == seq!['m', 'p', '4'],
        date.len() > 0 ==> upload_name(title, label, path, quality, Some(date)) == upload_base(
            title,
            label,
        ) + version_tag(quality) + seq![' '] + date + seq!['.'] + upload_extension(path),
        upload_name(title, label, path, quality, None) == upload_base(title, label) + version_tag(
            quality,
        ) + seq!['.'] + upload_extension(path),
{
    reveal_strlit("original");
    assert("original"@ =~= seq!['o', 'r', 'i', 'g', 'i', 'n', 'a', 'l']);
    reveal_strlit("rendered");
    assert("rendered"@ =~= seq!['r', 'e', 'n', 'd', 'e', 'r', 'e', 'd']);
    reveal_strlit(" (edited)");
    assert(" (edited)"@ =~= seq![' ', '(', 'e', 'd', 'i', 't', 'e', 'd', ')']);
    reveal_strlit(" (");
    assert(" ("@ =~= seq![' ', '(']);
    reveal_strlit("p)");
    assert("p)"@ =~= seq!['p', ')']);
    reveal_strlit("mp4");
    assert("mp4"@ =~= seq!['m', 'p', '4']);
    reveal_strlit(" ");
    assert(" "@ =~= seq![' ']);
    reveal_strlit(".");
    assert("."@ =~= seq!['.']);
    assert("original"@[0] != "rendered"@[0]);
}

} // verus!
