//! Exporting everything that was captured as one file.
use vstd::prelude::*;
use vstd::string::*;
use vstd::utf8::*;

use crate::items::{ItemKind, ItemSource};
use crate::search::{
    after_bytes, between_bytes, law_bytes_are_those_of_the_encoding,
    law_slice_is_what_stands_between, slice_bytes,
};
use crate::text::{glue3, holds_text, opt_text, same, texts};

verus! {

/// What the user is told when an export fails.
pub const EXPORT_FRIENDLY_ERR: &'static str =
    "Export failed. See Settings → Diagnostics → logs for details.";

/// The forms that an export can have.
#[derive(Clone, Copy, PartialEq, Eq, Structural, Debug)]
pub enum ActivityFormat {
    Markdown,
    Csv,
}

/// The name of a form.
pub open spec fn format_name(f: ActivityFormat) -> Seq<char> {
    match f {
        ActivityFormat::Markdown => "markdown"@,
        ActivityFormat::Csv => "csv"@,
    }
}

/// What stands behind the dot of an export's name.
pub open spec fn format_extension(f: ActivityFormat) -> Seq<char> {
    match f {
        ActivityFormat::Markdown => "md"@,
        ActivityFormat::Csv => "csv"@,
    }
}

/// The form of that name; any other is refused.
pub fn activity_format(name: &str) -> (r: Result<ActivityFormat, String>)
    ensures
        match r {
            Ok(f) => format_name(f) == name@,
            Err(e) => (forall|f: ActivityFormat| format_name(f) != name@) && e@
                == EXPORT_FRIENDLY_ERR@,
        },
{
    if same(name, "markdown") {
        Ok(ActivityFormat::Markdown)
    } else if same(name, "csv") {
        Ok(ActivityFormat::Csv)
    } else {
        Err(EXPORT_FRIENDLY_ERR.to_owned())
    }
}

/// What an export came to.
#[derive(Debug)]
pub struct ActivityExportOutcome {
    pub path: String,
    pub count: u32,
}

/// What an export came to: where it is, and how many entries it has, as far as 32 bits hold them.
pub fn export_outcome(path: String, entries: usize) -> (r: ActivityExportOutcome)
    ensures
        r.path == path,
        r.count == entries as int % 0x1_0000_0000,
{
    let n: u64 = entries as u64;
    ActivityExportOutcome { path, count: (n % 0x1_0000_0000) as u32 }
}

/// The name of the range that is exported.
pub fn export_label(range_label: Option<String>) -> (r: String)
    ensures
        match range_label {
            Some(l) => r == l,
            None => r@ == "All time"@,
        },
{
    match range_label {
        Some(l) => l,
        None => "All time".to_owned(),
    }
}

// ----- the file's name -----

/// A part of a text, or something in its place.
pub open spec fn part_or(s: Seq<char>, a: int, b: int, other: Seq<char>) -> Seq<char> {
    match between_bytes(s, a, b) {
        Some(p) => p,
        None => other,
    }
}

/// The moment in an export's name: `2026-06-11T18:04:21Z` becomes `2026-06-11-1804`.
pub open spec fn stamp_of(now: Seq<char>) -> Seq<char> {
    part_or(now, 0, 10, "0000-00-00"@) + "-"@ + part_or(now, 11, 13, "00"@) + part_or(
        now,
        14,
        16,
        "00"@,
    )
}

fn take_part(s: &str, a: usize, b: usize, other: &str) -> (r: String)
    ensures
        r@ == part_or(s@, a as int, b as int, other@),
{
    match slice_bytes(s, a, b) {
        Some(p) => p,
        None => other.to_owned(),
    }
}

/// The name of an export that is made at a moment.
pub open spec fn export_name(now: Seq<char>, format: ActivityFormat) -> Seq<char> {
    "echo-scribe-activity-"@ + stamp_of(now) + "."@ + format_extension(format)
}

/// The name of an export made at that moment.
pub fn activity_file_name(now: &str, format: ActivityFormat) -> (r: String)
    ensures
        r@ == export_name(now@, format),
{
    let date = take_part(now, 0, 10, "0000-00-00");
    let hours = take_part(now, 11, 13, "00");
    let minutes = take_part(now, 14, 16, "00");
    let mut stamp = glue3(date.as_str(), "-", hours.as_str());
    stamp.append(minutes.as_str());
    let mut name = glue3("echo-scribe-activity-", stamp.as_str(), ".");
    match format {
        ActivityFormat::Markdown => name.append("md"),
        ActivityFormat::Csv => name.append("csv"),
    }
    name
}

// ----- the entries -----

/// What an export looks at in an item.
#[derive(Debug)]
pub struct ActivityItem {
    pub project_id: Option<String>,
    pub source: ItemSource,
    pub kind: Option<ItemKind>,
}

/// Whether an item stands for a meeting: it came from one and is neither a note nor a task.
pub open spec fn is_meeting_record(source: ItemSource, kind: Option<ItemKind>) -> bool {
    source == ItemSource::Meeting && kind is None
}

impl ActivityItem {
    /// Whether the meeting belongs to the item's entry.
    pub fn wants_meeting(&self) -> (r: bool)
        ensures
            r == is_meeting_record(self.source, self.kind),
    {
        self.source == ItemSource::Meeting && self.kind.is_none()
    }
}

/// The projects of items, each once, in the order in which they first come.
pub open spec fn project_ids(items: Seq<ActivityItem>) -> Seq<Seq<char>>
    decreases items.len(),
{
    if items.len() == 0 {
        Seq::empty()
    } else {
        let so_far = project_ids(items.drop_last());
        match items.last().project_id {
            Some(p) => if so_far.contains(p@) {
                so_far
            } else {
                so_far.push(p@)
            },
            None => so_far,
        }
    }
}

/// The projects whose names an export needs, each once.
pub fn projects_to_resolve(items: &Vec<ActivityItem>) -> (r: Vec<String>)
    ensures
        texts(r@) == project_ids(items@),
{
    let mut out: Vec<String> = Vec::new();
    let mut i: usize = 0;
    assert(texts(out@) == project_ids(items@.take(0)));
    while i < items.len()
        invariant
            i <= items@.len(),
            texts(out@) == project_ids(items@.take(i as int)),
        decreases items@.len() - i,
    {
        assert(items@.take(i + 1).drop_last() == items@.take(i as int));
        if let Some(p) = &items[i].project_id {
            if !holds_text(&out, p.as_str()) {
                let ghost was = texts(out@);
                out.push(p.clone());
                assert(texts(out@) == was.push(p@));
            }
        }
        i = i + 1;
    }
    assert(items@.take(i as int) == items@);
    out
}

/// A project with its name.
#[derive(Debug)]
pub struct ProjectName {
    pub id: String,
    pub name: String,
}

/// The name of a project among those that could be resolved.
pub open spec fn name_among(names: Seq<ProjectName>, id: Seq<char>) -> Option<Seq<char>>
    decreases names.len(),
{
    if names.len() == 0 {
        None
    } else if names[0].id@ == id {
        Some(names[0].name@)
    } else {
        name_among(names.drop_first(), id)
    }
}

/// The name of a project, where there is one.
pub open spec fn name_for(project_id: Option<Seq<char>>, names: Seq<ProjectName>) -> Option<
    Seq<char>,
> {
    match project_id {
        Some(p) => name_among(names, p),
        None => None,
    }
}

/// The name of the item's project, where it has one that could be resolved.
pub fn project_name_of(item: &ActivityItem, names: &Vec<ProjectName>) -> (r: Option<String>)
    ensures
        opt_text(r) == name_for(opt_text(item.project_id), names@),
{
    match &item.project_id {
        None => None,
        Some(p) => {
            let mut i: usize = 0;
            assert(names@.skip(0) == names@);
            while i < names.len()
                invariant
                    i <= names@.len(),
                    item.project_id == Some(*p),
                    name_among(names@, p@) == name_among(names@.skip(i as int), p@),
                decreases names@.len() - i,
            {
                assert(names@.skip(i as int)[0] == names@[i as int]);
                assert(names@.skip(i as int).drop_first() == names@.skip(i + 1));
                if same(names[i].id.as_str(), p.as_str()) {
                    return Some(names[i].name.clone());
                }
                i = i + 1;
            }
            None
        },
    }
}

/// Every project that an item belongs to is resolved, none twice, and no other.
pub proof fn law_each_project_is_resolved_once(items: Seq<ActivityItem>)
    ensures
        project_ids(items).no_duplicates(),
        forall|p: Seq<char>| #[trigger]
            project_ids(items).contains(p) <==> exists|i: int|
                0 <= i < items.len() && opt_text((#[trigger] items[i]).project_id) == Some(p),
    decreases items.len(),
{
    if items.len() > 0 {
        let front = items.drop_last();
        law_each_project_is_resolved_once(front);
        let a = project_ids(front);
        let b = project_ids(items);
        assert forall|p: Seq<char>| #[trigger] b.contains(p) <==> exists|i: int|
            0 <= i < items.len() && opt_text((#[trigger] items[i]).project_id) == Some(p) by {
            if b.contains(p) {
                if a.contains(p) {
                    let i = choose|i: int|
                        0 <= i < front.len() && opt_text((#[trigger] front[i]).project_id) == Some(
                            p,
                        );
                    assert(items[i] == front[i]);
                } else {
                    let k = choose|k: int| 0 <= k < b.len() && b[k] == p;
                    if k < a.len() {
                        assert(a[k] == p);
                    }
                    assert(opt_text(items[items.len() - 1].project_id) == Some(p));
                }
            }
            if exists|i: int|
                0 <= i < items.len() && opt_text((#[trigger] items[i]).project_id) == Some(p) {
                let i = choose|i: int|
                    0 <= i < items.len() && opt_text((#[trigger] items[i]).project_id) == Some(p);
                if i < front.len() {
                    assert(opt_text(front[i].project_id) == Some(p));
                    assert(a.contains(p));
                    let k = choose|k: int| 0 <= k < a.len() && a[k] == p;
                    assert(b[k] == p);
                } else if !a.contains(p) {
                    assert(b[b.len() - 1] == p);
                }
            }
        }
    }
}

/// The formats, as they are asked for and as files end in them.
pub proof fn law_formats_in_words()
    ensures
        format_name(ActivityFormat::Markdown) == seq!['m', 'a', 'r', 'k', 'd', 'o', 'w', 'n'],
        format_name(ActivityFormat::Csv) == seq!['c', 's', 'v'],
        format_extension(ActivityFormat::Markdown) == seq!['m', 'd'],
        format_extension(ActivityFormat::Csv) == seq!['c', 's', 'v'],
{
    reveal_strlit("markdown");
    assert("markdown"@ =~= seq!['m', 'a', 'r', 'k', 'd', 'o', 'w', 'n']);
    reveal_strlit("csv");
    assert("csv"@ =~= seq!['c', 's', 'v']);
    reveal_strlit("md");
    assert("md"@ =~= seq!['m', 'd']);
}

/// An export that is made at a moment is named after its day, its hour and its minute: of
/// `2026-01-31T10:05` it is `2026-01-31-1005`.
pub proof fn law_export_is_named_after_its_moment(
    day: Seq<char>,
    hour: Seq<char>,
    minute: Seq<char>,
    rest: Seq<char>,
    format: ActivityFormat,
)
    requires
        is_ascii_chars(day) && day.len() == 10,
        is_ascii_chars(hour) && hour.len() == 2,
        is_ascii_chars(minute) && minute.len() == 2,
    ensures
        ({
            let now = day + seq!['T'] + hour + seq![':'] + minute + rest;
            &&& stamp_of(now) == day + seq!['-'] + hour + minute
            &&& export_name(now, format) == seq![
                'e', 'c', 'h', 'o', '-', 's', 'c', 'r', 'i', 'b', 'e', '-', 'a', 'c', 't', 'i',
                'v', 'i', 't', 'y', '-',
            ] + (day + seq!['-'] + hour
                + minute) + seq!['.'] + format_extension(format)
        }),
{
    reveal_strlit("echo-scribe-activity-");
    assert("echo-scribe-activity-"@ =~= seq![
        'e', 'c', 'h', 'o', '-', 's', 'c', 'r', 'i', 'b', 'e', '-', 'a', 'c', 't', 'i', 'v', 'i',
        't', 'y', '-',
    ]);
    reveal_strlit("-");
    assert("-"@ =~= seq!['-']);
    reveal_strlit(".");
    assert("."@ =~= seq!['.']);
    let none = Seq::<char>::empty();
    let a = day + seq!['T'];
    let b = a + hour;
    let c = b + seq![':'];
    let d = c + minute;
    let now = d + rest;
    assert(is_ascii_chars(a));
    assert(is_ascii_chars(b));
    assert(is_ascii_chars(c));
    assert(is_ascii_chars(d));
    is_ascii_chars_encode_utf8(day);
    is_ascii_chars_encode_utf8(a);
    is_ascii_chars_encode_utf8(b);
    is_ascii_chars_encode_utf8(c);
    is_ascii_chars_encode_utf8(d);
    is_ascii_chars_encode_utf8(none);
    law_slice_is_what_stands_between(none, day, now.skip(10));
    assert(none + day + now.skip(10) =~= now);
    assert(none + day =~= day);
    law_slice_is_what_stands_between(a, hour, now.skip(13));
    assert(a + hour + now.skip(13) =~= now);
    law_slice_is_what_stands_between(c, minute, rest);
}

/// An item shows the name of its project, the first with its id; it shows none where it has no
/// project or that has no name.
pub proof fn law_project_is_named_by_its_id(names: Seq<ProjectName>, id: Seq<char>, k: int)
    requires
        0 <= k <= names.len(),
        forall|j: int| 0 <= j < k ==> (#[trigger] names[j]).id@ != id,
    ensures
        name_for(None, names) is None,
        k == names.len() ==> name_for(Some(id), names) is None,
        k < names.len() && names[k].id@ == id ==> name_for(Some(id), names) == Some(names[k].name@),
    decreases names.len(),
{
    if names.len() > 0 && k > 0 {
        let rest = names.drop_first();
        assert(names[0].id@ != id);
        assert forall|j: int| 0 <= j < k - 1 implies (#[trigger] rest[j]).id@ != id by {
            assert(rest[j] == names[j + 1]);
        }
        law_project_is_named_by_its_id(rest, id, k - 1);
    }
}

/// Meetings are told by their source, unless they are filed as a note or a task.
pub proof fn law_meeting_records(source: ItemSource, kind: Option<ItemKind>)
    ensures
        is_meeting_record(source, kind) ==> source == ItemSource::Meeting,
        source == ItemSource::Meeting ==> (is_meeting_record(source, kind) <==> kind is None),
{
}

/// A project comes with its first item, behind the projects before it.
pub proof fn law_projects_come_with_their_first_item(items: Seq<ActivityItem>, x: ActivityItem)
    ensures
        project_ids(Seq::empty()).len() == 0,
        x.project_id is None ==> project_ids(items.push(x)) == project_ids(items),
        x.project_id matches Some(p) ==> {
            &&& (exists|i: int|
                0 <= i < items.len() && opt_text((#[trigger] items[i]).project_id) == Some(p@))
                ==> project_ids(items.push(x)) == project_ids(items)
            &&& (forall|i: int|
                0 <= i < items.len() ==> opt_text((#[trigger] items[i]).project_id) != Some(p@))
                ==> project_ids(items.push(x)) == project_ids(items).push(p@)
        },
{
    assert(items.push(x).drop_last() =~= items);
    law_each_project_is_resolved_once(items);
}

/// A moment of which nothing can be made is noughts in the name of an export.
pub proof fn law_unreadable_moments_are_noughts(now: Seq<char>)
    requires
        is_ascii_chars(now),
        now.len() < 10,
    ensures
        stamp_of(now) == seq![
            '0', '0', '0', '0', '-', '0', '0', '-', '0', '0', '-', '0', '0', '0', '0',
        ],
{
    reveal_strlit("0000-00-00");
    assert("0000-00-00"@ =~= seq!['0', '0', '0', '0', '-', '0', '0', '-', '0', '0']);
    reveal_strlit("-");
    assert("-"@ =~= seq!['-']);
    reveal_strlit("00");
    assert("00"@ =~= seq!['0', '0']);
    is_ascii_chars_encode_utf8(now);
    lemma_no_cut(now, 10);
    lemma_no_cut(now, 13);
    lemma_no_cut(now, 16);
    assert(stamp_of(now) =~= seq![
        '0', '0', '0', '0', '-', '0', '0', '-', '0', '0', '-', '0', '0', '0', '0',
    ]);
}

proof fn lemma_no_cut(s: Seq<char>, n: int)
    requires
        is_ascii_chars(s),
        s.len() < n,
    ensures
        after_bytes(s, n) is None,
{
    law_bytes_are_those_of_the_encoding(s, s, s, n);
    if let Some(t) = after_bytes(s, n) {
        let front = s.take(s.len() - t.len());
        assert(is_ascii_chars(front));
        is_ascii_chars_encode_utf8(front);
    }
}

} // verus!
