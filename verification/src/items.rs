//! Captured items: how many are listed, what a change of one asks for, and what is noted of it.
use vstd::prelude::*;
use vstd::string::*;

use crate::text::{glue, opt_str, opt_text, same};

verus! {

// ----- lists -----

/// How many items are listed where nothing is asked for.
pub const DEFAULT_ITEM_LIMIT: u32 = 50;

/// How many items are listed at most.
pub const MAX_ITEM_LIMIT: u32 = 500;

/// How many items are listed at most where a limit is asked for.
pub open spec fn listed_at_most(limit: Option<u32>) -> int {
    match limit {
        None => 50,
        Some(n) => if n < 1 {
            1
        } else if n > 500 {
            500
        } else {
            n as int
        },
    }
}

/// A limit counts as it is asked for, from one up to five hundred; beyond these the nearest of them
/// counts, and fifty where none is asked for. Asking for more never lists fewer.
pub proof fn law_limits_are_kept(a: u32, b: u32)
    requires
        a <= b,
    ensures
        1 <= a && b <= 500 ==> listed_at_most(Some(a)) == a && listed_at_most(Some(b)) == b,
        listed_at_most(Some(a)) <= listed_at_most(Some(b)),
        1 <= listed_at_most(Some(a)) <= 500,
        listed_at_most(None) == 50,
{
}

/// How many items are listed: what was asked for, but at least one and at most [`MAX_ITEM_LIMIT`].
pub fn clamp_limit(limit: Option<u32>) -> (r: u32)
    ensures
        1 <= r <= MAX_ITEM_LIMIT,
        match limit {
            None => r == DEFAULT_ITEM_LIMIT,
            Some(n) => 1 <= n <= MAX_ITEM_LIMIT ==> r == n,
        },
        limit == Some(0u32) ==> r == 1,
        limit matches Some(n) && n > MAX_ITEM_LIMIT ==> r == MAX_ITEM_LIMIT,
        r == listed_at_most(limit),
{
    let n: u32 = match limit {
        Some(n) => n,
        None => DEFAULT_ITEM_LIMIT,
    };
    if n < 1 {
        1
    } else if n > MAX_ITEM_LIMIT {
        MAX_ITEM_LIMIT
    } else {
        n
    }
}

// ----- kinds and sources -----

/// What an item is.
#[derive(Clone, Copy, PartialEq, Eq, Structural, Debug)]
pub enum ItemKind {
    Note,
    Task,
}

impl ItemKind {
    /// The name of a kind.
    pub open spec fn name(self) -> Seq<char> {
        match self {
            ItemKind::Note => "note"@,
            ItemKind::Task => "task"@,
        }
    }

    /// The name of a kind.
    pub fn as_str(self) -> (r: &'static str)
        ensures
            r@ == self.name(),
    {
        match self {
            ItemKind::Note => "note",
            ItemKind::Task => "task",
        }
    }

    /// The kind of that name.
    pub fn parse(s: &str) -> (r: Option<ItemKind>)
        ensures
            match r {
                Some(k) => k.name() == s@,
                None => forall|k: ItemKind| k.name() != s@,
            },
    {
        if same(s, "note") {
            Some(ItemKind::Note)
        } else if same(s, "task") {
            Some(ItemKind::Task)
        } else {
            None
        }
    }
}

/// The kind of that name, or what is wrong with it.
pub fn required_kind(kind: &str) -> (r: Result<ItemKind, String>)
    ensures
        match r {
            Ok(k) => k.name() == kind@,
            Err(e) => (forall|k: ItemKind| k.name() != kind@) && e@ == "invalid kind: "@ + kind@,
        },
{
    match ItemKind::parse(kind) {
        Some(k) => Ok(k),
        None => Err(glue("invalid kind: ", kind)),
    }
}

/// Where an item came from.
#[derive(Clone, Copy, PartialEq, Eq, Structural, Debug)]
pub enum ItemSource {
    VoiceAtCursor,
    LogCapture,
    Meeting,
}

/// The name of a source.
pub open spec fn source_name(s: ItemSource) -> Seq<char> {
    match s {
        ItemSource::VoiceAtCursor => "voice_at_cursor"@,
        ItemSource::LogCapture => "log_capture"@,
        ItemSource::Meeting => "meeting"@,
    }
}

/// The source whose items are tagged again: dictations where none is named.
pub fn backfill_source(source: Option<&str>) -> (r: Result<ItemSource, String>)
    ensures
        match opt_str(source) {
            None => r == Ok::<ItemSource, String>(ItemSource::VoiceAtCursor),
            Some(s) => match r {
                Ok(x) => source_name(x) == s,
                Err(e) => (forall|x: ItemSource| source_name(x) != s) && e@ == "invalid source: "@
                    + s,
            },
        },
{
    match source {
        None => Ok(ItemSource::VoiceAtCursor),
        Some(s) => if same(s, "voice_at_cursor") {
            Ok(ItemSource::VoiceAtCursor)
        } else if same(s, "log_capture") {
            Ok(ItemSource::LogCapture)
        } else if same(s, "meeting") {
            Ok(ItemSource::Meeting)
        } else {
            Err(glue("invalid source: ", s))
        },
    }
}

/// How many items are tagged again where nothing is asked for.
pub const DEFAULT_BACKFILL_LIMIT: u32 = 500;

// ----- changes -----

/// A change of one item; what is `None` stays.
#[derive(Debug)]
pub struct UpdateItemArgs {
    pub id: String,
    pub content: Option<String>,
    /// An inner `None` takes the item out of its project.
    pub project_id: Option<Option<String>>,
    /// An empty text clears the kind.
    pub kind: Option<String>,
    /// The whole new set of tags.
    pub tags: Option<Vec<String>>,
}

/// Whether `r` is what a change makes of an item's kind, given the word for it.
pub open spec fn is_kind_change(
    r: Result<Option<Option<ItemKind>>, String>,
    kind: Option<Seq<char>>,
) -> bool {
    match kind {
        None => r == Ok::<Option<Option<ItemKind>>, String>(None),
        Some(k) => if k.len() == 0 {
            r == Ok::<Option<Option<ItemKind>>, String>(Some(None))
        } else {
            match r {
                Ok(Some(Some(x))) => x.name() == k,
                Ok(_) => false,
                Err(e) => (forall|x: ItemKind| x.name() != k) && e@ == "invalid kind: "@ + k,
            }
        },
    }
}

/// A kind stays where none is given, goes where an empty one is, and becomes the one that is named;
/// a word for no kind is refused.
pub proof fn law_kind_is_the_one_named(
    r: Result<Option<Option<ItemKind>>, String>,
    kind: Option<Seq<char>>,
)
    requires
        is_kind_change(r, kind),
    ensures
        kind is None <==> r == Ok::<Option<Option<ItemKind>>, String>(None),
        kind == Some(Seq::<char>::empty()) <==> r == Ok::<Option<Option<ItemKind>>, String>(
            Some(None),
        ),
        kind == Some(seq!['n', 'o', 't', 'e']) <==> r == Ok::<Option<Option<ItemKind>>, String>(
            Some(Some(ItemKind::Note)),
        ),
        kind == Some(seq!['t', 'a', 's', 'k']) <==> r == Ok::<Option<Option<ItemKind>>, String>(
            Some(Some(ItemKind::Task)),
        ),
{
    reveal_strlit("note");
    assert("note"@ =~= seq!['n', 'o', 't', 'e']);
    reveal_strlit("task");
    assert("task"@ =~= seq!['t', 'a', 's', 'k']);
    assert("note"@[0] != "task"@[0]);
    assert(ItemKind::Note.name() == "note"@ && ItemKind::Task.name() == "task"@);
    if let Some(k) = kind {
        if k.len() == 0 {
            assert(k =~= Seq::<char>::empty());
        }
    }
}

/// The change of kind that a change asks for: none, clearing it, or setting it. A kind that there
/// is not is refused.
pub fn kind_change(args: &UpdateItemArgs) -> (r: Result<Option<Option<ItemKind>>, String>)
    ensures
        is_kind_change(r, opt_text(args.kind)),
{
    match &args.kind {
        None => Ok(None),
        Some(k) => if k.as_str().is_empty() {
            Ok(Some(None))
        } else {
            match required_kind(k.as_str()) {
                Ok(x) => Ok(Some(Some(x))),
                Err(e) => Err(e),
            }
        },
    }
}

/// Something that is noted of an item.
#[derive(Debug)]
pub struct ItemNote {
    pub event: String,
    pub detail: Option<String>,
}

/// A note as plain texts.
pub open spec fn note_texts(v: Seq<ItemNote>) -> Seq<(Seq<char>, Option<Seq<char>>)> {
    v.map_values(|n: ItemNote| (n.event@, opt_text(n.detail)))
}

/// What is noted of a change: one line for each part that changes.
pub open spec fn notes_of(args: UpdateItemArgs) -> Seq<(Seq<char>, Option<Seq<char>>)> {
    let content = if args.content is Some {
        seq![("content_edited"@, None::<Seq<char>>)]
    } else {
        Seq::empty()
    };
    let kind = match args.kind {
        Some(k) => seq![
            (
                "kind_changed"@,
                Some(
                    if k@.len() == 0 {
                        "kind cleared"@
                    } else {
                        "kind set to "@ + k@
                    },
                ),
            ),
        ],
        None => Seq::empty(),
    };
    let project = match args.project_id {
        Some(Some(p)) => seq![("project_changed"@, Some("assigned to project "@ + p@))],
        Some(None) => seq![("project_changed"@, Some("removed from project"@))],
        None => Seq::empty(),
    };
    let tags = if args.tags is Some {
        seq![("tags_changed"@, None::<Seq<char>>)]
    } else {
        Seq::empty()
    };
    content + kind + project + tags
}

fn push_note(v: &mut Vec<ItemNote>, event: &str, detail: Option<String>)
    ensures
        note_texts(final(v)@) == note_texts(old(v)@).push((event@, opt_text(detail))),
{
    let ghost was = note_texts(v@);
    v.push(ItemNote { event: event.to_owned(), detail });
    assert(note_texts(v@) == was.push((event@, opt_text(detail))));
}

/// What is noted of a change.
pub fn update_notes(args: &UpdateItemArgs) -> (r: Vec<ItemNote>)
    ensures
        note_texts(r@) == notes_of(*args),
{
    let mut v: Vec<ItemNote> = Vec::new();
    if args.content.is_some() {
        push_note(&mut v, "content_edited", None);
    }
    if let Some(k) = &args.kind {
        let detail = if k.as_str().is_empty() {
            "kind cleared".to_owned()
        } else {
            glue("kind set to ", k.as_str())
        };
        push_note(&mut v, "kind_changed", Some(detail));
    }
    if let Some(p) = &args.project_id {
        let detail = match p {
            Some(pid) => glue("assigned to project ", pid.as_str()),
            None => "removed from project".to_owned(),
        };
        push_note(&mut v, "project_changed", Some(detail));
    }
    if args.tags.is_some() {
        push_note(&mut v, "tags_changed", None);
    }
    assert(note_texts(v@) =~= notes_of(*args));
    v
}

/// A change that changes nothing is not noted.
pub proof fn law_no_change_no_note(args: UpdateItemArgs)
    ensures
        notes_of(args).len() == 0 <==> args.content is None && args.kind is None
            && args.project_id is None && args.tags is None,
{
}

/// The words for kinds and sources.
pub proof fn law_kinds_and_sources_in_words()
    ensures
        ItemKind::Note.name() == seq!['n', 'o', 't', 'e'],
        ItemKind::Task.name() == seq!['t', 'a', 's', 'k'],
        source_name(ItemSource::VoiceAtCursor) == seq![
            'v', 'o', 'i', 'c', 'e', '_', 'a', 't', '_', 'c', 'u', 'r', 's', 'o', 'r',
        ],
        source_name(ItemSource::LogCapture) == seq![
            'l', 'o', 'g', '_', 'c', 'a', 'p', 't', 'u', 'r', 'e',
        ],
        source_name(ItemSource::Meeting) == seq!['m', 'e', 'e', 't', 'i', 'n', 'g'],
{
    reveal_strlit("note");
    assert("note"@ =~= seq!['n', 'o', 't', 'e']);
    reveal_strlit("task");
    assert("task"@ =~= seq!['t', 'a', 's', 'k']);
    reveal_strlit("voice_at_cursor");
    assert("voice_at_cursor"@ =~= seq![
        'v', 'o', 'i', 'c', 'e', '_', 'a', 't', '_', 'c', 'u', 'r', 's', 'o', 'r',
    ]);
    reveal_strlit("log_capture");
    assert("log_capture"@ =~= seq!['l', 'o', 'g', '_', 'c', 'a', 'p', 't', 'u', 'r', 'e']);
    reveal_strlit("meeting");
    assert("meeting"@ =~= seq!['m', 'e', 'e', 't', 'i', 'n', 'g']);
}

/// Each part of an item that is changed is noted once, and no other: what became of the kind and the
/// project is told, a new text and new tags are only mentioned.
pub proof fn law_each_change_is_noted(args: UpdateItemArgs, note: (Seq<char>, Option<Seq<char>>))
    ensures
        notes_of(args).contains(note) <==> {
            ||| args.content is Some && note == (seq![
                'c', 'o', 'n', 't', 'e', 'n', 't', '_', 'e', 'd', 'i', 't', 'e', 'd',
            ], None::<Seq<char>>)
            ||| args.tags is Some && note == (seq![
                't', 'a', 'g', 's', '_', 'c', 'h', 'a', 'n', 'g', 'e', 'd',
            ], None::<Seq<char>>)
            ||| (args.kind matches Some(k) && k@.len() == 0 && note == (
                seq!['k', 'i', 'n', 'd', '_', 'c', 'h', 'a', 'n', 'g', 'e', 'd'],
                Some(seq!['k', 'i', 'n', 'd', ' ', 'c', 'l', 'e', 'a', 'r', 'e', 'd']),
            ))
            ||| (args.kind matches Some(k) && k@.len() > 0 && note == (
                seq!['k', 'i', 'n', 'd', '_', 'c', 'h', 'a', 'n', 'g', 'e', 'd'],
                Some(seq!['k', 'i', 'n', 'd', ' ', 's', 'e', 't', ' ', 't', 'o', ' '] + k@),
            ))
            ||| args.project_id == Some(None::<String>) && note == (
                seq!['p', 'r', 'o', 'j', 'e', 'c', 't', '_', 'c', 'h', 'a', 'n', 'g', 'e', 'd'],
                Some(seq![
                    'r', 'e', 'm', 'o', 'v', 'e', 'd', ' ', 'f', 'r', 'o', 'm', ' ', 'p', 'r', 'o',
                    'j', 'e', 'c', 't',
                ]),
            )
            ||| (args.project_id matches Some(Some(p)) && note == (
                seq!['p', 'r', 'o', 'j', 'e', 'c', 't', '_', 'c', 'h', 'a', 'n', 'g', 'e', 'd'],
                Some(seq![
                    'a', 's', 's', 'i', 'g', 'n', 'e', 'd', ' ', 't', 'o', ' ', 'p', 'r', 'o', 'j',
                    'e', 'c', 't', ' ',
                ] + p@),
            ))
        },
        notes_of(args).no_duplicates(),
{
    reveal_strlit("content_edited");
    assert("content_edited"@ =~= seq![
        'c', 'o', 'n', 't', 'e', 'n', 't', '_', 'e', 'd', 'i', 't', 'e', 'd',
    ]);
    reveal_strlit("tags_changed");
    assert("tags_changed"@ =~= seq!['t', 'a', 'g', 's', '_', 'c', 'h', 'a', 'n', 'g', 'e', 'd']);
    reveal_strlit("kind_changed");
    assert("kind_changed"@ =~= seq!['k', 'i', 'n', 'd', '_', 'c', 'h', 'a', 'n', 'g', 'e', 'd']);
    reveal_strlit("kind cleared");
    assert("kind cleared"@ =~= seq!['k', 'i', 'n', 'd', ' ', 'c', 'l', 'e', 'a', 'r', 'e', 'd']);
    reveal_strlit("kind set to ");
    assert("kind set to "@ =~= seq!['k', 'i', 'n', 'd', ' ', 's', 'e', 't', ' ', 't', 'o', ' ']);
    reveal_strlit("project_changed");
    assert("project_changed"@ =~= seq![
        'p', 'r', 'o', 'j', 'e', 'c', 't', '_', 'c', 'h', 'a', 'n', 'g', 'e', 'd',
    ]);
    reveal_strlit("removed from project");
    assert("removed from project"@ =~= seq![
        'r', 'e', 'm', 'o', 'v', 'e', 'd', ' ', 'f', 'r', 'o', 'm', ' ', 'p', 'r', 'o', 'j', 'e',
        'c', 't',
    ]);
    reveal_strlit("assigned to project ");
    assert("assigned to project "@ =~= seq![
        'a', 's', 's', 'i', 'g', 'n', 'e', 'd', ' ', 't', 'o', ' ', 'p', 'r', 'o', 'j', 'e', 'c',
        't', ' ',
    ]);
    let s = notes_of(args);
    let one = |b: bool|
        if b {
            1int
        } else {
            0
        };
    let a = one(args.content is Some);
    let b = one(args.kind is Some);
    let c = one(args.project_id is Some);
    assert(s.len() == a + b + c + one(args.tags is Some));
    if args.content is Some {
        assert(s[0] == (seq![
            'c', 'o', 'n', 't', 'e', 'n', 't', '_', 'e', 'd', 'i', 't', 'e', 'd',
        ], None::<Seq<char>>));
    }
    if let Some(k) = args.kind {
        assert(s[a] == (
            seq!['k', 'i', 'n', 'd', '_', 'c', 'h', 'a', 'n', 'g', 'e', 'd'],
            Some(
                if k@.len() == 0 {
                    seq!['k', 'i', 'n', 'd', ' ', 'c', 'l', 'e', 'a', 'r', 'e', 'd']
                } else {
                    seq!['k', 'i', 'n', 'd', ' ', 's', 'e', 't', ' ', 't', 'o', ' '] + k@
                },
            ),
        ));
    }
    if args.project_id is Some {
        assert(s[a + b].0 == seq![
            'p', 'r', 'o', 'j', 'e', 'c', 't', '_', 'c', 'h', 'a', 'n', 'g', 'e', 'd',
        ]);
    }
    if args.tags is Some {
        assert(s[a + b + c] == (seq![
            't', 'a', 'g', 's', '_', 'c', 'h', 'a', 'n', 'g', 'e', 'd',
        ], None::<Seq<char>>));
    }
    assert("content_edited"@[0] == 'c' && "kind_changed"@[0] == 'k' && "project_changed"@[0] == 'p'
        && "tags_changed"@[0] == 't');
}

} // verus!
