//! Projects: how what the user typed becomes what is kept.
use vstd::prelude::*;
use vstd::string::*;

use crate::ids::{is_id, new_id};
use crate::order::{
    ascending, before, insert_ascending, law_ascending_is_unique, lemma_before_irreflexive,
};
use crate::split::{nonblank, trim, trim_to_option, trimmed};
use crate::text::{lower, lowercase, opt_text, texts};

verus! {

// ----- lists of words -----

/// A word as it is kept: trimmed, and in lower case where that is asked for.
pub open spec fn kept_word(s: Seq<char>, lowercase: bool) -> Seq<char> {
    if lowercase {
        lower(trimmed(s))
    } else {
        trimmed(s)
    }
}

/// Words as they are kept, one for one.
pub open spec fn kept_words(s: Seq<Seq<char>>, lowercase: bool) -> Seq<Seq<char>> {
    s.map_values(|t: Seq<char>| kept_word(t, lowercase))
}

/// Whether a list is the ascending list of the words in `words` that are not empty.
pub open spec fn is_word_list(list: Seq<Seq<char>>, words: Seq<Seq<char>>) -> bool {
    &&& ascending(list)
    &&& forall|t: Seq<char>| #[trigger] list.contains(t) <==> (words.contains(t) && t.len() > 0)
}

/// The words that are not empty, ascending, each once.
pub fn sorted_words(words: Vec<String>) -> (r: Vec<String>)
    ensures
        is_word_list(texts(r@), texts(words@)),
{
    let ghost all = texts(words@);
    let mut out: Vec<String> = Vec::new();
    let mut i: usize = 0;
    while i < words.len()
        invariant
            i <= words@.len(),
            all == texts(words@),
            is_word_list(texts(out@), all.take(i as int)),
        decreases words@.len() - i,
    {
        let ghost was = texts(out@);
        let ghost upto = all.take(i + 1);
        let ghost here = words@[i as int]@;
        proof {
            assert(upto == all.take(i as int).push(here));
            assert forall|n: Seq<char>|
                upto.contains(n) <==> (all.take(i as int).contains(n) || n == here) by {
                if all.take(i as int).contains(n) {
                    let k = choose|k: int| 0 <= k < i && all.take(i as int)[k] == n;
                    assert(upto[k] == n);
                }
                if n == here {
                    assert(upto[i as int] == n);
                }
            }
        }
        if !words[i].as_str().is_empty() {
            insert_ascending(&mut out, words[i].clone());
        }
        proof {
            assert forall|t: Seq<char>| #[trigger] texts(out@).contains(t) <==> (upto.contains(t)
                && t.len() > 0) by {
                assert(was.contains(t) <==> (all.take(i as int).contains(t) && t.len() > 0));
            }
        }
        i = i + 1;
    }
    assert(all.take(i as int) == all);
    out
}

/// A list of words as it is kept: each trimmed, in lower case where that is asked for, without
/// empty ones, ascending, each once.
pub fn normalize_string_list(values: Vec<String>, to_lower: bool) -> (r: Vec<String>)
    ensures
        is_word_list(texts(r@), kept_words(texts(values@), to_lower)),
{
    let mut words: Vec<String> = Vec::new();
    let mut i: usize = 0;
    while i < values.len()
        invariant
            i <= values@.len(),
            words@.len() == i,
            forall|k: int|
                0 <= k < i ==> (#[trigger] words@[k])@ == kept_word(values@[k]@, to_lower),
        decreases values@.len() - i,
    {
        let t = trim(values[i].as_str());
        let w = if to_lower {
            lowercase(t.as_str())
        } else {
            t
        };
        words.push(w);
        i = i + 1;
    }
    assert(texts(words@) == kept_words(texts(values@), to_lower));
    sorted_words(words)
}

/// Keywords as they are kept.
pub fn normalize_keywords(kws: Vec<String>) -> (r: Vec<String>)
    ensures
        is_word_list(texts(r@), kept_words(texts(kws@), true)),
{
    normalize_string_list(kws, true)
}

/// The order and the repetitions of what was typed make no difference.
pub proof fn law_word_lists_are_canonical(
    a: Seq<Seq<char>>,
    b: Seq<Seq<char>>,
    x: Seq<Seq<char>>,
    y: Seq<Seq<char>>,
)
    requires
        is_word_list(a, x),
        is_word_list(b, y),
        forall|t: Seq<char>| x.contains(t) <==> y.contains(t),
    ensures
        a == b,
{
    assert forall|t: Seq<char>| a.contains(t) <==> b.contains(t) by {
        assert(a.contains(t) <==> (x.contains(t) && t.len() > 0));
        assert(b.contains(t) <==> (y.contains(t) && t.len() > 0));
    }
    law_ascending_is_unique(a, b);
}

/// A list that is kept already stays as it is.
pub proof fn law_kept_lists_stay(a: Seq<Seq<char>>, words: Seq<Seq<char>>, b: Seq<Seq<char>>)
    requires
        is_word_list(a, words),
        is_word_list(b, a),
    ensures
        b == a,
{
    assert forall|t: Seq<char>| b.contains(t) <==> a.contains(t) by {
        assert(b.contains(t) <==> (a.contains(t) && t.len() > 0));
        assert(a.contains(t) <==> (words.contains(t) && t.len() > 0));
    }
    law_ascending_is_unique(b, a);
}

// ----- projects -----

/// A project.
#[derive(Debug)]
pub struct Project {
    pub id: String,
    pub name: String,
    pub created_at: String,
    pub archived_at: Option<String>,
    pub description: Option<String>,
    pub keywords: Vec<String>,
    pub color: Option<String>,
    pub emoji: Option<String>,
    pub updated_at: Option<String>,
    pub export_folder: Option<String>,
    pub routing_aliases: Vec<String>,
    pub routing_app_hints: Vec<String>,
    pub routing_url_hints: Vec<String>,
    pub routing_window_hints: Vec<String>,
    pub routing_positive_examples: Vec<String>,
    pub routing_negative_examples: Vec<String>,
}

/// What the user gives for a new project.
#[derive(Debug)]
pub struct CreateProjectInput {
    pub name: String,
    pub description: Option<String>,
    pub keywords: Option<Vec<String>>,
    pub routing_aliases: Option<Vec<String>>,
    pub routing_app_hints: Option<Vec<String>>,
    pub routing_url_hints: Option<Vec<String>>,
    pub routing_window_hints: Option<Vec<String>>,
    pub routing_positive_examples: Option<Vec<String>>,
    pub routing_negative_examples: Option<Vec<String>>,
    pub color: Option<String>,
    pub emoji: Option<String>,
}

/// Why a project is not taken.
#[derive(Clone, Copy, PartialEq, Eq, Structural, Debug)]
pub enum ProjectProblem {
    EmptyName,
}

impl ProjectProblem {
    /// What the user is told.
    pub fn message(&self) -> (r: String)
        ensures
            r@ == "Project name cannot be empty."@,
    {
        "Project name cannot be empty.".to_owned()
    }
}

/// An optional text that is kept only where more than white space is in it.
pub open spec fn kept_text(o: Option<String>) -> Option<Seq<char>> {
    match o {
        Some(s) => nonblank(s@),
        None => None,
    }
}

fn keep_text(o: Option<String>) -> (r: Option<String>)
    ensures
        opt_text(r) == kept_text(o),
{
    match o {
        Some(s) => trim_to_option(s.as_str()),
        None => None,
    }
}

/// The texts of an optional list; none where there is no list.
pub open spec fn listed_texts(o: Option<Vec<String>>) -> Seq<Seq<char>> {
    match o {
        Some(v) => texts(v@),
        None => Seq::empty(),
    }
}

fn keep_list(o: Option<Vec<String>>, to_lower: bool) -> (r: Vec<String>)
    ensures
        is_word_list(texts(r@), kept_words(listed_texts(o), to_lower)),
{
    match o {
        Some(v) => normalize_string_list(v, to_lower),
        None => {
            let v: Vec<String> = Vec::new();
            assert(texts(v@) == Seq::<Seq<char>>::empty());
            normalize_string_list(v, to_lower)
        },
    }
}

/// Whether a project is what was asked for, under the given id and at the given time.
pub open spec fn is_project_of(p: Project, input: CreateProjectInput, now: Seq<char>) -> bool {
    &&& p.name@ == trimmed(input.name@)
    &&& p.created_at@ == now
    &&& p.archived_at is None
    &&& opt_text(p.description) == kept_text(input.description)
    &&& is_word_list(texts(p.keywords@), kept_words(listed_texts(input.keywords), true))
    &&& opt_text(p.color) == kept_text(input.color)
    &&& opt_text(p.emoji) == kept_text(input.emoji)
    &&& opt_text(p.updated_at) == Some(now)
    &&& p.export_folder is None
    &&& is_word_list(
        texts(p.routing_aliases@),
        kept_words(listed_texts(input.routing_aliases), true),
    )
    &&& is_word_list(
        texts(p.routing_app_hints@),
        kept_words(listed_texts(input.routing_app_hints), false),
    )
    &&& is_word_list(
        texts(p.routing_url_hints@),
        kept_words(listed_texts(input.routing_url_hints), true),
    )
    &&& is_word_list(
        texts(p.routing_window_hints@),
        kept_words(listed_texts(input.routing_window_hints), true),
    )
    &&& is_word_list(
        texts(p.routing_positive_examples@),
        kept_words(listed_texts(input.routing_positive_examples), false),
    )
    &&& is_word_list(
        texts(p.routing_negative_examples@),
        kept_words(listed_texts(input.routing_negative_examples), false),
    )
}

/// A new project under the given id. One without a name is refused.
pub fn project_with_id(input: CreateProjectInput, id: String, now: &str) -> (r: Result<
    Project,
    ProjectProblem,
>)
    ensures
        match r {
            Ok(p) => trimmed(input.name@).len() > 0 && p.id == id && is_project_of(p, input, now@),
            Err(_) => trimmed(input.name@).len() == 0,
        },
{
    let name = trim(input.name.as_str());
    if name.as_str().is_empty() {
        return Err(ProjectProblem::EmptyName);
    }
    Ok(
        Project {
            id,
            name,
            created_at: now.to_owned(),
            archived_at: None,
            description: keep_text(input.description),
            keywords: keep_list(input.keywords, true),
            color: keep_text(input.color),
            emoji: keep_text(input.emoji),
            updated_at: Some(now.to_owned()),
            export_folder: None,
            routing_aliases: keep_list(input.routing_aliases, true),
            routing_app_hints: keep_list(input.routing_app_hints, false),
            routing_url_hints: keep_list(input.routing_url_hints, true),
            routing_window_hints: keep_list(input.routing_window_hints, true),
            routing_positive_examples: keep_list(input.routing_positive_examples, false),
            routing_negative_examples: keep_list(input.routing_negative_examples, false),
        },
    )
}

/// A new project, under a fresh id. One without a name is refused.
pub fn create_project(input: CreateProjectInput, now: &str) -> (r: Result<Project, ProjectProblem>)
    ensures
        match r {
            Ok(p) => trimmed(input.name@).len() > 0 && is_id(p.id@) && is_project_of(
                p,
                input,
                now@,
            ),
            Err(_) => trimmed(input.name@).len() == 0,
        },
{
    project_with_id(input, new_id(), now)
}

// ----- changes -----

/// What is to change of a project; what is `None` stays, and an inner `None` clears.
#[derive(Debug)]
pub struct ProjectPatch {
    pub name: Option<String>,
    pub description: Option<Option<String>>,
    pub keywords: Option<Vec<String>>,
    pub color: Option<Option<String>>,
    pub emoji: Option<Option<String>>,
    pub routing_aliases: Option<Vec<String>>,
    pub routing_app_hints: Option<Vec<String>>,
    pub routing_url_hints: Option<Vec<String>>,
    pub routing_window_hints: Option<Vec<String>>,
    pub routing_positive_examples: Option<Vec<String>>,
    pub routing_negative_examples: Option<Vec<String>>,
}

/// A change of one project.
#[derive(Debug)]
pub struct UpdateProjectInput {
    pub id: String,
    pub patch: ProjectPatch,
}

/// Whether a change of a text is kept as it should be: a text of nothing but white space clears.
pub open spec fn is_kept_change(r: Option<Option<String>>, o: Option<Option<String>>) -> bool {
    match o {
        None => r is None,
        Some(x) => r is Some && opt_text(r->0) == kept_text(x),
    }
}

/// Whether a change of a list is kept as it should be.
pub open spec fn is_kept_list(r: Option<Vec<String>>, o: Option<Vec<String>>, to_lower: bool) -> bool {
    match o {
        None => r is None,
        Some(v) => r is Some && is_word_list(texts(r->0@), kept_words(texts(v@), to_lower)),
    }
}

fn keep_change(o: Option<Option<String>>) -> (r: Option<Option<String>>)
    ensures
        is_kept_change(r, o),
{
    match o {
        None => None,
        Some(x) => Some(keep_text(x)),
    }
}

fn keep_list_change(o: Option<Vec<String>>, to_lower: bool) -> (r: Option<Vec<String>>)
    ensures
        is_kept_list(r, o, to_lower),
{
    match o {
        None => None,
        Some(v) => Some(normalize_string_list(v, to_lower)),
    }
}

/// Whether a patch is what was asked for, as it is kept.
pub open spec fn is_kept_patch(r: ProjectPatch, p: ProjectPatch) -> bool {
    &&& match p.name {
        None => r.name is None,
        Some(n) => opt_text(r.name) == Some(trimmed(n@)),
    }
    &&& is_kept_change(r.description, p.description)
    &&& is_kept_change(r.color, p.color)
    &&& is_kept_change(r.emoji, p.emoji)
    &&& is_kept_list(r.keywords, p.keywords, true)
    &&& is_kept_list(r.routing_aliases, p.routing_aliases, true)
    &&& is_kept_list(r.routing_app_hints, p.routing_app_hints, false)
    &&& is_kept_list(r.routing_url_hints, p.routing_url_hints, true)
    &&& is_kept_list(r.routing_window_hints, p.routing_window_hints, true)
    &&& is_kept_list(r.routing_positive_examples, p.routing_positive_examples, false)
    &&& is_kept_list(r.routing_negative_examples, p.routing_negative_examples, false)
}

/// Whether a patch takes the project's name away.
pub open spec fn unnames(p: ProjectPatch) -> bool {
    p.name matches Some(n) && trimmed(n@).len() == 0
}

/// A patch as it is kept. One that takes the name away is refused.
pub fn normalize_patch(patch: ProjectPatch) -> (r: Result<ProjectPatch, ProjectProblem>)
    ensures
        match r {
            Ok(p) => !unnames(patch) && is_kept_patch(p, patch),
            Err(_) => unnames(patch),
        },
{
    let name = match patch.name {
        None => None,
        Some(n) => {
            let t = trim(n.as_str());
            if t.as_str().is_empty() {
                return Err(ProjectProblem::EmptyName);
            }
            Some(t)
        },
    };
    Ok(
        ProjectPatch {
            name,
            description: keep_change(patch.description),
            keywords: keep_list_change(patch.keywords, true),
            color: keep_change(patch.color),
            emoji: keep_change(patch.emoji),
            routing_aliases: keep_list_change(patch.routing_aliases, true),
            routing_app_hints: keep_list_change(patch.routing_app_hints, false),
            routing_url_hints: keep_list_change(patch.routing_url_hints, true),
            routing_window_hints: keep_list_change(patch.routing_window_hints, true),
            routing_positive_examples: keep_list_change(patch.routing_positive_examples, false),
            routing_negative_examples: keep_list_change(patch.routing_negative_examples, false),
        },
    )
}

/// Whether a change is a new name and nothing else.
pub open spec fn is_renaming(r: ProjectPatch, name: String) -> bool {
    &&& r.name == Some(name)
    &&& r.description is None
    &&& r.keywords is None
    &&& r.color is None
    &&& r.emoji is None
    &&& r.routing_aliases is None
    &&& r.routing_app_hints is None
    &&& r.routing_url_hints is None
    &&& r.routing_window_hints is None
    &&& r.routing_positive_examples is None
    &&& r.routing_negative_examples is None
}

/// A project that is renamed is kept as it is but for its name, which is trimmed; an empty name is
/// refused.
pub proof fn law_renaming_touches_the_name_alone(
    r: ProjectPatch,
    name: String,
    kept: ProjectPatch,
)
    requires
        is_renaming(r, name),
        is_kept_patch(kept, r),
    ensures
        opt_text(kept.name) == Some(trimmed(name@)),
        unnames(r) <==> nonblank(name@) is None,
        kept.description is None && kept.color is None && kept.emoji is None,
        kept.keywords is None && kept.routing_aliases is None && kept.routing_app_hints is None,
        kept.routing_url_hints is None && kept.routing_window_hints is None,
        kept.routing_positive_examples is None && kept.routing_negative_examples is None,
{
}

/// The patch that gives a project another name and leaves the rest.
pub fn rename_patch(name: String) -> (r: ProjectPatch)
    ensures
        is_renaming(r, name),
{
    ProjectPatch {
        name: Some(name),
        description: None,
        keywords: None,
        color: None,
        emoji: None,
        routing_aliases: None,
        routing_app_hints: None,
        routing_url_hints: None,
        routing_window_hints: None,
        routing_positive_examples: None,
        routing_negative_examples: None,
    }
}

/// Whether a list holds a text exactly where some of what was typed comes to it, trimmed.
pub open spec fn gathers(list: Seq<Seq<char>>, typed: Seq<Seq<char>>, t: Seq<char>) -> bool {
    list.contains(t) <==> t.len() > 0 && exists|i: int|
        0 <= i < typed.len() && trimmed(#[trigger] typed[i]) == t
}

/// Whether a list holds a text exactly where some of what was typed comes to it, trimmed and in lower
/// case.
pub open spec fn gathers_lowered(list: Seq<Seq<char>>, typed: Seq<Seq<char>>, t: Seq<char>) -> bool {
    list.contains(t) <==> t.len() > 0 && exists|i: int|
        0 <= i < typed.len() && lower(trimmed(#[trigger] typed[i])) == t
}

/// A list of words has each word that was typed, once, without the space around it and in lower case
/// where that is asked for, and nothing else.
pub proof fn law_lists_gather_what_was_typed(
    list: Seq<Seq<char>>,
    typed: Seq<Seq<char>>,
    t: Seq<char>,
)
    ensures
        is_word_list(list, kept_words(typed, false)) ==> gathers(list, typed, t)
            && list.no_duplicates(),
        is_word_list(list, kept_words(typed, true)) ==> gathers_lowered(list, typed, t)
            && list.no_duplicates(),
{
    let plain = kept_words(typed, false);
    let low = kept_words(typed, true);
    if is_word_list(list, plain) {
        lemma_ascending_distinct(list);
        if plain.contains(t) {
            let i = choose|i: int| 0 <= i < plain.len() && plain[i] == t;
            assert(trimmed(typed[i]) == t);
        }
        if exists|i: int| 0 <= i < typed.len() && trimmed(#[trigger] typed[i]) == t {
            let i = choose|i: int| 0 <= i < typed.len() && trimmed(#[trigger] typed[i]) == t;
            assert(plain[i] == t);
        }
        assert(list.contains(t) <==> plain.contains(t) && t.len() > 0);
    }
    if is_word_list(list, low) {
        lemma_ascending_distinct(list);
        if low.contains(t) {
            let i = choose|i: int| 0 <= i < low.len() && low[i] == t;
            assert(lower(trimmed(typed[i])) == t);
        }
        if exists|i: int| 0 <= i < typed.len() && lower(trimmed(#[trigger] typed[i])) == t {
            let i = choose|i: int| 0 <= i < typed.len() && lower(trimmed(#[trigger] typed[i])) == t;
            assert(low[i] == t);
        }
        assert(list.contains(t) <==> low.contains(t) && t.len() > 0);
    }
}

proof fn lemma_ascending_distinct(list: Seq<Seq<char>>)
    requires
        ascending(list),
    ensures
        list.no_duplicates(),
{
    assert forall|i: int, j: int| 0 <= i < list.len() && 0 <= j < list.len() && i != j implies list[i]
        != list[j] by {
        if i < j {
            assert(before(list[i], list[j]));
        } else {
            assert(before(list[j], list[i]));
        }
        lemma_before_irreflexive(list[i]);
    }
}

/// A new project has what was typed, each part in its own place: keywords, aliases, and hints of
/// addresses and windows in lower case, hints of applications and the examples as they were written.
/// A text that is blank is none. It is not archived, and changed when it was made.
pub proof fn law_project_keeps_what_was_typed(
    p: Project,
    input: CreateProjectInput,
    now: Seq<char>,
    t: Seq<char>,
)
    requires
        is_project_of(p, input, now),
    ensures
        p.name@ == trimmed(input.name@),
        p.created_at@ == now && opt_text(p.updated_at) == Some(now),
        p.archived_at is None && p.export_folder is None,
        gathers_lowered(texts(p.keywords@), listed_texts(input.keywords), t),
        gathers_lowered(texts(p.routing_aliases@), listed_texts(input.routing_aliases), t),
        gathers(texts(p.routing_app_hints@), listed_texts(input.routing_app_hints), t),
        gathers_lowered(texts(p.routing_url_hints@), listed_texts(input.routing_url_hints), t),
        gathers_lowered(texts(p.routing_window_hints@), listed_texts(input.routing_window_hints), t),
        gathers(
            texts(p.routing_positive_examples@),
            listed_texts(input.routing_positive_examples),
            t,
        ),
        gathers(
            texts(p.routing_negative_examples@),
            listed_texts(input.routing_negative_examples),
            t,
        ),
        opt_text(p.description) == Some(t) <==> t.len() > 0 && input.description is Some && trimmed(
            input.description->0@,
        ) == t,
        opt_text(p.color) == Some(t) <==> t.len() > 0 && input.color is Some && trimmed(
            input.color->0@,
        ) == t,
        opt_text(p.emoji) == Some(t) <==> t.len() > 0 && input.emoji is Some && trimmed(
            input.emoji->0@,
        ) == t,
{
    law_lists_gather_what_was_typed(texts(p.keywords@), listed_texts(input.keywords), t);
    law_lists_gather_what_was_typed(
        texts(p.routing_aliases@),
        listed_texts(input.routing_aliases),
        t,
    );
    law_lists_gather_what_was_typed(
        texts(p.routing_app_hints@),
        listed_texts(input.routing_app_hints),
        t,
    );
    law_lists_gather_what_was_typed(
        texts(p.routing_url_hints@),
        listed_texts(input.routing_url_hints),
        t,
    );
    law_lists_gather_what_was_typed(
        texts(p.routing_window_hints@),
        listed_texts(input.routing_window_hints),
        t,
    );
    law_lists_gather_what_was_typed(
        texts(p.routing_positive_examples@),
        listed_texts(input.routing_positive_examples),
        t,
    );
    law_lists_gather_what_was_typed(
        texts(p.routing_negative_examples@),
        listed_texts(input.routing_negative_examples),
        t,
    );
}

/// A change touches what it names and nothing else, and treats it as a new project is treated.
pub proof fn law_change_keeps_what_was_typed(r: ProjectPatch, p: ProjectPatch, t: Seq<char>)
    requires
        is_kept_patch(r, p),
    ensures
        r.name is Some <==> p.name is Some,
        r.description is Some <==> p.description is Some,
        r.color is Some <==> p.color is Some,
        r.emoji is Some <==> p.emoji is Some,
        r.keywords is Some <==> p.keywords is Some,
        r.routing_aliases is Some <==> p.routing_aliases is Some,
        r.routing_app_hints is Some <==> p.routing_app_hints is Some,
        r.routing_url_hints is Some <==> p.routing_url_hints is Some,
        r.routing_window_hints is Some <==> p.routing_window_hints is Some,
        r.routing_positive_examples is Some <==> p.routing_positive_examples is Some,
        r.routing_negative_examples is Some <==> p.routing_negative_examples is Some,
        p.name matches Some(n) ==> opt_text(r.name) == Some(trimmed(n@)),
        p.description matches Some(x) ==> (opt_text(r.description->0) == Some(t) <==> t.len() > 0
            && x is Some && trimmed(x->0@) == t),
        p.color matches Some(x) ==> (opt_text(r.color->0) == Some(t) <==> t.len() > 0 && x is Some
            && trimmed(x->0@) == t),
        p.emoji matches Some(x) ==> (opt_text(r.emoji->0) == Some(t) <==> t.len() > 0 && x is Some
            && trimmed(x->0@) == t),
        p.keywords matches Some(v) ==> gathers_lowered(texts(r.keywords->0@), texts(v@), t),
        p.routing_aliases matches Some(v) ==> gathers_lowered(
            texts(r.routing_aliases->0@),
            texts(v@),
            t,
        ),
        p.routing_app_hints matches Some(v) ==> gathers(
            texts(r.routing_app_hints->0@),
            texts(v@),
            t,
        ),
        p.routing_url_hints matches Some(v) ==> gathers_lowered(
            texts(r.routing_url_hints->0@),
            texts(v@),
            t,
        ),
        p.routing_window_hints matches Some(v) ==> gathers_lowered(
            texts(r.routing_window_hints->0@),
            texts(v@),
            t,
        ),
        p.routing_positive_examples matches Some(v) ==> gathers(
            texts(r.routing_positive_examples->0@),
            texts(v@),
            t,
        ),
        p.routing_negative_examples matches Some(v) ==> gathers(
            texts(r.routing_negative_examples->0@),
            texts(v@),
            t,
        ),
{
    if let Some(v) = p.keywords {
        law_lists_gather_what_was_typed(texts(r.keywords->0@), texts(v@), t);
    }
    if let Some(v) = p.routing_aliases {
        law_lists_gather_what_was_typed(texts(r.routing_aliases->0@), texts(v@), t);
    }
    if let Some(v) = p.routing_app_hints {
        law_lists_gather_what_was_typed(texts(r.routing_app_hints->0@), texts(v@), t);
    }
    if let Some(v) = p.routing_url_hints {
        law_lists_gather_what_was_typed(texts(r.routing_url_hints->0@), texts(v@), t);
    }
    if let Some(v) = p.routing_window_hints {
        law_lists_gather_what_was_typed(texts(r.routing_window_hints->0@), texts(v@), t);
    }
    if let Some(v) = p.routing_positive_examples {
        law_lists_gather_what_was_typed(texts(r.routing_positive_examples->0@), texts(v@), t);
    }
    if let Some(v) = p.routing_negative_examples {
        law_lists_gather_what_was_typed(texts(r.routing_negative_examples->0@), texts(v@), t);
    }
}

} // verus!
