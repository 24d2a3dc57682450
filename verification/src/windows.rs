//! The application's windows: what the editor's are called and told, and what the overlays of a
//! recording do.
use vstd::prelude::*;
use vstd::string::*;

use crate::json::{json_text, json_tree, print_json, Json, JsonTree};
use crate::search::{kept, lemma_kept};
use crate::split::{nonblank, trim_to_option, trimmed};
use crate::text::{chars_of, glue, glue3, is_ascii_alnum, is_ascii_alphanumeric, opt_str, same};

verus! {

// ----- the editor -----

/// The characters that a window's label may take over from an id.
pub open spec fn is_label_char(c: char) -> bool {
    is_ascii_alnum(c) || c == '-' || c == '_'
}

/// The label of the window that edits a recording.
pub open spec fn label_of(id: Seq<char>) -> Seq<char> {
    "editor-"@ + kept(id, |c: char| is_label_char(c))
}

/// The label of the window that edits a recording: one window for each, so a second request finds
/// the first one's.
pub fn editor_label(id: &str) -> (r: String)
    ensures
        r@ == label_of(id@),
{
    let v = chars_of(id);
    let ghost keep = |c: char| is_label_char(c);
    let mut safe = String::new();
    let mut i: usize = 0;
    assert(v@.take(0).len() == 0);
    while i < v.len()
        invariant
            i <= v@.len(),
            keep == (|c: char| is_label_char(c)),
            safe@ == kept(v@.take(i as int), keep),
        decreases v@.len() - i,
    {
        proof {
            assert(v@.take(i + 1).drop_last() == v@.take(i as int));
            assert(keep(v@[i as int]) == is_label_char(v@[i as int]));
        }
        if is_ascii_alphanumeric(v[i]) || v[i] == '-' || v[i] == '_' {
            safe.push(v[i]);
        }
        i = i + 1;
    }
    assert(v@.take(i as int) == v@);
    glue("editor-", safe.as_str())
}

/// A label holds nothing but what labels may hold, whatever the id is.
pub proof fn law_labels_are_valid(id: Seq<char>, i: int)
    requires
        0 <= i < label_of(id).len(),
    ensures
        is_label_char(label_of(id)[i]),
{
    reveal_strlit("editor-");
    let keep = |c: char| is_label_char(c);
    lemma_kept(id, keep);
    if i >= 7 {
        let k = kept(id, keep);
        assert(label_of(id)[i] == k[i - 7]);
        assert(keep(k[i - 7]));
    }
}

/// The title of an editor's window.
pub open spec fn title_for(title: Option<Seq<char>>) -> Seq<char> {
    match title {
        Some(t) if nonblank(t) is Some => "Edit — "@ + nonblank(t)->0,
        _ => "Edit recording"@,
    }
}

/// An editor's window shows the title of its recording, trimmed, where there is any.
pub proof fn law_editor_shows_the_title(title: Option<Seq<char>>)
    ensures
        title matches Some(t) ==> (trimmed(t).len() > 0 ==> title_for(title) == seq!['E', 'd', 'i', 't', ' ', '—', ' ']
            + trimmed(t)),
        title is None || trimmed(title->0).len() == 0 ==> title_for(title) == seq![
            'E', 'd', 'i', 't', ' ', 'r', 'e', 'c', 'o', 'r', 'd', 'i', 'n', 'g',
        ],
{
    reveal_strlit("Edit — ");
    assert("Edit — "@ =~= seq!['E', 'd', 'i', 't', ' ', '—', ' ']);
    reveal_strlit("Edit recording");
    assert("Edit recording"@ =~= seq![
        'E', 'd', 'i', 't', ' ', 'r', 'e', 'c', 'o', 'r', 'd', 'i', 'n', 'g',
    ]);
}

/// An editor's window is labelled by the id of its recording: the letters, digits, dashes and
/// underscores of it, in their order, behind `editor-`.
pub proof fn law_label_follows_the_id(id: Seq<char>, c: char)
    ensures
        label_of(Seq::empty()) == seq!['e', 'd', 'i', 't', 'o', 'r', '-'],
        is_ascii_alnum(c) || c == '-' || c == '_' ==> label_of(id.push(c)) == label_of(id).push(c),
        !(is_ascii_alnum(c) || c == '-' || c == '_') ==> label_of(id.push(c)) == label_of(id),
{
    reveal_strlit("editor-");
    assert("editor-"@ =~= seq!['e', 'd', 'i', 't', 'o', 'r', '-']);
    assert(id.push(c).drop_last() =~= id);
    let none = Seq::<char>::empty();
    assert("editor-"@ + kept(none, |x: char| is_label_char(x)) =~= "editor-"@);
    if is_label_char(c) {
        assert("editor-"@ + kept(id, |x: char| is_label_char(x)).push(c) =~= label_of(id).push(c));
    }
}

/// The title of the window that edits a recording.
pub fn editor_title(title: Option<&str>) -> (r: String)
    ensures
        r@ == title_for(opt_str(title)),
{
    if let Some(t) = title {
        if let Some(x) = trim_to_option(t) {
            return glue("Edit — ", x.as_str());
        }
    }
    "Edit recording".to_owned()
}

/// The script that tells an editor its recording, given the id as a literal.
pub open spec fn script_with(literal: Seq<char>) -> Seq<char> {
    "window.__EDITOR_RECORDING_ID__ = "@ + literal + ";"@
}

/// An editor is told its recording by one assignment, and two recordings by two.
pub proof fn law_editor_is_told_its_recording(a: Seq<char>, b: Seq<char>)
    ensures
        script_with(a) == seq![
            'w', 'i', 'n', 'd', 'o', 'w', '.', '_', '_', 'E', 'D', 'I', 'T', 'O', 'R', '_', 'R',
            'E', 'C', 'O', 'R', 'D', 'I', 'N', 'G', '_', 'I', 'D', '_', '_', ' ', '=', ' ',
        ] + a + seq![';'],
        script_with(a) == script_with(b) ==> a == b,
{
    reveal_strlit("window.__EDITOR_RECORDING_ID__ = ");
    assert("window.__EDITOR_RECORDING_ID__ = "@ =~= seq![
        'w', 'i', 'n', 'd', 'o', 'w', '.', '_', '_', 'E', 'D', 'I', 'T', 'O', 'R', '_', 'R', 'E',
        'C', 'O', 'R', 'D', 'I', 'N', 'G', '_', 'I', 'D', '_', '_', ' ', '=', ' ',
    ]);
    reveal_strlit(";");
    assert(";"@ =~= seq![';']);
    let n: int = "window.__EDITOR_RECORDING_ID__ = "@.len() as int;
    if script_with(a) == script_with(b) {
        assert(script_with(a).len() == n + a.len() + 1);
        assert(script_with(b).len() == n + b.len() + 1);
        assert(script_with(a).subrange(n, n + a.len()) =~= a);
        assert(script_with(b).subrange(n, n + b.len()) =~= b);
    }
}

/// The script by which the editor's page learns which recording it edits, given the recording's id
/// as a JSON literal.
pub fn editor_script_with(literal: &str) -> (r: String)
    ensures
        r@ == script_with(literal@),
{
    glue3("window.__EDITOR_RECORDING_ID__ = ", literal, ";")
}

/// The script by which the editor's page learns which recording it edits. The id stands in it as a
/// JSON text that is read back as the id.
pub fn editor_script(id: &str) -> (r: String)
    ensures
        r@ == script_with(json_text(JsonTree::Text(id@))),
        json_tree(json_text(JsonTree::Text(id@))) == Some(JsonTree::Text(id@)),
{
    let j = Json::Text(id.to_owned());
    let literal = print_json(&j);
    editor_script_with(literal.as_str())
}

/// What the user is told when the editor's window does not open.
pub fn editor_failure(error: &str) -> (r: String)
    ensures
        r@ == "Could not open the editor window: "@ + error@,
{
    glue("Could not open the editor window: ", error)
}

// ----- closing windows -----

/// What happens to a window that the user closes.
#[derive(Clone, Copy, PartialEq, Eq, Structural, Debug)]
pub enum CloseAction {
    /// Hide it and leave the dock; the application goes on in the menu bar.
    HideMain,
    /// Hide it, and the overlays that it opened.
    HideSetup,
    Close,
}

/// What closing a window does.
pub open spec fn closing(label: Seq<char>) -> CloseAction {
    if label == "main"@ {
        CloseAction::HideMain
    } else if label == "screenrec_setup"@ {
        CloseAction::HideSetup
    } else {
        CloseAction::Close
    }
}

/// The main window and the one that sets up a recording are only hidden; every other is closed.
pub proof fn law_only_two_windows_are_hidden(label: Seq<char>)
    ensures
        closing(label) == CloseAction::HideMain <==> label == seq!['m', 'a', 'i', 'n'],
        closing(label) == CloseAction::HideSetup <==> label == seq![
            's', 'c', 'r', 'e', 'e', 'n', 'r', 'e', 'c', '_', 's', 'e', 't', 'u', 'p',
        ],
{
    reveal_strlit("main");
    assert("main"@ =~= seq!['m', 'a', 'i', 'n']);
    reveal_strlit("screenrec_setup");
    assert("screenrec_setup"@ =~= seq![
        's', 'c', 'r', 'e', 'e', 'n', 'r', 'e', 'c', '_', 's', 'e', 't', 'u', 'p',
    ]);
    assert("main"@.len() != "screenrec_setup"@.len());
}

/// What happens to the window with that label when the user closes it.
pub fn on_close(label: &str) -> (r: CloseAction)
    ensures
        r == closing(label@),
{
    if same(label, "main") {
        CloseAction::HideMain
    } else if same(label, "screenrec_setup") {
        CloseAction::HideSetup
    } else {
        CloseAction::Close
    }
}

// ----- overlays -----

/// What the user did on an overlay.
#[derive(Clone, Copy, PartialEq, Eq, Structural, Debug)]
pub enum OverlayInput {
    AreaPicked,
    AreaCancelled,
    CountdownCancelled,
    CountdownFinished,
}

/// One thing that is done about it.
#[derive(Clone, Copy, PartialEq, Eq, Structural, Debug)]
pub enum OverlayStep {
    HideAreaPicker,
    HideCountdown,
    /// Tell the setup window the area that was picked, or that none was.
    TellArea { picked: bool },
    TellCancelled,
    TellFinished,
    ShowSetup,
}

/// What is done, in order. An overlay that was left is hidden before anything else can fail; the
/// end of a countdown hides nothing, since the setup window does so once the recording runs.
pub open spec fn steps_for(input: OverlayInput) -> Seq<OverlayStep> {
    match input {
        OverlayInput::AreaPicked => seq![
            OverlayStep::HideAreaPicker,
            OverlayStep::TellArea { picked: true },
        ],
        OverlayInput::AreaCancelled => seq![
            OverlayStep::HideAreaPicker,
            OverlayStep::TellArea { picked: false },
        ],
        OverlayInput::CountdownCancelled => seq![
            OverlayStep::HideCountdown,
            OverlayStep::TellCancelled,
            OverlayStep::ShowSetup,
        ],
        OverlayInput::CountdownFinished => seq![OverlayStep::TellFinished],
    }
}

/// What is done about an input, in order.
pub fn overlay_steps(input: OverlayInput) -> (r: Vec<OverlayStep>)
    ensures
        r@ == steps_for(input),
{
    let mut v: Vec<OverlayStep> = Vec::new();
    match input {
        OverlayInput::AreaPicked => {
            v.push(OverlayStep::HideAreaPicker);
            v.push(OverlayStep::TellArea { picked: true });
        },
        OverlayInput::AreaCancelled => {
            v.push(OverlayStep::HideAreaPicker);
            v.push(OverlayStep::TellArea { picked: false });
        },
        OverlayInput::CountdownCancelled => {
            v.push(OverlayStep::HideCountdown);
            v.push(OverlayStep::TellCancelled);
            v.push(OverlayStep::ShowSetup);
        },
        OverlayInput::CountdownFinished => {
            v.push(OverlayStep::TellFinished);
        },
    }
    assert(v@ =~= steps_for(input));
    v
}

/// A countdown is either cancelled or finished: no input tells the setup window both.
pub proof fn law_countdown_ends_once(input: OverlayInput)
    ensures
        !(steps_for(input).contains(OverlayStep::TellCancelled) && steps_for(input).contains(
            OverlayStep::TellFinished,
        )),
{
}

/// What each input of an overlay leads to. The picker is hidden whenever an area was asked for, and
/// what was picked is told; a countdown is hidden and the setup shown again only where it was
/// cancelled. Hiding comes first.
pub proof fn law_overlays_do_what_was_asked(input: OverlayInput)
    ensures
        steps_for(input).contains(OverlayStep::HideAreaPicker) <==> input == OverlayInput::AreaPicked
            || input == OverlayInput::AreaCancelled,
        steps_for(input).contains(OverlayStep::TellArea { picked: true }) <==> input
            == OverlayInput::AreaPicked,
        steps_for(input).contains(OverlayStep::TellArea { picked: false }) <==> input
            == OverlayInput::AreaCancelled,
        steps_for(input).contains(OverlayStep::HideCountdown) <==> input
            == OverlayInput::CountdownCancelled,
        steps_for(input).contains(OverlayStep::TellCancelled) <==> input
            == OverlayInput::CountdownCancelled,
        steps_for(input).contains(OverlayStep::ShowSetup) <==> input
            == OverlayInput::CountdownCancelled,
        steps_for(input).contains(OverlayStep::TellFinished) <==> input
            == OverlayInput::CountdownFinished,
        input != OverlayInput::CountdownFinished ==> steps_for(input)[0]
            == OverlayStep::HideAreaPicker || steps_for(input)[0] == OverlayStep::HideCountdown,
        steps_for(input).contains(OverlayStep::ShowSetup) ==> steps_for(input).last()
            == OverlayStep::ShowSetup,
        steps_for(input).no_duplicates(),
{
    let s = steps_for(input);
    assert(s.contains(s[0]));
    if s.len() > 1 {
        assert(s.contains(s[1]));
    }
    if s.len() > 2 {
        assert(s.contains(s[2]));
    }
}

} // verus!
