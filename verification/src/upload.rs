//! Uploading a recording: which file is sent, the order of the work, and what is said when it
//! fails.
use vstd::prelude::*;
use vstd::string::*;

use crate::exports::{entries, path_of, rendered_path};
use crate::recordings::{transcode_file_name, transcode_name};
use crate::search::{begins_with, contains, lemma_occurs_at, occurs_in};
use crate::text::{glue3, opt_text, same};

verus! {

/// Which file an upload sends.
#[derive(Debug)]
pub enum UploadSource {
    /// The edited version was asked for, and none is recorded.
    NoRender,
    /// The edited version, at this path.
    Rendered(String),
    /// The recording itself.
    Original,
    /// A transcode, under this name in the recordings folder.
    Transcode(String),
}

/// The kinds of [`UploadSource`].
#[derive(Clone, Copy, PartialEq, Eq, Structural, Debug)]
pub enum SourceKind {
    NoRender,
    Rendered,
    Original,
    Transcode,
}

/// Whether `r` is what is sent of a recording in a quality.
pub open spec fn is_source(
    r: UploadSource,
    quality: Seq<char>,
    exports: Seq<char>,
    file_path: Seq<char>,
) -> bool {
    if quality == "rendered"@ {
        match path_of(entries(exports), "rendered"@) {
            Some(p) => r matches UploadSource::Rendered(x) && x@ == p,
            None => r is NoRender,
        }
    } else if quality == "original"@ {
        r is Original
    } else {
        r matches UploadSource::Transcode(x) && x@ == transcode_name(file_path, quality)
    }
}

/// The original is sent exactly where `original` is asked for, and the edited video exactly where
/// `rendered` is and there is one; anything else is a quality to transcode to.
pub proof fn law_source_is_what_was_asked_for(
    r: UploadSource,
    quality: Seq<char>,
    exports: Seq<char>,
    file_path: Seq<char>,
)
    requires
        is_source(r, quality, exports, file_path),
    ensures
        r is Original <==> quality == seq!['o', 'r', 'i', 'g', 'i', 'n', 'a', 'l'],
        r is Transcode <==> quality != seq![
            'o', 'r', 'i', 'g', 'i', 'n', 'a', 'l',
        ] && quality != seq![
            'r', 'e', 'n', 'd', 'e', 'r', 'e', 'd',
        ],
        r is NoRender <==> quality == seq![
            'r', 'e', 'n', 'd', 'e', 'r', 'e', 'd',
        ] && path_of(entries(exports), quality) is None,
        r matches UploadSource::Rendered(p) ==> path_of(entries(exports), quality) == Some(p@),
        r matches UploadSource::Transcode(p) ==> p@ == transcode_name(file_path, quality),
        r.spoken() == SourceKind::Original <==> r is Original,
        r.spoken() == SourceKind::Rendered <==> r is Rendered,
        r.spoken() == SourceKind::Transcode <==> r is Transcode,
        r.spoken() == SourceKind::NoRender <==> r is NoRender,
{
    reveal_strlit("original");
    assert("original"@ =~= seq!['o', 'r', 'i', 'g', 'i', 'n', 'a', 'l']);
    reveal_strlit("rendered");
    assert("rendered"@ =~= seq!['r', 'e', 'n', 'd', 'e', 'r', 'e', 'd']);
    assert("original"@ != "rendered"@) by {
        assert("original"@[0] != "rendered"@[0]);
    }
}

/// The file that an upload of `quality` sends.
pub fn upload_source(quality: &str, exports: &str, file_path: &str) -> (r: UploadSource)
    ensures
        is_source(r, quality@, exports@, file_path@),
{
    if same(quality, "rendered") {
        match rendered_path(exports) {
            Some(p) => UploadSource::Rendered(p),
            None => UploadSource::NoRender,
        }
    } else if same(quality, "original") {
        UploadSource::Original
    } else {
        UploadSource::Transcode(transcode_file_name(file_path, quality))
    }
}

impl UploadSource {
    /// The kind of source.
    pub open spec fn spoken(self) -> SourceKind {
        match self {
            UploadSource::NoRender => SourceKind::NoRender,
            UploadSource::Rendered(_) => SourceKind::Rendered,
            UploadSource::Original => SourceKind::Original,
            UploadSource::Transcode(_) => SourceKind::Transcode,
        }
    }

    /// The kind of source.
    pub fn kind(&self) -> (r: SourceKind)
        ensures
            r == self.spoken(),
    {
        match self {
            UploadSource::NoRender => SourceKind::NoRender,
            UploadSource::Rendered(_) => SourceKind::Rendered,
            UploadSource::Original => SourceKind::Original,
            UploadSource::Transcode(_) => SourceKind::Transcode,
        }
    }
}

/// Who may see the upload: what was asked for this time, else what the settings say.
pub fn visibility(asked: Option<bool>, setting: bool) -> (r: bool)
    ensures
        r == (match asked {
            Some(a) => a,
            None => setting,
        }),
        asked is Some ==> asked == Some(r),
        asked is None ==> r == setting,
{
    match asked {
        Some(a) => a,
        None => setting,
    }
}

// ----- the work -----

/// What is known before an upload begins.
#[derive(Clone, Copy, PartialEq, Eq, Structural, Debug)]
pub struct UploadPlan {
    pub source: SourceKind,
    /// A folder is already known.
    pub has_folder: bool,
    pub make_public: bool,
}

/// One piece of work.
#[derive(Clone, Copy, PartialEq, Eq, Structural, Debug)]
pub enum UploadStep {
    MarkUploading,
    CheckRender,
    Transcode,
    RefreshToken,
    EnsureFolder,
    Send,
    Share,
    FetchLink,
    KeepFolder,
    KeepLink,
    Finished(UploadEnd),
}

/// How an upload ends.
#[derive(Clone, Copy, PartialEq, Eq, Structural, Debug)]
pub enum UploadEnd {
    Linked,
    NoRender,
    RenderMissing,
    /// The service refused at some point.
    DriveFailed,
    /// Something on this machine failed; the reason is passed on as it is.
    Failed,
}

/// An upload under way.
#[derive(Clone, Copy, PartialEq, Eq, Structural, Debug)]
pub struct Upload {
    pub plan: UploadPlan,
    pub step: UploadStep,
}

impl Upload {
    /// An upload that has not begun.
    pub open spec fn begun(plan: UploadPlan) -> Upload {
        Upload { plan, step: UploadStep::MarkUploading }
    }

    /// An upload that has not begun.
    pub fn start(plan: UploadPlan) -> (r: Upload)
        ensures
            r == Upload::begun(plan),
    {
        Upload { plan, step: UploadStep::MarkUploading }
    }

    /// The upload after the current step succeeded or failed.
    pub open spec fn after(self, ok: bool) -> Upload {
        let p = self.plan;
        let step = match self.step {
            UploadStep::MarkUploading => if !ok {
                UploadStep::Finished(UploadEnd::Failed)
            } else {
                match p.source {
                    SourceKind::NoRender => UploadStep::Finished(UploadEnd::NoRender),
                    SourceKind::Rendered => UploadStep::CheckRender,
                    SourceKind::Original => UploadStep::RefreshToken,
                    SourceKind::Transcode => UploadStep::Transcode,
                }
            },
            UploadStep::CheckRender => if ok {
                UploadStep::RefreshToken
            } else {
                UploadStep::Finished(UploadEnd::RenderMissing)
            },
            UploadStep::Transcode => if ok {
                UploadStep::RefreshToken
            } else {
                UploadStep::Finished(UploadEnd::Failed)
            },
            UploadStep::RefreshToken => if !ok {
                UploadStep::Finished(UploadEnd::DriveFailed)
            } else if p.has_folder {
                UploadStep::Send
            } else {
                UploadStep::EnsureFolder
            },
            UploadStep::EnsureFolder => if ok {
                UploadStep::Send
            } else {
                UploadStep::Finished(UploadEnd::DriveFailed)
            },
            UploadStep::Send => if !ok {
                UploadStep::Finished(UploadEnd::DriveFailed)
            } else if p.make_public {
                UploadStep::Share
            } else {
                UploadStep::FetchLink
            },
            UploadStep::Share => if ok {
                UploadStep::FetchLink
            } else {
                UploadStep::Finished(UploadEnd::DriveFailed)
            },
            UploadStep::FetchLink => if !ok {
                UploadStep::Finished(UploadEnd::DriveFailed)
            } else if p.has_folder {
                UploadStep::KeepLink
            } else {
                UploadStep::KeepFolder
            },
            UploadStep::KeepFolder => if ok {
                UploadStep::KeepLink
            } else {
                UploadStep::Finished(UploadEnd::Failed)
            },
            UploadStep::KeepLink => if ok {
                UploadStep::Finished(UploadEnd::Linked)
            } else {
                UploadStep::Finished(UploadEnd::Failed)
            },
            UploadStep::Finished(end) => UploadStep::Finished(end),
        };
        Upload { plan: p, step }
    }

    /// Takes in whether the current step succeeded.
    pub fn advance(self, ok: bool) -> (r: Upload)
        ensures
            r == self.after(ok),
    {
        let p = self.plan;
        let failed = UploadStep::Finished(UploadEnd::Failed);
        let refused = UploadStep::Finished(UploadEnd::DriveFailed);
        let step = match (self.step, ok) {
            (UploadStep::MarkUploading, true) => match p.source {
                SourceKind::NoRender => UploadStep::Finished(UploadEnd::NoRender),
                SourceKind::Rendered => UploadStep::CheckRender,
                SourceKind::Original => UploadStep::RefreshToken,
                SourceKind::Transcode => UploadStep::Transcode,
            },
            (UploadStep::MarkUploading, false) => failed,
            (UploadStep::CheckRender, true) => UploadStep::RefreshToken,
            (UploadStep::CheckRender, false) => UploadStep::Finished(UploadEnd::RenderMissing),
            (UploadStep::Transcode, true) => UploadStep::RefreshToken,
            (UploadStep::Transcode, false) => failed,
            (UploadStep::RefreshToken, true) => if p.has_folder {
                UploadStep::Send
            } else {
                UploadStep::EnsureFolder
            },
            (UploadStep::RefreshToken, false) => refused,
            (UploadStep::EnsureFolder, true) => UploadStep::Send,
            (UploadStep::EnsureFolder, false) => refused,
            (UploadStep::Send, true) => if p.make_public {
                UploadStep::Share
            } else {
                UploadStep::FetchLink
            },
            (UploadStep::Send, false) => refused,
            (UploadStep::Share, true) => UploadStep::FetchLink,
            (UploadStep::Share, false) => refused,
            (UploadStep::FetchLink, true) => if p.has_folder {
                UploadStep::KeepLink
            } else {
                UploadStep::KeepFolder
            },
            (UploadStep::FetchLink, false) => refused,
            (UploadStep::KeepFolder, true) => UploadStep::KeepLink,
            (UploadStep::KeepFolder, false) => failed,
            (UploadStep::KeepLink, true) => UploadStep::Finished(UploadEnd::Linked),
            (UploadStep::KeepLink, false) => failed,
            (UploadStep::Finished(end), _) => UploadStep::Finished(end),
        };
        Upload { plan: p, step }
    }

    /// Where `n` steps lead when each succeeds or fails as `answers` says.
    pub open spec fn run(self, answers: spec_fn(UploadStep) -> bool, n: nat) -> Upload
        decreases n,
    {
        if n == 0 || self.step is Finished {
            self
        } else {
            self.after(answers(self.step)).run(answers, (n - 1) as nat)
        }
    }
}

/// Whether the steps at the service that an upload needs all succeed: a folder is made only where
/// none is known, and the file is shared only where it is to be public.
pub open spec fn service_agrees(p: UploadPlan, answers: spec_fn(UploadStep) -> bool) -> bool {
    &&& answers(UploadStep::RefreshToken)
    &&& p.has_folder || answers(UploadStep::EnsureFolder)
    &&& answers(UploadStep::Send)
    &&& p.make_public ==> answers(UploadStep::Share)
    &&& answers(UploadStep::FetchLink)
}

/// How an upload ends.
pub open spec fn upload_ending(p: UploadPlan, answers: spec_fn(UploadStep) -> bool) -> UploadEnd {
    if !answers(UploadStep::MarkUploading) {
        UploadEnd::Failed
    } else if p.source == SourceKind::NoRender {
        UploadEnd::NoRender
    } else if p.source == SourceKind::Rendered && !answers(UploadStep::CheckRender) {
        UploadEnd::RenderMissing
    } else if p.source == SourceKind::Transcode && !answers(UploadStep::Transcode) {
        UploadEnd::Failed
    } else if !service_agrees(p, answers) {
        UploadEnd::DriveFailed
    } else if !p.has_folder && !answers(UploadStep::KeepFolder) {
        UploadEnd::Failed
    } else if !answers(UploadStep::KeepLink) {
        UploadEnd::Failed
    } else {
        UploadEnd::Linked
    }
}

/// Nine steps always finish an upload, and it ends as [`upload_ending`] says: with a link exactly
/// where every step that the plan needs succeeds, whatever the others would have come to.
pub proof fn law_upload_ends(p: UploadPlan, answers: spec_fn(UploadStep) -> bool)
    ensures
        Upload::begun(p).run(answers, 9).step == UploadStep::Finished(upload_ending(p, answers)),
{
    reveal_with_fuel(Upload::run, 10);
}

/// A file that is to stay private is never shared: from no state of such an upload does a step
/// lead to sharing.
pub proof fn law_private_stays_private(u: Upload, ok: bool)
    requires
        !u.plan.make_public,
        u.step != UploadStep::Share,
    ensures
        u.after(ok).step != UploadStep::Share,
        u.after(ok).plan == u.plan,
{
}

/// How the steps of an upload hang together: each is reached only from the one before it and only
/// where that succeeded. A render is looked for, a transcode made, a folder sought and kept, and the
/// file shared only where the plan asks for it.
pub proof fn law_steps_of_an_upload(u: Upload, ok: bool)
    ensures
        u.after(ok).plan == u.plan,
        u.step is Finished ==> u.after(ok) == u,
        u.after(ok).step != UploadStep::MarkUploading,
        ({
            let p = u.plan;
            let marked = u.step == UploadStep::MarkUploading && ok;
            let next = u.after(ok).step;
            &&& next == UploadStep::CheckRender <==> marked && p.source == SourceKind::Rendered
            &&& next == UploadStep::Transcode <==> marked && p.source == SourceKind::Transcode
            &&& next == UploadStep::RefreshToken <==> {
                ||| marked && p.source == SourceKind::Original
                ||| u.step == UploadStep::CheckRender && ok
                ||| u.step == UploadStep::Transcode && ok
            }
            &&& next == UploadStep::EnsureFolder <==> u.step == UploadStep::RefreshToken && ok
                && !p.has_folder
            &&& next == UploadStep::Send <==> ok && (u.step == UploadStep::EnsureFolder || (u.step
                == UploadStep::RefreshToken && p.has_folder))
            &&& next == UploadStep::Share <==> u.step == UploadStep::Send && ok && p.make_public
            &&& next == UploadStep::FetchLink <==> ok && (u.step == UploadStep::Share || (u.step
                == UploadStep::Send && !p.make_public))
            &&& next == UploadStep::KeepFolder <==> u.step == UploadStep::FetchLink && ok
                && !p.has_folder
            &&& next == UploadStep::KeepLink <==> ok && (u.step == UploadStep::KeepFolder || (u.step
                == UploadStep::FetchLink && p.has_folder))
            &&& !(u.step is Finished) ==> {
                &&& next == UploadStep::Finished(UploadEnd::Linked) <==> u.step
                    == UploadStep::KeepLink && ok
                &&& next == UploadStep::Finished(UploadEnd::NoRender) <==> marked && p.source
                    == SourceKind::NoRender
                &&& next == UploadStep::Finished(UploadEnd::RenderMissing) <==> u.step
                    == UploadStep::CheckRender && !ok
                &&& next == UploadStep::Finished(UploadEnd::DriveFailed) <==> !ok && (u.step
                    == UploadStep::RefreshToken || u.step == UploadStep::EnsureFolder || u.step
                    == UploadStep::Send || u.step == UploadStep::Share || u.step
                    == UploadStep::FetchLink)
            }
        }),
{
}

// ----- what is said -----

/// Whether a failure means that there is no usable authorization. `sentinel` is the word by which
/// the service's client says so.
pub open spec fn needs_reconnect(error: Seq<char>, sentinel: Seq<char>) -> bool {
    occurs_in(error, sentinel) || occurs_in(error, "not connected to Drive"@)
}

/// What is kept with the recording after the service refused.
pub open spec fn refusal_status(error: Seq<char>, sentinel: Seq<char>) -> Seq<char> {
    if needs_reconnect(error, sentinel) {
        "Google Drive isn't connected — reconnect to upload."@
    } else {
        "Upload to Drive failed. See Settings → Diagnostics → logs for details."@
    }
}

/// What the user is told after the service refused: the sentinel leads where a new connection is
/// needed.
pub open spec fn refusal_reply(error: Seq<char>, sentinel: Seq<char>) -> Seq<char> {
    if needs_reconnect(error, sentinel) {
        sentinel + ": "@ + refusal_status(error, sentinel)
    } else {
        refusal_status(error, sentinel)
    }
}

/// What is kept with the recording, and what the user is told, after the service refused.
pub fn refusal_texts(error: &str, sentinel: &str) -> (r: (String, String))
    ensures
        r.0@ == refusal_status(error@, sentinel@),
        r.1@ == refusal_reply(error@, sentinel@),
{
    if contains(error, sentinel) || contains(error, "not connected to Drive") {
        let friendly = "Google Drive isn't connected — reconnect to upload.";
        (friendly.to_owned(), glue3(sentinel, ": ", friendly))
    } else {
        let friendly = "Upload to Drive failed. See Settings → Diagnostics → logs for details.";
        (friendly.to_owned(), friendly.to_owned())
    }
}

/// What the user is told, and what is kept with the recording, where the edited version is
/// missing; nothing in the other cases.
pub open spec fn render_problem(end: UploadEnd) -> Option<Seq<char>> {
    match end {
        UploadEnd::NoRender => Some(
            "No edited version yet — open the editor and export first."@,
        ),
        UploadEnd::RenderMissing => Some(
            "The edited export file is missing — re-export from the editor."@,
        ),
        _ => None,
    }
}

/// What the user is told where the edited version is missing.
pub fn render_problem_text(end: UploadEnd) -> (r: Option<String>)
    ensures
        opt_text(r) == render_problem(end),
{
    match end {
        UploadEnd::NoRender => Some(
            "No edited version yet — open the editor and export first.".to_owned(),
        ),
        UploadEnd::RenderMissing => Some(
            "The edited export file is missing — re-export from the editor.".to_owned(),
        ),
        _ => None,
    }
}

/// What the row of a recording says while an upload is under way.
pub const STATUS_UPLOADING: &'static str = "uploading";

/// What the row of a recording says after an upload that failed.
pub const STATUS_ERROR: &'static str = "error";

/// What is kept with the row of a recording at the end of an upload.
#[derive(Debug)]
pub struct UploadNote {
    pub status: String,
    pub error: String,
}

/// The status and the text that are kept with the row at the end of an upload; nothing where it
/// succeeded, and where something on this machine failed.
pub open spec fn kept_note(end: UploadEnd, detail: Seq<char>, sentinel: Seq<char>) -> Option<
    (Seq<char>, Seq<char>),
> {
    match end {
        UploadEnd::NoRender | UploadEnd::RenderMissing => Some(
            (STATUS_ERROR@, render_problem(end)->0),
        ),
        UploadEnd::DriveFailed => Some((STATUS_ERROR@, refusal_status(detail, sentinel))),
        UploadEnd::Linked | UploadEnd::Failed => None,
    }
}

/// What is kept with the row at the end of an upload. `detail` is the reason that the failing step
/// gave; `sentinel` is the word by which the service's client says that there is no usable
/// authorization.
pub fn upload_note(end: UploadEnd, detail: &str, sentinel: &str) -> (r: Option<UploadNote>)
    ensures
        match r {
            Some(n) => kept_note(end, detail@, sentinel@) == Some((n.status@, n.error@)),
            None => kept_note(end, detail@, sentinel@) is None,
        },
{
    let error = match end {
        UploadEnd::DriveFailed => Some(refusal_texts(detail, sentinel).0),
        _ => render_problem_text(end),
    };
    match error {
        Some(error) => Some(UploadNote { status: STATUS_ERROR.to_owned(), error }),
        None => None,
    }
}

/// What the user is told at the end of an upload; nothing where it succeeded.
pub open spec fn told(end: UploadEnd, detail: Seq<char>, sentinel: Seq<char>) -> Option<
    Seq<char>,
> {
    match end {
        UploadEnd::Linked => None,
        UploadEnd::NoRender | UploadEnd::RenderMissing => render_problem(end),
        UploadEnd::DriveFailed => Some(refusal_reply(detail, sentinel)),
        UploadEnd::Failed => Some(detail),
    }
}

/// What the user is told at the end of an upload; nothing where it succeeded.
pub fn upload_problem(end: UploadEnd, detail: &str, sentinel: &str) -> (r: Option<String>)
    ensures
        opt_text(r) == told(end, detail@, sentinel@),
{
    match end {
        UploadEnd::DriveFailed => Some(refusal_texts(detail, sentinel).1),
        UploadEnd::Failed => Some(detail.to_owned()),
        _ => render_problem_text(end),
    }
}

/// Whatever is kept with the row is an error, and it is what the user is told, but for the word in
/// front by which a lost connection is known.
pub proof fn law_what_is_kept_is_told(end: UploadEnd, detail: Seq<char>, sentinel: Seq<char>)
    requires
        kept_note(end, detail, sentinel) is Some,
    ensures
        ({
            let (status, kept) = kept_note(end, detail, sentinel)->0;
            let said = told(end, detail, sentinel)->0;
            &&& status == STATUS_ERROR@
            &&& told(end, detail, sentinel) is Some
            &&& said == kept || said == sentinel + ": "@ + kept
        }),
{
}

/// An upload that succeeded is told nothing of and one that failed something of; a failure of the
/// service is put in words, with the sign to reconnect in front exactly where the error bears that
/// sign or says that there is no connection, and a failure of our own is told as it is.
pub proof fn law_failures_are_told(end: UploadEnd, detail: Seq<char>, sentinel: Seq<char>)
    ensures
        told(end, detail, sentinel) is None <==> end == UploadEnd::Linked,
        kept_note(end, detail, sentinel) is None <==> end == UploadEnd::Linked || end
            == UploadEnd::Failed,
        kept_note(end, detail, sentinel) matches Some(n) ==> n.0 == seq!['e', 'r', 'r', 'o', 'r'],
        end == UploadEnd::Failed ==> told(end, detail, sentinel) == Some(detail),
        needs_reconnect(detail, sentinel) <==> occurs_in(detail, sentinel) || occurs_in(
            detail,
            seq![
                'n', 'o', 't', ' ', 'c', 'o', 'n', 'n', 'e', 'c', 't', 'e', 'd', ' ', 't', 'o',
                ' ', 'D', 'r', 'i', 'v', 'e',
            ],
        ),
        end == UploadEnd::DriveFailed ==> {
            &&& needs_reconnect(detail, sentinel) ==> begins_with(
                told(end, detail, sentinel)->0,
                sentinel + seq![':', ' '],
            )
            &&& !needs_reconnect(detail, sentinel) ==> (kept_note(end, detail, sentinel) matches Some(
                n,
            ) && told(end, detail, sentinel) == Some(n.1))
        },
        STATUS_UPLOADING@ == seq!['u', 'p', 'l', 'o', 'a', 'd', 'i', 'n', 'g'],
        told(UploadEnd::NoRender, detail, sentinel) != told(
            UploadEnd::RenderMissing,
            detail,
            sentinel,
        ),
{
    reveal_strlit("error");
    assert("error"@ =~= seq!['e', 'r', 'r', 'o', 'r']);
    reveal_strlit("uploading");
    assert("uploading"@ =~= seq!['u', 'p', 'l', 'o', 'a', 'd', 'i', 'n', 'g']);
    reveal_strlit("not connected to Drive");
    assert("not connected to Drive"@ =~= seq![
        'n', 'o', 't', ' ', 'c', 'o', 'n', 'n', 'e', 'c', 't', 'e', 'd', ' ', 't', 'o', ' ', 'D',
        'r', 'i', 'v', 'e',
    ]);
    reveal_strlit(": ");
    assert(": "@ =~= seq![':', ' ']);
    if end == UploadEnd::DriveFailed && needs_reconnect(detail, sentinel) {
        let t = told(end, detail, sentinel)->0;
        let p = sentinel + ": "@;
        assert(t.take(p.len() as int) =~= p);
    }
    reveal_strlit("No edited version yet — open the editor and export first.");
    reveal_strlit("The edited export file is missing — re-export from the editor.");
    assert("No edited version yet — open the editor and export first."@[0] == 'N');
    assert("The edited export file is missing — re-export from the editor."@[0] == 'T');
}

/// A lost connection is told apart from any other failure of the service.
pub proof fn law_lost_connections_are_told_apart(error: Seq<char>, sentinel: Seq<char>)
    ensures
        needs_reconnect(error, sentinel) ==> occurs_in(
            refusal_status(error, sentinel),
            seq!['i', 's', 'n', '\'', 't', ' ', 'c', 'o', 'n', 'n', 'e', 'c', 't', 'e', 'd'],
        ),
        !needs_reconnect(error, sentinel) ==> occurs_in(
            refusal_status(error, sentinel),
            seq![
                'U', 'p', 'l', 'o', 'a', 'd', ' ', 't', 'o', ' ', 'D', 'r', 'i', 'v', 'e', ' ',
                'f', 'a', 'i', 'l', 'e', 'd',
            ],
        ),
{
    if needs_reconnect(error, sentinel) {
        reveal_strlit("Google Drive isn't connected — reconnect to upload.");
        lemma_occurs_at(
            "Google Drive isn't connected — reconnect to upload."@,
            13,
            seq!['i', 's', 'n', '\'', 't', ' ', 'c', 'o', 'n', 'n', 'e', 'c', 't', 'e', 'd'],
        );
    } else {
        reveal_strlit("Upload to Drive failed. See Settings → Diagnostics → logs for details.");
        lemma_occurs_at(
            "Upload to Drive failed. See Settings → Diagnostics → logs for details."@,
            0,
            seq![
                'U', 'p', 'l', 'o', 'a', 'd', ' ', 't', 'o', ' ', 'D', 'r', 'i', 'v', 'e', ' ',
                'f', 'a', 'i', 'l', 'e', 'd',
            ],
        );
    }
}

} // verus!
