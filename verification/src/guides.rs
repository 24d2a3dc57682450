//! Guides for meetings: templates, and the review that is written after a meeting.
use vstd::prelude::*;
use vstd::string::*;

use crate::ids::{is_id, new_id};
use crate::split::{trim, trimmed};
use crate::text::{glue, glue3};

verus! {

/// A guide that a meeting can be held by.
#[derive(Debug)]
pub struct GuideTemplate {
    pub id: String,
    pub name: String,
    pub description: String,
    pub goal: String,
    pub notes: String,
    pub created_at: String,
    pub updated_at: String,
}

/// What the user writes into a template.
#[derive(Debug)]
pub struct GuideText {
    pub name: String,
    pub description: String,
    pub goal: String,
    pub notes: String,
}

/// What the user is told of a template without a name.
pub open spec fn unnamed_template() -> Seq<char> {
    "template name cannot be empty"@
}

/// The name of a template: what was typed, trimmed. An empty one is refused.
pub fn template_name(typed: &str) -> (r: Result<String, String>)
    ensures
        match r {
            Ok(n) => n@ == trimmed(typed@) && n@.len() > 0,
            Err(e) => trimmed(typed@).len() == 0 && e@ == unnamed_template(),
        },
{
    let t = trim(typed);
    if t.as_str().is_empty() {
        Err("template name cannot be empty".to_owned())
    } else {
        Ok(t)
    }
}

/// Whether a template is what was written, at the given time.
pub open spec fn is_template_of(t: GuideTemplate, text: GuideText, now: Seq<char>) -> bool {
    &&& t.name@ == trimmed(text.name@)
    &&& t.description == text.description
    &&& t.goal == text.goal
    &&& t.notes == text.notes
    &&& t.created_at@ == now
    &&& t.updated_at@ == now
}

/// A new template under the given id.
pub fn template_with_id(text: GuideText, id: String, now: &str) -> (r: Result<
    GuideTemplate,
    String,
>)
    ensures
        match r {
            Ok(t) => trimmed(text.name@).len() > 0 && t.id == id && is_template_of(t, text, now@),
            Err(e) => trimmed(text.name@).len() == 0 && e@ == unnamed_template(),
        },
{
    let name = match template_name(text.name.as_str()) {
        Ok(n) => n,
        Err(e) => {
            return Err(e);
        },
    };
    Ok(
        GuideTemplate {
            id,
            name,
            description: text.description,
            goal: text.goal,
            notes: text.notes,
            created_at: now.to_owned(),
            updated_at: now.to_owned(),
        },
    )
}

/// A new template, under a fresh id.
pub fn create_guide_template(text: GuideText, now: &str) -> (r: Result<GuideTemplate, String>)
    ensures
        match r {
            Ok(t) => trimmed(text.name@).len() > 0 && is_id(t.id@) && is_template_of(t, text, now@),
            Err(e) => trimmed(text.name@).len() == 0 && e@ == unnamed_template(),
        },
{
    template_with_id(text, new_id(), now)
}

/// What the user is told where a template is not there.
pub fn template_not_found(id: &str) -> (r: String)
    ensures
        r@ == "guide template "@ + id@ + " not found"@,
{
    glue3("guide template ", id, " not found")
}

// ----- meetings that are held by a guide -----

/// One piece of work of starting a meeting with a guide.
#[derive(Clone, Copy, PartialEq, Eq, Structural, Debug)]
pub enum GuidedStep {
    FindTemplate,
    StartMeeting,
    AttachGuide,
    /// Watch for the end of the meeting.
    Watch,
    Finished(GuidedEnd),
}

/// How it ends.
#[derive(Clone, Copy, PartialEq, Eq, Structural, Debug)]
pub enum GuidedEnd {
    Started,
    TemplateMissing,
    /// A step failed; its reason is passed on as it is.
    Failed,
}

impl GuidedStep {
    /// What follows a step. A template that could not be looked up counts as failed, one that is
    /// not there as missing.
    pub open spec fn after(self, e: ReviewResult) -> GuidedStep {
        let done = e == ReviewResult::Done;
        match self {
            GuidedStep::FindTemplate => if done {
                GuidedStep::StartMeeting
            } else if e == ReviewResult::Missing {
                GuidedStep::Finished(GuidedEnd::TemplateMissing)
            } else {
                GuidedStep::Finished(GuidedEnd::Failed)
            },
            GuidedStep::StartMeeting => if done {
                GuidedStep::AttachGuide
            } else {
                GuidedStep::Finished(GuidedEnd::Failed)
            },
            GuidedStep::AttachGuide => if done {
                GuidedStep::Watch
            } else {
                GuidedStep::Finished(GuidedEnd::Failed)
            },
            GuidedStep::Watch => GuidedStep::Finished(GuidedEnd::Started),
            GuidedStep::Finished(x) => GuidedStep::Finished(x),
        }
    }

    /// What follows a step that came to `e`.
    pub fn advance(self, e: ReviewResult) -> (r: GuidedStep)
        ensures
            r == self.after(e),
    {
        let done = e == ReviewResult::Done;
        match self {
            GuidedStep::FindTemplate => if done {
                GuidedStep::StartMeeting
            } else if e == ReviewResult::Missing {
                GuidedStep::Finished(GuidedEnd::TemplateMissing)
            } else {
                GuidedStep::Finished(GuidedEnd::Failed)
            },
            GuidedStep::StartMeeting => if done {
                GuidedStep::AttachGuide
            } else {
                GuidedStep::Finished(GuidedEnd::Failed)
            },
            GuidedStep::AttachGuide => if done {
                GuidedStep::Watch
            } else {
                GuidedStep::Finished(GuidedEnd::Failed)
            },
            GuidedStep::Watch => GuidedStep::Finished(GuidedEnd::Started),
            GuidedStep::Finished(x) => GuidedStep::Finished(x),
        }
    }
}

/// No meeting is started for a template that is not there, and a meeting counts as started only
/// with its guide attached.
pub proof fn law_guides_come_first(s: GuidedStep, e: ReviewResult)
    ensures
        s.after(e) == GuidedStep::StartMeeting ==> s == GuidedStep::FindTemplate && e
            == ReviewResult::Done,
        s.after(e) == GuidedStep::Watch ==> s == GuidedStep::AttachGuide && e
            == ReviewResult::Done,
        s.after(e) == GuidedStep::Finished(GuidedEnd::Started) ==> s == GuidedStep::Watch || s
            == GuidedStep::Finished(GuidedEnd::Started),
{
}

// ----- reviews -----

/// One piece of work of writing a review again.
#[derive(Clone, Copy, PartialEq, Eq, Structural, Debug)]
pub enum ReviewStep {
    LoadRun,
    ReadTemplate,
    LoadMeeting,
    ReadTranscript,
    MarkPending,
    Generate,
    StoreReview,
    MarkFailed,
    Finished(ReviewEnd),
}

/// What a piece of work came to.
#[derive(Clone, Copy, PartialEq, Eq, Structural, Debug)]
pub enum ReviewResult {
    Done,
    /// What was looked for is not there.
    Missing,
    /// The meeting is there, but it has no transcript.
    NoTranscript,
    Failed,
}

/// How it ends.
#[derive(Clone, Copy, PartialEq, Eq, Structural, Debug)]
pub enum ReviewEnd {
    Ready,
    RunMissing,
    BadTemplate,
    MeetingMissing,
    NoTranscript,
    BadTranscript,
    /// A step failed; its reason is passed on as it is.
    Failed,
}

impl ReviewEnd {
    /// What the user is told; `detail` is the reason that the failing step gave.
    pub open spec fn text(self, run_id: Seq<char>, detail: Seq<char>) -> Seq<char> {
        match self {
            ReviewEnd::Ready => Seq::empty(),
            ReviewEnd::RunMissing => "guide run "@ + run_id + " not found"@,
            ReviewEnd::BadTemplate => "bad template snapshot: "@ + detail,
            ReviewEnd::MeetingMissing => "meeting not found"@,
            ReviewEnd::NoTranscript => "meeting has no transcript"@,
            ReviewEnd::BadTranscript => "bad transcript json: "@ + detail,
            ReviewEnd::Failed => detail,
        }
    }

    /// What the user is told; `detail` is the reason that the failing step gave.
    pub fn message(&self, run_id: &str, detail: &str) -> (r: String)
        ensures
            r@ == self.text(run_id@, detail@),
    {
        match self {
            ReviewEnd::Ready => String::new(),
            ReviewEnd::RunMissing => glue3("guide run ", run_id, " not found"),
            ReviewEnd::BadTemplate => glue("bad template snapshot: ", detail),
            ReviewEnd::MeetingMissing => "meeting not found".to_owned(),
            ReviewEnd::NoTranscript => "meeting has no transcript".to_owned(),
            ReviewEnd::BadTranscript => glue("bad transcript json: ", detail),
            ReviewEnd::Failed => detail.to_owned(),
        }
    }
}

/// A review under way. `pending` says that the run is marked as being worked on.
#[derive(Clone, Copy, PartialEq, Eq, Structural, Debug)]
pub struct Review {
    pub step: ReviewStep,
    pub pending: bool,
}

impl Review {
    /// A review that has not begun.
    pub open spec fn begun() -> Review {
        Review { step: ReviewStep::LoadRun, pending: false }
    }

    /// A review that has not begun.
    pub fn start() -> (r: Review)
        ensures
            r == Review::begun(),
    {
        Review { step: ReviewStep::LoadRun, pending: false }
    }

    /// The review after the current step. Marking the run cannot fail it.
    pub open spec fn after(self, e: ReviewResult) -> Review {
        let done = e == ReviewResult::Done;
        let end = |x: ReviewEnd| ReviewStep::Finished(x);
        let step = match self.step {
            ReviewStep::LoadRun => match e {
                ReviewResult::Done => ReviewStep::ReadTemplate,
                ReviewResult::Missing => end(ReviewEnd::RunMissing),
                _ => end(ReviewEnd::Failed),
            },
            ReviewStep::ReadTemplate => if done {
                ReviewStep::LoadMeeting
            } else {
                end(ReviewEnd::BadTemplate)
            },
            ReviewStep::LoadMeeting => match e {
                ReviewResult::Done => ReviewStep::ReadTranscript,
                ReviewResult::Missing => end(ReviewEnd::MeetingMissing),
                ReviewResult::NoTranscript => end(ReviewEnd::NoTranscript),
                ReviewResult::Failed => end(ReviewEnd::Failed),
            },
            ReviewStep::ReadTranscript => if done {
                ReviewStep::MarkPending
            } else {
                end(ReviewEnd::BadTranscript)
            },
            ReviewStep::MarkPending => ReviewStep::Generate,
            ReviewStep::Generate => if done {
                ReviewStep::StoreReview
            } else {
                ReviewStep::MarkFailed
            },
            ReviewStep::StoreReview => if done {
                end(ReviewEnd::Ready)
            } else {
                end(ReviewEnd::Failed)
            },
            ReviewStep::MarkFailed => end(ReviewEnd::Failed),
            ReviewStep::Finished(x) => end(x),
        };
        let pending = match self.step {
            ReviewStep::MarkPending => done,
            ReviewStep::StoreReview => self.pending && !done,
            ReviewStep::MarkFailed => self.pending && !done,
            _ => self.pending,
        };
        Review { step, pending }
    }

    /// Takes in what the current step came to.
    pub fn advance(self, e: ReviewResult) -> (r: Review)
        ensures
            r == self.after(e),
    {
        let done = e == ReviewResult::Done;
        let step = match self.step {
            ReviewStep::LoadRun => match e {
                ReviewResult::Done => ReviewStep::ReadTemplate,
                ReviewResult::Missing => ReviewStep::Finished(ReviewEnd::RunMissing),
                _ => ReviewStep::Finished(ReviewEnd::Failed),
            },
            ReviewStep::ReadTemplate => if done {
                ReviewStep::LoadMeeting
            } else {
                ReviewStep::Finished(ReviewEnd::BadTemplate)
            },
            ReviewStep::LoadMeeting => match e {
                ReviewResult::Done => ReviewStep::ReadTranscript,
                ReviewResult::Missing => ReviewStep::Finished(ReviewEnd::MeetingMissing),
                ReviewResult::NoTranscript => ReviewStep::Finished(ReviewEnd::NoTranscript),
                ReviewResult::Failed => ReviewStep::Finished(ReviewEnd::Failed),
            },
            ReviewStep::ReadTranscript => if done {
                ReviewStep::MarkPending
            } else {
                ReviewStep::Finished(ReviewEnd::BadTranscript)
            },
            ReviewStep::MarkPending => ReviewStep::Generate,
            ReviewStep::Generate => if done {
                ReviewStep::StoreReview
            } else {
                ReviewStep::MarkFailed
            },
            ReviewStep::StoreReview => if done {
                ReviewStep::Finished(ReviewEnd::Ready)
            } else {
                ReviewStep::Finished(ReviewEnd::Failed)
            },
            ReviewStep::MarkFailed => ReviewStep::Finished(ReviewEnd::Failed),
            ReviewStep::Finished(x) => ReviewStep::Finished(x),
        };
        let pending = match self.step {
            ReviewStep::MarkPending => done,
            ReviewStep::StoreReview | ReviewStep::MarkFailed => self.pending && !done,
            _ => self.pending,
        };
        Review { step, pending }
    }

    /// Where `n` steps lead when each comes to what `answers` says.
    pub open spec fn run(self, answers: spec_fn(ReviewStep) -> ReviewResult, n: nat) -> Review
        decreases n,
    {
        if n == 0 || self.step is Finished {
            self
        } else {
            self.after(answers(self.step)).run(answers, (n - 1) as nat)
        }
    }
}

/// Seven steps always finish a review. It is ready exactly where the run, its template, the
/// meeting and its transcript can be read, the review is written and stored. A run stays marked as
/// being worked on only where the mark could not be taken back.
pub proof fn law_review_ends(answers: spec_fn(ReviewStep) -> ReviewResult)
    ensures
        ({
            let r = Review::begun().run(answers, 7);
            let ok = |s: ReviewStep| answers(s) == ReviewResult::Done;
            &&& r.step is Finished
            &&& r.step == ReviewStep::Finished(ReviewEnd::Ready) <==> ok(ReviewStep::LoadRun) && ok(
                ReviewStep::ReadTemplate,
            ) && ok(ReviewStep::LoadMeeting) && ok(ReviewStep::ReadTranscript) && ok(
                ReviewStep::Generate,
            ) && ok(ReviewStep::StoreReview)
            &&& r.pending ==> r.step != ReviewStep::Finished(ReviewEnd::Ready) && (!ok(
                ReviewStep::StoreReview,
            ) || !ok(ReviewStep::MarkFailed))
        }),
{
    reveal_with_fuel(Review::run, 8);
}

/// A template keeps what was written into it, each part under its own name, with the name trimmed;
/// it counts as changed when it was made.
pub proof fn law_template_keeps_its_parts(t: GuideTemplate, text: GuideText, now: Seq<char>)
    requires
        is_template_of(t, text, now),
    ensures
        (t.description@, t.goal@, t.notes@) == (text.description@, text.goal@, text.notes@),
        t.name@ == trimmed(text.name@),
        t.created_at@ == now && t.updated_at@ == t.created_at@,
{
}

/// How the steps of a guided meeting hang together: the template is found, the meeting started, the
/// guide attached, and the meeting watched, each only where what came before it was done.
pub proof fn law_steps_of_a_guided_meeting(s: GuidedStep, e: ReviewResult)
    ensures
        s.after(e) != GuidedStep::FindTemplate,
        s.after(e) == GuidedStep::StartMeeting <==> s == GuidedStep::FindTemplate && e
            == ReviewResult::Done,
        s.after(e) == GuidedStep::AttachGuide <==> s == GuidedStep::StartMeeting && e
            == ReviewResult::Done,
        s.after(e) == GuidedStep::Watch <==> s == GuidedStep::AttachGuide && e
            == ReviewResult::Done,
        s is Finished ==> s.after(e) == s,
        !(s is Finished) ==> {
            &&& s.after(e) == GuidedStep::Finished(GuidedEnd::Started) <==> s == GuidedStep::Watch
            &&& s.after(e) == GuidedStep::Finished(GuidedEnd::TemplateMissing) <==> s
                == GuidedStep::FindTemplate && e == ReviewResult::Missing
        },
{
}

/// How the steps of a review hang together: each is reached only from the one before it, and only
/// where that was done, but for marking the review as pending, which may fail. A review is marked as
/// failed only where it could not be written, and is pending from the one mark to the next.
pub proof fn law_steps_of_a_review(r: Review, e: ReviewResult)
    ensures
        r.step is Finished ==> r.after(e) == r,
        ({
            let done = e == ReviewResult::Done;
            let next = r.after(e).step;
            let end = |x: ReviewEnd| next == ReviewStep::Finished(x);
            &&& next != ReviewStep::LoadRun
            &&& next == ReviewStep::ReadTemplate <==> r.step == ReviewStep::LoadRun && done
            &&& next == ReviewStep::LoadMeeting <==> r.step == ReviewStep::ReadTemplate && done
            &&& next == ReviewStep::ReadTranscript <==> r.step == ReviewStep::LoadMeeting && done
            &&& next == ReviewStep::MarkPending <==> r.step == ReviewStep::ReadTranscript && done
            &&& next == ReviewStep::Generate <==> r.step == ReviewStep::MarkPending
            &&& next == ReviewStep::StoreReview <==> r.step == ReviewStep::Generate && done
            &&& next == ReviewStep::MarkFailed <==> r.step == ReviewStep::Generate && !done
            &&& !(r.step is Finished) ==> {
                &&& end(ReviewEnd::Ready) <==> r.step == ReviewStep::StoreReview && done
                &&& end(ReviewEnd::RunMissing) <==> r.step == ReviewStep::LoadRun && e
                    == ReviewResult::Missing
                &&& end(ReviewEnd::BadTemplate) <==> r.step == ReviewStep::ReadTemplate && !done
                &&& end(ReviewEnd::MeetingMissing) <==> r.step == ReviewStep::LoadMeeting && e
                    == ReviewResult::Missing
                &&& end(ReviewEnd::NoTranscript) <==> r.step == ReviewStep::LoadMeeting && e
                    == ReviewResult::NoTranscript
                &&& end(ReviewEnd::BadTranscript) <==> r.step == ReviewStep::ReadTranscript && !done
            }
            &&& r.after(e).pending <==> (if r.step == ReviewStep::MarkPending {
                done
            } else {
                r.pending && !(done && (r.step == ReviewStep::StoreReview || r.step
                    == ReviewStep::MarkFailed))
            })
        }),
{
}

/// What the user is told of a review that could not be written names the run, or says what could not
/// be read.
pub proof fn law_reviews_tell_what_was_wrong(run_id: Seq<char>, detail: Seq<char>)
    ensures
        ReviewEnd::RunMissing.text(run_id, detail) == seq![
            'g', 'u', 'i', 'd', 'e', ' ', 'r', 'u', 'n', ' ',
        ] + run_id + seq![
            ' ', 'n', 'o', 't', ' ', 'f', 'o', 'u', 'n', 'd',
        ],
        ReviewEnd::BadTemplate.text(run_id, detail) == seq![
            'b', 'a', 'd', ' ', 't', 'e', 'm', 'p', 'l', 'a', 't', 'e', ' ', 's', 'n', 'a', 'p',
            's', 'h', 'o', 't', ':', ' ',
        ] + detail,
        ReviewEnd::MeetingMissing.text(run_id, detail) == seq![
            'm', 'e', 'e', 't', 'i', 'n', 'g', ' ', 'n', 'o', 't', ' ', 'f', 'o', 'u', 'n', 'd',
        ],
        ReviewEnd::NoTranscript.text(run_id, detail) == seq![
            'm', 'e', 'e', 't', 'i', 'n', 'g', ' ', 'h', 'a', 's', ' ', 'n', 'o', ' ', 't', 'r',
            'a', 'n', 's', 'c', 'r', 'i', 'p', 't',
        ],
        ReviewEnd::BadTranscript.text(run_id, detail) == seq![
            'b', 'a', 'd', ' ', 't', 'r', 'a', 'n', 's', 'c', 'r', 'i', 'p', 't', ' ', 'j', 's',
            'o', 'n', ':', ' ',
        ] + detail,
        ReviewEnd::Failed.text(run_id, detail) == detail,
        ReviewEnd::Ready.text(run_id, detail).len() == 0,
{
    reveal_strlit("guide run ");
    assert("guide run "@ =~= seq!['g', 'u', 'i', 'd', 'e', ' ', 'r', 'u', 'n', ' ']);
    reveal_strlit(" not found");
    assert(" not found"@ =~= seq![' ', 'n', 'o', 't', ' ', 'f', 'o', 'u', 'n', 'd']);
    reveal_strlit("bad template snapshot: ");
    assert("bad template snapshot: "@ =~= seq![
        'b', 'a', 'd', ' ', 't', 'e', 'm', 'p', 'l', 'a', 't', 'e', ' ', 's', 'n', 'a', 'p', 's',
        'h', 'o', 't', ':', ' ',
    ]);
    reveal_strlit("meeting not found");
    assert("meeting not found"@ =~= seq![
        'm', 'e', 'e', 't', 'i', 'n', 'g', ' ', 'n', 'o', 't', ' ', 'f', 'o', 'u', 'n', 'd',
    ]);
    reveal_strlit("meeting has no transcript");
    assert("meeting has no transcript"@ =~= seq![
        'm', 'e', 'e', 't', 'i', 'n', 'g', ' ', 'h', 'a', 's', ' ', 'n', 'o', ' ', 't', 'r', 'a',
        'n', 's', 'c', 'r', 'i', 'p', 't',
    ]);
    reveal_strlit("bad transcript json: ");
    assert("bad transcript json: "@ =~= seq![
        'b', 'a', 'd', ' ', 't', 'r', 'a', 'n', 's', 'c', 'r', 'i', 'p', 't', ' ', 'j', 's', 'o',
        'n', ':', ' ',
    ]);
}

/// A template without a name is refused in these words.
pub proof fn law_unnamed_templates_in_words()
    ensures
        unnamed_template() == seq![
            't', 'e', 'm', 'p', 'l', 'a', 't', 'e', ' ', 'n', 'a', 'm', 'e', ' ', 'c', 'a', 'n',
            'n', 'o', 't', ' ', 'b', 'e', ' ', 'e', 'm', 'p', 't', 'y',
        ],
{
    reveal_strlit("template name cannot be empty");
    assert("template name cannot be empty"@ =~= seq![
        't', 'e', 'm', 'p', 'l', 'a', 't', 'e', ' ', 'n', 'a', 'm', 'e', ' ', 'c', 'a', 'n', 'n',
        'o', 't', ' ', 'b', 'e', ' ', 'e', 'm', 'p', 't', 'y',
    ]);
}

} // verus!
