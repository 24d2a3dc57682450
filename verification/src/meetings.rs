//! Meetings: consenting to record one, and remembering the answer.
use vstd::prelude::*;
use vstd::string::*;

use crate::search::{contains, occurs_in};
use crate::text::{opt_text, same};

verus! {

// ----- where a meeting started -----

/// What is in front of the user.
#[derive(Debug)]
pub struct FocusContext {
    pub window_title: Option<String>,
    pub browser_url: Option<String>,
    pub browser_tab_title: Option<String>,
}

/// What was in front of the user when a meeting started.
#[derive(Debug)]
pub struct MeetingStartContext {
    pub window_title: Option<String>,
    pub browser_url: Option<String>,
    pub browser_tab_title: Option<String>,
}

/// Whether `r` is where a meeting started, as far as the window in focus tells.
pub open spec fn is_start_context(r: MeetingStartContext, ctx: Option<FocusContext>) -> bool {
    match ctx {
        Some(c) => r.window_title == c.window_title && r.browser_url == c.browser_url
            && r.browser_tab_title == c.browser_tab_title,
        None => r.window_title is None && r.browser_url is None && r.browser_tab_title is None,
    }
}

/// A meeting is remembered by the title, the address and the tab of the window in focus, each as it
/// was, and by nothing where no window was in focus.
pub proof fn law_start_is_where_the_focus_was(
    r: MeetingStartContext,
    ctx: Option<FocusContext>,
    t: Seq<char>,
)
    requires
        is_start_context(r, ctx),
    ensures
        opt_text(r.window_title) == Some(t) <==> ctx is Some && opt_text(ctx->0.window_title)
            == Some(t),
        opt_text(r.browser_url) == Some(t) <==> ctx is Some && opt_text(ctx->0.browser_url) == Some(
            t,
        ),
        opt_text(r.browser_tab_title) == Some(t) <==> ctx is Some && opt_text(
            ctx->0.browser_tab_title,
        ) == Some(t),
{
}

/// What was in front of the user when a meeting started; nothing where that could not be read.
pub fn meeting_start_context(ctx: Option<FocusContext>) -> (r: MeetingStartContext)
    ensures
        is_start_context(r, ctx),
{
    match ctx {
        Some(c) => MeetingStartContext {
            window_title: c.window_title,
            browser_url: c.browser_url,
            browser_tab_title: c.browser_tab_title,
        },
        None => MeetingStartContext {
            window_title: None,
            browser_url: None,
            browser_tab_title: None,
        },
    }
}

// ----- remembered answers -----

/// What is remembered of an application.
#[derive(Clone, Copy, PartialEq, Eq, Structural, Debug)]
pub enum MeetingAppPref {
    Always,
    Never,
}

/// An application with what is remembered of it.
#[derive(Debug)]
pub struct AppPref {
    pub bundle_id: String,
    pub pref: MeetingAppPref,
}

/// What is remembered, by application. The first entry of an application counts.
pub open spec fn prefs_map(v: Seq<AppPref>) -> Map<Seq<char>, MeetingAppPref>
    decreases v.len(),
{
    if v.len() == 0 {
        Map::empty()
    } else {
        prefs_map(v.drop_first()).insert(v[0].bundle_id@, v[0].pref)
    }
}

proof fn lemma_map_without(v: Seq<AppPref>, i: int)
    requires
        0 <= i < v.len(),
    ensures
        prefs_map(v).remove(v[i].bundle_id@) == prefs_map(v.remove(i)).remove(v[i].bundle_id@),
    decreases v.len(),
{
    let b = v[i].bundle_id@;
    if i == 0 {
        assert(v.remove(0) == v.drop_first());
        assert(prefs_map(v).remove(b) =~= prefs_map(v.drop_first()).remove(b));
    } else {
        let t = v.drop_first();
        assert(t[i - 1] == v[i]);
        lemma_map_without(t, i - 1);
        assert(v.remove(i).drop_first() == t.remove(i - 1));
        assert(v.remove(i)[0] == v[0]);
        if v[0].bundle_id@ == b {
            assert(prefs_map(v).remove(b) =~= prefs_map(t).remove(b));
            assert(prefs_map(v.remove(i)).remove(b) =~= prefs_map(t.remove(i - 1)).remove(b));
        } else {
            let x = v[0].bundle_id@;
            let p = v[0].pref;
            assert(prefs_map(v).remove(b) =~= prefs_map(t).remove(b).insert(x, p));
            assert(prefs_map(v.remove(i)).remove(b) =~= prefs_map(t.remove(i - 1)).remove(
                b,
            ).insert(x, p));
        }
    }
}

proof fn lemma_absent(v: Seq<AppPref>, b: Seq<char>)
    requires
        forall|k: int| 0 <= k < v.len() ==> (#[trigger] v[k]).bundle_id@ != b,
    ensures
        !prefs_map(v).dom().contains(b),
    decreases v.len(),
{
    if v.len() > 0 {
        let t = v.drop_first();
        assert forall|k: int| 0 <= k < t.len() implies (#[trigger] t[k]).bundle_id@ != b by {
            assert(t[k] == v[k + 1]);
        }
        lemma_absent(t, b);
        assert(v[0].bundle_id@ != b);
    }
}

/// What is remembered of an application is the first entry with its id.
pub proof fn law_first_entry_is_remembered(v: Seq<AppPref>, id: Seq<char>, k: int)
    requires
        0 <= k <= v.len(),
        forall|j: int| 0 <= j < k ==> (#[trigger] v[j]).bundle_id@ != id,
    ensures
        k == v.len() ==> !prefs_map(v).dom().contains(id),
        k < v.len() && v[k].bundle_id@ == id ==> prefs_map(v).dom().contains(id) && prefs_map(v)[id]
            == v[k].pref,
    decreases v.len(),
{
    if v.len() > 0 && k > 0 {
        let rest = v.drop_first();
        assert(v[0].bundle_id@ != id);
        assert forall|j: int| 0 <= j < k - 1 implies (#[trigger] rest[j]).bundle_id@ != id by {
            assert(rest[j] == v[j + 1]);
        }
        law_first_entry_is_remembered(rest, id, k - 1);
    }
}

/// Forgets what is remembered of an application.
pub fn clear_app_pref(prefs: &mut Vec<AppPref>, bundle_id: &str)
    ensures
        prefs_map(final(prefs)@) == prefs_map(old(prefs)@).remove(bundle_id@),
{
    let ghost was = prefs_map(prefs@);
    let mut i: usize = 0;
    while i < prefs.len()
        invariant
            i <= prefs@.len(),
            prefs_map(prefs@).remove(bundle_id@) == was.remove(bundle_id@),
            forall|k: int| 0 <= k < i ==> (#[trigger] prefs@[k]).bundle_id@ != bundle_id@,
        decreases prefs@.len() - i,
    {
        if same(prefs[i].bundle_id.as_str(), bundle_id) {
            proof {
                lemma_map_without(prefs@, i as int);
            }
            let ghost before = prefs@;
            prefs.remove(i);
            assert(prefs@ == before.remove(i as int));
        } else {
            i = i + 1;
        }
    }
    proof {
        lemma_absent(prefs@, bundle_id@);
        assert(prefs_map(prefs@).remove(bundle_id@) =~= prefs_map(prefs@));
    }
}

/// Remembers something of an application, in place of what was remembered.
pub fn set_app_pref(prefs: &mut Vec<AppPref>, bundle_id: String, pref: MeetingAppPref)
    ensures
        prefs_map(final(prefs)@) == prefs_map(old(prefs)@).insert(bundle_id@, pref),
{
    let ghost was = prefs_map(prefs@);
    let ghost b = bundle_id@;
    clear_app_pref(prefs, bundle_id.as_str());
    let ghost rest = prefs@;
    prefs.insert(0, AppPref { bundle_id, pref });
    proof {
        assert(prefs@.drop_first() == rest);
        assert(prefs@[0].bundle_id@ == b && prefs@[0].pref == pref);
        assert(was.remove(b).insert(b, pref) =~= was.insert(b, pref));
    }
}

// ----- consent -----

/// The user's answer to the question whether to record.
#[derive(Clone, Copy, PartialEq, Eq, Structural, Debug)]
pub enum Decision {
    Always,
    Once,
    Never,
}

/// The word for an answer.
pub open spec fn decision_word(d: Decision) -> Seq<char> {
    match d {
        Decision::Always => "always"@,
        Decision::Once => "once"@,
        Decision::Never => "never"@,
    }
}

/// The words for a decision.
pub proof fn law_decisions_in_words()
    ensures
        decision_word(Decision::Always) == seq!['a', 'l', 'w', 'a', 'y', 's'],
        decision_word(Decision::Once) == seq!['o', 'n', 'c', 'e'],
        decision_word(Decision::Never) == seq!['n', 'e', 'v', 'e', 'r'],
{
    reveal_strlit("always");
    assert("always"@ =~= seq!['a', 'l', 'w', 'a', 'y', 's']);
    reveal_strlit("once");
    assert("once"@ =~= seq!['o', 'n', 'c', 'e']);
    reveal_strlit("never");
    assert("never"@ =~= seq!['n', 'e', 'v', 'e', 'r']);
}

/// The answer that a word stands for.
pub fn parse_decision(word: &str) -> (r: Result<Decision, String>)
    ensures
        match r {
            Ok(d) => decision_word(d) == word@,
            Err(e) => (forall|d: Decision| decision_word(d) != word@) && e@
                == "invalid decision"@,
        },
{
    if same(word, "always") {
        Ok(Decision::Always)
    } else if same(word, "once") {
        Ok(Decision::Once)
    } else if same(word, "never") {
        Ok(Decision::Never)
    } else {
        Err("invalid decision".to_owned())
    }
}

/// One piece of work after an answer.
#[derive(Clone, Copy, PartialEq, Eq, Structural, Debug)]
pub enum ConsentStep {
    StartMeeting,
    /// Watch for the end of the meeting.
    Watch,
    Remember(MeetingAppPref),
    /// `started` says whether a meeting runs.
    Finished { started: bool },
    Failed,
}

/// What follows an answer.
#[derive(Clone, Copy, PartialEq, Eq, Structural, Debug)]
pub struct Consent {
    pub decision: Decision,
    pub step: ConsentStep,
}

impl Consent {
    /// The first step after an answer.
    pub open spec fn begun(decision: Decision) -> Consent {
        Consent {
            decision,
            step: if decision == Decision::Never {
                ConsentStep::Remember(MeetingAppPref::Never)
            } else {
                ConsentStep::StartMeeting
            },
        }
    }

    /// The first step after an answer.
    pub fn start(decision: Decision) -> (r: Consent)
        ensures
            r == Consent::begun(decision),
    {
        if decision == Decision::Never {
            Consent { decision, step: ConsentStep::Remember(MeetingAppPref::Never) }
        } else {
            Consent { decision, step: ConsentStep::StartMeeting }
        }
    }

    /// What follows the current step.
    pub open spec fn after(self, ok: bool) -> Consent {
        let step = match self.step {
            ConsentStep::StartMeeting => if ok {
                ConsentStep::Watch
            } else {
                ConsentStep::Failed
            },
            ConsentStep::Watch => if self.decision == Decision::Always {
                ConsentStep::Remember(MeetingAppPref::Always)
            } else {
                ConsentStep::Finished { started: true }
            },
            ConsentStep::Remember(p) => if ok {
                ConsentStep::Finished { started: p == MeetingAppPref::Always }
            } else {
                ConsentStep::Failed
            },
            x => x,
        };
        Consent { decision: self.decision, step }
    }

    /// Takes in whether the current step succeeded.
    pub fn advance(self, ok: bool) -> (r: Consent)
        ensures
            r == self.after(ok),
    {
        let step = match self.step {
            ConsentStep::StartMeeting => if ok {
                ConsentStep::Watch
            } else {
                ConsentStep::Failed
            },
            ConsentStep::Watch => if self.decision == Decision::Always {
                ConsentStep::Remember(MeetingAppPref::Always)
            } else {
                ConsentStep::Finished { started: true }
            },
            ConsentStep::Remember(p) => if ok {
                ConsentStep::Finished { started: p == MeetingAppPref::Always }
            } else {
                ConsentStep::Failed
            },
            ConsentStep::Finished { started } => ConsentStep::Finished { started },
            ConsentStep::Failed => ConsentStep::Failed,
        };
        Consent { decision: self.decision, step }
    }

    /// Where `n` steps lead when each succeeds or fails as `answers` says.
    pub open spec fn run(self, answers: spec_fn(ConsentStep) -> bool, n: nat) -> Consent
        decreases n,
    {
        if n == 0 {
            self
        } else {
            self.after(answers(self.step)).run(answers, (n - 1) as nat)
        }
    }
}

/// An answer of "always" starts a meeting and is remembered, one of "once" starts a meeting, one of
/// "never" is remembered and starts nothing; each fails exactly where one of its own steps does.
pub proof fn law_consent(d: Decision, answers: spec_fn(ConsentStep) -> bool)
    ensures
        ({
            let end = Consent::begun(d).run(answers, 3).step;
            match d {
                Decision::Always => end == (if answers(ConsentStep::StartMeeting) && answers(
                    ConsentStep::Remember(MeetingAppPref::Always),
                ) {
                    ConsentStep::Finished { started: true }
                } else {
                    ConsentStep::Failed
                }),
                Decision::Once => end == (if answers(ConsentStep::StartMeeting) {
                    ConsentStep::Finished { started: true }
                } else {
                    ConsentStep::Failed
                }),
                Decision::Never => end == (if answers(
                    ConsentStep::Remember(MeetingAppPref::Never),
                ) {
                    ConsentStep::Finished { started: false }
                } else {
                    ConsentStep::Failed
                }),
            }
        }),
{
    reveal_with_fuel(Consent::run, 4);
}

/// A meeting that has started is watched before anything else happens, and an answer of "always" is
/// remembered only after that: a start that fails leaves nothing remembered.
pub proof fn law_started_meetings_are_watched(c: Consent, ok: bool)
    ensures
        c.step == ConsentStep::StartMeeting ==> c.after(true).step == ConsentStep::Watch,
        c.after(ok).step == ConsentStep::Watch ==> c.step == ConsentStep::StartMeeting && ok,
        c.after(ok).step == ConsentStep::Remember(MeetingAppPref::Always) ==> c.step
            == ConsentStep::Watch && c.decision == Decision::Always,
{
}

// ----- the tray -----

/// Whether a status says that a meeting is no longer recorded.
pub open spec fn says_over(payload: Seq<char>) -> bool {
    occurs_in(payload, "\"transcribing\""@) || occurs_in(payload, "\"summarizing\""@) || occurs_in(
        payload,
        "\"failed\""@,
    )
}

/// Whether a status says that a meeting is no longer recorded.
pub fn meeting_is_over(payload: &str) -> (r: bool)
    ensures
        r == says_over(payload@),
{
    contains(payload, "\"transcribing\"") || contains(payload, "\"summarizing\"") || contains(
        payload,
        "\"failed\"",
    )
}

/// How the steps of a consent hang together: nothing is started or watched where the answer is never,
/// only what was started is watched, and an answer is remembered where it is meant for good.
pub proof fn law_steps_of_consent(d: Decision, c: Consent, ok: bool)
    ensures
        Consent::begun(d).decision == d,
        Consent::begun(d).step == ConsentStep::StartMeeting <==> d == Decision::Always || d
            == Decision::Once,
        Consent::begun(d).step == ConsentStep::Remember(MeetingAppPref::Never) <==> d
            == Decision::Never,
        c.after(ok).decision == c.decision,
        c.after(ok).step != ConsentStep::StartMeeting,
        c.after(ok).step == ConsentStep::Watch <==> c.step == ConsentStep::StartMeeting && ok,
        c.after(ok).step == ConsentStep::Remember(MeetingAppPref::Always) <==> c.step
            == ConsentStep::Watch && c.decision == Decision::Always,
        c.after(ok).step != ConsentStep::Remember(MeetingAppPref::Never),
        c.step is Finished || c.step is Failed ==> c.after(ok) == c,
        !(c.step is Finished || c.step is Failed) ==> {
            &&& c.after(ok).step == (ConsentStep::Finished { started: true }) <==> (c.step
                == ConsentStep::Watch && c.decision != Decision::Always) || (c.step
                == ConsentStep::Remember(MeetingAppPref::Always) && ok)
            &&& c.after(ok).step == (ConsentStep::Finished { started: false }) <==> c.step
                == ConsentStep::Remember(MeetingAppPref::Never) && ok
            &&& c.after(ok).step == ConsentStep::Failed <==> !ok && c.step != ConsentStep::Watch
        },
{
}

/// A meeting is over as soon as its state is one of those that follow it.
pub proof fn law_meeting_is_over(payload: Seq<char>)
    ensures
        says_over(payload) <==> {
            ||| occurs_in(payload, seq![
                '"', 't', 'r', 'a', 'n', 's', 'c', 'r', 'i', 'b', 'i', 'n', 'g', '"',
            ])
            ||| occurs_in(payload, seq![
                '"', 's', 'u', 'm', 'm', 'a', 'r', 'i', 'z', 'i', 'n', 'g', '"',
            ])
            ||| occurs_in(payload, seq!['"', 'f', 'a', 'i', 'l', 'e', 'd', '"'])
        },
{
    reveal_strlit("\"transcribing\"");
    assert("\"transcribing\""@ =~= seq![
        '"', 't', 'r', 'a', 'n', 's', 'c', 'r', 'i', 'b', 'i', 'n', 'g', '"',
    ]);
    reveal_strlit("\"summarizing\"");
    assert("\"summarizing\""@ =~= seq![
        '"', 's', 'u', 'm', 'm', 'a', 'r', 'i', 'z', 'i', 'n', 'g', '"',
    ]);
    reveal_strlit("\"failed\"");
    assert("\"failed\""@ =~= seq!['"', 'f', 'a', 'i', 'l', 'e', 'd', '"']);
}

} // verus!
