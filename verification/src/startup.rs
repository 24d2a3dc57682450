//! Starting: what is set up, in which order, and when the shortcuts come alive.
use vstd::prelude::*;
use vstd::string::*;

use crate::trigger::Action;

verus! {

// ----- the pipeline -----

/// One piece of work of bringing the shortcuts alive.
#[derive(Clone, Copy, PartialEq, Eq, Structural, Debug)]
pub enum PipelineStep {
    /// Keep the channel into which every shortcut reports.
    StoreChannel,
    /// Listen for the shortcut of an action.
    Listen(Action),
    /// Register the shortcuts with the system; what they report goes to the stored channel.
    SyncShortcuts,
    /// Pass on what is heard for an action, marked as being for it.
    Forward(Action),
    /// Run what reads the channel.
    RunCoordinator,
}

/// The work of the first start.
pub open spec fn first_start() -> Seq<PipelineStep> {
    seq![
        PipelineStep::StoreChannel,
        PipelineStep::Listen(Action::VoiceAtCursor),
        PipelineStep::Listen(Action::LogCapture),
        PipelineStep::Listen(Action::ActionCommand),
        PipelineStep::Listen(Action::EditSelection),
        PipelineStep::SyncShortcuts,
        PipelineStep::Forward(Action::VoiceAtCursor),
        PipelineStep::Forward(Action::LogCapture),
        PipelineStep::Forward(Action::ActionCommand),
        PipelineStep::Forward(Action::EditSelection),
        PipelineStep::RunCoordinator,
    ]
}

/// Whether the pipeline has been started.
#[derive(Clone, Copy, PartialEq, Eq, Structural, Debug)]
pub struct Pipeline {
    pub started: bool,
}

/// What is done to start the pipeline; nothing where it has started before.
pub open spec fn start_of(started: bool) -> Seq<PipelineStep> {
    if started {
        Seq::<PipelineStep>::empty()
    } else {
        first_start()
    }
}

/// The pipeline is started once: the first start does something, and any further one does nothing.
pub proof fn law_pipeline_starts_once()
    ensures
        start_of(false).len() > 0,
        start_of(false) == first_start(),
        start_of(true).len() == 0,
{
}

impl Pipeline {
    /// A pipeline that has not been started.
    pub fn new() -> (r: Pipeline)
        ensures
            !r.started,
    {
        Pipeline { started: false }
    }

    /// The work that starting takes: all of it the first time, and nothing after that.
    pub fn ensure_pipeline_started(&mut self) -> (r: Vec<PipelineStep>)
        ensures
            final(self).started,
            r@ == start_of(old(self).started),
    {
        let mut v: Vec<PipelineStep> = Vec::new();
        if self.started {
            return v;
        }
        self.started = true;
        v.push(PipelineStep::StoreChannel);
        v.push(PipelineStep::Listen(Action::VoiceAtCursor));
        v.push(PipelineStep::Listen(Action::LogCapture));
        v.push(PipelineStep::Listen(Action::ActionCommand));
        v.push(PipelineStep::Listen(Action::EditSelection));
        v.push(PipelineStep::SyncShortcuts);
        v.push(PipelineStep::Forward(Action::VoiceAtCursor));
        v.push(PipelineStep::Forward(Action::LogCapture));
        v.push(PipelineStep::Forward(Action::ActionCommand));
        v.push(PipelineStep::Forward(Action::EditSelection));
        v.push(PipelineStep::RunCoordinator);
        v
    }

    /// The work that the user's wish to start takes. It takes a speech model to be ready.
    pub fn start_pipeline(&mut self, model_ready: bool) -> (r: Result<Vec<PipelineStep>, String>)
        ensures
            match r {
                Ok(v) => model_ready && final(self).started && v@ == start_of(old(self).started),
                Err(e) => !model_ready && *final(self) == *old(self) && e@
                    == "speech model not ready"@,
            },
    {
        if !model_ready {
            return Err("speech model not ready".to_owned());
        }
        Ok(self.ensure_pipeline_started())
    }
}

/// What a shortcut reports always has a place to go: the channel is kept before any shortcut is
/// registered or passed on.
pub proof fn law_channel_comes_first(i: int)
    requires
        0 < i < first_start().len(),
    ensures
        first_start()[0] == PipelineStep::StoreChannel,
        first_start()[i] != PipelineStep::StoreChannel,
{
}

/// Where the listening for an action stands in the first start.
pub open spec fn place(a: Action) -> int {
    match a {
        Action::VoiceAtCursor => 1,
        Action::LogCapture => 2,
        Action::ActionCommand => 3,
        Action::EditSelection => 4,
    }
}

/// Every action is listened for at one place, and passed on at one later place.
pub proof fn law_every_action_is_heard(a: Action, k: int)
    requires
        0 <= k < first_start().len(),
    ensures
        first_start()[k] == PipelineStep::Listen(a) <==> k == place(a),
        first_start()[k] == PipelineStep::Forward(a) <==> k == place(a) + 5,
{
}

/// Whether the pipeline starts by itself: the user has allowed what it needs, and a model is there.
pub fn starts_by_itself(microphone: bool, accessibility: bool, model_ready: bool) -> (r: bool)
    ensures
        r == (microphone && accessibility && model_ready),
{
    microphone && accessibility && model_ready
}

// ----- the application -----

/// What the system that the application runs on can do.
#[derive(Clone, Copy, PartialEq, Eq, Structural, Debug)]
pub struct Capabilities {
    pub meeting_auto_detect: bool,
    pub screen_recording: bool,
    pub bundle_self_update: bool,
}

/// One piece of work of setting the application up. Each is answered with a yes or a no.
#[derive(Clone, Copy, PartialEq, Eq, Structural, Debug)]
pub enum SetupStep {
    /// Close meetings that a crash left open. Answered: were there any?
    RecoverMeetings,
    /// Tell the page of them.
    AnnounceRecovered,
    /// Fail reviews that a crash left unfinished.
    ReapReviews,
    SpawnDetector,
    /// Hand the state to the commands.
    ManageState,
    SpawnTagger,
    SpawnRecap,
    SpawnIndexer,
    BindTray,
    InstallMenu,
    CreateOverlays,
    /// Put the templates in that come with the application. Answered: did that succeed?
    SeedTemplates,
    /// Remember that it was done.
    MarkSeeded,
    CreateRecordingWindows,
    /// Answered: may the pipeline start by itself?
    CheckReady,
    StartPipeline,
    SpawnUpdater,
    Finished,
}

impl SetupStep {
    /// The place of a step in the order.
    pub open spec fn rank(self) -> nat {
        match self {
            SetupStep::RecoverMeetings => 0,
            SetupStep::AnnounceRecovered => 1,
            SetupStep::ReapReviews => 2,
            SetupStep::SpawnDetector => 3,
            SetupStep::ManageState => 4,
            SetupStep::SpawnTagger => 5,
            SetupStep::SpawnRecap => 6,
            SetupStep::SpawnIndexer => 7,
            SetupStep::BindTray => 8,
            SetupStep::InstallMenu => 9,
            SetupStep::CreateOverlays => 10,
            SetupStep::SeedTemplates => 11,
            SetupStep::MarkSeeded => 12,
            SetupStep::CreateRecordingWindows => 13,
            SetupStep::CheckReady => 14,
            SetupStep::StartPipeline => 15,
            SetupStep::SpawnUpdater => 16,
            SetupStep::Finished => 17,
        }
    }
}

/// The application being set up.
#[derive(Clone, Copy, PartialEq, Eq, Structural, Debug)]
pub struct Setup {
    pub capabilities: Capabilities,
    /// The templates were put in at an earlier start.
    pub seeded: bool,
    pub step: SetupStep,
}

impl Setup {
    /// The first step.
    pub open spec fn begun(capabilities: Capabilities, seeded: bool) -> Setup {
        Setup { capabilities, seeded, step: SetupStep::RecoverMeetings }
    }

    /// The first step.
    pub fn start(capabilities: Capabilities, seeded: bool) -> (r: Setup)
        ensures
            r == Setup::begun(capabilities, seeded),
    {
        Setup { capabilities, seeded, step: SetupStep::RecoverMeetings }
    }

    /// What follows the making of the overlays, templates aside.
    pub open spec fn windows_next(self) -> SetupStep {
        if self.capabilities.screen_recording {
            SetupStep::CreateRecordingWindows
        } else {
            SetupStep::CheckReady
        }
    }

    /// What follows the start of the pipeline.
    pub open spec fn updater_next(self) -> SetupStep {
        if self.capabilities.bundle_self_update {
            SetupStep::SpawnUpdater
        } else {
            SetupStep::Finished
        }
    }

    /// What follows the current step.
    pub open spec fn after(self, yes: bool) -> Setup {
        let step = match self.step {
            SetupStep::RecoverMeetings => if yes {
                SetupStep::AnnounceRecovered
            } else {
                SetupStep::ReapReviews
            },
            SetupStep::AnnounceRecovered => SetupStep::ReapReviews,
            SetupStep::ReapReviews => if self.capabilities.meeting_auto_detect {
                SetupStep::SpawnDetector
            } else {
                SetupStep::ManageState
            },
            SetupStep::SpawnDetector => SetupStep::ManageState,
            SetupStep::ManageState => SetupStep::SpawnTagger,
            SetupStep::SpawnTagger => SetupStep::SpawnRecap,
            SetupStep::SpawnRecap => SetupStep::SpawnIndexer,
            SetupStep::SpawnIndexer => SetupStep::BindTray,
            SetupStep::BindTray => SetupStep::InstallMenu,
            SetupStep::InstallMenu => SetupStep::CreateOverlays,
            SetupStep::CreateOverlays => if self.seeded {
                self.windows_next()
            } else {
                SetupStep::SeedTemplates
            },
            SetupStep::SeedTemplates => if yes {
                SetupStep::MarkSeeded
            } else {
                self.windows_next()
            },
            SetupStep::MarkSeeded => self.windows_next(),
            SetupStep::CreateRecordingWindows => SetupStep::CheckReady,
            SetupStep::CheckReady => if yes {
                SetupStep::StartPipeline
            } else {
                self.updater_next()
            },
            SetupStep::StartPipeline => self.updater_next(),
            SetupStep::SpawnUpdater => SetupStep::Finished,
            SetupStep::Finished => SetupStep::Finished,
        };
        Setup { step, ..self }
    }

    /// Takes in the answer to the current step.
    pub fn advance(self, yes: bool) -> (r: Setup)
        ensures
            r == self.after(yes),
    {
        let windows_next = if self.capabilities.screen_recording {
            SetupStep::CreateRecordingWindows
        } else {
            SetupStep::CheckReady
        };
        let updater_next = if self.capabilities.bundle_self_update {
            SetupStep::SpawnUpdater
        } else {
            SetupStep::Finished
        };
        let step = match self.step {
            SetupStep::RecoverMeetings => if yes {
                SetupStep::AnnounceRecovered
            } else {
                SetupStep::ReapReviews
            },
            SetupStep::AnnounceRecovered => SetupStep::ReapReviews,
            SetupStep::ReapReviews => if self.capabilities.meeting_auto_detect {
                SetupStep::SpawnDetector
            } else {
                SetupStep::ManageState
            },
            SetupStep::SpawnDetector => SetupStep::ManageState,
            SetupStep::ManageState => SetupStep::SpawnTagger,
            SetupStep::SpawnTagger => SetupStep::SpawnRecap,
            SetupStep::SpawnRecap => SetupStep::SpawnIndexer,
            SetupStep::SpawnIndexer => SetupStep::BindTray,
            SetupStep::BindTray => SetupStep::InstallMenu,
            SetupStep::InstallMenu => SetupStep::CreateOverlays,
            SetupStep::CreateOverlays => if self.seeded {
                windows_next
            } else {
                SetupStep::SeedTemplates
            },
            SetupStep::SeedTemplates => if yes {
                SetupStep::MarkSeeded
            } else {
                windows_next
            },
            SetupStep::MarkSeeded => windows_next,
            SetupStep::CreateRecordingWindows => SetupStep::CheckReady,
            SetupStep::CheckReady => if yes {
                SetupStep::StartPipeline
            } else {
                updater_next
            },
            SetupStep::StartPipeline => updater_next,
            SetupStep::SpawnUpdater => SetupStep::Finished,
            SetupStep::Finished => SetupStep::Finished,
        };
        Setup { capabilities: self.capabilities, seeded: self.seeded, step }
    }

    /// Where `n` steps lead with the given answers.
    pub open spec fn run(self, answers: spec_fn(SetupStep) -> bool, n: nat) -> Setup
        decreases n,
    {
        if n == 0 {
            self
        } else {
            self.after(answers(self.step)).run(answers, (n - 1) as nat)
        }
    }

    /// Whether a step is among the first `n`.
    pub open spec fn does(self, answers: spec_fn(SetupStep) -> bool, s: SetupStep, n: nat) -> bool
        decreases n,
    {
        n > 0 && (self.step == s || self.after(answers(self.step)).does(
            answers,
            s,
            (n - 1) as nat,
        ))
    }
}

/// Setting up goes one way: no step comes again or out of its order, and so it ends.
pub proof fn law_setup_goes_forward(s: Setup, yes: bool)
    ensures
        s.step != SetupStep::Finished ==> s.step.rank() < s.after(yes).step.rank(),
        s.after(yes).step.rank() <= SetupStep::Finished.rank(),
        s.step == SetupStep::Finished ==> s.after(yes) == s,
{
}

/// Seventeen steps finish it. The pipeline starts by itself exactly where it may; the templates
/// are put in exactly where that was never done, and that is remembered exactly where it succeeded,
/// so that a template that the user deletes stays deleted.
pub proof fn law_setup_ends(c: Capabilities, seeded: bool, answers: spec_fn(SetupStep) -> bool)
    ensures
        ({
            let s = Setup::begun(c, seeded);
            &&& s.run(answers, 17).step == SetupStep::Finished
            &&& s.does(answers, SetupStep::StartPipeline, 17) == answers(SetupStep::CheckReady)
            &&& s.does(answers, SetupStep::SeedTemplates, 17) == !seeded
            &&& s.does(answers, SetupStep::MarkSeeded, 17) == (!seeded && answers(
                SetupStep::SeedTemplates,
            ))
            &&& s.does(answers, SetupStep::SpawnDetector, 17) == c.meeting_auto_detect
            &&& s.does(answers, SetupStep::CreateRecordingWindows, 17) == c.screen_recording
            &&& s.does(answers, SetupStep::SpawnUpdater, 17) == c.bundle_self_update
        }),
{
    reveal_with_fuel(Setup::run, 18);
    reveal_with_fuel(Setup::does, 18);
}

// ----- talking to what runs -----

/// The answer to a capture that the user has confirmed, which `reply` holds once it came.
pub fn capture_reply(started: bool, reply: Option<Result<String, String>>) -> (r: Result<
    String,
    String,
>)
    ensures
        match reply {
            _ if !started => (r matches Err(e) && e@ == "pipeline not started"@),
            Some(x) => r == x,
            None => (r matches Err(e) && e@ == "coordinator dropped reply channel"@),
        },
{
    if !started {
        return Err("pipeline not started".to_owned());
    }
    match reply {
        Some(x) => x,
        None => Err("coordinator dropped reply channel".to_owned()),
    }
}

/// Setting up goes one fixed way: each step is reached only from those before it, and what a system
/// cannot do, has done before or failed at is passed over.
pub proof fn law_steps_of_setup(s: Setup, yes: bool)
    ensures
        s.after(yes).capabilities == s.capabilities && s.after(yes).seeded == s.seeded,
        ({
            let c = s.capabilities;
            let next = s.after(yes).step;
            let seeded = {
                ||| s.step == SetupStep::CreateOverlays && s.seeded
                ||| s.step == SetupStep::SeedTemplates && !yes
                ||| s.step == SetupStep::MarkSeeded
            };
            let piped = s.step == SetupStep::StartPipeline || (s.step == SetupStep::CheckReady
                && !yes);
            &&& next != SetupStep::RecoverMeetings
            &&& next == SetupStep::AnnounceRecovered <==> s.step == SetupStep::RecoverMeetings && yes
            &&& next == SetupStep::ReapReviews <==> s.step == SetupStep::AnnounceRecovered || (s.step
                == SetupStep::RecoverMeetings && !yes)
            &&& next == SetupStep::SpawnDetector <==> s.step == SetupStep::ReapReviews
                && c.meeting_auto_detect
            &&& next == SetupStep::ManageState <==> s.step == SetupStep::SpawnDetector || (s.step
                == SetupStep::ReapReviews && !c.meeting_auto_detect)
            &&& next == SetupStep::SpawnTagger <==> s.step == SetupStep::ManageState
            &&& next == SetupStep::SpawnRecap <==> s.step == SetupStep::SpawnTagger
            &&& next == SetupStep::SpawnIndexer <==> s.step == SetupStep::SpawnRecap
            &&& next == SetupStep::BindTray <==> s.step == SetupStep::SpawnIndexer
            &&& next == SetupStep::InstallMenu <==> s.step == SetupStep::BindTray
            &&& next == SetupStep::CreateOverlays <==> s.step == SetupStep::InstallMenu
            &&& next == SetupStep::SeedTemplates <==> s.step == SetupStep::CreateOverlays && !s.seeded
            &&& next == SetupStep::MarkSeeded <==> s.step == SetupStep::SeedTemplates && yes
            &&& next == SetupStep::CreateRecordingWindows <==> seeded && c.screen_recording
            &&& next == SetupStep::CheckReady <==> s.step == SetupStep::CreateRecordingWindows || (
            seeded && !c.screen_recording)
            &&& next == SetupStep::StartPipeline <==> s.step == SetupStep::CheckReady && yes
            &&& next == SetupStep::SpawnUpdater <==> piped && c.bundle_self_update
            &&& next == SetupStep::Finished <==> s.step == SetupStep::SpawnUpdater || s.step
                == SetupStep::Finished || (piped && !c.bundle_self_update)
        }),
{
}

/// The shortcuts come alive once everyone listens, before anything is passed on, and the coordinator
/// runs last; each piece of work is done once.
pub proof fn law_shortcuts_come_alive_in_between(a: Action, i: int, k: int)
    requires
        0 <= i < k < first_start().len(),
    ensures
        first_start()[i] != first_start()[k],
        first_start()[k] == PipelineStep::SyncShortcuts ==> !(first_start()[i] is Forward)
            && first_start()[i] != PipelineStep::RunCoordinator,
        first_start()[i] == PipelineStep::SyncShortcuts ==> !(first_start()[k] is Listen)
            && first_start()[k] != PipelineStep::StoreChannel,
        first_start().contains(PipelineStep::SyncShortcuts),
        first_start().contains(PipelineStep::Listen(a)),
        first_start().contains(PipelineStep::Forward(a)),
        first_start().last() == PipelineStep::RunCoordinator,
        first_start().len() == 11,
{
    let s = first_start();
    assert(s[5] == PipelineStep::SyncShortcuts);
    law_every_action_is_heard(a, place(a));
    law_every_action_is_heard(a, place(a) + 5);
    assert(s[place(a)] == PipelineStep::Listen(a));
    assert(s[place(a) + 5] == PipelineStep::Forward(a));
}

} // verus!
