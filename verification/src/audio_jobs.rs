//! Work on the soundtrack of a recording: transcribing it, captioning it, and cleaning it.
//!
//! Each job is a chain of steps; whoever drives it does a step and reports what it came to.
use vstd::prelude::*;
use vstd::string::*;

use crate::finalize::WorkResult;
use crate::text::glue;

verus! {

// ----- speech to text -----

/// What is made of the speech.
#[derive(Clone, Copy, PartialEq, Eq, Structural, Debug)]
pub enum SpeechJob {
    Transcript,
    Captions,
}

/// One piece of work.
#[derive(Clone, Copy, PartialEq, Eq, Structural, Debug)]
pub enum SpeechStep {
    FindRecording,
    FindFile,
    FindModel,
    FindFolder,
    Extract,
    Load,
    Recognize,
    Store,
    Finished(SpeechEnd),
}

/// How it ends.
#[derive(Clone, Copy, PartialEq, Eq, Structural, Debug)]
pub enum SpeechEnd {
    Ready,
    NoRecording,
    FileMissing,
    NoModel,
    NoFolder,
    ExtractPanicked,
    NoAudio,
    ExtractFailed,
    LoadFailed,
    RecognizeFailed,
    StoreFailed,
}

impl SpeechEnd {
    /// What the user is told; `detail` is the reason that the failing step gave. A caption job
    /// that fails says so in one way and keeps its reasons to the log.
    pub open spec fn text(self, job: SpeechJob, detail: Seq<char>) -> Seq<char> {
        match job {
            SpeechJob::Captions => match self {
                SpeechEnd::Ready => Seq::empty(),
                _ => "Caption generation failed — see logs."@,
            },
            SpeechJob::Transcript => match self {
                SpeechEnd::Ready => Seq::empty(),
                SpeechEnd::FileMissing => "recording file is missing on disk"@,
                SpeechEnd::NoModel => "Download a transcription model first"@,
                SpeechEnd::ExtractPanicked => "extraction task panicked"@,
                SpeechEnd::NoAudio => "Recording has no audio"@,
                _ => detail,
            },
        }
    }

    /// What the user is told; `detail` is the reason that the failing step gave.
    pub fn message(&self, job: SpeechJob, detail: &str) -> (r: String)
        ensures
            r@ == self.text(job, detail@),
    {
        match job {
            SpeechJob::Captions => match self {
                SpeechEnd::Ready => String::new(),
                _ => "Caption generation failed — see logs.".to_owned(),
            },
            SpeechJob::Transcript => match self {
                SpeechEnd::Ready => String::new(),
                SpeechEnd::FileMissing => "recording file is missing on disk".to_owned(),
                SpeechEnd::NoModel => "Download a transcription model first".to_owned(),
                SpeechEnd::ExtractPanicked => "extraction task panicked".to_owned(),
                SpeechEnd::NoAudio => "Recording has no audio".to_owned(),
                _ => detail.to_owned(),
            },
        }
    }
}

/// A speech job under way. `sweep` says whether the extracted sound has to be removed at the end.
#[derive(Clone, Copy, PartialEq, Eq, Structural, Debug)]
pub struct Speech {
    pub job: SpeechJob,
    pub step: SpeechStep,
    pub sweep: bool,
}

impl Speech {
    /// A job that has not begun.
    pub open spec fn begun(job: SpeechJob) -> Speech {
        Speech { job, step: SpeechStep::FindRecording, sweep: false }
    }

    /// A job that has not begun.
    pub fn start(job: SpeechJob) -> (r: Speech)
        ensures
            r == Speech::begun(job),
    {
        Speech { job, step: SpeechStep::FindRecording, sweep: false }
    }

    /// The job after the current step.
    pub open spec fn after(self, e: WorkResult) -> Speech {
        let done = e == WorkResult::Done;
        let (step, sweep) = match self.step {
            SpeechStep::FindRecording => if done {
                (SpeechStep::FindFile, false)
            } else {
                (SpeechStep::Finished(SpeechEnd::NoRecording), false)
            },
            SpeechStep::FindFile => if done {
                (SpeechStep::FindModel, false)
            } else {
                (SpeechStep::Finished(SpeechEnd::FileMissing), false)
            },
            SpeechStep::FindModel => if done {
                (SpeechStep::FindFolder, false)
            } else {
                (SpeechStep::Finished(SpeechEnd::NoModel), false)
            },
            SpeechStep::FindFolder => if done {
                (SpeechStep::Extract, false)
            } else {
                (SpeechStep::Finished(SpeechEnd::NoFolder), false)
            },
            SpeechStep::Extract => match e {
                WorkResult::Done => (SpeechStep::Load, true),
                WorkResult::NoAudio => (SpeechStep::Finished(SpeechEnd::NoAudio), true),
                WorkResult::Panicked => (SpeechStep::Finished(SpeechEnd::ExtractPanicked), false),
                _ => (SpeechStep::Finished(SpeechEnd::ExtractFailed), true),
            },
            SpeechStep::Load => if done {
                (SpeechStep::Recognize, true)
            } else {
                (SpeechStep::Finished(SpeechEnd::LoadFailed), true)
            },
            SpeechStep::Recognize => if !done {
                (SpeechStep::Finished(SpeechEnd::RecognizeFailed), true)
            } else if self.job == SpeechJob::Transcript {
                (SpeechStep::Store, true)
            } else {
                (SpeechStep::Finished(SpeechEnd::Ready), true)
            },
            SpeechStep::Store => if done {
                (SpeechStep::Finished(SpeechEnd::Ready), true)
            } else {
                (SpeechStep::Finished(SpeechEnd::StoreFailed), true)
            },
            SpeechStep::Finished(end) => (SpeechStep::Finished(end), self.sweep),
        };
        Speech { job: self.job, step, sweep }
    }

    /// Takes in what the current step came to.
    pub fn advance(self, e: WorkResult) -> (r: Speech)
        ensures
            r == self.after(e),
    {
        let done = e == WorkResult::Done;
        let (step, sweep) = match self.step {
            SpeechStep::FindRecording => (
                if done {
                    SpeechStep::FindFile
                } else {
                    SpeechStep::Finished(SpeechEnd::NoRecording)
                },
                false,
            ),
            SpeechStep::FindFile => (
                if done {
                    SpeechStep::FindModel
                } else {
                    SpeechStep::Finished(SpeechEnd::FileMissing)
                },
                false,
            ),
            SpeechStep::FindModel => (
                if done {
                    SpeechStep::FindFolder
                } else {
                    SpeechStep::Finished(SpeechEnd::NoModel)
                },
                false,
            ),
            SpeechStep::FindFolder => (
                if done {
                    SpeechStep::Extract
                } else {
                    SpeechStep::Finished(SpeechEnd::NoFolder)
                },
                false,
            ),
            SpeechStep::Extract => match e {
                WorkResult::Done => (SpeechStep::Load, true),
                WorkResult::NoAudio => (SpeechStep::Finished(SpeechEnd::NoAudio), true),
                WorkResult::Panicked => (SpeechStep::Finished(SpeechEnd::ExtractPanicked), false),
                _ => (SpeechStep::Finished(SpeechEnd::ExtractFailed), true),
            },
            SpeechStep::Load => (
                if done {
                    SpeechStep::Recognize
                } else {
                    SpeechStep::Finished(SpeechEnd::LoadFailed)
                },
                true,
            ),
            SpeechStep::Recognize => (
                if !done {
                    SpeechStep::Finished(SpeechEnd::RecognizeFailed)
                } else if self.job == SpeechJob::Transcript {
                    SpeechStep::Store
                } else {
                    SpeechStep::Finished(SpeechEnd::Ready)
                },
                true,
            ),
            SpeechStep::Store => (
                if done {
                    SpeechStep::Finished(SpeechEnd::Ready)
                } else {
                    SpeechStep::Finished(SpeechEnd::StoreFailed)
                },
                true,
            ),
            SpeechStep::Finished(end) => (SpeechStep::Finished(end), self.sweep),
        };
        Speech { job: self.job, step, sweep }
    }

    /// Where `n` steps lead when each comes to what `answers` says.
    pub open spec fn run(self, answers: spec_fn(SpeechStep) -> WorkResult, n: nat) -> Speech
        decreases n,
    {
        if n == 0 || self.step is Finished {
            self
        } else {
            self.after(answers(self.step)).run(answers, (n - 1) as nat)
        }
    }
}

/// Eight steps always finish a speech job. It is ready exactly where every step succeeds, storing
/// the text among them only for a transcript; the first step that fails names the failure.
pub proof fn law_speech_ends(job: SpeechJob, answers: spec_fn(SpeechStep) -> WorkResult)
    ensures
        ({
            let s = Speech::begun(job).run(answers, 8);
            let ok = |step: SpeechStep| answers(step) == WorkResult::Done;
            &&& s.step is Finished
            &&& s.step == SpeechStep::Finished(SpeechEnd::Ready) <==> ok(SpeechStep::FindRecording)
                && ok(SpeechStep::FindFile) && ok(SpeechStep::FindModel) && ok(
                SpeechStep::FindFolder,
            ) && ok(SpeechStep::Extract) && ok(SpeechStep::Load) && ok(SpeechStep::Recognize) && (
            job == SpeechJob::Captions || ok(SpeechStep::Store))
        }),
{
    reveal_with_fuel(Speech::run, 9);
}

/// Whatever makes a caption job fail, the user is told the same; and from no step of a caption job
/// does the way lead to storing anything.
pub proof fn law_captions_fail_alike(
    end: SpeechEnd,
    detail: Seq<char>,
    s: Speech,
    e: WorkResult,
)
    requires
        s.job == SpeechJob::Captions,
        s.step != SpeechStep::Store,
    ensures
        end != SpeechEnd::Ready ==> end.text(SpeechJob::Captions, detail)
            == "Caption generation failed — see logs."@,
        s.after(e).job == SpeechJob::Captions,
        s.after(e).step != SpeechStep::Store,
{
}

/// The extracted sound never stays behind: whenever the extraction came back, it is swept at the
/// end, whatever else happened.
pub proof fn law_speech_sweeps(job: SpeechJob, answers: spec_fn(SpeechStep) -> WorkResult)
    ensures
        ({
            let s = Speech::begun(job).run(answers, 8);
            s.sweep <==> answers(SpeechStep::FindRecording) == WorkResult::Done && answers(
                SpeechStep::FindFile,
            ) == WorkResult::Done && answers(SpeechStep::FindModel) == WorkResult::Done && answers(
                SpeechStep::FindFolder,
            ) == WorkResult::Done && answers(SpeechStep::Extract) != WorkResult::Panicked
        }),
{
    reveal_with_fuel(Speech::run, 9);
}

/// What the sound that a job works on is called behind the id of its recording.
pub open spec fn speech_suffix(job: SpeechJob) -> Seq<char> {
    match job {
        SpeechJob::Transcript => ".transcribe.wav"@,
        SpeechJob::Captions => ".captions.wav"@,
    }
}

/// The name of the file that the sound is extracted to.
pub fn speech_wav_name(job: SpeechJob, id: &str) -> (r: String)
    ensures
        r@ == id@ + speech_suffix(job),
{
    match job {
        SpeechJob::Transcript => glue(id, ".transcribe.wav"),
        SpeechJob::Captions => glue(id, ".captions.wav"),
    }
}

/// A caption with its time in the recording.
#[derive(Debug)]
pub struct CaptionSegment {
    pub start_ms: u64,
    pub end_ms: u64,
    pub text: String,
}

/// The captions that say something, in their order.
pub open spec fn with_text(s: Seq<CaptionSegment>) -> Seq<CaptionSegment>
    decreases s.len(),
{
    if s.len() == 0 {
        s
    } else if s.last().text@.len() > 0 {
        with_text(s.drop_last()).push(s.last())
    } else {
        with_text(s.drop_last())
    }
}

/// Captions without those whose text is empty.
pub fn drop_empty_captions(segments: Vec<CaptionSegment>) -> (r: Vec<CaptionSegment>)
    ensures
        r@ == with_text(segments@),
{
    let ghost all = segments@;
    let mut rest = segments;
    let mut out: Vec<CaptionSegment> = Vec::new();
    let ghost mut n: int = 0;
    proof {
        assert(all.skip(0) == all);
        assert(all.take(0).len() == 0);
    }
    while rest.len() > 0
        invariant
            0 <= n <= all.len(),
            rest@ == all.skip(n),
            out@ == with_text(all.take(n)),
        decreases rest@.len(),
    {
        let x = rest.remove(0);
        proof {
            assert(x == all[n]);
            assert(rest@ == all.skip(n + 1));
            assert(all.take(n + 1).drop_last() == all.take(n));
            assert(all.take(n + 1).last() == x);
        }
        if !x.text.as_str().is_empty() {
            out.push(x);
        }
        proof {
            n = n + 1;
        }
    }
    assert(all.take(n) == all);
    out
}

// ----- cleaning -----

/// One piece of work.
#[derive(Clone, Copy, PartialEq, Eq, Structural, Debug)]
pub enum CleanStep {
    FindFile,
    FindFolder,
    Extract,
    Denoise,
    Mux,
    CheckOutput,
    RecordPath,
    /// Let the cleaned video stand for the recording.
    Promote,
    /// Remove the original, which nothing needs any more.
    DropOriginal,
    Finished(CleanEnd),
}

/// How it ends.
#[derive(Clone, Copy, PartialEq, Eq, Structural, Debug)]
pub enum CleanEnd {
    Cleaned,
    FileMissing,
    NoFolder,
    ExtractPanicked,
    NoAudio,
    ExtractFailed,
    DenoisePanicked,
    DenoiseFailed,
    MuxPanicked,
    MuxFailed,
    EmptyOutput,
    RecordFailed,
    PromoteFailed,
}

impl CleanEnd {
    /// What the user is told; `detail` is the reason that the failing step gave.
    pub open spec fn text(self, detail: Seq<char>) -> Seq<char> {
        match self {
            CleanEnd::Cleaned => Seq::empty(),
            CleanEnd::FileMissing => "recording file is missing on disk"@,
            CleanEnd::ExtractPanicked => "extraction task panicked"@,
            CleanEnd::NoAudio => "Recording has no audio"@,
            CleanEnd::DenoisePanicked => "denoise task panicked"@,
            CleanEnd::MuxPanicked => "mux task panicked"@,
            CleanEnd::EmptyOutput => "denoise produced an empty file"@,
            _ => detail,
        }
    }

    /// What the user is told; `detail` is the reason that the failing step gave.
    pub fn message(&self, detail: &str) -> (r: String)
        ensures
            r@ == self.text(detail@),
    {
        match self {
            CleanEnd::Cleaned => String::new(),
            CleanEnd::FileMissing => "recording file is missing on disk".to_owned(),
            CleanEnd::ExtractPanicked => "extraction task panicked".to_owned(),
            CleanEnd::NoAudio => "Recording has no audio".to_owned(),
            CleanEnd::DenoisePanicked => "denoise task panicked".to_owned(),
            CleanEnd::MuxPanicked => "mux task panicked".to_owned(),
            CleanEnd::EmptyOutput => "denoise produced an empty file".to_owned(),
            _ => detail.to_owned(),
        }
    }

    /// Whether the sound files are removed at the end.
    pub open spec fn sweeps_sound(self) -> bool {
        match self {
            CleanEnd::Cleaned | CleanEnd::NoAudio | CleanEnd::ExtractFailed
            | CleanEnd::DenoiseFailed | CleanEnd::MuxFailed | CleanEnd::EmptyOutput => true,
            _ => false,
        }
    }

    /// Whether the cleaned video is removed at the end.
    pub open spec fn sweeps_video(self) -> bool {
        self == CleanEnd::MuxFailed || self == CleanEnd::EmptyOutput
    }

    /// What is removed at the end: the sound files, and the cleaned video.
    pub fn sweep(&self) -> (r: (bool, bool))
        ensures
            r.0 == self.sweeps_sound(),
            r.1 == self.sweeps_video(),
    {
        match self {
            CleanEnd::Cleaned | CleanEnd::NoAudio | CleanEnd::ExtractFailed
            | CleanEnd::DenoiseFailed => (true, false),
            CleanEnd::MuxFailed | CleanEnd::EmptyOutput => (true, true),
            _ => (false, false),
        }
    }
}

/// A cleaning under way.
#[derive(Clone, Copy, PartialEq, Eq, Structural, Debug)]
pub struct Clean {
    pub step: CleanStep,
    /// The original file was given up.
    pub dropped: bool,
}

impl Clean {
    /// A cleaning that has not begun.
    pub open spec fn begun() -> Clean {
        Clean { step: CleanStep::FindFile, dropped: false }
    }

    /// A cleaning that has not begun.
    pub fn start() -> (r: Clean)
        ensures
            r == Clean::begun(),
    {
        Clean { step: CleanStep::FindFile, dropped: false }
    }

    /// The cleaning after the current step.
    pub open spec fn after(self, e: WorkResult) -> Clean {
        let done = e == WorkResult::Done;
        let end = |x: CleanEnd| CleanStep::Finished(x);
        let step = match self.step {
            CleanStep::FindFile => if done {
                CleanStep::FindFolder
            } else {
                end(CleanEnd::FileMissing)
            },
            CleanStep::FindFolder => if done {
                CleanStep::Extract
            } else {
                end(CleanEnd::NoFolder)
            },
            CleanStep::Extract => match e {
                WorkResult::Done => CleanStep::Denoise,
                WorkResult::NoAudio => end(CleanEnd::NoAudio),
                WorkResult::Panicked => end(CleanEnd::ExtractPanicked),
                _ => end(CleanEnd::ExtractFailed),
            },
            CleanStep::Denoise => match e {
                WorkResult::Done => CleanStep::Mux,
                WorkResult::Panicked => end(CleanEnd::DenoisePanicked),
                _ => end(CleanEnd::DenoiseFailed),
            },
            CleanStep::Mux => match e {
                WorkResult::Done => CleanStep::CheckOutput,
                WorkResult::Panicked => end(CleanEnd::MuxPanicked),
                _ => end(CleanEnd::MuxFailed),
            },
            CleanStep::CheckOutput => match e {
                WorkResult::Size(n) => if n > 0 {
                    CleanStep::RecordPath
                } else {
                    end(CleanEnd::EmptyOutput)
                },
                _ => end(CleanEnd::EmptyOutput),
            },
            CleanStep::RecordPath => if done {
                CleanStep::Promote
            } else {
                end(CleanEnd::RecordFailed)
            },
            CleanStep::Promote => if done {
                CleanStep::DropOriginal
            } else {
                end(CleanEnd::PromoteFailed)
            },
            CleanStep::DropOriginal => end(CleanEnd::Cleaned),
            CleanStep::Finished(x) => end(x),
        };
        Clean { step, dropped: self.dropped || self.step == CleanStep::DropOriginal }
    }

    /// Takes in what the current step came to.
    pub fn advance(self, e: WorkResult) -> (r: Clean)
        ensures
            r == self.after(e),
    {
        let done = e == WorkResult::Done;
        let panicked = e == WorkResult::Panicked;
        let step = match self.step {
            CleanStep::FindFile => if done {
                CleanStep::FindFolder
            } else {
                CleanStep::Finished(CleanEnd::FileMissing)
            },
            CleanStep::FindFolder => if done {
                CleanStep::Extract
            } else {
                CleanStep::Finished(CleanEnd::NoFolder)
            },
            CleanStep::Extract => match e {
                WorkResult::Done => CleanStep::Denoise,
                WorkResult::NoAudio => CleanStep::Finished(CleanEnd::NoAudio),
                WorkResult::Panicked => CleanStep::Finished(CleanEnd::ExtractPanicked),
                _ => CleanStep::Finished(CleanEnd::ExtractFailed),
            },
            CleanStep::Denoise => if done {
                CleanStep::Mux
            } else if panicked {
                CleanStep::Finished(CleanEnd::DenoisePanicked)
            } else {
                CleanStep::Finished(CleanEnd::DenoiseFailed)
            },
            CleanStep::Mux => if done {
                CleanStep::CheckOutput
            } else if panicked {
                CleanStep::Finished(CleanEnd::MuxPanicked)
            } else {
                CleanStep::Finished(CleanEnd::MuxFailed)
            },
            CleanStep::CheckOutput => match e {
                WorkResult::Size(n) => if n > 0 {
                    CleanStep::RecordPath
                } else {
                    CleanStep::Finished(CleanEnd::EmptyOutput)
                },
                _ => CleanStep::Finished(CleanEnd::EmptyOutput),
            },
            CleanStep::RecordPath => if done {
                CleanStep::Promote
            } else {
                CleanStep::Finished(CleanEnd::RecordFailed)
            },
            CleanStep::Promote => if done {
                CleanStep::DropOriginal
            } else {
                CleanStep::Finished(CleanEnd::PromoteFailed)
            },
            CleanStep::DropOriginal => CleanStep::Finished(CleanEnd::Cleaned),
            CleanStep::Finished(x) => CleanStep::Finished(x),
        };
        Clean { step, dropped: self.dropped || self.step == CleanStep::DropOriginal }
    }

    /// Where `n` steps lead when each comes to what `answers` says.
    pub open spec fn run(self, answers: spec_fn(CleanStep) -> WorkResult, n: nat) -> Clean
        decreases n,
    {
        if n == 0 || self.step is Finished {
            self
        } else {
            self.after(answers(self.step)).run(answers, (n - 1) as nat)
        }
    }
}

/// Whether the cleaned video was made, is not empty, is on record and stands for the recording.
pub open spec fn clean_is_safe(answers: spec_fn(CleanStep) -> WorkResult) -> bool {
    &&& answers(CleanStep::FindFile) == WorkResult::Done
    &&& answers(CleanStep::FindFolder) == WorkResult::Done
    &&& answers(CleanStep::Extract) == WorkResult::Done
    &&& answers(CleanStep::Denoise) == WorkResult::Done
    &&& answers(CleanStep::Mux) == WorkResult::Done
    &&& answers(CleanStep::CheckOutput) matches WorkResult::Size(n) && n > 0
    &&& answers(CleanStep::RecordPath) == WorkResult::Done
    &&& answers(CleanStep::Promote) == WorkResult::Done
}

/// Nine steps always finish a cleaning. It succeeds exactly where the cleaned video was made, is
/// not empty, is on record and stands for the recording. The original is given up there alone: a
/// cleaning that fails, wherever it fails, leaves it untouched.
pub proof fn law_original_is_safe(answers: spec_fn(CleanStep) -> WorkResult)
    ensures
        ({
            let c = Clean::begun().run(answers, 9);
            &&& c.step is Finished
            &&& c.step == CleanStep::Finished(CleanEnd::Cleaned) <==> clean_is_safe(answers)
            &&& c.dropped <==> c.step == CleanStep::Finished(CleanEnd::Cleaned)
        }),
{
    reveal_with_fuel(Clean::run, 10);
}

/// The cleaned video is removed only where it is of no use, and then the original is still there.
pub proof fn law_sweep_spares_the_kept_video(answers: spec_fn(CleanStep) -> WorkResult)
    ensures
        ({
            let c = Clean::begun().run(answers, 9);
            c.step matches CleanStep::Finished(end) && (end.sweeps_video() ==> !c.dropped)
        }),
{
    reveal_with_fuel(Clean::run, 10);
}

/// The files that a cleaning works with.
#[derive(Clone, Copy, PartialEq, Eq, Structural, Debug)]
pub enum CleanFile {
    SourceSound,
    CleanSound,
    CleanVideo,
}

/// What a file of the cleaning is called behind the id of its recording.
pub open spec fn clean_suffix(file: CleanFile) -> Seq<char> {
    match file {
        CleanFile::SourceSound => ".dn-src.wav"@,
        CleanFile::CleanSound => ".dn-out.wav"@,
        CleanFile::CleanVideo => ".cleaned.mp4"@,
    }
}

/// The name of a file that a cleaning works with.
pub fn clean_file_name(file: CleanFile, id: &str) -> (r: String)
    ensures
        r@ == id@ + clean_suffix(file),
{
    match file {
        CleanFile::SourceSound => glue(id, ".dn-src.wav"),
        CleanFile::CleanSound => glue(id, ".dn-out.wav"),
        CleanFile::CleanVideo => glue(id, ".cleaned.mp4"),
    }
}

/// Each job has files of its own: sound in `.wav`, video in `.mp4`.
pub proof fn law_job_files_are_their_own()
    ensures
        speech_suffix(SpeechJob::Transcript) == seq![
            '.', 't', 'r', 'a', 'n', 's', 'c', 'r', 'i', 'b', 'e', '.', 'w', 'a', 'v',
        ],
        speech_suffix(SpeechJob::Captions) == seq![
            '.', 'c', 'a', 'p', 't', 'i', 'o', 'n', 's', '.', 'w', 'a', 'v',
        ],
        clean_suffix(CleanFile::SourceSound) == seq![
            '.', 'd', 'n', '-', 's', 'r', 'c', '.', 'w', 'a', 'v',
        ],
        clean_suffix(CleanFile::CleanSound) == seq![
            '.', 'd', 'n', '-', 'o', 'u', 't', '.', 'w', 'a', 'v',
        ],
        clean_suffix(CleanFile::CleanVideo) == seq![
            '.', 'c', 'l', 'e', 'a', 'n', 'e', 'd', '.', 'm', 'p', '4',
        ],
{
    reveal_strlit(".transcribe.wav");
    assert(".transcribe.wav"@ =~= seq![
        '.', 't', 'r', 'a', 'n', 's', 'c', 'r', 'i', 'b', 'e', '.', 'w', 'a', 'v',
    ]);
    reveal_strlit(".captions.wav");
    assert(".captions.wav"@ =~= seq![
        '.', 'c', 'a', 'p', 't', 'i', 'o', 'n', 's', '.', 'w', 'a', 'v',
    ]);
    reveal_strlit(".dn-src.wav");
    assert(".dn-src.wav"@ =~= seq!['.', 'd', 'n', '-', 's', 'r', 'c', '.', 'w', 'a', 'v']);
    reveal_strlit(".dn-out.wav");
    assert(".dn-out.wav"@ =~= seq!['.', 'd', 'n', '-', 'o', 'u', 't', '.', 'w', 'a', 'v']);
    reveal_strlit(".cleaned.mp4");
    assert(".cleaned.mp4"@ =~= seq!['.', 'c', 'l', 'e', 'a', 'n', 'e', 'd', '.', 'm', 'p', '4']);
}

/// A caption is kept, in its place and as it is, exactly where it has a text.
pub proof fn law_captions_with_text_are_kept(s: Seq<CaptionSegment>, x: CaptionSegment)
    ensures
        with_text(Seq::empty()).len() == 0,
        x.text@.len() > 0 ==> with_text(s.push(x)) == with_text(s).push(x),
        x.text@.len() == 0 ==> with_text(s.push(x)) == with_text(s),
{
    assert(s.push(x).drop_last() =~= s);
}

/// How the steps of a transcription hang together: each is reached only from the one before it, and
/// only where that was done. Only a transcript is stored; and a failure is told by the step it
/// happened in.
pub proof fn law_steps_of_speech(s: Speech, e: WorkResult)
    ensures
        s.after(e).job == s.job,
        s.step is Finished ==> s.after(e) == s,
        ({
            let done = e == WorkResult::Done;
            let next = s.after(e).step;
            let end = |x: SpeechEnd| next == SpeechStep::Finished(x);
            &&& next != SpeechStep::FindRecording
            &&& next == SpeechStep::FindFile <==> s.step == SpeechStep::FindRecording && done
            &&& next == SpeechStep::FindModel <==> s.step == SpeechStep::FindFile && done
            &&& next == SpeechStep::FindFolder <==> s.step == SpeechStep::FindModel && done
            &&& next == SpeechStep::Extract <==> s.step == SpeechStep::FindFolder && done
            &&& next == SpeechStep::Load <==> s.step == SpeechStep::Extract && done
            &&& next == SpeechStep::Recognize <==> s.step == SpeechStep::Load && done
            &&& next == SpeechStep::Store <==> s.step == SpeechStep::Recognize && done && s.job
                == SpeechJob::Transcript
            &&& !(s.step is Finished) ==> {
                &&& end(SpeechEnd::NoRecording) <==> s.step == SpeechStep::FindRecording && !done
                &&& end(SpeechEnd::FileMissing) <==> s.step == SpeechStep::FindFile && !done
                &&& end(SpeechEnd::NoModel) <==> s.step == SpeechStep::FindModel && !done
                &&& end(SpeechEnd::NoFolder) <==> s.step == SpeechStep::FindFolder && !done
                &&& end(SpeechEnd::NoAudio) <==> s.step == SpeechStep::Extract && e
                    == WorkResult::NoAudio
                &&& end(SpeechEnd::ExtractPanicked) <==> s.step == SpeechStep::Extract && e
                    == WorkResult::Panicked
                &&& end(SpeechEnd::LoadFailed) <==> s.step == SpeechStep::Load && !done
                &&& end(SpeechEnd::RecognizeFailed) <==> s.step == SpeechStep::Recognize && !done
                &&& end(SpeechEnd::StoreFailed) <==> s.step == SpeechStep::Store && !done
                &&& end(SpeechEnd::Ready) <==> done && (s.step == SpeechStep::Store || (s.step
                    == SpeechStep::Recognize && s.job == SpeechJob::Captions))
            }
        }),
{
}

/// How the steps of a cleaning hang together: each is reached only from the one before it, and only
/// where that was done; the output must not be empty, and the original is dropped last of all.
pub proof fn law_steps_of_cleaning(c: Clean, e: WorkResult)
    ensures
        c.step is Finished ==> c.after(e).step == c.step && c.after(e).dropped == c.dropped,
        c.after(e).dropped <==> c.dropped || c.step == CleanStep::DropOriginal,
        ({
            let done = e == WorkResult::Done;
            let next = c.after(e).step;
            let end = |x: CleanEnd| next == CleanStep::Finished(x);
            &&& next != CleanStep::FindFile
            &&& next == CleanStep::FindFolder <==> c.step == CleanStep::FindFile && done
            &&& next == CleanStep::Extract <==> c.step == CleanStep::FindFolder && done
            &&& next == CleanStep::Denoise <==> c.step == CleanStep::Extract && done
            &&& next == CleanStep::Mux <==> c.step == CleanStep::Denoise && done
            &&& next == CleanStep::CheckOutput <==> c.step == CleanStep::Mux && done
            &&& next == CleanStep::RecordPath <==> c.step == CleanStep::CheckOutput && (
            e matches WorkResult::Size(n) && n > 0)
            &&& next == CleanStep::Promote <==> c.step == CleanStep::RecordPath && done
            &&& next == CleanStep::DropOriginal <==> c.step == CleanStep::Promote && done
            &&& !(c.step is Finished) ==> {
                &&& end(CleanEnd::Cleaned) <==> c.step == CleanStep::DropOriginal
                &&& end(CleanEnd::FileMissing) <==> c.step == CleanStep::FindFile && !done
                &&& end(CleanEnd::NoFolder) <==> c.step == CleanStep::FindFolder && !done
                &&& end(CleanEnd::NoAudio) <==> c.step == CleanStep::Extract && e
                    == WorkResult::NoAudio
                &&& end(CleanEnd::ExtractPanicked) <==> c.step == CleanStep::Extract && e
                    == WorkResult::Panicked
                &&& end(CleanEnd::DenoisePanicked) <==> c.step == CleanStep::Denoise && e
                    == WorkResult::Panicked
                &&& end(CleanEnd::DenoiseFailed) <==> c.step == CleanStep::Denoise && !done && e
                    != WorkResult::Panicked
                &&& end(CleanEnd::MuxPanicked) <==> c.step == CleanStep::Mux && e
                    == WorkResult::Panicked
                &&& end(CleanEnd::MuxFailed) <==> c.step == CleanStep::Mux && !done && e
                    != WorkResult::Panicked
                &&& end(CleanEnd::RecordFailed) <==> c.step == CleanStep::RecordPath && !done
                &&& end(CleanEnd::PromoteFailed) <==> c.step == CleanStep::Promote && !done
            }
        }),
{
}

/// The sound files are swept wherever the cleaning ended by itself once the sound was asked for, and
/// the new video only where it is of no use; what panicked or may still be needed is left alone.
pub proof fn law_what_cleaning_sweeps(end: CleanEnd)
    ensures
        end.sweeps_video() <==> end == CleanEnd::MuxFailed || end == CleanEnd::EmptyOutput,
        end.sweeps_video() ==> end.sweeps_sound(),
        !end.sweeps_sound() <==> {
            ||| end == CleanEnd::FileMissing
            ||| end == CleanEnd::NoFolder
            ||| end == CleanEnd::ExtractPanicked
            ||| end == CleanEnd::DenoisePanicked
            ||| end == CleanEnd::MuxPanicked
            ||| end == CleanEnd::RecordFailed
            ||| end == CleanEnd::PromoteFailed
        },
{
}

/// The details of a failure are told where nothing better is known of it, and only there.
pub proof fn law_details_are_told(end: SpeechEnd, clean: CleanEnd, detail: Seq<char>, other: Seq<char>)
    ensures
        end.text(SpeechJob::Captions, detail) == end.text(SpeechJob::Captions, other),
        end == SpeechEnd::NoRecording || end == SpeechEnd::NoFolder || end
            == SpeechEnd::ExtractFailed || end == SpeechEnd::LoadFailed || end
            == SpeechEnd::RecognizeFailed || end == SpeechEnd::StoreFailed ==> end.text(
            SpeechJob::Transcript,
            detail,
        ) == detail,
        end == SpeechEnd::Ready || end == SpeechEnd::FileMissing || end == SpeechEnd::NoModel || end
            == SpeechEnd::ExtractPanicked || end == SpeechEnd::NoAudio ==> end.text(
            SpeechJob::Transcript,
            detail,
        ) == end.text(SpeechJob::Transcript, other),
        clean == CleanEnd::NoFolder || clean == CleanEnd::ExtractFailed || clean
            == CleanEnd::DenoiseFailed || clean == CleanEnd::MuxFailed || clean
            == CleanEnd::RecordFailed || clean == CleanEnd::PromoteFailed <==> (forall|d: Seq<char>|
            #[trigger] clean.text(d) == d),
        SpeechEnd::FileMissing.text(SpeechJob::Transcript, detail) == CleanEnd::FileMissing.text(
            detail,
        ),
        SpeechEnd::NoAudio.text(SpeechJob::Transcript, detail) == CleanEnd::NoAudio.text(detail),
        SpeechEnd::ExtractPanicked.text(SpeechJob::Transcript, detail)
            == CleanEnd::ExtractPanicked.text(detail),
{
    if forall|d: Seq<char>| #[trigger] clean.text(d) == d {
        let a = clean.text(seq!['a']);
        let b = clean.text(seq!['b']);
        assert(a[0] == 'a' && b[0] == 'b');
    }
}

/// What the user is told where more is known than that something failed.
pub proof fn law_known_failures_in_words(detail: Seq<char>)
    ensures
        SpeechEnd::FileMissing.text(SpeechJob::Transcript, detail)
            == seq![
                'r', 'e', 'c', 'o', 'r', 'd', 'i', 'n', 'g', ' ', 'f', 'i', 'l', 'e', ' ', 'i',
                's', ' ', 'm', 'i', 's', 's', 'i', 'n', 'g', ' ', 'o', 'n', ' ', 'd', 'i', 's',
                'k',
            ],
        SpeechEnd::NoModel.text(SpeechJob::Transcript, detail)
            == seq![
                'D', 'o', 'w', 'n', 'l', 'o', 'a', 'd', ' ', 'a', ' ', 't', 'r', 'a', 'n', 's',
                'c', 'r', 'i', 'p', 't', 'i', 'o', 'n', ' ', 'm', 'o', 'd', 'e', 'l', ' ', 'f',
                'i', 'r', 's', 't',
            ],
        SpeechEnd::NoAudio.text(SpeechJob::Transcript, detail) == seq![
            'R', 'e', 'c', 'o', 'r', 'd', 'i', 'n', 'g', ' ', 'h', 'a', 's', ' ', 'n', 'o', ' ',
            'a', 'u', 'd', 'i', 'o',
        ],
        SpeechEnd::ExtractPanicked.text(SpeechJob::Transcript, detail)
            == seq![
                'e', 'x', 't', 'r', 'a', 'c', 't', 'i', 'o', 'n', ' ', 't', 'a', 's', 'k', ' ',
                'p', 'a', 'n', 'i', 'c', 'k', 'e', 'd',
            ],
        CleanEnd::DenoisePanicked.text(detail) == seq![
            'd', 'e', 'n', 'o', 'i', 's', 'e', ' ', 't', 'a', 's', 'k', ' ', 'p', 'a', 'n', 'i',
            'c', 'k', 'e', 'd',
        ],
        CleanEnd::MuxPanicked.text(detail) == seq![
            'm', 'u', 'x', ' ', 't', 'a', 's', 'k', ' ', 'p', 'a', 'n', 'i', 'c', 'k', 'e', 'd',
        ],
        CleanEnd::EmptyOutput.text(detail) == seq![
            'd', 'e', 'n', 'o', 'i', 's', 'e', ' ', 'p', 'r', 'o', 'd', 'u', 'c', 'e', 'd', ' ',
            'a', 'n', ' ', 'e', 'm', 'p', 't', 'y', ' ', 'f', 'i', 'l', 'e',
        ],
        SpeechEnd::Ready.text(SpeechJob::Transcript, detail).len() == 0,
        SpeechEnd::Ready.text(SpeechJob::Captions, detail).len() == 0,
        CleanEnd::Cleaned.text(detail).len() == 0,
{
    reveal_strlit("recording file is missing on disk");
    assert("recording file is missing on disk"@ =~= seq![
        'r', 'e', 'c', 'o', 'r', 'd', 'i', 'n', 'g', ' ', 'f', 'i', 'l', 'e', ' ', 'i', 's', ' ',
        'm', 'i', 's', 's', 'i', 'n', 'g', ' ', 'o', 'n', ' ', 'd', 'i', 's', 'k',
    ]);
    reveal_strlit("Download a transcription model first");
    assert("Download a transcription model first"@ =~= seq![
        'D', 'o', 'w', 'n', 'l', 'o', 'a', 'd', ' ', 'a', ' ', 't', 'r', 'a', 'n', 's', 'c', 'r',
        'i', 'p', 't', 'i', 'o', 'n', ' ', 'm', 'o', 'd', 'e', 'l', ' ', 'f', 'i', 'r', 's', 't',
    ]);
    reveal_strlit("Recording has no audio");
    assert("Recording has no audio"@ =~= seq![
        'R', 'e', 'c', 'o', 'r', 'd', 'i', 'n', 'g', ' ', 'h', 'a', 's', ' ', 'n', 'o', ' ', 'a',
        'u', 'd', 'i', 'o',
    ]);
    reveal_strlit("extraction task panicked");
    assert("extraction task panicked"@ =~= seq![
        'e', 'x', 't', 'r', 'a', 'c', 't', 'i', 'o', 'n', ' ', 't', 'a', 's', 'k', ' ', 'p', 'a',
        'n', 'i', 'c', 'k', 'e', 'd',
    ]);
    reveal_strlit("denoise task panicked");
    assert("denoise task panicked"@ =~= seq![
        'd', 'e', 'n', 'o', 'i', 's', 'e', ' ', 't', 'a', 's', 'k', ' ', 'p', 'a', 'n', 'i', 'c',
        'k', 'e', 'd',
    ]);
    reveal_strlit("mux task panicked");
    assert("mux task panicked"@ =~= seq![
        'm', 'u', 'x', ' ', 't', 'a', 's', 'k', ' ', 'p', 'a', 'n', 'i', 'c', 'k', 'e', 'd',
    ]);
    reveal_strlit("denoise produced an empty file");
    assert("denoise produced an empty file"@ =~= seq![
        'd', 'e', 'n', 'o', 'i', 's', 'e', ' ', 'p', 'r', 'o', 'd', 'u', 'c', 'e', 'd', ' ', 'a',
        'n', ' ', 'e', 'm', 'p', 't', 'y', ' ', 'f', 'i', 'l', 'e',
    ]);
}

} // verus!
