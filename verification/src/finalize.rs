//! Finishing an editor export: the rendered video gets the soundtrack of its recording.
//!
//! The editor hands over a silent video together with a few headers. [`Finalize`] decides, from
//! what each piece of work came to, what is done next: save the video, take the audio out of the
//! recording, cut it, change its speed, clean it, level it, lay music under it, and put it into
//! the video. Whoever drives it does the work and reports back.
//!
//! Cutting and changing speed must succeed, since the video has them already; cleaning, levelling
//! and music are niceties, and a failure there leaves the audio as it was before that step.
use vstd::prelude::*;
use vstd::string::*;

use crate::numerals::{parse_unsigned, unsigned_value};
use crate::search::{lemma_occurs_at, occurs_in};
use crate::split::{law_trim_takes_white_space, nonblank, trim, trim_to_option, trimmed};
use crate::text::{glue, is_white, opt_str, opt_text, same};

verus! {

// ----- headers -----

/// The number in a header: trimmed, decimal, below 2^64.
pub open spec fn header_number(h: Option<Seq<char>>) -> Option<nat> {
    match h {
        Some(s) => unsigned_value(trimmed(s)),
        None => None,
    }
}

fn parse_header_number(h: Option<&str>) -> (r: Option<u64>)
    ensures
        match r {
            Some(n) => header_number(opt_str(h)) == Some(n as nat),
            None => header_number(opt_str(h)) is None,
        },
{
    match h {
        Some(s) => {
            let t = trim(s);
            parse_unsigned(t.as_str())
        },
        None => None,
    }
}

/// The window that two headers leave of the recording: both are numbers, and it is not empty.
pub open spec fn window(start: Option<Seq<char>>, end: Option<Seq<char>>) -> Option<(nat, nat)> {
    match (header_number(start), header_number(end)) {
        (Some(s), Some(e)) => if e > s {
            Some((s, e))
        } else {
            None
        },
        _ => None,
    }
}

/// The part of the recording, in milliseconds, that the editor kept. Without both bounds, or with
/// an empty window, nothing is cut.
pub fn trim_window(start: Option<&str>, end: Option<&str>) -> (r: Option<(u64, u64)>)
    ensures
        match r {
            Some(w) => window(opt_str(start), opt_str(end)) == Some((w.0 as nat, w.1 as nat)),
            None => window(opt_str(start), opt_str(end)) is None,
        },
{
    match (parse_header_number(start), parse_header_number(end)) {
        (Some(s), Some(e)) => if e > s {
            Some((s, e))
        } else {
            None
        },
        _ => None,
    }
}

/// Whether a header switches something on: `true` or `1` does, white space around it aside, and
/// nothing else.
pub open spec fn switched_on(h: Option<Seq<char>>) -> bool {
    match h {
        Some(s) => trimmed(s) == "true"@ || trimmed(s) == "1"@,
        None => false,
    }
}

/// Whether a header switches something on.
pub fn header_flag(h: Option<&str>) -> (r: bool)
    ensures
        r == switched_on(opt_str(h)),
{
    match h {
        Some(s) => {
            let t = trim(s);
            same(t.as_str(), "true") || same(t.as_str(), "1")
        },
        None => false,
    }
}

/// The JSON text in a header, where there is anything but white space.
pub open spec fn payload(h: Option<Seq<char>>) -> Option<Seq<char>> {
    match h {
        Some(s) => nonblank(s),
        None => None,
    }
}

/// The JSON text in a header, where there is anything but white space.
pub fn header_payload(h: Option<&str>) -> (r: Option<String>)
    ensures
        opt_text(r) == payload(opt_str(h)),
{
    match h {
        Some(s) => trim_to_option(s),
        None => None,
    }
}

// ----- the request -----

/// What an editor request brings.
#[derive(Clone, Copy, PartialEq, Eq, Structural, Debug)]
pub enum RenderKind {
    Video,
    Thumbnail,
    Gif,
}

/// Why an editor request is refused before anything is done.
#[derive(Clone, Copy, PartialEq, Eq, Structural, Debug)]
pub enum RequestProblem {
    MissingId,
    NotBytes(RenderKind),
    Empty(RenderKind),
}

impl RequestProblem {
    /// What the user is told.
    pub open spec fn text(self) -> Seq<char> {
        match self {
            RequestProblem::MissingId => "internal error: missing recording id"@,
            RequestProblem::NotBytes(RenderKind::Video) =>
                "internal error: rendered bytes not received"@,
            RequestProblem::NotBytes(RenderKind::Thumbnail) =>
                "internal error: thumbnail bytes not received"@,
            RequestProblem::NotBytes(RenderKind::Gif) =>
                "internal error: rendered GIF bytes not received"@,
            RequestProblem::Empty(RenderKind::Thumbnail) => "thumbnail render produced no data"@,
            RequestProblem::Empty(_) => "render produced no data"@,
        }
    }

    /// What the user is told.
    pub fn message(&self) -> (r: String)
        ensures
            r@ == self.text(),
    {
        match self {
            RequestProblem::MissingId => "internal error: missing recording id".to_owned(),
            RequestProblem::NotBytes(RenderKind::Video) =>
                "internal error: rendered bytes not received".to_owned(),
            RequestProblem::NotBytes(RenderKind::Thumbnail) =>
                "internal error: thumbnail bytes not received".to_owned(),
            RequestProblem::NotBytes(RenderKind::Gif) =>
                "internal error: rendered GIF bytes not received".to_owned(),
            RequestProblem::Empty(RenderKind::Thumbnail) =>
                "thumbnail render produced no data".to_owned(),
            RequestProblem::Empty(_) => "render produced no data".to_owned(),
        }
    }
}

/// What is wrong with a request, if anything.
pub open spec fn checked(kind: RenderKind, has_id: bool, raw_len: Option<usize>) -> Result<
    (),
    RequestProblem,
> {
    if !has_id {
        Err::<(), RequestProblem>(RequestProblem::MissingId)
    } else if raw_len is None {
        Err(RequestProblem::NotBytes(kind))
    } else if raw_len == Some(0usize) {
        Err(RequestProblem::Empty(kind))
    } else {
        Ok(())
    }
}

/// A request is in order exactly where it names a recording and brings bytes; the first thing that is
/// missing is told, by what was to be rendered.
pub proof fn law_requests_bring_bytes(kind: RenderKind, has_id: bool, raw_len: Option<usize>)
    ensures
        checked(kind, has_id, raw_len) is Ok <==> has_id && raw_len is Some && raw_len->0 > 0,
        !has_id <==> checked(kind, has_id, raw_len) == Err::<(), RequestProblem>(
            RequestProblem::MissingId,
        ),
        has_id && raw_len is None ==> checked(kind, has_id, raw_len) == Err::<(), RequestProblem>(
            RequestProblem::NotBytes(kind),
        ),
        has_id && raw_len == Some(0usize) ==> checked(kind, has_id, raw_len) == Err::<
            (),
            RequestProblem,
        >(RequestProblem::Empty(kind)),
        RequestProblem::Empty(RenderKind::Video).text() == RequestProblem::Empty(
            RenderKind::Gif,
        ).text(),
        occurs_in(RequestProblem::NotBytes(RenderKind::Thumbnail).text(), seq![
            't', 'h', 'u', 'm', 'b', 'n', 'a', 'i', 'l',
        ]),
        occurs_in(RequestProblem::Empty(RenderKind::Thumbnail).text(), seq![
            't', 'h', 'u', 'm', 'b', 'n', 'a', 'i', 'l',
        ]),
        occurs_in(RequestProblem::NotBytes(RenderKind::Gif).text(), seq!['G', 'I', 'F']),
{
    lemma_thumbnail_not_bytes();
    lemma_thumbnail_empty();
    lemma_gif_not_bytes();
}

proof fn lemma_thumbnail_not_bytes()
    ensures
        occurs_in("internal error: thumbnail bytes not received"@, seq![
            't', 'h', 'u', 'm', 'b', 'n', 'a', 'i', 'l',
        ]),
{
    reveal_strlit("internal error: thumbnail bytes not received");
    lemma_occurs_at("internal error: thumbnail bytes not received"@, 16, seq![
        't', 'h', 'u', 'm', 'b', 'n', 'a', 'i', 'l',
    ]);
}

proof fn lemma_thumbnail_empty()
    ensures
        occurs_in("thumbnail render produced no data"@, seq![
            't', 'h', 'u', 'm', 'b', 'n', 'a', 'i', 'l',
        ]),
{
    reveal_strlit("thumbnail render produced no data");
    lemma_occurs_at("thumbnail render produced no data"@, 0, seq![
        't', 'h', 'u', 'm', 'b', 'n', 'a', 'i', 'l',
    ]);
}

proof fn lemma_gif_not_bytes()
    ensures
        occurs_in("internal error: rendered GIF bytes not received"@, seq!['G', 'I', 'F']),
{
    reveal_strlit("internal error: rendered GIF bytes not received");
    lemma_occurs_at("internal error: rendered GIF bytes not received"@, 25, seq!['G', 'I', 'F']);
}

/// Checks an editor request: it names a recording, its body is raw bytes (`raw_len` is `None`
/// where it is not), and there is at least one. The first of these that fails is reported.
pub fn check_render_request(kind: RenderKind, has_id: bool, raw_len: Option<usize>) -> (r: Result<
    (),
    RequestProblem,
>)
    ensures
        r == checked(kind, has_id, raw_len),
{
    if !has_id {
        return Err(RequestProblem::MissingId);
    }
    match raw_len {
        None => Err(RequestProblem::NotBytes(kind)),
        Some(n) => if n == 0 {
            Err(RequestProblem::Empty(kind))
        } else {
            Ok(())
        },
    }
}

// ----- files -----

/// The files that an export works with.
#[derive(Clone, Copy, PartialEq, Eq, Structural, Debug)]
pub enum RenderFile {
    Video,
    FullAudio,
    TrimmedAudio,
    RetimedAudio,
    DenoisedAudio,
    NormalizedAudio,
    Music,
    MixedAudio,
    Output,
}

impl RenderFile {
    /// What follows the recording's id in the file's name.
    pub open spec fn suffix(self) -> Seq<char> {
        match self {
            RenderFile::Video => ".render-vid.mp4"@,
            RenderFile::FullAudio => ".render-audio.wav"@,
            RenderFile::TrimmedAudio => ".render-audio-trim.wav"@,
            RenderFile::RetimedAudio => ".render-audio-speed.wav"@,
            RenderFile::DenoisedAudio => ".render-audio-dn.wav"@,
            RenderFile::NormalizedAudio => ".render-audio-norm.wav"@,
            RenderFile::Music => ".render-music.wav"@,
            RenderFile::MixedAudio => ".render-audio-mixed.wav"@,
            RenderFile::Output => ".rendered.mp4"@,
        }
    }

    /// The file's name, in the recordings folder.
    pub fn file_name(&self, id: &str) -> (r: String)
        ensures
            r@ == id@ + self.suffix(),
    {
        match self {
            RenderFile::Video => glue(id, ".render-vid.mp4"),
            RenderFile::FullAudio => glue(id, ".render-audio.wav"),
            RenderFile::TrimmedAudio => glue(id, ".render-audio-trim.wav"),
            RenderFile::RetimedAudio => glue(id, ".render-audio-speed.wav"),
            RenderFile::DenoisedAudio => glue(id, ".render-audio-dn.wav"),
            RenderFile::NormalizedAudio => glue(id, ".render-audio-norm.wav"),
            RenderFile::Music => glue(id, ".render-music.wav"),
            RenderFile::MixedAudio => glue(id, ".render-audio-mixed.wav"),
            RenderFile::Output => glue(id, ".rendered.mp4"),
        }
    }
}

/// The files that are removed whatever an export came to: all but the output, each once.
pub fn temporary_files() -> (r: Vec<RenderFile>)
    ensures
        forall|f: RenderFile| r@.contains(f) <==> f != RenderFile::Output,
        r@.no_duplicates(),
{
    let mut v: Vec<RenderFile> = Vec::new();
    v.push(RenderFile::Video);
    v.push(RenderFile::FullAudio);
    v.push(RenderFile::TrimmedAudio);
    v.push(RenderFile::RetimedAudio);
    v.push(RenderFile::DenoisedAudio);
    v.push(RenderFile::NormalizedAudio);
    v.push(RenderFile::Music);
    v.push(RenderFile::MixedAudio);
    assert forall|f: RenderFile| v@.contains(f) <==> f != RenderFile::Output by {
        match f {
            RenderFile::Video => assert(v@[0] == f),
            RenderFile::FullAudio => assert(v@[1] == f),
            RenderFile::TrimmedAudio => assert(v@[2] == f),
            RenderFile::RetimedAudio => assert(v@[3] == f),
            RenderFile::DenoisedAudio => assert(v@[4] == f),
            RenderFile::NormalizedAudio => assert(v@[5] == f),
            RenderFile::Music => assert(v@[6] == f),
            RenderFile::MixedAudio => assert(v@[7] == f),
            RenderFile::Output => {},
        }
    }
    v
}

/// No two files of an export have the same name; in particular, removing the temporary ones never
/// removes the output.
pub proof fn law_render_files_are_distinct(id: Seq<char>, a: RenderFile, b: RenderFile)
    requires
        a != b,
    ensures
        id + a.suffix() != id + b.suffix(),
{
    reveal_strlit(".render-vid.mp4");
    reveal_strlit(".render-audio.wav");
    reveal_strlit(".render-audio-trim.wav");
    reveal_strlit(".render-audio-speed.wav");
    reveal_strlit(".render-audio-dn.wav");
    reveal_strlit(".render-audio-norm.wav");
    reveal_strlit(".render-music.wav");
    reveal_strlit(".render-audio-mixed.wav");
    reveal_strlit(".rendered.mp4");
    let x = a.suffix();
    let y = b.suffix();
    assert(".render-audio.wav"@[8] != ".render-music.wav"@[8]);
    assert(".render-audio-trim.wav"@[14] != ".render-audio-norm.wav"@[14]);
    assert(".render-audio-speed.wav"@[14] != ".render-audio-mixed.wav"@[14]);
    assert(x.len() != y.len() || x[8] != y[8] || x[14] != y[14]);
    if id + x == id + y {
        assert((id + x).skip(id.len() as int) == x);
        assert((id + y).skip(id.len() as int) == y);
    }
}

// ----- the work -----

/// What the editor asked for beyond the bare soundtrack.
#[derive(Clone, Copy, PartialEq, Eq, Structural, Debug)]
pub struct FinalizePlan {
    pub trim: bool,
    pub retime: bool,
    pub denoise: bool,
    pub normalize: bool,
    pub music: bool,
}

/// One piece of work.
#[derive(Clone, Copy, PartialEq, Eq, Structural, Debug)]
pub enum FinalizeStep {
    SaveVideo,
    ExtractAudio,
    PromoteVideo,
    Trim,
    Retime,
    Denoise,
    Normalize,
    ExtractMusic,
    MixMusic,
    Mux,
    CheckOutput,
    Finished(FinalizeEnd),
}

/// What a piece of work came to.
#[derive(Clone, Copy, PartialEq, Eq, Structural, Debug)]
pub enum WorkResult {
    Done,
    /// The recording has no audio track.
    NoAudio,
    Failed,
    /// The worker broke down.
    Panicked,
    /// The size of the output file.
    Size(u64),
}

/// How an export ends.
#[derive(Clone, Copy, PartialEq, Eq, Structural, Debug)]
pub enum FinalizeEnd {
    /// The video stands as it came.
    VideoOnly,
    /// The video has its soundtrack; the output is this long, in bytes.
    WithAudio(u64),
    Failed(FinalizeFailure),
}

/// Why an export failed.
#[derive(Clone, Copy, PartialEq, Eq, Structural, Debug)]
pub enum FinalizeFailure {
    SaveVideo,
    PromoteVideo,
    Extract,
    ExtractPanicked,
    Trim,
    TrimPanicked,
    Retime,
    RetimePanicked,
    Mux,
    MuxPanicked,
    EmptyOutput,
}

impl FinalizeFailure {
    /// What the user is told; `detail` is the reason that the system gave.
    pub open spec fn text(self, detail: Seq<char>) -> Seq<char> {
        match self {
            FinalizeFailure::SaveVideo => "could not save the rendered video: "@ + detail,
            FinalizeFailure::PromoteVideo =>
                "could not save the rendered video. See Settings → Diagnostics → logs for details."@,
            FinalizeFailure::Extract =>
                "could not prepare the recording's audio. See Settings → Diagnostics → logs for details."@,
            FinalizeFailure::ExtractPanicked => "audio extraction task panicked"@,
            FinalizeFailure::Trim =>
                "could not trim the recording's audio. See Settings → Diagnostics → logs for details."@,
            FinalizeFailure::TrimPanicked => "audio trim task panicked"@,
            FinalizeFailure::Retime =>
                "Export failed while adjusting audio speed — try again or remove the speed segments. See logs."@,
            FinalizeFailure::RetimePanicked => "audio retime task panicked"@,
            FinalizeFailure::Mux =>
                "could not attach audio to the rendered video. See Settings → Diagnostics → logs for details."@,
            FinalizeFailure::MuxPanicked => "audio mux task panicked"@,
            FinalizeFailure::EmptyOutput =>
                "the rendered video could not be finalized. See Settings → Diagnostics → logs for details."@,
        }
    }

    /// What the user is told; `detail` is the reason that the system gave.
    pub fn message(&self, detail: &str) -> (r: String)
        ensures
            r@ == self.text(detail@),
    {
        match self {
            FinalizeFailure::SaveVideo => glue("could not save the rendered video: ", detail),
            FinalizeFailure::PromoteVideo =>
                "could not save the rendered video. See Settings → Diagnostics → logs for details.".to_owned(),
            FinalizeFailure::Extract =>
                "could not prepare the recording's audio. See Settings → Diagnostics → logs for details.".to_owned(),
            FinalizeFailure::ExtractPanicked => "audio extraction task panicked".to_owned(),
            FinalizeFailure::Trim =>
                "could not trim the recording's audio. See Settings → Diagnostics → logs for details.".to_owned(),
            FinalizeFailure::TrimPanicked => "audio trim task panicked".to_owned(),
            FinalizeFailure::Retime =>
                "Export failed while adjusting audio speed — try again or remove the speed segments. See logs.".to_owned(),
            FinalizeFailure::RetimePanicked => "audio retime task panicked".to_owned(),
            FinalizeFailure::Mux =>
                "could not attach audio to the rendered video. See Settings → Diagnostics → logs for details.".to_owned(),
            FinalizeFailure::MuxPanicked => "audio mux task panicked".to_owned(),
            FinalizeFailure::EmptyOutput =>
                "the rendered video could not be finalized. See Settings → Diagnostics → logs for details.".to_owned(),
        }
    }
}

/// An export under way: what to do next, and the audio as far as it has come.
#[derive(Clone, Copy, PartialEq, Eq, Structural, Debug)]
pub struct Finalize {
    pub plan: FinalizePlan,
    pub audio: RenderFile,
    pub step: FinalizeStep,
}

/// The first step from retiming on that the plan asks for.
pub open spec fn from_retime(p: FinalizePlan) -> FinalizeStep {
    if p.retime {
        FinalizeStep::Retime
    } else {
        from_denoise(p)
    }
}

/// The first step from cleaning on that the plan asks for.
pub open spec fn from_denoise(p: FinalizePlan) -> FinalizeStep {
    if p.denoise {
        FinalizeStep::Denoise
    } else {
        from_normalize(p)
    }
}

/// The first step from levelling on that the plan asks for.
pub open spec fn from_normalize(p: FinalizePlan) -> FinalizeStep {
    if p.normalize {
        FinalizeStep::Normalize
    } else {
        from_music(p)
    }
}

/// The first step from music on that the plan asks for.
pub open spec fn from_music(p: FinalizePlan) -> FinalizeStep {
    if p.music {
        FinalizeStep::ExtractMusic
    } else {
        FinalizeStep::Mux
    }
}

impl FinalizePlan {
    fn retime_or_later(self) -> (r: FinalizeStep)
        ensures
            r == from_retime(self),
    {
        if self.retime {
            FinalizeStep::Retime
        } else {
            self.denoise_or_later()
        }
    }

    fn denoise_or_later(self) -> (r: FinalizeStep)
        ensures
            r == from_denoise(self),
    {
        if self.denoise {
            FinalizeStep::Denoise
        } else {
            self.normalize_or_later()
        }
    }

    fn normalize_or_later(self) -> (r: FinalizeStep)
        ensures
            r == from_normalize(self),
    {
        if self.normalize {
            FinalizeStep::Normalize
        } else {
            self.music_or_later()
        }
    }

    fn music_or_later(self) -> (r: FinalizeStep)
        ensures
            r == from_music(self),
    {
        if self.music {
            FinalizeStep::ExtractMusic
        } else {
            FinalizeStep::Mux
        }
    }
}

/// The end with a failure.
pub open spec fn failed(f: FinalizeFailure) -> FinalizeStep {
    FinalizeStep::Finished(FinalizeEnd::Failed(f))
}

impl Finalize {
    /// An export that has not begun.
    pub open spec fn begun(plan: FinalizePlan) -> Finalize {
        Finalize { plan, audio: RenderFile::FullAudio, step: FinalizeStep::SaveVideo }
    }

    /// An export that has not begun.
    pub fn start(plan: FinalizePlan) -> (r: Finalize)
        ensures
            r == Finalize::begun(plan),
    {
        Finalize { plan, audio: RenderFile::FullAudio, step: FinalizeStep::SaveVideo }
    }

    /// Whether nothing is left to do.
    pub open spec fn over(self) -> bool {
        self.step is Finished
    }

    /// The step that follows, and the audio from there on.
    pub open spec fn after(self, e: WorkResult) -> Finalize {
        let p = self.plan;
        let (step, audio) = match self.step {
            FinalizeStep::SaveVideo => if e == WorkResult::Done {
                (FinalizeStep::ExtractAudio, self.audio)
            } else {
                (failed(FinalizeFailure::SaveVideo), self.audio)
            },
            FinalizeStep::ExtractAudio => match e {
                WorkResult::Done => if p.trim {
                    (FinalizeStep::Trim, RenderFile::FullAudio)
                } else {
                    (from_retime(p), RenderFile::FullAudio)
                },
                WorkResult::NoAudio => (FinalizeStep::PromoteVideo, self.audio),
                WorkResult::Panicked => (failed(FinalizeFailure::ExtractPanicked), self.audio),
                _ => (failed(FinalizeFailure::Extract), self.audio),
            },
            FinalizeStep::PromoteVideo => if e == WorkResult::Done {
                (FinalizeStep::Finished(FinalizeEnd::VideoOnly), self.audio)
            } else {
                (failed(FinalizeFailure::PromoteVideo), self.audio)
            },
            FinalizeStep::Trim => match e {
                WorkResult::Done => (from_retime(p), RenderFile::TrimmedAudio),
                WorkResult::Panicked => (failed(FinalizeFailure::TrimPanicked), self.audio),
                _ => (failed(FinalizeFailure::Trim), self.audio),
            },
            FinalizeStep::Retime => match e {
                WorkResult::Done => (from_denoise(p), RenderFile::RetimedAudio),
                WorkResult::Panicked => (failed(FinalizeFailure::RetimePanicked), self.audio),
                _ => (failed(FinalizeFailure::Retime), self.audio),
            },
            FinalizeStep::Denoise => if e == WorkResult::Done {
                (from_normalize(p), RenderFile::DenoisedAudio)
            } else {
                (from_normalize(p), self.audio)
            },
            FinalizeStep::Normalize => if e == WorkResult::Done {
                (from_music(p), RenderFile::NormalizedAudio)
            } else {
                (from_music(p), self.audio)
            },
            FinalizeStep::ExtractMusic => if e == WorkResult::Done {
                (FinalizeStep::MixMusic, self.audio)
            } else {
                (FinalizeStep::Mux, self.audio)
            },
            FinalizeStep::MixMusic => if e == WorkResult::Done {
                (FinalizeStep::Mux, RenderFile::MixedAudio)
            } else {
                (FinalizeStep::Mux, self.audio)
            },
            FinalizeStep::Mux => match e {
                WorkResult::Done => (FinalizeStep::CheckOutput, self.audio),
                WorkResult::Panicked => (failed(FinalizeFailure::MuxPanicked), self.audio),
                _ => (failed(FinalizeFailure::Mux), self.audio),
            },
            FinalizeStep::CheckOutput => match e {
                WorkResult::Size(n) => if n > 0 {
                    (FinalizeStep::Finished(FinalizeEnd::WithAudio(n)), self.audio)
                } else {
                    (failed(FinalizeFailure::EmptyOutput), self.audio)
                },
                _ => (failed(FinalizeFailure::EmptyOutput), self.audio),
            },
            FinalizeStep::Finished(_) => (self.step, self.audio),
        };
        Finalize { plan: p, audio, step }
    }

    /// Takes in what the current step came to.
    pub fn advance(self, e: WorkResult) -> (r: Finalize)
        ensures
            r == self.after(e),
    {
        let p = self.plan;
        let done = e == WorkResult::Done;
        let panicked = e == WorkResult::Panicked;
        let mut audio = self.audio;
        let step = match self.step {
            FinalizeStep::SaveVideo => if done {
                FinalizeStep::ExtractAudio
            } else {
                Self::fail(FinalizeFailure::SaveVideo)
            },
            FinalizeStep::ExtractAudio => match e {
                WorkResult::Done => {
                    audio = RenderFile::FullAudio;
                    if p.trim {
                        FinalizeStep::Trim
                    } else {
                        p.retime_or_later()
                    }
                },
                WorkResult::NoAudio => FinalizeStep::PromoteVideo,
                WorkResult::Panicked => Self::fail(FinalizeFailure::ExtractPanicked),
                _ => Self::fail(FinalizeFailure::Extract),
            },
            FinalizeStep::PromoteVideo => if done {
                FinalizeStep::Finished(FinalizeEnd::VideoOnly)
            } else {
                Self::fail(FinalizeFailure::PromoteVideo)
            },
            FinalizeStep::Trim => if done {
                audio = RenderFile::TrimmedAudio;
                p.retime_or_later()
            } else if panicked {
                Self::fail(FinalizeFailure::TrimPanicked)
            } else {
                Self::fail(FinalizeFailure::Trim)
            },
            FinalizeStep::Retime => if done {
                audio = RenderFile::RetimedAudio;
                p.denoise_or_later()
            } else if panicked {
                Self::fail(FinalizeFailure::RetimePanicked)
            } else {
                Self::fail(FinalizeFailure::Retime)
            },
            FinalizeStep::Denoise => {
                if done {
                    audio = RenderFile::DenoisedAudio;
                }
                p.normalize_or_later()
            },
            FinalizeStep::Normalize => {
                if done {
                    audio = RenderFile::NormalizedAudio;
                }
                p.music_or_later()
            },
            FinalizeStep::ExtractMusic => if done {
                FinalizeStep::MixMusic
            } else {
                FinalizeStep::Mux
            },
            FinalizeStep::MixMusic => {
                if done {
                    audio = RenderFile::MixedAudio;
                }
                FinalizeStep::Mux
            },
            FinalizeStep::Mux => if done {
                FinalizeStep::CheckOutput
            } else if panicked {
                Self::fail(FinalizeFailure::MuxPanicked)
            } else {
                Self::fail(FinalizeFailure::Mux)
            },
            FinalizeStep::CheckOutput => match e {
                WorkResult::Size(n) => if n > 0 {
                    FinalizeStep::Finished(FinalizeEnd::WithAudio(n))
                } else {
                    Self::fail(FinalizeFailure::EmptyOutput)
                },
                _ => Self::fail(FinalizeFailure::EmptyOutput),
            },
            FinalizeStep::Finished(end) => FinalizeStep::Finished(end),
        };
        Finalize { plan: p, audio, step }
    }

    fn fail(f: FinalizeFailure) -> (r: FinalizeStep)
        ensures
            r == failed(f),
    {
        FinalizeStep::Finished(FinalizeEnd::Failed(f))
    }

    /// Where `n` steps lead when each step comes to what `answers` says.
    pub open spec fn run(self, answers: spec_fn(FinalizeStep) -> WorkResult, n: nat) -> Finalize
        decreases n,
    {
        if n == 0 || self.over() {
            self
        } else {
            self.after(answers(self.step)).run(answers, (n - 1) as nat)
        }
    }
}

// ----- laws -----

/// The audio that goes into the video: that of the last step that was asked for and succeeded.
pub open spec fn chosen_audio(
    p: FinalizePlan,
    answers: spec_fn(FinalizeStep) -> WorkResult,
) -> RenderFile {
    if p.music && answers(FinalizeStep::ExtractMusic) == WorkResult::Done && answers(
        FinalizeStep::MixMusic,
    ) == WorkResult::Done {
        RenderFile::MixedAudio
    } else if p.normalize && answers(FinalizeStep::Normalize) == WorkResult::Done {
        RenderFile::NormalizedAudio
    } else if p.denoise && answers(FinalizeStep::Denoise) == WorkResult::Done {
        RenderFile::DenoisedAudio
    } else if p.retime {
        RenderFile::RetimedAudio
    } else if p.trim {
        RenderFile::TrimmedAudio
    } else {
        RenderFile::FullAudio
    }
}

/// The failure of a step that must succeed.
pub open spec fn mishap(
    e: WorkResult,
    failure: FinalizeFailure,
    panic: FinalizeFailure,
) -> FinalizeEnd {
    FinalizeEnd::Failed(
        if e == WorkResult::Panicked {
            panic
        } else {
            failure
        },
    )
}

/// How an export ends: a failure of the first step that must succeed and did not, the bare video
/// where the recording is silent, the video with its soundtrack otherwise.
pub open spec fn ending(
    p: FinalizePlan,
    answers: spec_fn(FinalizeStep) -> WorkResult,
) -> FinalizeEnd {
    let extract = answers(FinalizeStep::ExtractAudio);
    let trim = answers(FinalizeStep::Trim);
    let retime = answers(FinalizeStep::Retime);
    let mux = answers(FinalizeStep::Mux);
    if answers(FinalizeStep::SaveVideo) != WorkResult::Done {
        FinalizeEnd::Failed(FinalizeFailure::SaveVideo)
    } else if extract == WorkResult::NoAudio {
        if answers(FinalizeStep::PromoteVideo) == WorkResult::Done {
            FinalizeEnd::VideoOnly
        } else {
            FinalizeEnd::Failed(FinalizeFailure::PromoteVideo)
        }
    } else if extract != WorkResult::Done {
        mishap(extract, FinalizeFailure::Extract, FinalizeFailure::ExtractPanicked)
    } else if p.trim && trim != WorkResult::Done {
        mishap(trim, FinalizeFailure::Trim, FinalizeFailure::TrimPanicked)
    } else if p.retime && retime != WorkResult::Done {
        mishap(retime, FinalizeFailure::Retime, FinalizeFailure::RetimePanicked)
    } else if mux != WorkResult::Done {
        mishap(mux, FinalizeFailure::Mux, FinalizeFailure::MuxPanicked)
    } else {
        match answers(FinalizeStep::CheckOutput) {
            WorkResult::Size(n) if n > 0 => FinalizeEnd::WithAudio(n),
            _ => FinalizeEnd::Failed(FinalizeFailure::EmptyOutput),
        }
    }
}

/// Ten steps always finish an export, and it ends as [`ending`] says; where it ends with a
/// soundtrack, that is the one [`chosen_audio`] names.
pub proof fn law_export_ends(p: FinalizePlan, answers: spec_fn(FinalizeStep) -> WorkResult)
    ensures
        Finalize::begun(p).run(answers, 10).step == FinalizeStep::Finished(ending(p, answers)),
        ending(p, answers) is WithAudio ==> Finalize::begun(p).run(answers, 10).audio
            == chosen_audio(p, answers),
{
    reveal_with_fuel(Finalize::run, 11);
}

/// Cleaning, levelling and music never fail an export: it ends as it would have without them.
pub proof fn law_niceties_never_fail(p: FinalizePlan, answers: spec_fn(FinalizeStep) -> WorkResult)
    ensures
        ({
            let bare = FinalizePlan { denoise: false, normalize: false, music: false, ..p };
            Finalize::begun(p).run(answers, 10).step == Finalize::begun(bare).run(answers, 10).step
        }),
{
    let bare = FinalizePlan { denoise: false, normalize: false, music: false, ..p };
    law_export_ends(p, answers);
    law_export_ends(bare, answers);
}

/// Audio that was not retimed never goes into a video that was: where the plan asks for it, an
/// export that ends with a soundtrack has retimed, and before that trimmed, the audio.
pub proof fn law_sound_and_picture_stay_together(
    p: FinalizePlan,
    answers: spec_fn(FinalizeStep) -> WorkResult,
)
    requires
        Finalize::begun(p).run(answers, 10).step matches FinalizeStep::Finished(end)
            && end is WithAudio,
    ensures
        p.trim ==> answers(FinalizeStep::Trim) == WorkResult::Done,
        p.retime ==> answers(FinalizeStep::Retime) == WorkResult::Done,
{
    law_export_ends(p, answers);
}

/// A header is read without the white space around it: as a number where digits stand there, as a
/// switch that is on where it says `true` or `1`.
pub proof fn law_headers_are_read_trimmed(a: Seq<char>, m: Seq<char>, b: Seq<char>)
    requires
        forall|i: int| 0 <= i < a.len() ==> is_white(#[trigger] a[i]),
        forall|i: int| 0 <= i < b.len() ==> is_white(#[trigger] b[i]),
        m.len() > 0,
        !is_white(m[0]) && !is_white(m.last()),
    ensures
        header_number(Some(a + m + b)) == unsigned_value(m),
        switched_on(Some(a + m + b)) <==> m == seq!['t', 'r', 'u', 'e'] || m == seq!['1'],
        payload(Some(a + m + b)) == Some(m),
        header_number(None) is None && !switched_on(None) && payload(None) is None,
{
    reveal_strlit("true");
    assert("true"@ =~= seq!['t', 'r', 'u', 'e']);
    reveal_strlit("1");
    assert("1"@ =~= seq!['1']);
    law_trim_takes_white_space(a, m, b);
}

/// A window is the two numbers that bound it, in their order, and there is none where either is
/// missing or the end is not behind the start.
pub proof fn law_window_has_room(start: Option<Seq<char>>, end: Option<Seq<char>>)
    ensures
        window(start, end) matches Some(w) ==> w.0 < w.1 && header_number(start) == Some(w.0)
            && header_number(end) == Some(w.1),
        window(start, end) is None <==> header_number(start) is None || header_number(end) is None
            || header_number(start)->0 >= header_number(end)->0,
{
}

/// What each file of an export is called behind the id of its recording.
pub proof fn law_render_files_are_named()
    ensures
        RenderFile::Video.suffix() == seq![
            '.', 'r', 'e', 'n', 'd', 'e', 'r', '-', 'v', 'i', 'd', '.', 'm', 'p', '4',
        ],
        RenderFile::FullAudio.suffix() == seq![
            '.', 'r', 'e', 'n', 'd', 'e', 'r', '-', 'a', 'u', 'd', 'i', 'o', '.', 'w', 'a', 'v',
        ],
        RenderFile::TrimmedAudio.suffix() == seq![
            '.', 'r', 'e', 'n', 'd', 'e', 'r', '-', 'a', 'u', 'd', 'i', 'o', '-', 't', 'r', 'i',
            'm', '.', 'w', 'a', 'v',
        ],
        RenderFile::RetimedAudio.suffix() == seq![
            '.', 'r', 'e', 'n', 'd', 'e', 'r', '-', 'a', 'u', 'd', 'i', 'o', '-', 's', 'p', 'e',
            'e', 'd', '.', 'w', 'a', 'v',
        ],
        RenderFile::DenoisedAudio.suffix() == seq![
            '.', 'r', 'e', 'n', 'd', 'e', 'r', '-', 'a', 'u', 'd', 'i', 'o', '-', 'd', 'n', '.',
            'w', 'a', 'v',
        ],
        RenderFile::NormalizedAudio.suffix() == seq![
            '.', 'r', 'e', 'n', 'd', 'e', 'r', '-', 'a', 'u', 'd', 'i', 'o', '-', 'n', 'o', 'r',
            'm', '.', 'w', 'a', 'v',
        ],
        RenderFile::Music.suffix() == seq![
            '.', 'r', 'e', 'n', 'd', 'e', 'r', '-', 'm', 'u', 's', 'i', 'c', '.', 'w', 'a', 'v',
        ],
        RenderFile::MixedAudio.suffix() == seq![
            '.', 'r', 'e', 'n', 'd', 'e', 'r', '-', 'a', 'u', 'd', 'i', 'o', '-', 'm', 'i', 'x',
            'e', 'd', '.', 'w', 'a', 'v',
        ],
        RenderFile::Output.suffix() == seq![
            '.', 'r', 'e', 'n', 'd', 'e', 'r', 'e', 'd', '.', 'm', 'p', '4',
        ],
{
    reveal_strlit(".render-vid.mp4");
    assert(".render-vid.mp4"@ =~= seq![
        '.', 'r', 'e', 'n', 'd', 'e', 'r', '-', 'v', 'i', 'd', '.', 'm', 'p', '4',
    ]);
    reveal_strlit(".render-audio.wav");
    assert(".render-audio.wav"@ =~= seq![
        '.', 'r', 'e', 'n', 'd', 'e', 'r', '-', 'a', 'u', 'd', 'i', 'o', '.', 'w', 'a', 'v',
    ]);
    reveal_strlit(".render-audio-trim.wav");
    assert(".render-audio-trim.wav"@ =~= seq![
        '.', 'r', 'e', 'n', 'd', 'e', 'r', '-', 'a', 'u', 'd', 'i', 'o', '-', 't', 'r', 'i', 'm',
        '.', 'w', 'a', 'v',
    ]);
    reveal_strlit(".render-audio-speed.wav");
    assert(".render-audio-speed.wav"@ =~= seq![
        '.', 'r', 'e', 'n', 'd', 'e', 'r', '-', 'a', 'u', 'd', 'i', 'o', '-', 's', 'p', 'e', 'e',
        'd', '.', 'w', 'a', 'v',
    ]);
    reveal_strlit(".render-audio-dn.wav");
    assert(".render-audio-dn.wav"@ =~= seq![
        '.', 'r', 'e', 'n', 'd', 'e', 'r', '-', 'a', 'u', 'd', 'i', 'o', '-', 'd', 'n', '.', 'w',
        'a', 'v',
    ]);
    reveal_strlit(".render-audio-norm.wav");
    assert(".render-audio-norm.wav"@ =~= seq![
        '.', 'r', 'e', 'n', 'd', 'e', 'r', '-', 'a', 'u', 'd', 'i', 'o', '-', 'n', 'o', 'r', 'm',
        '.', 'w', 'a', 'v',
    ]);
    reveal_strlit(".render-music.wav");
    assert(".render-music.wav"@ =~= seq![
        '.', 'r', 'e', 'n', 'd', 'e', 'r', '-', 'm', 'u', 's', 'i', 'c', '.', 'w', 'a', 'v',
    ]);
    reveal_strlit(".render-audio-mixed.wav");
    assert(".render-audio-mixed.wav"@ =~= seq![
        '.', 'r', 'e', 'n', 'd', 'e', 'r', '-', 'a', 'u', 'd', 'i', 'o', '-', 'm', 'i', 'x', 'e',
        'd', '.', 'w', 'a', 'v',
    ]);
    reveal_strlit(".rendered.mp4");
    assert(".rendered.mp4"@ =~= seq![
        '.', 'r', 'e', 'n', 'd', 'e', 'r', 'e', 'd', '.', 'm', 'p', '4',
    ]);
}

/// How the steps of an export hang together. The sound goes through the steps that the plan asks for,
/// in this order: cut, change of speed, cleaning, levelling, music; then it is put into the video. The
/// file that goes on is the one that the last step that was done has made.
pub proof fn law_steps_of_an_export(f: Finalize, e: WorkResult)
    ensures
        f.after(e).plan == f.plan,
        f.over() ==> f.after(e) == f,
        ({
            let p = f.plan;
            let done = e == WorkResult::Done;
            let next = f.after(e).step;
            let cut = f.step == FinalizeStep::Trim && done || f.step == FinalizeStep::ExtractAudio
                && done && !p.trim;
            let timed = f.step == FinalizeStep::Retime && done || cut && !p.retime;
            let cleaned = f.step == FinalizeStep::Denoise || timed && !p.denoise;
            let levelled = f.step == FinalizeStep::Normalize || cleaned && !p.normalize;
            &&& next != FinalizeStep::SaveVideo
            &&& next == FinalizeStep::ExtractAudio <==> f.step == FinalizeStep::SaveVideo && done
            &&& next == FinalizeStep::PromoteVideo <==> f.step == FinalizeStep::ExtractAudio && e
                == WorkResult::NoAudio
            &&& next == FinalizeStep::Trim <==> f.step == FinalizeStep::ExtractAudio && done && p.trim
            &&& next == FinalizeStep::Retime <==> cut && p.retime
            &&& next == FinalizeStep::Denoise <==> timed && p.denoise
            &&& next == FinalizeStep::Normalize <==> cleaned && p.normalize
            &&& next == FinalizeStep::ExtractMusic <==> levelled && p.music
            &&& next == FinalizeStep::MixMusic <==> f.step == FinalizeStep::ExtractMusic && done
            &&& next == FinalizeStep::Mux <==> {
                ||| levelled && !p.music
                ||| f.step == FinalizeStep::ExtractMusic && !done
                ||| f.step == FinalizeStep::MixMusic
            }
            &&& next == FinalizeStep::CheckOutput <==> f.step == FinalizeStep::Mux && done
            &&& !f.over() ==> {
                &&& next == FinalizeStep::Finished(FinalizeEnd::VideoOnly) <==> f.step
                    == FinalizeStep::PromoteVideo && done
                &&& (next matches FinalizeStep::Finished(FinalizeEnd::WithAudio(n)) ==> f.step
                    == FinalizeStep::CheckOutput && e == WorkResult::Size(n) && n > 0)
                &&& (f.step == FinalizeStep::CheckOutput && (e matches WorkResult::Size(n) && n > 0)
                    ==> next is Finished && next->Finished_0 is WithAudio)
            }
        }),
        ({
            let done = e == WorkResult::Done;
            f.after(e).audio == (if f.step == FinalizeStep::ExtractAudio && done {
                RenderFile::FullAudio
            } else if f.step == FinalizeStep::Trim && done {
                RenderFile::TrimmedAudio
            } else if f.step == FinalizeStep::Retime && done {
                RenderFile::RetimedAudio
            } else if f.step == FinalizeStep::Denoise && done {
                RenderFile::DenoisedAudio
            } else if f.step == FinalizeStep::Normalize && done {
                RenderFile::NormalizedAudio
            } else if f.step == FinalizeStep::MixMusic && done {
                RenderFile::MixedAudio
            } else {
                f.audio
            })
        }),
{
}

/// Where an export failed is told by the failure: a panic apart from a failure of the work, and the
/// details only where the video could not be saved.
pub proof fn law_export_failures_are_told_apart(f: Finalize, e: WorkResult, x: FinalizeFailure)
    requires
        !f.over(),
        f.after(e).step == FinalizeStep::Finished(FinalizeEnd::Failed(x)),
    ensures
        x == FinalizeFailure::SaveVideo <==> f.step == FinalizeStep::SaveVideo,
        x == FinalizeFailure::PromoteVideo <==> f.step == FinalizeStep::PromoteVideo,
        x == FinalizeFailure::Extract || x == FinalizeFailure::ExtractPanicked <==> f.step
            == FinalizeStep::ExtractAudio,
        x == FinalizeFailure::Trim || x == FinalizeFailure::TrimPanicked <==> f.step
            == FinalizeStep::Trim,
        x == FinalizeFailure::Retime || x == FinalizeFailure::RetimePanicked <==> f.step
            == FinalizeStep::Retime,
        x == FinalizeFailure::Mux || x == FinalizeFailure::MuxPanicked <==> f.step
            == FinalizeStep::Mux,
        x == FinalizeFailure::EmptyOutput <==> f.step == FinalizeStep::CheckOutput,
        x == FinalizeFailure::ExtractPanicked || x == FinalizeFailure::TrimPanicked || x
            == FinalizeFailure::RetimePanicked || x == FinalizeFailure::MuxPanicked <==> e
            == WorkResult::Panicked && (f.step == FinalizeStep::ExtractAudio || f.step
            == FinalizeStep::Trim || f.step == FinalizeStep::Retime || f.step == FinalizeStep::Mux),
        e == WorkResult::Done ==> f.step == FinalizeStep::CheckOutput,
{
}

/// The details of a failure are told where the video could not be saved, and nowhere else.
pub proof fn law_only_a_failed_save_tells_details(
    x: FinalizeFailure,
    detail: Seq<char>,
    other: Seq<char>,
)
    ensures
        x == FinalizeFailure::SaveVideo ==> x.text(detail)
            == seq![
                'c', 'o', 'u', 'l', 'd', ' ', 'n', 'o', 't', ' ', 's', 'a', 'v', 'e', ' ', 't',
                'h', 'e', ' ', 'r', 'e', 'n', 'd', 'e', 'r', 'e', 'd', ' ', 'v', 'i', 'd', 'e',
                'o', ':', ' ',
            ] + detail,
        x != FinalizeFailure::SaveVideo ==> x.text(detail) == x.text(other),
        FinalizeFailure::ExtractPanicked.text(detail) == seq![
            'a', 'u', 'd', 'i', 'o', ' ', 'e', 'x', 't', 'r', 'a', 'c', 't', 'i', 'o', 'n', ' ',
            't', 'a', 's', 'k', ' ', 'p', 'a', 'n', 'i', 'c', 'k', 'e', 'd',
        ],
        FinalizeFailure::TrimPanicked.text(detail) == seq![
            'a', 'u', 'd', 'i', 'o', ' ', 't', 'r', 'i', 'm', ' ', 't', 'a', 's', 'k', ' ', 'p',
            'a', 'n', 'i', 'c', 'k', 'e', 'd',
        ],
        FinalizeFailure::RetimePanicked.text(detail) == seq![
            'a', 'u', 'd', 'i', 'o', ' ', 'r', 'e', 't', 'i', 'm', 'e', ' ', 't', 'a', 's', 'k',
            ' ', 'p', 'a', 'n', 'i', 'c', 'k', 'e', 'd',
        ],
        FinalizeFailure::MuxPanicked.text(detail) == seq![
            'a', 'u', 'd', 'i', 'o', ' ', 'm', 'u', 'x', ' ', 't', 'a', 's', 'k', ' ', 'p', 'a',
            'n', 'i', 'c', 'k', 'e', 'd',
        ],
{
    reveal_strlit("could not save the rendered video: ");
    assert("could not save the rendered video: "@ =~= seq![
        'c', 'o', 'u', 'l', 'd', ' ', 'n', 'o', 't', ' ', 's', 'a', 'v', 'e', ' ', 't', 'h', 'e',
        ' ', 'r', 'e', 'n', 'd', 'e', 'r', 'e', 'd', ' ', 'v', 'i', 'd', 'e', 'o', ':', ' ',
    ]);
    reveal_strlit("audio extraction task panicked");
    assert("audio extraction task panicked"@ =~= seq![
        'a', 'u', 'd', 'i', 'o', ' ', 'e', 'x', 't', 'r', 'a', 'c', 't', 'i', 'o', 'n', ' ', 't',
        'a', 's', 'k', ' ', 'p', 'a', 'n', 'i', 'c', 'k', 'e', 'd',
    ]);
    reveal_strlit("audio trim task panicked");
    assert("audio trim task panicked"@ =~= seq![
        'a', 'u', 'd', 'i', 'o', ' ', 't', 'r', 'i', 'm', ' ', 't', 'a', 's', 'k', ' ', 'p', 'a',
        'n', 'i', 'c', 'k', 'e', 'd',
    ]);
    reveal_strlit("audio retime task panicked");
    assert("audio retime task panicked"@ =~= seq![
        'a', 'u', 'd', 'i', 'o', ' ', 'r', 'e', 't', 'i', 'm', 'e', ' ', 't', 'a', 's', 'k', ' ',
        'p', 'a', 'n', 'i', 'c', 'k', 'e', 'd',
    ]);
    reveal_strlit("audio mux task panicked");
    assert("audio mux task panicked"@ =~= seq![
        'a', 'u', 'd', 'i', 'o', ' ', 'm', 'u', 'x', ' ', 't', 'a', 's', 'k', ' ', 'p', 'a', 'n',
        'i', 'c', 'k', 'e', 'd',
    ]);
}

} // verus!
