//! Screen recordings: starting and stopping them, the row that is kept of each, and the files that
//! belong to it.
use vstd::prelude::*;
use vstd::string::*;

use crate::numerals::{decimal, decimal_text, law_decimal_reads_back, unsigned_value};
use crate::order::{ascending, insert_ascending};
use crate::paths::{
    components, extension, extension_of, file_stem, is_child, is_child_of, is_plain_name,
    law_placed_is_a_child, place, placed, same_path, stem_of,
};
use crate::search::{begins_with, law_occurs_in, occurs_in, starts_with};
use crate::split::{trim, trimmed};
use crate::text::{
    ascii_lower, glue, glue3, holds_text, lowered_ascii, opt_str, opt_text, same, texts, to_ascii_lowercase,
};

verus! {

// ----- rows -----

/// What is known of a recording while it runs.
#[derive(Debug)]
pub struct RecordingMeta {
    pub source_label: String,
    pub has_mic: bool,
    pub has_sysaudio: bool,
    pub cursor_hidden: bool,
}

/// What the recorder reports when it stops.
#[derive(Debug)]
pub struct StoppedRecording {
    pub path: String,
    pub dur_ms: i64,
    pub width: i64,
    pub height: i64,
    pub size: i64,
    /// Empty where no thumbnail was made.
    pub thumb: String,
    pub events_path: Option<String>,
    pub webcam_path: Option<String>,
    pub webcam_offset_ms: Option<i64>,
    pub n_events: Option<i64>,
    pub n_clicks: Option<i64>,
}

/// What is kept of a recording.
#[derive(Debug)]
pub struct RecordingRow {
    pub id: String,
    pub created_at: i64,
    pub file_path: String,
    pub duration_ms: Option<i64>,
    pub width: Option<i64>,
    pub height: Option<i64>,
    pub size_bytes: Option<i64>,
    pub source_label: Option<String>,
    pub has_mic: bool,
    pub has_sysaudio: bool,
    pub thumb_path: Option<String>,
    pub drive_file_id: Option<String>,
    pub drive_link: Option<String>,
    pub upload_status: String,
    pub upload_error: Option<String>,
    pub exports: String,
    pub title: Option<String>,
    pub transcript: Option<String>,
    pub denoised_path: Option<String>,
    pub events_path: Option<String>,
    pub project_json: Option<String>,
    pub webcam_path: Option<String>,
    pub cursor_hidden: bool,
    pub webcam_offset_ms: Option<i64>,
    pub n_events: Option<i64>,
    pub n_clicks: Option<i64>,
    pub project_id: Option<String>,
    pub classified_by: Option<String>,
}

/// The id of a recording: what its file is called, without the extension.
pub open spec fn recording_id(path: Seq<char>) -> Seq<char> {
    match stem_of(path) {
        Some(s) => s,
        None => "rec-unknown"@,
    }
}

/// Whether a row is that of a recording that has just stopped: nothing is uploaded, exported, named,
/// transcribed, cleaned or filed yet.
pub open spec fn is_row_of(
    r: RecordingRow,
    info: StoppedRecording,
    meta: RecordingMeta,
    now_ms: i64,
) -> bool {
    &&& r.id@ == recording_id(info.path@)
    &&& r.created_at == now_ms
    &&& r.file_path@ == info.path@
    &&& r.duration_ms == Some(info.dur_ms)
    &&& r.width == Some(info.width)
    &&& r.height == Some(info.height)
    &&& r.size_bytes == Some(info.size)
    &&& opt_text(r.source_label) == Some(meta.source_label@)
    &&& r.has_mic == meta.has_mic
    &&& r.has_sysaudio == meta.has_sysaudio
    &&& opt_text(r.thumb_path) == (if info.thumb@.len() == 0 {
        None
    } else {
        Some(info.thumb@)
    })
    &&& r.drive_file_id is None
    &&& r.drive_link is None
    &&& r.upload_status@ == "none"@
    &&& r.upload_error is None
    &&& r.exports@ == "[]"@
    &&& r.title is None
    &&& r.transcript is None
    &&& r.denoised_path is None
    &&& r.events_path == info.events_path
    &&& r.project_json is None
    &&& r.webcam_path == info.webcam_path
    &&& r.cursor_hidden == meta.cursor_hidden
    &&& r.webcam_offset_ms == info.webcam_offset_ms
    &&& r.n_events == info.n_events
    &&& r.n_clicks == info.n_clicks
    &&& r.project_id is None
    &&& r.classified_by is None
}

/// The row of a recording that has just stopped: nothing is uploaded, exported, named,
/// transcribed, cleaned or filed yet.
pub fn row_of_stopped(info: StoppedRecording, meta: RecordingMeta, now_ms: i64) -> (r: RecordingRow)
    ensures
        is_row_of(r, info, meta, now_ms),
{
    let id = match file_stem(info.path.as_str()) {
        Some(s) => s,
        None => "rec-unknown".to_owned(),
    };
    let thumb_path = if info.thumb.as_str().is_empty() {
        None
    } else {
        Some(info.thumb)
    };
    RecordingRow {
        id,
        created_at: now_ms,
        file_path: info.path,
        duration_ms: Some(info.dur_ms),
        width: Some(info.width),
        height: Some(info.height),
        size_bytes: Some(info.size),
        source_label: Some(meta.source_label),
        has_mic: meta.has_mic,
        has_sysaudio: meta.has_sysaudio,
        thumb_path,
        drive_file_id: None,
        drive_link: None,
        upload_status: "none".to_owned(),
        upload_error: None,
        exports: "[]".to_owned(),
        title: None,
        transcript: None,
        denoised_path: None,
        events_path: info.events_path,
        project_json: None,
        webcam_path: info.webcam_path,
        cursor_hidden: meta.cursor_hidden,
        webcam_offset_ms: info.webcam_offset_ms,
        n_events: info.n_events,
        n_clicks: info.n_clicks,
        project_id: None,
        classified_by: None,
    }
}

impl RecordingRow {
    /// The file that is played: the cleaned one where there is one.
    pub open spec fn playable(self) -> Seq<char> {
        match self.denoised_path {
            Some(p) => p@,
            None => self.file_path@,
        }
    }

    /// The file that is played.
    pub fn playable_path(&self) -> (r: &str)
        ensures
            r@ == self.playable(),
    {
        match &self.denoised_path {
            Some(p) => p.as_str(),
            None => self.file_path.as_str(),
        }
    }

    /// Where the recorded input events are, where there are any.
    pub fn events_file(&self) -> (r: Option<&str>)
        ensures
            match self.events_path {
                Some(p) => opt_str(r) == (if p@.len() == 0 {
                    None
                } else {
                    Some(p@)
                }),
                None => r is None,
            },
            r matches Some(p) ==> p@.len() > 0 && opt_text(self.events_path) == Some(p@),
            r is None ==> self.events_path is None || opt_text(self.events_path) == Some(
                Seq::<char>::empty(),
            ),
    {
        match &self.events_path {
            Some(p) => if p.as_str().is_empty() {
                None
            } else {
                Some(p.as_str())
            },
            None => None,
        }
    }
}

/// A new row tells what was recorded and nothing else: its measures, its files and its sources are
/// those that were reported, each in its own place; it is played as it was recorded, and its files are
/// the ones that the recorder left.
pub proof fn law_row_tells_what_was_recorded(
    r: RecordingRow,
    info: StoppedRecording,
    meta: RecordingMeta,
    now_ms: i64,
    p: Seq<char>,
)
    requires
        is_row_of(r, info, meta, now_ms),
    ensures
        (r.width->0, r.height->0) == (info.width, info.height) && r.width is Some && r.height is Some,
        (r.duration_ms->0, r.size_bytes->0) == (info.dur_ms, info.size) && r.duration_ms is Some
            && r.size_bytes is Some,
        (r.has_mic, r.has_sysaudio, r.cursor_hidden) == (
            meta.has_mic,
            meta.has_sysaudio,
            meta.cursor_hidden,
        ),
        (r.n_events, r.n_clicks, r.webcam_offset_ms) == (
            info.n_events,
            info.n_clicks,
            info.webcam_offset_ms,
        ),
        opt_text(r.source_label) == Some(meta.source_label@),
        r.created_at == now_ms,
        r.playable() == info.path@,
        column_files(r).contains(p) <==> {
            ||| p == info.path@
            ||| p == info.thumb@ && p.len() > 0
            ||| opt_text(info.events_path) == Some(p)
            ||| opt_text(info.webcam_path) == Some(p)
        },
        opt_text(r.thumb_path) == Some(p) <==> p == info.thumb@ && p.len() > 0,
        (r.events_path, r.webcam_path) == (info.events_path, info.webcam_path),
        r.upload_status@ == seq!['n', 'o', 'n', 'e'],
        r.exports@ == seq!['[', ']'],
        r.drive_file_id is None && r.drive_link is None && r.upload_error is None,
        r.title is None && r.transcript is None && r.project_json is None,
        r.project_id is None && r.classified_by is None,
        stem_of(info.path@) matches Some(s) ==> r.id@ == s,
        stem_of(info.path@) is None ==> r.id@ == seq![
            'r', 'e', 'c', '-', 'u', 'n', 'k', 'n', 'o', 'w', 'n',
        ],
{
    reveal_strlit("rec-unknown");
    assert("rec-unknown"@ =~= seq!['r', 'e', 'c', '-', 'u', 'n', 'k', 'n', 'o', 'w', 'n']);
    reveal_strlit("none");
    assert("none"@ =~= seq!['n', 'o', 'n', 'e']);
    reveal_strlit("[]");
    assert("[]"@ =~= seq!['[', ']']);
    law_all_columns_are_listed(r, p);
}

/// A recording is played from its cleaned file exactly where it has one.
pub proof fn law_cleaned_file_is_played(row: RecordingRow)
    ensures
        row.denoised_path matches Some(p) ==> row.playable() == p@,
        row.denoised_path is None ==> row.playable() == row.file_path@,
{
}

/// The title that a recording is given: what was typed, trimmed.
pub fn recording_title(typed: &str) -> (r: String)
    ensures
        r@ == trimmed(typed@),
{
    trim(typed)
}

/// The name of the transcode of a recording: its stem, the quality, and `.mp4`.
pub open spec fn transcode_name(file_path: Seq<char>, quality: Seq<char>) -> Seq<char> {
    let stem = match stem_of(file_path) {
        Some(s) => s,
        None => "rec"@,
    };
    stem + "-"@ + quality + ".mp4"@
}

/// The name of the file that a recording is transcoded to.
pub fn transcode_file_name(file_path: &str, quality: &str) -> (r: String)
    ensures
        r@ == transcode_name(file_path@, quality@),
{
    let stem = match file_stem(file_path) {
        Some(s) => s,
        None => "rec".to_owned(),
    };
    let mut name = glue3(stem.as_str(), "-", quality);
    name.append(".mp4");
    name
}

/// A transcode is called after its recording and its quality, so two qualities never share a file.
pub proof fn law_transcodes_are_told_apart(path: Seq<char>, a: Seq<char>, b: Seq<char>)
    ensures
        stem_of(path) matches Some(s) ==> transcode_name(path, a) == s + seq!['-'] + a + seq!['.', 'm', 'p', '4'],
        stem_of(path) is None ==> transcode_name(path, a) == seq!['r', 'e', 'c', '-'] + a + seq!['.', 'm', 'p', '4'],
        transcode_name(path, a) == transcode_name(path, b) ==> a == b,
{
    reveal_strlit("rec");
    assert("rec"@ =~= seq!['r', 'e', 'c']);
    reveal_strlit("-");
    assert("-"@ =~= seq!['-']);
    reveal_strlit(".mp4");
    assert(".mp4"@ =~= seq!['.', 'm', 'p', '4']);
    let stem = match stem_of(path) {
        Some(s) => s,
        None => "rec"@,
    };
    assert("rec"@ + "-"@ =~= seq!['r', 'e', 'c', '-']);
    let x = transcode_name(path, a);
    let y = transcode_name(path, b);
    assert(x == stem + "-"@ + a + ".mp4"@);
    assert(y == stem + "-"@ + b + ".mp4"@);
    if x == y {
        assert(x.len() == stem.len() + a.len() + 5);
        assert(y.len() == stem.len() + b.len() + 5);
        assert forall|i: int| 0 <= i < a.len() implies a[i] == b[i] by {
            assert(x[stem.len() + 1 + i] == a[i]);
            assert(y[stem.len() + 1 + i] == b[i]);
        }
        assert(a =~= b);
    }
}

// ----- starting -----

/// What came of asking for the camera.
#[derive(Clone, Copy, PartialEq, Eq, Structural, Debug)]
pub enum CameraAccessOutcome {
    Granted,
    Denied,
    Undetermined,
}

/// The outcome in one word.
pub open spec fn camera_word(outcome: CameraAccessOutcome) -> Seq<char> {
    match outcome {
        CameraAccessOutcome::Granted => "granted"@,
        CameraAccessOutcome::Denied => "denied"@,
        CameraAccessOutcome::Undetermined => "undetermined"@,
    }
}

/// The words for what came of asking for the camera.
pub proof fn law_camera_outcomes_in_words()
    ensures
        camera_word(CameraAccessOutcome::Granted) == seq!['g', 'r', 'a', 'n', 't', 'e', 'd'],
        camera_word(CameraAccessOutcome::Denied) == seq!['d', 'e', 'n', 'i', 'e', 'd'],
        camera_word(CameraAccessOutcome::Undetermined) == seq![
            'u', 'n', 'd', 'e', 't', 'e', 'r', 'm', 'i', 'n', 'e', 'd',
        ],
{
    reveal_strlit("granted");
    assert("granted"@ =~= seq!['g', 'r', 'a', 'n', 't', 'e', 'd']);
    reveal_strlit("denied");
    assert("denied"@ =~= seq!['d', 'e', 'n', 'i', 'e', 'd']);
    reveal_strlit("undetermined");
    assert("undetermined"@ =~= seq!['u', 'n', 'd', 'e', 't', 'e', 'r', 'm', 'i', 'n', 'e', 'd']);
}

/// The outcome in one word.
pub fn camera_access_outcome_str(outcome: CameraAccessOutcome) -> (r: &'static str)
    ensures
        r@ == camera_word(outcome),
{
    match outcome {
        CameraAccessOutcome::Granted => "granted",
        CameraAccessOutcome::Denied => "denied",
        CameraAccessOutcome::Undetermined => "undetermined",
    }
}

/// Why a recording does not start.
#[derive(Clone, Copy, PartialEq, Eq, Structural, Debug)]
pub enum StartProblem {
    BadArea,
    AlreadyRecording,
}

impl StartProblem {
    /// What the user is told.
    pub open spec fn text(self) -> Seq<char> {
        match self {
            StartProblem::BadArea =>
                "Couldn't start the area recording: the selected region is invalid."@,
            StartProblem::AlreadyRecording => "a recording is already in progress"@,
        }
    }

    /// What the user is told.
    pub fn message(&self) -> (r: String)
        ensures
            r@ == self.text(),
    {
        match self {
            StartProblem::BadArea =>
                "Couldn't start the area recording: the selected region is invalid.".to_owned(),
            StartProblem::AlreadyRecording => "a recording is already in progress".to_owned(),
        }
    }
}

/// What is done next on the way to a recording.
#[derive(Clone, Copy, PartialEq, Eq, Structural, Debug)]
pub enum StartStep {
    /// Ask the system for the camera.
    AskForCamera,
    /// Tell the user that the webcam is left out, then start.
    WarnAndStart,
    /// Start, with the webcam or without.
    Start { webcam: bool },
    Refuse(StartProblem),
}

/// Whether a webcam is wanted: one is named.
pub open spec fn wants_webcam(camera_uid: Option<Seq<char>>) -> bool {
    camera_uid matches Some(u) && u.len() > 0
}

/// The first step towards a recording.
pub open spec fn first_step(
    area_is_bad: bool,
    camera_uid: Option<Seq<char>>,
    camera_allowed: bool,
) -> StartStep {
    if area_is_bad {
        StartStep::Refuse(StartProblem::BadArea)
    } else if wants_webcam(camera_uid) && !camera_allowed {
        StartStep::AskForCamera
    } else {
        StartStep::Start { webcam: wants_webcam(camera_uid) }
    }
}

/// A bad area is refused whatever the camera; a camera that is not named is never asked for; and a
/// recording starts with the webcam exactly where one is named and allowed.
pub proof fn law_camera_is_asked_for_once_named(
    bad: bool,
    uid: Option<Seq<char>>,
    allowed: bool,
)
    ensures
        first_step(bad, uid, allowed) == StartStep::Refuse(StartProblem::BadArea) <==> bad,
        first_step(bad, uid, allowed) == StartStep::AskForCamera <==> !bad && !allowed && uid is Some
            && uid->0.len() > 0,
        first_step(bad, uid, allowed) == (StartStep::Start { webcam: true }) <==> !bad && allowed
            && uid is Some && uid->0.len() > 0,
        first_step(bad, uid, allowed) == (StartStep::Start { webcam: false }) <==> !bad && (
        uid is None || uid->0.len() == 0),
{
}

/// The first step: a bad area is refused before anything else; a webcam that is wanted and not
/// allowed yet is asked for.
pub fn start_step(area_is_bad: bool, camera_uid: Option<&str>, camera_allowed: bool) -> (r:
    StartStep)
    ensures
        r == first_step(area_is_bad, opt_str(camera_uid), camera_allowed),
{
    if area_is_bad {
        return StartStep::Refuse(StartProblem::BadArea);
    }
    let wanted = match camera_uid {
        Some(u) => !u.is_empty(),
        None => false,
    };
    if wanted && !camera_allowed {
        StartStep::AskForCamera
    } else {
        StartStep::Start { webcam: wanted }
    }
}

/// The step after the camera was asked for.
pub open spec fn step_after_camera(outcome: CameraAccessOutcome) -> StartStep {
    if outcome == CameraAccessOutcome::Granted {
        StartStep::Start { webcam: true }
    } else {
        StartStep::WarnAndStart
    }
}

/// A recording starts whatever is said of the camera: with the webcam exactly where it was granted,
/// and with a warning otherwise.
pub proof fn law_camera_never_stops_a_recording(outcome: CameraAccessOutcome)
    ensures
        step_after_camera(outcome) == (StartStep::Start { webcam: true }) <==> outcome
            == CameraAccessOutcome::Granted,
        step_after_camera(outcome) == StartStep::WarnAndStart <==> outcome
            == CameraAccessOutcome::Denied || outcome == CameraAccessOutcome::Undetermined,
{
}

/// The step after the camera was asked for: anything but a grant leaves the webcam out, and the
/// user is told.
pub fn after_camera(outcome: CameraAccessOutcome) -> (r: StartStep)
    ensures
        r == step_after_camera(outcome),
{
    if outcome == CameraAccessOutcome::Granted {
        StartStep::Start { webcam: true }
    } else {
        StartStep::WarnAndStart
    }
}

/// Only one recording runs at a time.
pub fn check_free(active: bool) -> (r: Result<(), StartProblem>)
    ensures
        r == (if active {
            Err::<(), StartProblem>(StartProblem::AlreadyRecording)
        } else {
            Ok(())
        }),
{
    if active {
        Err(StartProblem::AlreadyRecording)
    } else {
        Ok(())
    }
}

/// The id of a recording that starts at a time.
pub open spec fn id_at(now_ms: nat) -> Seq<char> {
    "rec-"@ + decimal(now_ms)
}

/// Recordings that start at different times have different ids, and an id tells the time behind
/// `rec-`.
pub proof fn law_ids_tell_the_time(a: nat, b: nat)
    requires
        a <= u64::MAX,
        b <= u64::MAX,
    ensures
        id_at(a).take(4) == seq!['r', 'e', 'c', '-'],
        unsigned_value(id_at(a).skip(4)) == Some(a),
        id_at(a) == id_at(b) ==> a == b,
{
    reveal_strlit("rec-");
    assert("rec-"@ =~= seq!['r', 'e', 'c', '-']);
    law_decimal_reads_back(a);
    law_decimal_reads_back(b);
    assert(id_at(a).take(4) =~= seq!['r', 'e', 'c', '-']);
    assert(id_at(a).skip(4) =~= decimal(a));
    assert(id_at(b).skip(4) =~= decimal(b));
}

/// The id of a recording that starts at a time in milliseconds from 1970 on.
pub fn new_recording_id(now_ms: u64) -> (r: String)
    ensures
        r@ == id_at(now_ms as nat),
{
    let n = decimal_text(now_ms);
    glue("rec-", n.as_str())
}

/// Whether `r` is what is known of a recording that starts.
pub open spec fn is_start_meta(
    r: RecordingMeta,
    source_label: String,
    has_mic_device: bool,
    sysaudio: bool,
    hide_cursor: Option<bool>,
) -> bool {
    &&& r.source_label == source_label
    &&& r.has_mic == has_mic_device
    &&& r.has_sysaudio == sysaudio
    &&& r.cursor_hidden == (hide_cursor == Some(true))
}

/// What was chosen at the start of a recording stands in its row in the end: its source, the sounds
/// that were taken, and the pointer, which is shown unless hiding it was asked for.
pub proof fn law_choices_reach_the_row(
    r: RecordingRow,
    info: StoppedRecording,
    meta: RecordingMeta,
    now_ms: i64,
    source_label: String,
    mic: bool,
    sysaudio: bool,
    hide_cursor: Option<bool>,
)
    requires
        is_row_of(r, info, meta, now_ms),
        is_start_meta(meta, source_label, mic, sysaudio, hide_cursor),
    ensures
        opt_text(r.source_label) == Some(source_label@),
        r.has_mic <==> mic,
        r.has_sysaudio <==> sysaudio,
        r.cursor_hidden <==> hide_cursor is Some && hide_cursor->0,
{
}

/// What is known of a recording that starts.
pub fn meta_of_start(
    source_label: String,
    has_mic_device: bool,
    sysaudio: bool,
    hide_cursor: Option<bool>,
) -> (r: RecordingMeta)
    ensures
        is_start_meta(r, source_label, has_mic_device, sysaudio, hide_cursor),
{
    let cursor_hidden = match hide_cursor {
        Some(h) => h,
        None => false,
    };
    RecordingMeta { source_label, has_mic: has_mic_device, has_sysaudio: sysaudio, cursor_hidden }
}

/// A camera of this machine.
#[derive(Debug)]
pub struct Camera {
    pub uid: String,
    pub name: String,
}

/// The name of the first camera with that id; nothing where there is none.
pub open spec fn camera_called(cameras: Seq<Camera>, uid: Seq<char>) -> Seq<char>
    decreases cameras.len(),
{
    if cameras.len() == 0 {
        Seq::empty()
    } else if cameras[0].uid@ == uid {
        cameras[0].name@
    } else {
        camera_called(cameras.drop_first(), uid)
    }
}

/// The name of the first camera with that id; empty where there is none.
pub fn camera_name(cameras: &Vec<Camera>, uid: &str) -> (r: String)
    ensures
        r@ == camera_called(cameras@, uid@),
{
    let mut i: usize = 0;
    assert(cameras@.skip(0) == cameras@);
    while i < cameras.len()
        invariant
            i <= cameras@.len(),
            camera_called(cameras@, uid@) == camera_called(cameras@.skip(i as int), uid@),
        decreases cameras@.len() - i,
    {
        assert(cameras@.skip(i as int)[0] == cameras@[i as int]);
        assert(cameras@.skip(i as int).drop_first() == cameras@.skip(i + 1));
        if same(cameras[i].uid.as_str(), uid) {
            return cameras[i].name.clone();
        }
        i = i + 1;
    }
    String::new()
}

/// A camera is called as the first one with its id is called, and nothing where no camera has it.
pub proof fn law_first_camera_counts(cameras: Seq<Camera>, uid: Seq<char>, k: int)
    requires
        0 <= k <= cameras.len(),
        forall|j: int| 0 <= j < k ==> (#[trigger] cameras[j]).uid@ != uid,
    ensures
        k == cameras.len() ==> camera_called(cameras, uid).len() == 0,
        k < cameras.len() && cameras[k].uid@ == uid ==> camera_called(cameras, uid)
            == cameras[k].name@,
    decreases cameras.len(),
{
    if cameras.len() > 0 && k > 0 {
        let rest = cameras.drop_first();
        assert(cameras[0].uid@ != uid);
        assert forall|j: int| 0 <= j < k - 1 implies (#[trigger] rest[j]).uid@ != uid by {
            assert(rest[j] == cameras[j + 1]);
        }
        law_first_camera_counts(rest, uid, k - 1);
    }
}

// ----- the files of a recording -----

/// Whether an extension is one of the image types that can be a background.
pub open spec fn is_background_type(ext: Seq<char>) -> bool {
    ext == "png"@ || ext == "jpg"@ || ext == "jpeg"@ || ext == "webp"@
}

/// Whether `r` is the extension under which an image is kept as a background, or why it cannot be one.
pub open spec fn is_background_extension(
    r: Result<String, String>,
    extension: Option<Seq<char>>,
) -> bool {
    match extension {
        None => r matches Err(e) && e@ == "image has no file extension"@,
        Some(x) => {
            let ext = lowered_ascii(x);
            if is_background_type(ext) {
                r matches Ok(e) && e@ == ext
            } else {
                r matches Err(e) && e@ == "unsupported image type ."@ + ext
                    + " (use PNG, JPG, JPEG, or WebP)"@
            }
        },
    }
}

/// An image is taken whether its extension is in capitals or not, and kept under the small letters;
/// one that is refused is told by its type.
pub proof fn law_backgrounds_in_any_case(r: Result<String, String>, x: Seq<char>)
    requires
        is_background_extension(r, Some(x)),
    ensures
        r is Ok <==> is_background_type(lowered_ascii(x)),
        r matches Ok(e) ==> e@.len() == x.len() && forall|i: int|
            0 <= i < x.len() ==> #[trigger] e@[i] == ascii_lower(x[i]),
        r matches Err(e) ==> occurs_in(e@, lowered_ascii(x)),
{
    if let Err(e) = r {
        law_occurs_in(
            e@,
            "unsupported image type ."@,
            lowered_ascii(x),
            " (use PNG, JPG, JPEG, or WebP)"@,
        );
    }
}

/// The extension of an image that is to be a background, in lower case. Other types, and files
/// without an extension, are refused.
pub fn editor_bg_extension(src_path: &str) -> (r: Result<String, String>)
    ensures
        is_background_extension(r, extension_of(src_path@)),
{
    match extension(src_path) {
        None => Err("image has no file extension".to_owned()),
        Some(x) => {
            let ext = to_ascii_lowercase(x.as_str());
            if same(ext.as_str(), "png") || same(ext.as_str(), "jpg") || same(ext.as_str(), "jpeg")
                || same(ext.as_str(), "webp") {
                Ok(ext)
            } else {
                Err(
                    glue3(
                        "unsupported image type .",
                        ext.as_str(),
                        " (use PNG, JPG, JPEG, or WebP)",
                    ),
                )
            }
        },
    }
}

/// A background is an image in PNG, JPEG or WebP.
pub proof fn law_backgrounds_are_images(ext: Seq<char>)
    ensures
        is_background_type(ext) <==> {
            ||| ext == seq!['p', 'n', 'g']
            ||| ext == seq!['j', 'p', 'g']
            ||| ext == seq!['j', 'p', 'e', 'g']
            ||| ext == seq!['w', 'e', 'b', 'p']
        },
{
    reveal_strlit("png");
    assert("png"@ =~= seq!['p', 'n', 'g']);
    reveal_strlit("jpg");
    assert("jpg"@ =~= seq!['j', 'p', 'g']);
    reveal_strlit("jpeg");
    assert("jpeg"@ =~= seq!['j', 'p', 'e', 'g']);
    reveal_strlit("webp");
    assert("webp"@ =~= seq!['w', 'e', 'b', 'p']);
}

/// What the name of each background of a recording begins with.
pub open spec fn background_prefix(id: Seq<char>) -> Seq<char> {
    id + ".bg."@
}

/// The names among `names` that are backgrounds of the recording: all of them, ascending.
pub fn editor_bg_files(names: &Vec<String>, id: &str) -> (r: Vec<String>)
    ensures
        ascending(texts(r@)),
        forall|n: Seq<char>| #[trigger]
            texts(r@).contains(n) <==> (texts(names@).contains(n) && begins_with(
                n,
                background_prefix(id@),
            )),
{
    let prefix = glue(id, ".bg.");
    let ghost all = texts(names@);
    let mut out: Vec<String> = Vec::new();
    let mut i: usize = 0;
    while i < names.len()
        invariant
            i <= names@.len(),
            all == texts(names@),
            prefix@ == background_prefix(id@),
            ascending(texts(out@)),
            forall|n: Seq<char>| #[trigger]
                texts(out@).contains(n) <==> (all.take(i as int).contains(n) && begins_with(
                    n,
                    prefix@,
                )),
        decreases names@.len() - i,
    {
        let ghost was = texts(out@);
        let ghost upto = all.take(i + 1);
        let ghost here = names@[i as int]@;
        proof {
            assert(upto == all.take(i as int).push(here));
            assert forall|n: Seq<char>|
                upto.contains(n) <==> (all.take(i as int).contains(n) || n == here) by {
                if all.take(i as int).contains(n) {
                    let k = choose|k: int| 0 <= k < i && all.take(i as int)[k] == n;
                    assert(upto[k] == n);
                }
                if n == here {
                    assert(upto[i as int] == n);
                }
            }
        }
        if starts_with(names[i].as_str(), prefix.as_str()) {
            insert_ascending(&mut out, names[i].clone());
        }
        proof {
            assert forall|n: Seq<char>| #[trigger] texts(out@).contains(n) <==> (upto.contains(n)
                && begins_with(n, prefix@)) by {
                assert(was.contains(n) <==> (all.take(i as int).contains(n) && begins_with(
                    n,
                    prefix@,
                )));
            }
        }
        i = i + 1;
    }
    assert(all.take(i as int) == all);
    out
}

/// The editor's files of a recording that no column names: its backgrounds, then the rendered
/// video and the rendered GIF, as far as they are there.
pub open spec fn artifacts(
    backgrounds: Seq<Seq<char>>,
    id: Seq<char>,
    has_mp4: bool,
    has_gif: bool,
) -> Seq<Seq<char>> {
    let with_mp4 = if has_mp4 {
        backgrounds.push(id + ".rendered.mp4"@)
    } else {
        backgrounds
    };
    if has_gif {
        with_mp4.push(id + ".rendered.gif"@)
    } else {
        with_mp4
    }
}

/// The editor's files are the backgrounds and the rendered files that are there, and nothing else:
/// each belongs to the recording by its name.
pub proof fn law_artifacts_belong_to_the_recording(
    backgrounds: Seq<Seq<char>>,
    id: Seq<char>,
    has_mp4: bool,
    has_gif: bool,
    n: Seq<char>,
)
    ensures
        background_prefix(id) == id + seq!['.', 'b', 'g', '.'],
        artifacts(backgrounds, id, has_mp4, has_gif).contains(n) <==> {
            ||| backgrounds.contains(n)
            ||| has_mp4 && n == id + seq![
                '.', 'r', 'e', 'n', 'd', 'e', 'r', 'e', 'd', '.', 'm', 'p', '4',
            ]
            ||| has_gif && n == id + seq![
                '.', 'r', 'e', 'n', 'd', 'e', 'r', 'e', 'd', '.', 'g', 'i', 'f',
            ]
        },
        backgrounds.is_prefix_of(artifacts(backgrounds, id, has_mp4, has_gif)),
{
    reveal_strlit(".bg.");
    assert(".bg."@ =~= seq!['.', 'b', 'g', '.']);
    reveal_strlit(".rendered.mp4");
    assert(".rendered.mp4"@ =~= seq![
        '.', 'r', 'e', 'n', 'd', 'e', 'r', 'e', 'd', '.', 'm', 'p', '4',
    ]);
    reveal_strlit(".rendered.gif");
    assert(".rendered.gif"@ =~= seq![
        '.', 'r', 'e', 'n', 'd', 'e', 'r', 'e', 'd', '.', 'g', 'i', 'f',
    ]);
    let all = artifacts(backgrounds, id, has_mp4, has_gif);
    if backgrounds.contains(n) {
        let i = choose|i: int| 0 <= i < backgrounds.len() && backgrounds[i] == n;
        assert(all[i] == n);
    }
    if has_mp4 && n == id + ".rendered.mp4"@ {
        assert(all[backgrounds.len() as int] == n);
    }
    if has_gif && n == id + ".rendered.gif"@ {
        assert(all[all.len() - 1] == n);
    }
    if all.contains(n) {
        let i = choose|i: int| 0 <= i < all.len() && all[i] == n;
        if i < backgrounds.len() {
            assert(backgrounds[i] == n);
        }
    }
    assert(backgrounds =~= all.take(backgrounds.len() as int));
}

/// The names among `names` of the editor's files of a recording.
pub fn editor_artifact_files(names: &Vec<String>, id: &str) -> (r: Vec<String>)
    ensures
        exists|bg: Seq<Seq<char>>|
            {
                &&& ascending(bg)
                &&& forall|n: Seq<char>|
                    bg.contains(n) <==> (texts(names@).contains(n) && begins_with(
                        n,
                        background_prefix(id@),
                    ))
                &&& texts(r@) == #[trigger] artifacts(
                    bg,
                    id@,
                    texts(names@).contains(id@ + ".rendered.mp4"@),
                    texts(names@).contains(id@ + ".rendered.gif"@),
                )
            },
{
    let mut out = editor_bg_files(names, id);
    let ghost bg = texts(out@);
    let mp4 = glue(id, ".rendered.mp4");
    let gif = glue(id, ".rendered.gif");
    let has_mp4 = holds_text(names, mp4.as_str());
    let has_gif = holds_text(names, gif.as_str());
    if has_mp4 {
        out.push(mp4);
        assert(texts(out@) == bg.push(mp4@));
    }
    let ghost mid = texts(out@);
    if has_gif {
        out.push(gif);
        assert(texts(out@) == mid.push(gif@));
    }
    assert(texts(out@) == artifacts(bg, id@, has_mp4, has_gif));
    out
}

/// The name under which a background is kept.
pub fn background_name(id: &str, ext: &str) -> (r: String)
    ensures
        r@ == background_prefix(id@) + ext@,
{
    glue3(id, ".bg.", ext)
}

/// The backgrounds that give way to a new one: all but the one it replaces in place.
pub open spec fn stale(backgrounds: Seq<Seq<char>>, dest: Seq<char>) -> Seq<Seq<char>> {
    backgrounds.filter(|b: Seq<char>| b != dest)
}

/// The backgrounds that are removed when `dest` is imported: a recording keeps only one.
pub fn stale_backgrounds(backgrounds: &Vec<String>, dest: &str) -> (r: Vec<String>)
    ensures
        texts(r@) == stale(texts(backgrounds@), dest@),
{
    let ghost keep = |b: Seq<char>| b != dest@;
    let ghost all = texts(backgrounds@);
    let mut out: Vec<String> = Vec::new();
    let mut i: usize = 0;
    proof {
        reveal(Seq::filter);
        assert(all.take(0).filter(keep) == Seq::<Seq<char>>::empty());
        assert(texts(out@) == Seq::<Seq<char>>::empty());
    }
    while i < backgrounds.len()
        invariant
            i <= backgrounds@.len(),
            all == texts(backgrounds@),
            keep == (|b: Seq<char>| b != dest@),
            texts(out@) == all.take(i as int).filter(keep),
        decreases backgrounds@.len() - i,
    {
        proof {
            reveal(Seq::filter);
            assert(all.take(i + 1).drop_last() == all.take(i as int));
            assert(all.take(i + 1).last() == backgrounds@[i as int]@);
        }
        if !same(backgrounds[i].as_str(), dest) {
            let ghost was = texts(out@);
            out.push(backgrounds[i].clone());
            assert(texts(out@) == was.push(backgrounds@[i as int]@));
        }
        i = i + 1;
    }
    assert(all.take(i as int) == all);
    out
}

/// A recording keeps one background: every other one gives way, and the new one never does, even
/// where it is imported from its own place.
pub proof fn law_one_background_is_kept(
    backgrounds: Seq<Seq<char>>,
    dest: Seq<char>,
    b: Seq<char>,
)
    requires
        backgrounds.contains(b),
    ensures
        stale(backgrounds, dest).contains(b) <==> b != dest,
{
    let keep = |x: Seq<char>| x != dest;
    let i = choose|i: int| 0 <= i < backgrounds.len() && backgrounds[i] == b;
    if b != dest {
        backgrounds.lemma_filter_contains(keep, i);
    } else if stale(backgrounds, dest).contains(b) {
        let k = choose|k: int|
            0 <= k < stale(backgrounds, dest).len() && stale(backgrounds, dest)[k] == b;
        backgrounds.lemma_filter_pred(keep, k);
    }
}

// ----- deleting -----

/// The texts of an optional column, as a list.
pub open spec fn listed_column(c: Option<String>) -> Seq<Seq<char>> {
    match c {
        Some(s) => seq![s@],
        None => Seq::empty(),
    }
}

/// The files that a row's columns name: the recording, its thumbnail, its events and its webcam
/// track.
pub open spec fn column_files(row: RecordingRow) -> Seq<Seq<char>> {
    seq![row.file_path@] + listed_column(row.thumb_path) + listed_column(row.events_path)
        + listed_column(row.webcam_path)
}

fn push_column(list: &mut Vec<String>, c: &Option<String>)
    ensures
        texts(final(list)@) == texts(old(list)@) + listed_column(*c),
{
    let ghost was = texts(list@);
    if let Some(s) = c {
        list.push(s.clone());
        assert(texts(list@) == was + seq![s@]);
    } else {
        assert(texts(list@) == was + Seq::<Seq<char>>::empty());
    }
}

/// The files that a row's columns name, in the order in which they are removed.
pub fn tracked_files(row: &RecordingRow) -> (r: Vec<String>)
    ensures
        texts(r@) == column_files(*row),
        forall|p: Seq<char>| #[trigger]
            texts(r@).contains(p) <==> (p == row.file_path@ || opt_text(row.thumb_path) == Some(p)
                || opt_text(row.events_path) == Some(p) || opt_text(row.webcam_path) == Some(p)),
{
    proof {
        assert forall|p: Seq<char>| #[trigger] column_files(*row).contains(p) <==> (p
            == row.file_path@ || opt_text(row.thumb_path) == Some(p) || opt_text(row.events_path)
            == Some(p) || opt_text(row.webcam_path) == Some(p)) by {
            law_all_columns_are_listed(*row, p);
        }
    }
    let mut v: Vec<String> = Vec::new();
    v.push(row.file_path.clone());
    assert(texts(v@) == seq![row.file_path@]);
    push_column(&mut v, &row.thumb_path);
    push_column(&mut v, &row.events_path);
    push_column(&mut v, &row.webcam_path);
    v
}

/// The files of a row are its video and whichever of its thumbnail, its events and its webcam video
/// it has: each of these is among them, and nothing else is. The video comes first.
pub proof fn law_all_columns_are_listed(row: RecordingRow, p: Seq<char>)
    ensures
        column_files(row).contains(p) <==> (p == row.file_path@ || opt_text(row.thumb_path) == Some(p)
            || opt_text(row.events_path) == Some(p) || opt_text(row.webcam_path) == Some(p)),
        column_files(row)[0] == row.file_path@,
        column_files(row).len() == 1 + (if row.thumb_path is Some {
            1int
        } else {
            0
        }) + (if row.events_path is Some {
            1int
        } else {
            0
        }) + (if row.webcam_path is Some {
            1int
        } else {
            0
        }),
{
    let a = listed_column(row.thumb_path);
    let b = listed_column(row.events_path);
    let c = listed_column(row.webcam_path);
    let s = column_files(row);
    if p == row.file_path@ {
        assert(s[0] == p);
    }
    if opt_text(row.thumb_path) == Some(p) {
        assert(s[1] == p);
    }
    if opt_text(row.events_path) == Some(p) {
        assert(s[1int + a.len()] == p);
    }
    if opt_text(row.webcam_path) == Some(p) {
        assert(s[1int + a.len() + b.len()] == p);
    }
}

/// Whether some path of a list leads where `path` leads.
pub open spec fn leads_to_one(list: Seq<Seq<char>>, path: Seq<char>) -> bool {
    exists|k: int| 0 <= k < list.len() && components(#[trigger] list[k]) == components(path)
}

/// The files that are swept with a recording: the editor's own, then each exported file that
/// stands directly in the recordings folder and exists, none twice.
pub open spec fn leftovers(
    artifacts: Seq<Seq<char>>,
    exported: Seq<Seq<char>>,
    present: Seq<bool>,
    dir: Seq<char>,
) -> Seq<Seq<char>>
    decreases exported.len(),
{
    if exported.len() == 0 {
        artifacts
    } else {
        let so_far = leftovers(artifacts, exported.drop_last(), present, dir);
        let p = exported.last();
        if is_child(p, dir) && present[exported.len() - 1] && !leads_to_one(so_far, p) {
            so_far.push(p)
        } else {
            so_far
        }
    }
}

fn leads_to_listed(list: &Vec<String>, path: &str) -> (r: bool)
    ensures
        r == leads_to_one(texts(list@), path@),
{
    let mut i: usize = 0;
    while i < list.len()
        invariant
            i <= list@.len(),
            forall|k: int|
                0 <= k < i ==> components(#[trigger] texts(list@)[k]) != components(path@),
        decreases list@.len() - i,
    {
        assert(texts(list@)[i as int] == list@[i as int]@);
        if same_path(list[i].as_str(), path) {
            return true;
        }
        i = i + 1;
    }
    false
}

/// The files that are swept with a recording. `present` says of each exported path whether there
/// is such a file.
pub fn leftover_files(
    artifacts: Vec<String>,
    exported: &Vec<String>,
    present: &Vec<bool>,
    dir: &str,
) -> (r: Vec<String>)
    requires
        present@.len() == exported@.len(),
    ensures
        texts(r@) == leftovers(texts(artifacts@), texts(exported@), present@, dir@),
{
    let ghost all = texts(exported@);
    let ghost first = texts(artifacts@);
    let mut out = artifacts;
    let mut i: usize = 0;
    assert(all.take(0).len() == 0);
    while i < exported.len()
        invariant
            i <= exported@.len() == present@.len(),
            all == texts(exported@),
            texts(out@) == leftovers(first, all.take(i as int), present@, dir@),
        decreases exported@.len() - i,
    {
        proof {
            assert(all.take(i + 1).drop_last() == all.take(i as int));
            assert(all.take(i + 1).last() == exported@[i as int]@);
        }
        if is_child_of(exported[i].as_str(), dir) && present[i] && !leads_to_listed(
            &out,
            exported[i].as_str(),
        ) {
            let ghost was = texts(out@);
            out.push(exported[i].clone());
            assert(texts(out@) == was.push(exported@[i as int]@));
        }
        i = i + 1;
    }
    assert(all.take(i as int) == all);
    out
}

/// Sweeping touches no exported file outside the recordings folder: beyond the editor's own files,
/// everything swept stands directly in it and was there.
pub proof fn law_sweep_stays_in_folder(
    artifacts: Seq<Seq<char>>,
    exported: Seq<Seq<char>>,
    present: Seq<bool>,
    dir: Seq<char>,
    k: int,
)
    requires
        artifacts.len() <= k < leftovers(artifacts, exported, present, dir).len(),
    ensures
        is_child(leftovers(artifacts, exported, present, dir)[k], dir),
        exists|j: int|
            0 <= j < exported.len() && present[j] && #[trigger] exported[j] == leftovers(
                artifacts,
                exported,
                present,
                dir,
            )[k],
    decreases exported.len(),
{
    if exported.len() > 0 {
        let so_far = leftovers(artifacts, exported.drop_last(), present, dir);
        if k < so_far.len() {
            law_sweep_stays_in_folder(artifacts, exported.drop_last(), present, dir, k);
            let j = choose|j: int|
                0 <= j < exported.drop_last().len() && present[j]
                    && #[trigger] exported.drop_last()[j] == so_far[k];
            assert(exported[j] == so_far[k]);
        } else {
            assert(exported[exported.len() - 1] == exported.last());
        }
    }
}

/// Sweeping misses nothing: the editor's own files come first and all of them, and each exported file
/// that was there and stands directly in the folder is swept, under its own path or under another
/// that leads to it.
pub proof fn law_sweep_misses_nothing(
    artifacts: Seq<Seq<char>>,
    exported: Seq<Seq<char>>,
    present: Seq<bool>,
    dir: Seq<char>,
    j: int,
)
    requires
        0 <= j < exported.len(),
    ensures
        artifacts.is_prefix_of(leftovers(artifacts, exported, present, dir)),
        present[j] && is_child(exported[j], dir) ==> exists|k: int|
            0 <= k < leftovers(artifacts, exported, present, dir).len() && components(
                #[trigger] leftovers(artifacts, exported, present, dir)[k],
            ) == components(exported[j]),
    decreases exported.len(),
{
    let all = leftovers(artifacts, exported, present, dir);
    let so_far = leftovers(artifacts, exported.drop_last(), present, dir);
    if exported.len() == 1 {
        assert(so_far == artifacts);
    } else {
        law_sweep_misses_nothing(artifacts, exported.drop_last(), present, dir, if j
            < exported.len() - 1 {
            j
        } else {
            0
        });
    }
    assert(so_far.is_prefix_of(all));
    assert(artifacts.is_prefix_of(all));
    if present[j] && is_child(exported[j], dir) {
        if j < exported.len() - 1 {
            assert(exported.drop_last()[j] == exported[j]);
            let k = choose|k: int|
                0 <= k < so_far.len() && components(#[trigger] so_far[k]) == components(
                    exported[j],
                );
            assert(all[k] == so_far[k]);
        } else if leads_to_one(so_far, exported[j]) {
            let k = choose|k: int|
                0 <= k < so_far.len() && components(#[trigger] so_far[k]) == components(
                    exported[j],
                );
            assert(all[k] == so_far[k]);
        } else {
            assert(all[so_far.len() as int] == exported[j]);
        }
    }
}

/// No exported file is swept twice.
pub proof fn law_nothing_is_swept_twice(
    artifacts: Seq<Seq<char>>,
    exported: Seq<Seq<char>>,
    present: Seq<bool>,
    dir: Seq<char>,
    i: int,
    k: int,
)
    requires
        0 <= i < k < leftovers(artifacts, exported, present, dir).len(),
        artifacts.len() <= k,
    ensures
        components(leftovers(artifacts, exported, present, dir)[i]) != components(
            leftovers(artifacts, exported, present, dir)[k],
        ),
    decreases exported.len(),
{
    if exported.len() > 0 {
        let so_far = leftovers(artifacts, exported.drop_last(), present, dir);
        if k < so_far.len() {
            law_nothing_is_swept_twice(artifacts, exported.drop_last(), present, dir, i, k);
        }
    }
}

// ----- revealing -----

/// Whether a path may be shown.
pub open spec fn may_show(
    dir: Result<Seq<char>, Seq<char>>,
    path: Result<Seq<char>, Seq<char>>,
    is_file: bool,
) -> bool {
    dir is Ok && path is Ok && is_file && crate::paths::lies_in(path->Ok_0, dir->Ok_0)
}

/// Only files are shown, and only those in the recordings folder, at whatever depth; a file right in
/// it always is.
pub proof fn law_only_files_in_the_folder_are_shown(
    dir: Seq<char>,
    path: Seq<char>,
    name: Seq<char>,
    error: Seq<char>,
    is_file: bool,
)
    requires
        dir.len() > 0,
        is_plain_name(name),
    ensures
        may_show(Ok(dir), Ok(placed(dir, name)), true),
        !may_show(Ok(dir), Ok(path), false),
        !may_show(Err(error), Ok(path), is_file),
        !may_show(Ok(dir), Err(error), is_file),
        may_show(Ok(dir), Ok(path), is_file) ==> components(dir).is_prefix_of(components(path)),
        may_show(Ok(dir), Ok(path), true) ==> may_show(Ok(dir), Ok(placed(path, name)), true)
            || path.len() == 0,
{
    law_placed_is_a_child(dir, name, dir);
    if path.len() > 0 {
        law_placed_is_a_child(path, name, dir);
    }
}

/// A path that may not be shown is refused for the first thing that is wrong with it, which is told.
pub proof fn law_refusals_tell_what_is_wrong(dir: Seq<char>, path: Seq<char>, error: Seq<char>)
    ensures
        reveal_refusal(Err(error), Ok(path)) == seq![
            'r', 'e', 'c', 'o', 'r', 'd', 'i', 'n', 'g', 's', ' ', 'd', 'i', 'r', ' ', 'u', 'n',
            'a', 'v', 'a', 'i', 'l', 'a', 'b', 'l', 'e', ':', ' ',
        ] + error,
        reveal_refusal(Err(error), Err(path)) == seq![
            'r', 'e', 'c', 'o', 'r', 'd', 'i', 'n', 'g', 's', ' ', 'd', 'i', 'r', ' ', 'u', 'n',
            'a', 'v', 'a', 'i', 'l', 'a', 'b', 'l', 'e', ':', ' ',
        ] + error,
        reveal_refusal(Ok(dir), Err(error)) == seq![
            'f', 'i', 'l', 'e', ' ', 'n', 'o', 't', ' ', 'f', 'o', 'u', 'n', 'd', ':', ' ',
        ] + error,
        !crate::paths::lies_in(path, dir) ==> reveal_refusal(Ok(dir), Ok(path)) == seq!['p', 'a', 't', 'h', ' '] + path
            + seq![
                ' ', 'i', 's', ' ', 'o', 'u', 't', 's', 'i', 'd', 'e', ' ', 't', 'h', 'e', ' ',
                'r', 'e', 'c', 'o', 'r', 'd', 'i', 'n', 'g', 's', ' ', 'f', 'o', 'l', 'd', 'e',
                'r',
            ],
        crate::paths::lies_in(path, dir) ==> reveal_refusal(Ok(dir), Ok(path)) == seq!['p', 'a', 't', 'h', ' '] + path
            + seq![' ', 'i', 's', ' ', 'n', 'o', 't', ' ', 'a', ' ', 'f', 'i', 'l', 'e'],
{
    reveal_strlit("recordings dir unavailable: ");
    assert("recordings dir unavailable: "@ =~= seq![
        'r', 'e', 'c', 'o', 'r', 'd', 'i', 'n', 'g', 's', ' ', 'd', 'i', 'r', ' ', 'u', 'n', 'a',
        'v', 'a', 'i', 'l', 'a', 'b', 'l', 'e', ':', ' ',
    ]);
    reveal_strlit("file not found: ");
    assert("file not found: "@ =~= seq![
        'f', 'i', 'l', 'e', ' ', 'n', 'o', 't', ' ', 'f', 'o', 'u', 'n', 'd', ':', ' ',
    ]);
    reveal_strlit("path ");
    assert("path "@ =~= seq!['p', 'a', 't', 'h', ' ']);
    reveal_strlit(" is outside the recordings folder");
    assert(" is outside the recordings folder"@ =~= seq![
        ' ', 'i', 's', ' ', 'o', 'u', 't', 's', 'i', 'd', 'e', ' ', 't', 'h', 'e', ' ', 'r', 'e',
        'c', 'o', 'r', 'd', 'i', 'n', 'g', 's', ' ', 'f', 'o', 'l', 'd', 'e', 'r',
    ]);
    reveal_strlit(" is not a file");
    assert(" is not a file"@ =~= seq![
        ' ', 'i', 's', ' ', 'n', 'o', 't', ' ', 'a', ' ', 'f', 'i', 'l', 'e',
    ]);
}

/// The file that may be shown: the path as it was resolved, where both it and the recordings folder
/// could be resolved, and it is a file that lies in the folder. `dir` and `path` are what resolving
/// gave, or why it failed; `is_file` is whether the resolved path is a regular file.
pub fn validate_reveal_path(
    dir: Result<String, String>,
    path: Result<String, String>,
    is_file: bool,
) -> (r: Result<String, String>)
    ensures
        r is Ok <==> may_show(text_result(dir), text_result(path), is_file),
        match r {
            Ok(p) => p@ == path->Ok_0@,
            Err(e) => e@ == reveal_refusal(text_result(dir), text_result(path)),
        },
{
    match (dir, path) {
        (Err(e), _) => Err(glue("recordings dir unavailable: ", e.as_str())),
        (Ok(_), Err(e)) => Err(glue("file not found: ", e.as_str())),
        (Ok(d), Ok(p)) => if !crate::paths::is_within(p.as_str(), d.as_str()) {
            Err(glue3("path ", p.as_str(), " is outside the recordings folder"))
        } else if !is_file {
            Err(glue3("path ", p.as_str(), " is not a file"))
        } else {
            Ok(p)
        },
    }
}

/// Why a path may not be shown, given what resolving the folder and the path gave.
pub open spec fn reveal_refusal(
    dir: Result<Seq<char>, Seq<char>>,
    path: Result<Seq<char>, Seq<char>>,
) -> Seq<char> {
    match (dir, path) {
        (Err(e), _) => "recordings dir unavailable: "@ + e,
        (Ok(_), Err(e)) => "file not found: "@ + e,
        (Ok(d), Ok(p)) => if !crate::paths::lies_in(p, d) {
            "path "@ + p + " is outside the recordings folder"@
        } else {
            "path "@ + p + " is not a file"@
        },
    }
}

/// A result as plain texts.
pub open spec fn text_result(r: Result<String, String>) -> Result<Seq<char>, Seq<char>> {
    match r {
        Ok(s) => Ok(s@),
        Err(e) => Err(e@),
    }
}

/// Copying a file to the clipboard where the platform has no way to do it.
pub fn copy_file_to_clipboard(_path: &str) -> (r: Result<(), String>)
    ensures
        r matches Err(e) && e@ == "Copy to clipboard is not supported on this platform yet."@,
{
    Err("Copy to clipboard is not supported on this platform yet.".to_owned())
}

/// Why a recording does not start, in words.
pub proof fn law_start_problems_in_words()
    ensures
        StartProblem::BadArea.text()
            == seq![
                'C', 'o', 'u', 'l', 'd', 'n', '\'', 't', ' ', 's', 't', 'a', 'r', 't', ' ', 't',
                'h', 'e', ' ', 'a', 'r', 'e', 'a', ' ', 'r', 'e', 'c', 'o', 'r', 'd', 'i', 'n',
                'g', ':', ' ', 't', 'h', 'e', ' ', 's', 'e', 'l', 'e', 'c', 't', 'e', 'd', ' ',
                'r', 'e', 'g', 'i', 'o', 'n', ' ', 'i', 's', ' ', 'i', 'n', 'v', 'a', 'l', 'i',
                'd', '.',
            ],
        StartProblem::AlreadyRecording.text() == seq![
            'a', ' ', 'r', 'e', 'c', 'o', 'r', 'd', 'i', 'n', 'g', ' ', 'i', 's', ' ', 'a', 'l',
            'r', 'e', 'a', 'd', 'y', ' ', 'i', 'n', ' ', 'p', 'r', 'o', 'g', 'r', 'e', 's', 's',
        ],
{
    reveal_strlit("Couldn't start the area recording: the selected region is invalid.");
    assert("Couldn't start the area recording: the selected region is invalid."@ =~= seq![
        'C', 'o', 'u', 'l', 'd', 'n', '\'', 't', ' ', 's', 't', 'a', 'r', 't', ' ', 't', 'h', 'e',
        ' ', 'a', 'r', 'e', 'a', ' ', 'r', 'e', 'c', 'o', 'r', 'd', 'i', 'n', 'g', ':', ' ', 't',
        'h', 'e', ' ', 's', 'e', 'l', 'e', 'c', 't', 'e', 'd', ' ', 'r', 'e', 'g', 'i', 'o', 'n',
        ' ', 'i', 's', ' ', 'i', 'n', 'v', 'a', 'l', 'i', 'd', '.',
    ]);
    reveal_strlit("a recording is already in progress");
    assert("a recording is already in progress"@ =~= seq![
        'a', ' ', 'r', 'e', 'c', 'o', 'r', 'd', 'i', 'n', 'g', ' ', 'i', 's', ' ', 'a', 'l', 'r',
        'e', 'a', 'd', 'y', ' ', 'i', 'n', ' ', 'p', 'r', 'o', 'g', 'r', 'e', 's', 's',
    ]);
}

} // verus!
