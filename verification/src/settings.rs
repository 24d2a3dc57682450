//! Settings that are written piece by piece, and the figures that the settings pages show.
use vstd::prelude::*;
use vstd::string::*;

use crate::text::{glue3, same, texts};

verus! {

// ----- recording -----

/// How the sound and the picture of a screen recording are taken.
#[derive(Debug)]
pub struct ScreenrecAudioPrefs {
    pub sysaudio: bool,
    pub mic_enabled: bool,
    pub mic_device: String,
    pub hide_cursor: bool,
    /// The chosen camera, or empty where none is used.
    pub camera_uid: String,
    pub countdown: bool,
}

/// One value that is written.
#[derive(Debug)]
pub enum AudioWrite {
    Sysaudio(bool),
    MicEnabled(bool),
    MicDevice(String),
    HideCursor(bool),
    CameraUid(String),
    Countdown(bool),
}

/// What is stored after one value was written.
pub open spec fn audio_written(p: ScreenrecAudioPrefs, w: AudioWrite) -> ScreenrecAudioPrefs {
    match w {
        AudioWrite::Sysaudio(b) => ScreenrecAudioPrefs { sysaudio: b, ..p },
        AudioWrite::MicEnabled(b) => ScreenrecAudioPrefs { mic_enabled: b, ..p },
        AudioWrite::MicDevice(s) => ScreenrecAudioPrefs { mic_device: s, ..p },
        AudioWrite::HideCursor(b) => ScreenrecAudioPrefs { hide_cursor: b, ..p },
        AudioWrite::CameraUid(s) => ScreenrecAudioPrefs { camera_uid: s, ..p },
        AudioWrite::Countdown(b) => ScreenrecAudioPrefs { countdown: b, ..p },
    }
}

/// The values of the preferences, in the order in which they are written.
pub open spec fn audio_values(p: ScreenrecAudioPrefs) -> Seq<AudioWrite> {
    seq![
        AudioWrite::Sysaudio(p.sysaudio),
        AudioWrite::MicEnabled(p.mic_enabled),
        AudioWrite::MicDevice(p.mic_device),
        AudioWrite::HideCursor(p.hide_cursor),
        AudioWrite::CameraUid(p.camera_uid),
        AudioWrite::Countdown(p.countdown),
    ]
}

/// The values to write, in order. The first write that fails ends the writing.
pub fn set_screenrec_audio_prefs(prefs: ScreenrecAudioPrefs) -> (r: Vec<AudioWrite>)
    ensures
        r@ == audio_values(prefs),
{
    let mut v: Vec<AudioWrite> = Vec::new();
    v.push(AudioWrite::Sysaudio(prefs.sysaudio));
    v.push(AudioWrite::MicEnabled(prefs.mic_enabled));
    v.push(AudioWrite::MicDevice(prefs.mic_device));
    v.push(AudioWrite::HideCursor(prefs.hide_cursor));
    v.push(AudioWrite::CameraUid(prefs.camera_uid));
    v.push(AudioWrite::Countdown(prefs.countdown));
    v
}

/// Preferences that were written are what is stored, whatever was stored before.
pub proof fn law_audio_prefs_are_stored(before: ScreenrecAudioPrefs, prefs: ScreenrecAudioPrefs)
    ensures
        audio_values(prefs).fold_left(
            before,
            |p: ScreenrecAudioPrefs, w: AudioWrite| audio_written(p, w),
        ) == prefs,
{
    reveal_with_fuel(Seq::fold_left, 7);
    let v = audio_values(prefs);
    assert(v.drop_last() == v.take(5));
    assert(v.take(5).drop_last() == v.take(4));
    assert(v.take(4).drop_last() == v.take(3));
    assert(v.take(3).drop_last() == v.take(2));
    assert(v.take(2).drop_last() == v.take(1));
    assert(v.take(1).drop_last() == v.take(0));
}

// ----- the daily recap -----

/// When a recap of the day is written.
#[derive(Clone, Copy, PartialEq, Eq, Structural, Debug)]
pub struct DailyRecapSettings {
    pub enabled: bool,
    pub deliver_hour: u8,
    pub include_weekends: bool,
}

/// One value that is written.
#[derive(Clone, Copy, PartialEq, Eq, Structural, Debug)]
pub enum RecapWrite {
    Enabled(bool),
    DeliverHour(u8),
    IncludeWeekends(bool),
}

/// What is stored after one value was written.
pub open spec fn recap_written(s: DailyRecapSettings, w: RecapWrite) -> DailyRecapSettings {
    match w {
        RecapWrite::Enabled(b) => DailyRecapSettings { enabled: b, ..s },
        RecapWrite::DeliverHour(h) => DailyRecapSettings { deliver_hour: h, ..s },
        RecapWrite::IncludeWeekends(b) => DailyRecapSettings { include_weekends: b, ..s },
    }
}

/// The values of the settings, in the order in which they are written.
pub open spec fn recap_values(s: DailyRecapSettings) -> Seq<RecapWrite> {
    seq![
        RecapWrite::Enabled(s.enabled),
        RecapWrite::DeliverHour(s.deliver_hour),
        RecapWrite::IncludeWeekends(s.include_weekends),
    ]
}

/// The values to write, in order. The first write that fails ends the writing.
pub fn daily_recap_settings_set(settings: DailyRecapSettings) -> (r: Vec<RecapWrite>)
    ensures
        r@ == recap_values(settings),
{
    let mut v: Vec<RecapWrite> = Vec::new();
    v.push(RecapWrite::Enabled(settings.enabled));
    v.push(RecapWrite::DeliverHour(settings.deliver_hour));
    v.push(RecapWrite::IncludeWeekends(settings.include_weekends));
    v
}

/// Settings that were written are what is stored, whatever was stored before.
pub proof fn law_recap_settings_are_stored(before: DailyRecapSettings, settings: DailyRecapSettings)
    ensures
        recap_values(settings).fold_left(
            before,
            |s: DailyRecapSettings, w: RecapWrite| recap_written(s, w),
        ) == settings,
{
    reveal_with_fuel(Seq::fold_left, 4);
    let v = recap_values(settings);
    assert(v.drop_last() == v.take(2));
    assert(v.take(2).drop_last() == v.take(1));
    assert(v.take(1).drop_last() == v.take(0));
}

// ----- uploads -----

/// Whether an account is connected, and which.
#[derive(Debug)]
pub struct DriveStatus {
    pub connected: bool,
    pub email: Option<String>,
}

/// Where uploads go, and who can see them.
#[derive(Debug)]
pub struct DrivePrefs {
    pub folder_name: String,
    pub make_public: bool,
}

/// One value that is written.
#[derive(Debug)]
pub enum DriveWrite {
    FolderName(String),
    MakePublic(bool),
    /// Forget which folder was found under the name.
    ForgetFolder,
    /// Forget the account.
    ForgetAccount,
}

/// What is stored of the uploads.
pub struct DriveStore {
    pub folder_name: Seq<char>,
    pub make_public: bool,
    pub folder_id: Option<Seq<char>>,
    pub account: Option<Seq<char>>,
}

/// What is stored after one value was written.
pub open spec fn drive_written(s: DriveStore, w: DriveWrite) -> DriveStore {
    match w {
        DriveWrite::FolderName(n) => DriveStore { folder_name: n@, ..s },
        DriveWrite::MakePublic(b) => DriveStore { make_public: b, ..s },
        DriveWrite::ForgetFolder => DriveStore { folder_id: None, ..s },
        DriveWrite::ForgetAccount => DriveStore { account: None, ..s },
    }
}

/// What is stored after several values were written.
pub open spec fn drive_after(s: DriveStore, w: Seq<DriveWrite>) -> DriveStore
    decreases w.len(),
{
    if w.len() == 0 {
        s
    } else {
        drive_after(drive_written(s, w[0]), w.drop_first())
    }
}

/// The values to write, in order, where the folder had a name before.
pub open spec fn drive_values(previous: Seq<char>, prefs: DrivePrefs) -> Seq<DriveWrite> {
    seq![DriveWrite::FolderName(prefs.folder_name), DriveWrite::MakePublic(prefs.make_public)] + (
    if previous == prefs.folder_name@ {
        Seq::<DriveWrite>::empty()
    } else {
        seq![DriveWrite::ForgetFolder]
    })
}

/// The values to write, in order. A folder that was found under another name is forgotten.
pub fn set_drive_prefs(previous: &str, prefs: DrivePrefs) -> (r: Vec<DriveWrite>)
    ensures
        r@ == drive_values(previous@, prefs),
{
    let unchanged = same(previous, prefs.folder_name.as_str());
    let mut v: Vec<DriveWrite> = Vec::new();
    v.push(DriveWrite::FolderName(prefs.folder_name));
    v.push(DriveWrite::MakePublic(prefs.make_public));
    if !unchanged {
        v.push(DriveWrite::ForgetFolder);
    }
    v
}

/// A folder that was found is kept exactly as long as the name under which it was found.
pub proof fn law_found_folder_follows_the_name(s: DriveStore, prefs: DrivePrefs)
    ensures
        ({
            let t = drive_after(s, drive_values(s.folder_name, prefs));
            &&& t.folder_name == prefs.folder_name@
            &&& t.make_public == prefs.make_public
            &&& t.account == s.account
            &&& t.folder_id == (if s.folder_name == prefs.folder_name@ {
                s.folder_id
            } else {
                None
            })
        }),
{
    reveal_with_fuel(drive_after, 4);
}

/// The values to write once an account is gone.
pub open spec fn drive_forgotten() -> Seq<DriveWrite> {
    seq![DriveWrite::ForgetAccount, DriveWrite::ForgetFolder]
}

/// Disconnecting forgets the account and the folder that was found in it, and keeps the settings.
pub proof fn law_disconnecting_forgets_the_account(s: DriveStore)
    ensures
        ({
            let t = drive_after(s, drive_forgotten());
            &&& t.account is None
            &&& t.folder_id is None
            &&& t.folder_name == s.folder_name
            &&& t.make_public == s.make_public
        }),
        drive_written(s, DriveWrite::ForgetAccount).account is None,
        drive_written(s, DriveWrite::ForgetAccount).folder_id == s.folder_id,
        drive_written(s, DriveWrite::ForgetFolder).folder_id is None,
        drive_written(s, DriveWrite::ForgetFolder).account == s.account,
{
    reveal_with_fuel(drive_after, 3);
}

/// The values to write once the account's token is gone, in order.
pub fn drive_disconnect() -> (r: Vec<DriveWrite>)
    ensures
        r@ == drive_forgotten(),
{
    let mut v: Vec<DriveWrite> = Vec::new();
    v.push(DriveWrite::ForgetAccount);
    v.push(DriveWrite::ForgetFolder);
    v
}

/// The answer to connecting an account: the account, or what the user is told.
pub fn drive_connected(outcome: Result<Option<String>, String>) -> (r: Result<DriveStatus, String>)
    ensures
        match outcome {
            Ok(email) => r matches Ok(s) && s.connected && s.email == email,
            Err(_) => r matches Err(m) && m@
                == "Couldn't connect to Google Drive. See Settings → Diagnostics → logs for details."@,
        },
{
    match outcome {
        Ok(email) => Ok(DriveStatus { connected: true, email }),
        Err(_) => Err(
            "Couldn't connect to Google Drive. See Settings → Diagnostics → logs for details.".to_owned(),
        ),
    }
}

// ----- input devices -----

/// How input devices are listed.
#[derive(Clone, Copy, PartialEq, Eq, Structural, Debug)]
pub enum InputDeviceSort {
    LastUsed,
    Alphabetical,
}

impl InputDeviceSort {
    /// The word for an order.
    pub open spec fn word(self) -> Seq<char> {
        match self {
            InputDeviceSort::LastUsed => "last_used"@,
            InputDeviceSort::Alphabetical => "alphabetical"@,
        }
    }

    /// The word for an order.
    pub fn as_str(self) -> (r: &'static str)
        ensures
            r@ == self.word(),
    {
        match self {
            InputDeviceSort::LastUsed => "last_used",
            InputDeviceSort::Alphabetical => "alphabetical",
        }
    }

    /// The order that a word stands for.
    pub fn parse(word: &str) -> (r: Result<InputDeviceSort, String>)
        ensures
            match r {
                Ok(s) => s.word() == word@,
                Err(e) => (forall|s: InputDeviceSort| #[trigger] s.word() != word@) && e@
                    == "unknown sort '"@ + word@ + "'"@,
            },
    {
        if same(word, "last_used") {
            Ok(InputDeviceSort::LastUsed)
        } else if same(word, "alphabetical") {
            Ok(InputDeviceSort::Alphabetical)
        } else {
            Err(glue3("unknown sort '", word, "'"))
        }
    }
}

/// An order is read back from its word.
pub proof fn law_sort_words_are_distinct(a: InputDeviceSort, b: InputDeviceSort)
    requires
        a.word() == b.word(),
    ensures
        a == b,
{
    reveal_strlit("last_used");
    reveal_strlit("alphabetical");
    assert(InputDeviceSort::LastUsed.word().len() != InputDeviceSort::Alphabetical.word().len());
}

// ----- figures -----

/// How far the index of the notes has come.
#[derive(Clone, Copy, PartialEq, Eq, Structural, Debug)]
pub struct EmbeddingIndexStatus {
    pub model_downloaded: bool,
    pub embeddings: i64,
    pub indexed_sources: i64,
    pub total_sources: i64,
}

/// How far the sorting into projects has come.
#[derive(Clone, Copy, PartialEq, Eq, Structural, Debug)]
pub struct ProjectTaggerStatus {
    pub enabled: bool,
    pub pending: u32,
    pub deferred: u32,
    pub done: u32,
    pub failed: u32,
    pub llm_ready: bool,
    pub deterministic_batch_size: u32,
    pub interval_minutes: u64,
}

/// What one run of the sorting has done so far.
#[derive(Clone, Copy, PartialEq, Eq, Structural, Debug)]
pub struct ProjectTaggerRunSummary {
    pub scanned: u32,
    pub assigned: u32,
}

/// What is told of a run while it goes on.
#[derive(Clone, Copy, PartialEq, Eq, Structural, Debug)]
pub struct ProjectTaggerProgress {
    pub processed: u32,
    pub total: u32,
    pub assigned: u32,
}

/// What is told of a run while it goes on.
pub fn tagger_progress(s: ProjectTaggerRunSummary, total: u32) -> (r: ProjectTaggerProgress)
    ensures
        r.processed == s.scanned,
        r.total == total,
        r.assigned == s.assigned,
        s.assigned <= s.scanned ==> r.assigned <= r.processed,
{
    ProjectTaggerProgress { processed: s.scanned, total, assigned: s.assigned }
}

/// How many items are tagged at once.
pub open spec fn batch_size(asked: Option<u32>, setting: u32) -> u32 {
    match asked {
        Some(k) => k,
        None => setting,
    }
}

/// What is asked for counts, and the setting only where nothing is.
pub proof fn law_asking_overrules_the_setting(asked: u32, setting: u32)
    ensures
        batch_size(Some(asked), setting) == asked,
        batch_size(None, setting) == setting,
{
}

/// How many jobs a run takes: what was asked for, or else what the settings say. It takes a model
/// to be ready.
pub fn tagger_batch(llm_ready: bool, asked: Option<u32>, setting: u32) -> (r: Result<u32, String>)
    ensures
        match r {
            Ok(n) => llm_ready && n == batch_size(asked, setting),
            Err(e) => !llm_ready && e@ == "No local AI model is ready for project tagging."@,
        },
{
    if !llm_ready {
        return Err("No local AI model is ready for project tagging.".to_owned());
    }
    match asked {
        Some(k) => Ok(k),
        None => Ok(setting),
    }
}

// ----- actions that can be spoken -----

/// A kind of action with what can be said for it.
#[derive(Debug)]
pub struct CommonActionTemplate {
    pub category: String,
    pub description: String,
    pub voice_phrases: Vec<String>,
}

/// Whether a template reads as given.
pub open spec fn reads(
    t: CommonActionTemplate,
    category: Seq<char>,
    description: Seq<char>,
    phrases: Seq<Seq<char>>,
) -> bool {
    &&& t.category@ == category
    &&& t.description@ == description
    &&& texts(t.voice_phrases@) == phrases
}

/// The actions that are shown as examples.
pub fn get_common_actions() -> (r: Vec<CommonActionTemplate>)
    ensures
        r@.len() == 4,
        reads(
            r@[0],
            "Applications"@,
            "Launch standard macOS applications or workspace web apps"@,
            seq!["open Slack"@, "launch Safari"@, "open Growthinator"@, "launch LiveCase"@],
        ),
        reads(
            r@[1],
            "Emails"@,
            "Draft emails inside the system default client prefilled"@,
            seq![
                "email denis about Growthinator saying tests passed"@,
                "email John about meeting saying I will be there"@,
            ],
        ),
        reads(
            r@[2],
            "Web Browsing"@,
            "Navigate directly to websites in your default browser"@,
            seq!["open google"@, "go to github.com"@],
        ),
        reads(
            r@[3],
            "Persistent Counter"@,
            "Increment, query, or reset the app action stats"@,
            seq!["increment counter"@, "what is the count"@, "reset action count"@],
        ),
{
    let mut apps: Vec<String> = Vec::new();
    apps.push("open Slack".to_owned());
    apps.push("launch Safari".to_owned());
    apps.push("open Growthinator".to_owned());
    apps.push("launch LiveCase".to_owned());
    assert(texts(apps@) == seq![
        "open Slack"@,
        "launch Safari"@,
        "open Growthinator"@,
        "launch LiveCase"@,
    ]);
    let mut mails: Vec<String> = Vec::new();
    mails.push("email denis about Growthinator saying tests passed".to_owned());
    mails.push("email John about meeting saying I will be there".to_owned());
    assert(texts(mails@) == seq![
        "email denis about Growthinator saying tests passed"@,
        "email John about meeting saying I will be there"@,
    ]);
    let mut sites: Vec<String> = Vec::new();
    sites.push("open google".to_owned());
    sites.push("go to github.com".to_owned());
    assert(texts(sites@) == seq!["open google"@, "go to github.com"@]);
    let mut counter: Vec<String> = Vec::new();
    counter.push("increment counter".to_owned());
    counter.push("what is the count".to_owned());
    counter.push("reset action count".to_owned());
    assert(texts(counter@) == seq![
        "increment counter"@,
        "what is the count"@,
        "reset action count"@,
    ]);
    let mut v: Vec<CommonActionTemplate> = Vec::new();
    v.push(
        CommonActionTemplate {
            category: "Applications".to_owned(),
            description: "Launch standard macOS applications or workspace web apps".to_owned(),
            voice_phrases: apps,
        },
    );
    v.push(
        CommonActionTemplate {
            category: "Emails".to_owned(),
            description: "Draft emails inside the system default client prefilled".to_owned(),
            voice_phrases: mails,
        },
    );
    v.push(
        CommonActionTemplate {
            category: "Web Browsing".to_owned(),
            description: "Navigate directly to websites in your default browser".to_owned(),
            voice_phrases: sites,
        },
    );
    v.push(
        CommonActionTemplate {
            category: "Persistent Counter".to_owned(),
            description: "Increment, query, or reset the app action stats".to_owned(),
            voice_phrases: counter,
        },
    );
    v
}

/// Each setting is written once, under its own name and with its own value.
pub proof fn law_settings_are_written_under_their_names(
    p: ScreenrecAudioPrefs,
    r: DailyRecapSettings,
    d: DrivePrefs,
    previous: Seq<char>,
    on: bool,
    hour: u8,
    text: String,
)
    ensures
        audio_values(p).contains(AudioWrite::Sysaudio(on)) <==> on == p.sysaudio,
        audio_values(p).contains(AudioWrite::MicEnabled(on)) <==> on == p.mic_enabled,
        audio_values(p).contains(AudioWrite::HideCursor(on)) <==> on == p.hide_cursor,
        audio_values(p).contains(AudioWrite::Countdown(on)) <==> on == p.countdown,
        audio_values(p).contains(AudioWrite::MicDevice(text)) <==> text == p.mic_device,
        audio_values(p).contains(AudioWrite::CameraUid(text)) <==> text == p.camera_uid,
        audio_values(p).len() == 6,
        recap_values(r).contains(RecapWrite::Enabled(on)) <==> on == r.enabled,
        recap_values(r).contains(RecapWrite::IncludeWeekends(on)) <==> on == r.include_weekends,
        recap_values(r).contains(RecapWrite::DeliverHour(hour)) <==> hour == r.deliver_hour,
        recap_values(r).len() == 3,
        drive_values(previous, d).contains(DriveWrite::MakePublic(on)) <==> on == d.make_public,
        drive_values(previous, d).contains(DriveWrite::FolderName(text)) <==> text == d.folder_name,
        drive_values(previous, d).contains(DriveWrite::ForgetFolder) <==> previous
            != d.folder_name@,
        !drive_values(previous, d).contains(DriveWrite::ForgetAccount),
{
    let a = audio_values(p);
    assert(a[0] == AudioWrite::Sysaudio(p.sysaudio));
    assert(a[1] == AudioWrite::MicEnabled(p.mic_enabled));
    assert(a[2] == AudioWrite::MicDevice(p.mic_device));
    assert(a[3] == AudioWrite::HideCursor(p.hide_cursor));
    assert(a[4] == AudioWrite::CameraUid(p.camera_uid));
    assert(a[5] == AudioWrite::Countdown(p.countdown));
    let b = recap_values(r);
    assert(b[0] == RecapWrite::Enabled(r.enabled));
    assert(b[1] == RecapWrite::DeliverHour(r.deliver_hour));
    assert(b[2] == RecapWrite::IncludeWeekends(r.include_weekends));
    let c = drive_values(previous, d);
    assert(c[0] == DriveWrite::FolderName(d.folder_name));
    assert(c[1] == DriveWrite::MakePublic(d.make_public));
    if previous != d.folder_name@ {
        assert(c[2] == DriveWrite::ForgetFolder);
    }
}

/// The words for the orders of input devices.
pub proof fn law_sorts_in_words()
    ensures
        InputDeviceSort::LastUsed.word() == seq!['l', 'a', 's', 't', '_', 'u', 's', 'e', 'd'],
        InputDeviceSort::Alphabetical.word() == seq![
            'a', 'l', 'p', 'h', 'a', 'b', 'e', 't', 'i', 'c', 'a', 'l',
        ],
{
    reveal_strlit("last_used");
    assert("last_used"@ =~= seq!['l', 'a', 's', 't', '_', 'u', 's', 'e', 'd']);
    reveal_strlit("alphabetical");
    assert("alphabetical"@ =~= seq!['a', 'l', 'p', 'h', 'a', 'b', 'e', 't', 'i', 'c', 'a', 'l']);
}

} // verus!
