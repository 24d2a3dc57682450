use echo_scribe::guides::{create_guide_template, template_name, template_not_found, GuideText, Review};
use echo_scribe::guides::{template_with_id, GuidedEnd, GuidedStep, ReviewEnd, ReviewResult};
use echo_scribe::guides::ReviewStep;
use echo_scribe::meetings::{clear_app_pref, meeting_is_over, meeting_start_context, parse_decision};
use echo_scribe::meetings::{set_app_pref, AppPref, Consent, ConsentStep, Decision, FocusContext};
use echo_scribe::meetings::MeetingAppPref;
use echo_scribe::recap::{to_dto, DailySummaryRow, SummaryStatus};
use echo_scribe::settings::{daily_recap_settings_set, drive_connected, drive_disconnect};
use echo_scribe::settings::{get_common_actions, set_drive_prefs, set_screenrec_audio_prefs};
use echo_scribe::settings::{tagger_batch, tagger_progress, AudioWrite, DailyRecapSettings, DrivePrefs};
use echo_scribe::settings::{DriveWrite, InputDeviceSort, ProjectTaggerRunSummary, RecapWrite};
use echo_scribe::settings::ScreenrecAudioPrefs;
use echo_scribe::startup::{capture_reply, starts_by_itself, Capabilities, Pipeline, PipelineStep};
use echo_scribe::startup::{Setup, SetupStep};
use echo_scribe::trigger::Action;

fn text(name: &str) -> GuideText {
    GuideText {
        name: name.into(),
        description: "d".into(),
        goal: "g".into(),
        notes: "n".into(),
    }
}

#[test]
fn templates_need_a_name() {
    let t = template_with_id(text(" Interview "), "id".into(), "now").unwrap();
    assert_eq!((t.id.as_str(), t.name.as_str(), t.goal.as_str()), ("id", "Interview", "g"));
    assert_eq!((t.created_at.as_str(), t.updated_at.as_str()), ("now", "now"));
    assert_eq!(template_name("  ").unwrap_err(), "template name cannot be empty");
    let a = create_guide_template(text("A"), "now").unwrap();
    let b = create_guide_template(text("A"), "now").unwrap();
    assert_eq!(a.id.len(), 26);
    assert_ne!(a.id, b.id);
    assert!(create_guide_template(text(""), "now").is_err());
    assert_eq!(template_not_found("x"), "guide template x not found");
}

fn reviewed(answer: fn(ReviewStep) -> ReviewResult) -> (ReviewEnd, bool) {
    let mut r = Review::start();
    for _ in 0..7 {
        if let ReviewStep::Finished(_) = r.step {
            break;
        }
        let a = answer(r.step);
        r = r.advance(a);
    }
    match r.step {
        ReviewStep::Finished(e) => (e, r.pending),
        s => panic!("not finished: {s:?}"),
    }
}

#[test]
fn reviews_end() {
    assert_eq!(reviewed(|_| ReviewResult::Done), (ReviewEnd::Ready, false));
    let gone = reviewed(|_| ReviewResult::Missing).0;
    assert_eq!(gone.message("r", ""), "guide run r not found");
    let at = |s: ReviewStep, e: ReviewResult| {
        let mut r = Review::start();
        while r.step != s {
            r = r.advance(ReviewResult::Done);
        }
        match r.advance(e).step {
            ReviewStep::Finished(x) => x.message("r", "why"),
            x => panic!("{x:?}"),
        }
    };
    assert_eq!(at(ReviewStep::ReadTemplate, ReviewResult::Failed), "bad template snapshot: why");
    assert_eq!(at(ReviewStep::LoadMeeting, ReviewResult::Missing), "meeting not found");
    assert_eq!(
        at(ReviewStep::LoadMeeting, ReviewResult::NoTranscript),
        "meeting has no transcript"
    );
    assert_eq!(at(ReviewStep::ReadTranscript, ReviewResult::Failed), "bad transcript json: why");
    assert_eq!(at(ReviewStep::StoreReview, ReviewResult::Failed), "why");
    // A mark that cannot be made does not stop the review, and a failed one takes it back.
    assert_eq!(
        reviewed(|s| match s {
            ReviewStep::MarkPending => ReviewResult::Failed,
            _ => ReviewResult::Done,
        }),
        (ReviewEnd::Ready, false)
    );
    assert_eq!(
        reviewed(|s| match s {
            ReviewStep::Generate => ReviewResult::Failed,
            _ => ReviewResult::Done,
        }),
        (ReviewEnd::Failed, false)
    );
}

#[test]
fn guided_meetings_start_in_order() {
    let mut s = GuidedStep::FindTemplate;
    for expected in [GuidedStep::StartMeeting, GuidedStep::AttachGuide, GuidedStep::Watch] {
        s = s.advance(ReviewResult::Done);
        assert_eq!(s, expected);
    }
    assert_eq!(s.advance(ReviewResult::Done), GuidedStep::Finished(GuidedEnd::Started));
    assert_eq!(
        GuidedStep::FindTemplate.advance(ReviewResult::Missing),
        GuidedStep::Finished(GuidedEnd::TemplateMissing)
    );
    assert_eq!(
        GuidedStep::AttachGuide.advance(ReviewResult::Failed),
        GuidedStep::Finished(GuidedEnd::Failed)
    );
}

#[test]
fn answers_are_remembered_by_application() {
    let mut prefs: Vec<AppPref> = Vec::new();
    set_app_pref(&mut prefs, "zoom".into(), MeetingAppPref::Always);
    set_app_pref(&mut prefs, "teams".into(), MeetingAppPref::Never);
    set_app_pref(&mut prefs, "zoom".into(), MeetingAppPref::Never);
    assert_eq!(prefs.len(), 2);
    assert!(prefs.iter().all(|p| p.pref == MeetingAppPref::Never));
    clear_app_pref(&mut prefs, "zoom");
    clear_app_pref(&mut prefs, "gone");
    assert_eq!(prefs.len(), 1);
    assert_eq!(prefs[0].bundle_id, "teams");
}

fn consented(d: Decision, answer: fn(ConsentStep) -> bool) -> Vec<ConsentStep> {
    let mut c = Consent::start(d);
    let mut steps = vec![c.step];
    for _ in 0..3 {
        let ok = answer(c.step);
        c = c.advance(ok);
        steps.push(c.step);
    }
    steps.dedup();
    steps
}

#[test]
fn consent_is_remembered_once_it_took_effect() {
    assert_eq!(parse_decision("always").unwrap(), Decision::Always);
    assert_eq!(parse_decision("maybe").unwrap_err(), "invalid decision");
    assert_eq!(
        consented(Decision::Always, |_| true),
        vec![
            ConsentStep::StartMeeting,
            ConsentStep::Watch,
            ConsentStep::Remember(MeetingAppPref::Always),
            ConsentStep::Finished { started: true },
        ]
    );
    assert_eq!(
        consented(Decision::Always, |_| false),
        vec![ConsentStep::StartMeeting, ConsentStep::Failed]
    );
    assert_eq!(
        consented(Decision::Once, |_| true),
        vec![
            ConsentStep::StartMeeting,
            ConsentStep::Watch,
            ConsentStep::Finished { started: true },
        ]
    );
    assert_eq!(
        consented(Decision::Never, |_| true),
        vec![
            ConsentStep::Remember(MeetingAppPref::Never),
            ConsentStep::Finished { started: false },
        ]
    );
}

#[test]
fn meetings_note_where_they_started() {
    let c = meeting_start_context(Some(FocusContext {
        window_title: Some("w".into()),
        browser_url: None,
        browser_tab_title: Some("t".into()),
    }));
    assert_eq!(c.window_title.as_deref(), Some("w"));
    assert_eq!(c.browser_tab_title.as_deref(), Some("t"));
    assert!(meeting_start_context(None).window_title.is_none());
    assert!(meeting_is_over(r#"{"status":"transcribing"}"#));
    assert!(meeting_is_over(r#"{"status":"failed"}"#));
    assert!(!meeting_is_over(r#"{"status":"recording"}"#));
}

fn summary(sections: &str, meetings: &str) -> DailySummaryRow {
    DailySummaryRow {
        date: "2024-05-21".into(),
        generated_at: "now".into(),
        status: SummaryStatus::SkippedEmpty,
        narrative: "n".into(),
        sections_json: sections.into(),
        source_meeting_ids_json: meetings.into(),
        source_item_ids_json: "[\"i\"]".into(),
        model_version: "m".into(),
    }
}

#[test]
fn recaps_are_shown() {
    let d = to_dto(summary(r#"{"done":"x"}"#, r#"["a","b"]"#));
    assert_eq!(d.status, "skipped_empty");
    assert_eq!(d.source_meeting_ids, vec!["a", "b"]);
    assert_eq!(d.source_item_ids, vec!["i"]);
    assert_eq!(d.sections.get_text("done"), Some("x"));
    let d = to_dto(summary("broken", r#"["a",1]"#));
    assert!(d.source_meeting_ids.is_empty());
    assert!(d.sections.get("done").is_none());
    assert!(d.sections.as_text().is_none() && d.sections.as_list().is_none());
    let failed = DailySummaryRow { status: SummaryStatus::Failed, ..summary("{}", "[]") };
    assert_eq!(to_dto(failed).status, "failed");
    let made = DailySummaryRow { status: SummaryStatus::Generated, ..summary("{}", "[]") };
    assert_eq!(to_dto(made).status, "generated");
}

#[test]
fn settings_are_written_in_order() {
    let w = set_screenrec_audio_prefs(ScreenrecAudioPrefs {
        sysaudio: true,
        mic_enabled: false,
        mic_device: "Mic X".into(),
        hide_cursor: true,
        camera_uid: "cam".into(),
        countdown: false,
    });
    assert_eq!(w.len(), 6);
    assert!(matches!(&w[0], AudioWrite::Sysaudio(true)));
    assert!(matches!(&w[2], AudioWrite::MicDevice(d) if d == "Mic X"));
    assert!(matches!(&w[4], AudioWrite::CameraUid(u) if u == "cam"));
    let w = daily_recap_settings_set(DailyRecapSettings {
        enabled: true,
        deliver_hour: 18,
        include_weekends: false,
    });
    assert_eq!(
        w,
        vec![
            RecapWrite::Enabled(true),
            RecapWrite::DeliverHour(18),
            RecapWrite::IncludeWeekends(false),
        ]
    );
}

#[test]
fn a_renamed_folder_is_looked_up_again() {
    let prefs = |n: &str| DrivePrefs { folder_name: n.into(), make_public: true };
    assert_eq!(set_drive_prefs("A", prefs("A")).len(), 2);
    let w = set_drive_prefs("A", prefs("B"));
    assert_eq!(w.len(), 3);
    assert!(matches!(&w[0], DriveWrite::FolderName(n) if n == "B"));
    assert!(matches!(&w[2], DriveWrite::ForgetFolder));
    let w = drive_disconnect();
    assert!(matches!(&w[0], DriveWrite::ForgetAccount));
    assert!(matches!(&w[1], DriveWrite::ForgetFolder));
    let s = drive_connected(Ok(Some("me@x".into()))).unwrap();
    assert!(s.connected && s.email.as_deref() == Some("me@x"));
    assert_eq!(
        drive_connected(Err("x".into())).unwrap_err(),
        "Couldn't connect to Google Drive. See Settings → Diagnostics → logs for details."
    );
}

#[test]
fn words_of_settings_are_read() {
    assert_eq!(InputDeviceSort::parse("last_used").unwrap(), InputDeviceSort::LastUsed);
    assert_eq!(InputDeviceSort::Alphabetical.as_str(), "alphabetical");
    assert_eq!(InputDeviceSort::parse("x").unwrap_err(), "unknown sort 'x'");
    let p = tagger_progress(ProjectTaggerRunSummary { scanned: 3, assigned: 2 }, 9);
    assert_eq!((p.processed, p.total, p.assigned), (3, 9, 2));
    assert_eq!(tagger_batch(true, None, 25).unwrap(), 25);
    assert_eq!(tagger_batch(true, Some(3), 25).unwrap(), 3);
    assert_eq!(
        tagger_batch(false, None, 25).unwrap_err(),
        "No local AI model is ready for project tagging."
    );
    let actions = get_common_actions();
    assert_eq!(actions.len(), 4);
    assert_eq!(actions[0].voice_phrases[1], "launch Safari");
    assert_eq!(actions[3].category, "Persistent Counter");
}

#[test]
fn the_pipeline_starts_once() {
    let mut p = Pipeline::new();
    assert_eq!(p.start_pipeline(false).unwrap_err(), "speech model not ready");
    assert!(!p.started);
    let steps = p.start_pipeline(true).unwrap();
    assert_eq!(steps.len(), 11);
    assert_eq!(steps[0], PipelineStep::StoreChannel);
    assert_eq!(steps[5], PipelineStep::SyncShortcuts);
    assert_eq!(steps[9], PipelineStep::Forward(Action::EditSelection));
    assert!(p.ensure_pipeline_started().is_empty());
    assert!(starts_by_itself(true, true, true));
    assert!(!starts_by_itself(true, false, true));
    assert_eq!(capture_reply(false, None).unwrap_err(), "pipeline not started");
    assert_eq!(capture_reply(true, None).unwrap_err(), "coordinator dropped reply channel");
    assert_eq!(capture_reply(true, Some(Ok("id".into()))).unwrap(), "id");
}

fn set_up(c: Capabilities, seeded: bool, answer: fn(SetupStep) -> bool) -> Vec<SetupStep> {
    let mut s = Setup::start(c, seeded);
    let mut steps = Vec::new();
    while s.step != SetupStep::Finished {
        steps.push(s.step);
        let yes = answer(s.step);
        s = s.advance(yes);
    }
    steps
}

#[test]
fn setting_up_follows_the_system() {
    let all = Capabilities {
        meeting_auto_detect: true,
        screen_recording: true,
        bundle_self_update: true,
    };
    let none = Capabilities {
        meeting_auto_detect: false,
        screen_recording: false,
        bundle_self_update: false,
    };
    assert_eq!(set_up(all, false, |_| true).len(), 17);
    let few = set_up(none, true, |_| false);
    assert!(!few.contains(&SetupStep::StartPipeline));
    assert!(!few.contains(&SetupStep::SeedTemplates));
    assert!(!few.contains(&SetupStep::SpawnUpdater));
    let unsown = set_up(none, false, |s| s != SetupStep::SeedTemplates);
    assert!(unsown.contains(&SetupStep::SeedTemplates));
    assert!(!unsown.contains(&SetupStep::MarkSeeded));
    assert!(unsown.contains(&SetupStep::StartPipeline));
}
