use echo_scribe::audio_jobs::{clean_file_name, speech_wav_name, Clean, CleanEnd, CleanFile, CleanStep};
use echo_scribe::audio_jobs::{drop_empty_captions, CaptionSegment};
use echo_scribe::audio_jobs::{Speech, SpeechEnd, SpeechJob, SpeechStep};
use echo_scribe::exports::{export_paths, exports_with, merge_export, parse_exports, rendered_path};
use echo_scribe::finalize::{check_render_request, header_flag, header_payload, temporary_files};
use echo_scribe::finalize::{trim_window, Finalize, FinalizeEnd, FinalizeFailure, FinalizePlan};
use echo_scribe::finalize::{FinalizeStep, RenderFile, RenderKind, RequestProblem, WorkResult};
use echo_scribe::names::{drive_upload_name, sanitize_filename_component, upload_name_on};
use echo_scribe::recordings::{after_camera, background_name, camera_access_outcome_str, camera_name};
use echo_scribe::recordings::{check_free, copy_file_to_clipboard, editor_artifact_files};
use echo_scribe::recordings::{editor_bg_extension, editor_bg_files, leftover_files, meta_of_start};
use echo_scribe::recordings::{new_recording_id, recording_title, row_of_stopped, stale_backgrounds};
use echo_scribe::recordings::{start_step, tracked_files, transcode_file_name, validate_reveal_path};
use echo_scribe::recordings::{Camera, CameraAccessOutcome, RecordingMeta, RecordingRow};
use echo_scribe::recordings::{StartProblem, StartStep, StoppedRecording};
use echo_scribe::upload::{refusal_texts, render_problem_text, upload_source, visibility, SourceKind};
use echo_scribe::upload::{upload_note, upload_problem, STATUS_ERROR, STATUS_UPLOADING};
use echo_scribe::upload::{Upload, UploadEnd, UploadPlan, UploadSource, UploadStep};

/// A row of which only the name, the label and the time matter.
fn row_for(title: Option<&str>, source_label: Option<&str>, created_at: i64) -> RecordingRow {
    RecordingRow {
        id: "rec-1".into(),
        created_at,
        file_path: "/tmp/rec-1.mp4".into(),
        duration_ms: None,
        width: None,
        height: None,
        size_bytes: None,
        source_label: source_label.map(|s| s.to_string()),
        has_mic: false,
        has_sysaudio: false,
        thumb_path: None,
        drive_file_id: None,
        drive_link: None,
        upload_status: "none".into(),
        upload_error: None,
        exports: "[]".into(),
        title: title.map(|s| s.to_string()),
        transcript: None,
        denoised_path: None,
        events_path: None,
        project_json: None,
        webcam_path: None,
        cursor_hidden: false,
        webcam_offset_ms: None,
        n_events: None,
        n_clicks: None,
        project_id: None,
        classified_by: None,
    }
}

fn strings(v: &[&str]) -> Vec<String> {
    v.iter().map(|s| s.to_string()).collect()
}

#[test]
fn sanitize_filename_component_strips_and_collapses() {
    assert_eq!(
        sanitize_filename_component("Foo/Bar: \"baz\"  <qux>"),
        "FooBar baz qux"
    );
    assert_eq!(sanitize_filename_component("a\n\tb"), "a b");
    assert_eq!(sanitize_filename_component("  hello  "), "hello");
    let long: String = "x".repeat(200);
    assert_eq!(sanitize_filename_component(&long).len(), 120);
}

#[test]
fn cleaning_keeps_no_space_at_the_cut() {
    let s = format!("{} {}", "x".repeat(119), "y".repeat(20));
    assert_eq!(sanitize_filename_component(&s), "x".repeat(119));
    // A dropped character between two spaces does not bring a second space.
    assert_eq!(sanitize_filename_component("a / b"), "a b");
    assert_eq!(sanitize_filename_component("a\u{7}b"), "ab");
    assert_eq!(sanitize_filename_component("///"), "");
}

#[test]
fn cleaning_a_clean_name_changes_nothing() {
    let cut = format!("{} {}", "x".repeat(119), "y".repeat(20));
    for s in ["a / b", "  hello \t world ", "///", "", "a\u{7}b", "é: ü?", cut.as_str()] {
        let once = sanitize_filename_component(s);
        assert_eq!(sanitize_filename_component(&once), once);
    }
}

#[test]
fn drive_upload_name_uses_display_name_tag_and_date() {
    let row = row_for(Some("Broker SAM"), Some("Chrome — example.com"), 1_716_300_000_000);
    let edited = drive_upload_name(&row, "/tmp/abc123.rendered.mp4", "rendered");
    assert!(edited.starts_with("Broker SAM (edited) "), "{edited}");
    assert!(edited.ends_with(".mp4"), "{edited}");

    let row2 = row_for(None, Some("Chrome — example.com"), 1_716_300_000_000);
    let orig = drive_upload_name(&row2, "/tmp/abc.mp4", "original");
    assert!(orig.starts_with("Chrome — example.com "), "{orig}");
    assert!(!orig.contains("(edited)"), "{orig}");

    let dn = drive_upload_name(&row, "/tmp/abc-1080.mp4", "1080");
    assert!(dn.contains("(1080p)"), "{dn}");

    let row3 = row_for(Some("   "), None, 1_716_300_000_000);
    let fb = drive_upload_name(&row3, "/tmp/x.gif", "original");
    assert!(fb.starts_with("Recording "), "{fb}");
    assert!(fb.ends_with(".gif"), "{fb}");
}

#[test]
fn upload_name_carries_the_date() {
    // Noon in the middle of a month is on the same day or a neighbour of it in every zone.
    let row = row_for(Some("T"), None, 1_716_300_000_000);
    let name = drive_upload_name(&row, "/tmp/x.mp4", "original");
    assert!(
        name == "T 2024-05-20.mp4" || name == "T 2024-05-21.mp4" || name == "T 2024-05-22.mp4",
        "{name}"
    );
    // A time that no calendar reaches leaves the date out.
    let row = row_for(Some("T"), None, i64::MAX);
    assert_eq!(drive_upload_name(&row, "/tmp/x.mp4", "original"), "T.mp4");
    // The calendar ends with the year 262142 and begins with the year -262143.
    for (ms, dated) in [
        (8_210_266_876_799_999, true),
        (8_210_266_876_800_000, false),
        (-8_334_601_228_800_000, true),
        (-8_334_601_228_800_001, false),
    ] {
        let row = row_for(Some("T"), None, ms);
        assert_eq!(drive_upload_name(&row, "/tmp/x.mp4", "original") != "T.mp4", dated);
    }
    assert_eq!(
        upload_name_on(Some("T"), None, "/tmp/noext", "720", Some("2024-05-21")),
        "T (720p) 2024-05-21.mp4"
    );
    assert_eq!(upload_name_on(Some("/"), None, "a.b", "original", None), "Recording.b");
}

#[test]
fn versions_have_distinct_upload_names() {
    let name = |q: &str| upload_name_on(Some("T"), None, "/t/a.mp4", q, Some("2024-05-21"));
    assert_ne!(name("original"), name("rendered"));
    assert_ne!(name("rendered"), name("720"));
    assert_ne!(name("720"), name("1080"));
}

#[test]
fn camera_access_outcome_str_maps_all_variants() {
    assert_eq!(camera_access_outcome_str(CameraAccessOutcome::Granted), "granted");
    assert_eq!(camera_access_outcome_str(CameraAccessOutcome::Denied), "denied");
    assert_eq!(
        camera_access_outcome_str(CameraAccessOutcome::Undetermined),
        "undetermined"
    );
}

#[test]
fn editor_bg_extension_allowlist() {
    assert_eq!(editor_bg_extension("/a/b/photo.png").unwrap(), "png");
    assert_eq!(editor_bg_extension("/a/b/photo.JPG").unwrap(), "jpg");
    assert_eq!(editor_bg_extension("/a/b/photo.jpeg").unwrap(), "jpeg");
    assert_eq!(editor_bg_extension("/a/b/photo.WEBP").unwrap(), "webp");
    assert!(editor_bg_extension("/a/b/movie.mp4").is_err());
    assert!(editor_bg_extension("/a/b/doc.gif").is_err());
    assert!(editor_bg_extension("/a/b/noext").is_err());
}

#[test]
fn editor_bg_files_lists_only_this_ids_backgrounds() {
    let names = strings(&[
        "rec1.bg.png",
        "rec1.bg.jpg",
        "rec1.mp4",
        "rec1.rendered.mp4",
        "rec12.bg.png",
        "other.bg.png",
    ]);
    assert_eq!(editor_bg_files(&names, "rec1"), vec!["rec1.bg.jpg", "rec1.bg.png"]);
    assert!(editor_bg_files(&names, "rec99").is_empty());
}

#[test]
fn editor_artifact_files_includes_backgrounds_and_rendered_export() {
    let names = strings(&["rec1.bg.webp", "rec1.rendered.mp4", "rec1.mp4", "rec2.rendered.mp4"]);
    assert_eq!(
        editor_artifact_files(&names, "rec1"),
        vec!["rec1.bg.webp", "rec1.rendered.mp4"]
    );
    assert!(editor_artifact_files(&names, "rec3").is_empty());
}

#[test]
fn a_new_background_leaves_one() {
    assert_eq!(background_name("rec1", "png"), "rec1.bg.png");
    let there = strings(&["/r/rec1.bg.jpg", "/r/rec1.bg.png"]);
    assert_eq!(stale_backgrounds(&there, "/r/rec1.bg.png"), vec!["/r/rec1.bg.jpg"]);
}

#[test]
fn export_paths_reads_paths_and_tolerates_bad_json() {
    let json = r#"[
            {"quality":"720","path":"/r/rec1-720.mp4","size":1},
            {"quality":"rendered","path":"/r/rec1.rendered.mp4","size":2},
            {"quality":"nopath","size":3}
        ]"#;
    assert_eq!(export_paths(json), vec!["/r/rec1-720.mp4", "/r/rec1.rendered.mp4"]);
    assert!(export_paths("").is_empty());
    assert!(export_paths("not json").is_empty());
    assert!(export_paths("{}").is_empty());
}

#[test]
fn an_export_replaces_the_one_of_its_quality() {
    let one = exports_with("[]", "720", "/r/a-720.mp4", 5);
    assert_eq!(one, r#"[{"path":"/r/a-720.mp4","quality":"720","size":5}]"#);
    let two = exports_with(&one, "rendered", "/r/a.rendered.mp4", 6);
    assert_eq!(export_paths(&two), vec!["/r/a-720.mp4", "/r/a.rendered.mp4"]);
    assert_eq!(rendered_path(&two), Some("/r/a.rendered.mp4".to_string()));
    let three = exports_with(&two, "720", "/r/b-720.mp4", 7);
    assert_eq!(export_paths(&three), vec!["/r/a.rendered.mp4", "/r/b-720.mp4"]);
    assert_eq!(rendered_path(&one), None);
    // What cannot be read is given up for a list of the new export alone.
    assert_eq!(
        export_paths(&exports_with("not json", "720", "/r/a.mp4", 1)),
        vec!["/r/a.mp4"]
    );
    assert_eq!(merge_export(parse_exports(&three), "720", "/x", 1).len(), 2);
}

#[test]
fn odd_entries_of_exports_are_kept() {
    let list = r#"[1, -2, 0.5, null, true, "s", {"quality": 720}]"#;
    let after = exports_with(list, "720", "/r/a.mp4", 1);
    assert_eq!(parse_exports(&after).len(), 8);
    assert_eq!(
        after,
        r#"[1,-2,0.5,null,true,"s",{"quality":720},{"path":"/r/a.mp4","quality":"720","size":1}]"#
    );
}

#[test]
fn header_values_are_read() {
    assert_eq!(trim_window(Some("100"), Some("200")), Some((100, 200)));
    assert_eq!(trim_window(Some("+100"), Some("0200")), Some((100, 200)));
    assert_eq!(trim_window(Some("200"), Some("200")), None);
    assert_eq!(trim_window(Some("x"), Some("200")), None);
    assert_eq!(trim_window(None, Some("200")), None);
    assert_eq!(trim_window(Some(" 100 "), Some("200")), Some((100, 200)));
    assert!(header_flag(Some("1")));
    assert!(header_flag(Some("true")));
    assert!(header_flag(Some(" true ")));
    assert!(!header_flag(Some("TRUE")));
    assert!(!header_flag(Some("")));
    assert!(!header_flag(Some("yes")));
    assert!(!header_flag(None));
    assert_eq!(header_payload(Some("[]")), Some("[]".to_string()));
    assert_eq!(header_payload(Some("")), None);
}

#[test]
fn empty_renders_are_refused() {
    assert!(check_render_request(RenderKind::Video, true, Some(1)).is_ok());
    let e = check_render_request(RenderKind::Gif, false, Some(1)).unwrap_err();
    assert_eq!(e, RequestProblem::MissingId);
    assert_eq!(e.message(), "internal error: missing recording id");
    let e = check_render_request(RenderKind::Gif, true, None).unwrap_err();
    assert_eq!(e, RequestProblem::NotBytes(RenderKind::Gif));
    assert_eq!(e.message(), "internal error: rendered GIF bytes not received");
    let e = check_render_request(RenderKind::Thumbnail, true, None).unwrap_err();
    assert_eq!(e.message(), "internal error: thumbnail bytes not received");
    let e = check_render_request(RenderKind::Thumbnail, true, Some(0)).unwrap_err();
    assert_eq!(e, RequestProblem::Empty(RenderKind::Thumbnail));
    assert_eq!(e.message(), "thumbnail render produced no data");
    let e = check_render_request(RenderKind::Gif, true, Some(0)).unwrap_err();
    assert_eq!(e.message(), "render produced no data");
}

#[test]
fn render_files_do_not_meet() {
    let names: Vec<String> = temporary_files().iter().map(|f| f.file_name("rec-1")).collect();
    for (i, a) in names.iter().enumerate() {
        for b in names.iter().skip(i + 1) {
            assert_ne!(a, b);
        }
    }
    assert_eq!(RenderFile::Output.file_name("rec-1"), "rec-1.rendered.mp4");
}

fn finalized(plan: FinalizePlan, answer: fn(FinalizeStep) -> WorkResult) -> FinalizeEnd {
    let mut f = Finalize::start(plan);
    for _ in 0..10 {
        if let FinalizeStep::Finished(_) = f.step {
            break;
        }
        let a = answer(f.step);
        f = f.advance(a);
    }
    match f.step {
        FinalizeStep::Finished(e) => e,
        s => panic!("not finished: {s:?}"),
    }
}

const EVERYTHING: FinalizePlan =
    FinalizePlan { trim: true, retime: true, denoise: true, normalize: true, music: true };

#[test]
fn an_export_gets_its_sound() {
    let end = finalized(EVERYTHING, |s| match s {
        FinalizeStep::CheckOutput => WorkResult::Size(42),
        _ => WorkResult::Done,
    });
    assert_eq!(end, FinalizeEnd::WithAudio(42));
    let silent = finalized(EVERYTHING, |s| match s {
        FinalizeStep::ExtractAudio => WorkResult::NoAudio,
        _ => WorkResult::Done,
    });
    assert_eq!(silent, FinalizeEnd::VideoOnly);
}

#[test]
fn niceties_do_not_fail_an_export() {
    let end = finalized(EVERYTHING, |s| match s {
        FinalizeStep::Denoise
        | FinalizeStep::Normalize
        | FinalizeStep::ExtractMusic
        | FinalizeStep::MixMusic => WorkResult::Failed,
        FinalizeStep::CheckOutput => WorkResult::Size(7),
        _ => WorkResult::Done,
    });
    assert_eq!(end, FinalizeEnd::WithAudio(7));
}

#[test]
fn a_failing_step_ends_an_export() {
    let end = finalized(EVERYTHING, |s| match s {
        FinalizeStep::Trim => WorkResult::Failed,
        _ => WorkResult::Done,
    });
    assert_eq!(end, FinalizeEnd::Failed(FinalizeFailure::Trim));
    assert_eq!(
        FinalizeFailure::Trim.message("x"),
        "could not trim the recording's audio. See Settings → Diagnostics → logs for details."
    );
    assert_eq!(
        FinalizeFailure::SaveVideo.message("full"),
        "could not save the rendered video: full"
    );
    assert_eq!(
        FinalizeFailure::Retime.message(""),
        "Export failed while adjusting audio speed — try again or remove the speed segments. See logs."
    );
    let end = finalized(EVERYTHING, |s| match s {
        FinalizeStep::Mux => WorkResult::Panicked,
        _ => WorkResult::Done,
    });
    assert_eq!(end, FinalizeEnd::Failed(FinalizeFailure::MuxPanicked));
    let end = finalized(EVERYTHING, |s| match s {
        FinalizeStep::CheckOutput => WorkResult::Size(0),
        _ => WorkResult::Done,
    });
    assert_eq!(end, FinalizeEnd::Failed(FinalizeFailure::EmptyOutput));
}

fn stopped() -> StoppedRecording {
    StoppedRecording {
        path: "/r/rec-5.mp4".into(),
        dur_ms: 1000,
        width: 640,
        height: 480,
        size: 99,
        thumb: String::new(),
        events_path: Some("/r/rec-5.events.json".into()),
        webcam_path: None,
        webcam_offset_ms: None,
        n_events: Some(3),
        n_clicks: Some(1),
    }
}

#[test]
fn a_stopped_recording_becomes_a_row() {
    let meta = RecordingMeta {
        source_label: "Screen".into(),
        has_mic: true,
        has_sysaudio: false,
        cursor_hidden: true,
    };
    let row = row_of_stopped(stopped(), meta, 12);
    assert_eq!(row.id, "rec-5");
    assert_eq!(row.created_at, 12);
    assert_eq!(row.thumb_path, None);
    assert_eq!(row.size_bytes, Some(99));
    assert_eq!(row.upload_status, "none");
    assert_eq!(row.exports, "[]");
    assert_eq!(row.source_label, Some("Screen".to_string()));
    assert!(row.has_mic && !row.has_sysaudio && row.cursor_hidden);
    assert_eq!(tracked_files(&row), vec!["/r/rec-5.mp4", "/r/rec-5.events.json"]);
    assert_eq!(row.playable_path(), "/r/rec-5.mp4");
    assert_eq!(row.events_file(), Some("/r/rec-5.events.json"));
    let meta = RecordingMeta {
        source_label: String::new(),
        has_mic: false,
        has_sysaudio: false,
        cursor_hidden: false,
    };
    let odd = StoppedRecording { path: "/".into(), thumb: "/r/t.jpg".into(), ..stopped() };
    let row = row_of_stopped(odd, meta, 0);
    assert_eq!(row.id, "rec-unknown");
    assert_eq!(row.thumb_path, Some("/r/t.jpg".to_string()));
}

#[test]
fn a_recording_starts_with_or_without_the_camera() {
    assert_eq!(start_step(true, None, true), StartStep::Refuse(StartProblem::BadArea));
    assert_eq!(start_step(false, None, false), StartStep::Start { webcam: false });
    assert_eq!(start_step(false, Some(""), false), StartStep::Start { webcam: false });
    assert_eq!(start_step(false, Some("cam"), true), StartStep::Start { webcam: true });
    assert_eq!(start_step(false, Some("cam"), false), StartStep::AskForCamera);
    assert_eq!(after_camera(CameraAccessOutcome::Granted), StartStep::Start { webcam: true });
    assert_eq!(after_camera(CameraAccessOutcome::Denied), StartStep::WarnAndStart);
    assert_eq!(after_camera(CameraAccessOutcome::Undetermined), StartStep::WarnAndStart);
    assert!(check_free(false).is_ok());
    assert_eq!(
        check_free(true).unwrap_err().message(),
        "a recording is already in progress"
    );
    assert_eq!(
        StartProblem::BadArea.message(),
        "Couldn't start the area recording: the selected region is invalid."
    );
    assert_eq!(new_recording_id(1_716_300_000_000), "rec-1716300000000");
    let m = meta_of_start("Screen".into(), true, false, None);
    assert!(m.has_mic && !m.has_sysaudio && !m.cursor_hidden);
    assert!(meta_of_start("Screen".into(), true, false, Some(true)).cursor_hidden);
    let cams = vec![Camera { uid: "u1".into(), name: "Front".into() }];
    assert_eq!(camera_name(&cams, "u1"), "Front");
    assert_eq!(camera_name(&cams, "u2"), "");
}

#[test]
fn titles_are_trimmed() {
    assert_eq!(recording_title("  Demo "), "Demo");
    assert_eq!(transcode_file_name("/r/rec-5.mp4", "720"), "rec-5-720.mp4");
    assert_eq!(transcode_file_name("/", "720"), "rec-720.mp4");
}

#[test]
fn deleting_sweeps_only_the_folder() {
    let artifacts = strings(&["/r/rec1.bg.png"]);
    let exported = strings(&["/r/rec1-720.mp4", "/elsewhere/x.mp4", "/r/gone.mp4", "/r/rec1.bg.png"]);
    let present = vec![true, true, false, true];
    assert_eq!(
        leftover_files(artifacts, &exported, &present, "/r"),
        vec!["/r/rec1.bg.png", "/r/rec1-720.mp4"]
    );
}

#[test]
fn only_files_of_the_folder_are_shown() {
    let found = |s: &str| -> Result<String, String> { Ok(s.to_string()) };
    let lost = || -> Result<String, String> { Err("gone".to_string()) };
    assert_eq!(validate_reveal_path(found("/r"), found("/r/a.mp4"), true).unwrap(), "/r/a.mp4");
    assert!(validate_reveal_path(found("/r"), found("/r/sub/a.mp4"), true).is_ok());
    assert_eq!(
        validate_reveal_path(found("/r"), found("/rx/a.mp4"), true).unwrap_err(),
        "path /rx/a.mp4 is outside the recordings folder"
    );
    assert!(validate_reveal_path(found("/r"), found("/s/a.mp4"), true).is_err());
    // The folder itself lies in the folder, and is no file.
    assert_eq!(
        validate_reveal_path(found("/r"), found("/r"), false).unwrap_err(),
        "path /r is not a file"
    );
    assert_eq!(
        validate_reveal_path(found("/r"), lost(), false).unwrap_err(),
        "file not found: gone"
    );
    assert_eq!(
        validate_reveal_path(lost(), found("/r/a.mp4"), true).unwrap_err(),
        "recordings dir unavailable: gone"
    );
    assert!(copy_file_to_clipboard("/r/a.mp4").is_err());
}

fn resolve(path: &std::path::Path) -> Result<String, String> {
    path.canonicalize().map(|p| p.display().to_string()).map_err(|e| e.to_string())
}

fn shown_path(dir: &std::path::Path, path: &str) -> Result<String, String> {
    let path = std::path::Path::new(path);
    validate_reveal_path(resolve(dir), resolve(path), path.is_file())
}

#[test]
fn validate_reveal_path_requires_existing_file_inside_dir() {
    let named = |name: &str, dir: &std::path::Path| {
        tempfile::Builder::new()
            .prefix(name)
            .suffix(".mp4")
            .rand_bytes(0)
            .tempfile_in(dir)
            .unwrap()
    };
    let root = tempfile::tempdir().unwrap();
    let outside_root = tempfile::tempdir().unwrap();
    let inside_file = named("a", root.path());
    let outside_file = named("b", outside_root.path());
    let inside = root.path().join("a.mp4");
    let outside = outside_root.path().join("b.mp4");
    assert_eq!(inside_file.path(), inside);
    assert_eq!(outside_file.path(), outside);

    // A real file inside the folder passes.
    assert!(shown_path(root.path(), inside.to_str().unwrap()).is_ok());
    // A real file elsewhere is rejected.
    assert!(shown_path(root.path(), outside.to_str().unwrap()).is_err());
    // So is one that `..` leads to.
    let sneaky = format!(
        "{}/../{}/b.mp4",
        root.path().display(),
        outside_root.path().file_name().unwrap().to_string_lossy()
    );
    assert!(shown_path(root.path(), &sneaky).is_err());
    // Missing files are rejected.
    let missing = root.path().join("nope.mp4");
    assert!(shown_path(root.path(), missing.to_str().unwrap()).is_err());
    // The folder itself is no file.
    assert!(shown_path(root.path(), root.path().to_str().unwrap()).is_err());
}

#[test]
fn uploads_pick_their_file() {
    let exports = exports_with("[]", "rendered", "/r/a.rendered.mp4", 5);
    assert!(matches!(upload_source("rendered", "[]", "/r/a.mp4"), UploadSource::NoRender));
    match upload_source("rendered", &exports, "/r/a.mp4") {
        UploadSource::Rendered(p) => assert_eq!(p, "/r/a.rendered.mp4"),
        other => panic!("{other:?}"),
    }
    assert!(matches!(upload_source("original", &exports, "/r/a.mp4"), UploadSource::Original));
    match upload_source("720", &exports, "/r/a.mp4") {
        UploadSource::Transcode(name) => assert_eq!(name, "a-720.mp4"),
        other => panic!("{other:?}"),
    }
    assert!(visibility(Some(true), false));
    assert!(!visibility(Some(false), true));
    assert!(visibility(None, true));
}

fn uploaded(plan: UploadPlan, answer: fn(UploadStep) -> bool) -> (UploadEnd, bool) {
    let mut u = Upload::start(plan);
    let mut shared = false;
    for _ in 0..9 {
        if let UploadStep::Finished(_) = u.step {
            break;
        }
        shared = shared || u.step == UploadStep::Share;
        let ok = answer(u.step);
        u = u.advance(ok);
    }
    match u.step {
        UploadStep::Finished(e) => (e, shared),
        s => panic!("not finished: {s:?}"),
    }
}

#[test]
fn private_uploads_stay_private() {
    let plan = UploadPlan { source: SourceKind::Rendered, has_folder: false, make_public: false };
    assert_eq!(uploaded(plan, |_| true), (UploadEnd::Linked, false));
    let open = UploadPlan { make_public: true, ..plan };
    assert_eq!(uploaded(open, |_| true), (UploadEnd::Linked, true));
    assert_eq!(uploaded(plan, |s| s != UploadStep::CheckRender), (UploadEnd::RenderMissing, false));
    assert_eq!(uploaded(plan, |s| s != UploadStep::Send), (UploadEnd::DriveFailed, false));
    let none = UploadPlan { source: SourceKind::NoRender, ..plan };
    assert_eq!(uploaded(none, |_| true).0, UploadEnd::NoRender);
    assert!(render_problem_text(UploadEnd::NoRender).is_some());
    assert!(render_problem_text(UploadEnd::Linked).is_none());
}

#[test]
fn a_lost_account_is_told_apart() {
    let (kept, told) = refusal_texts("token: reconnect_required", "reconnect_required");
    assert_eq!(kept, "Google Drive isn't connected — reconnect to upload.");
    assert_eq!(told, format!("reconnect_required: {kept}"));
    assert_eq!(refusal_texts("not connected to Drive", "reconnect_required").1, told);
    let (kept, told) = refusal_texts("quota", "reconnect_required");
    assert_eq!(kept, "Upload to Drive failed. See Settings → Diagnostics → logs for details.");
    assert_eq!(told, kept);
}

#[test]
fn failed_uploads_are_kept_with_the_row() {
    let word = "reconnect_required";
    let kept = |end: UploadEnd, detail: &str| upload_note(end, detail, word).map(|n| (n.status, n.error));
    let error = |text: &str| Some(("error".to_string(), text.to_string()));
    let none = "No edited version yet — open the editor and export first.";
    assert_eq!(kept(UploadEnd::NoRender, "x"), error(none));
    assert_eq!(upload_problem(UploadEnd::NoRender, "x", word).as_deref(), Some(none));
    let missing = "The edited export file is missing — re-export from the editor.";
    assert_eq!(kept(UploadEnd::RenderMissing, "x"), error(missing));
    assert_eq!(upload_problem(UploadEnd::RenderMissing, "x", word).as_deref(), Some(missing));
    let lost = "Google Drive isn't connected — reconnect to upload.";
    assert_eq!(kept(UploadEnd::DriveFailed, "not connected to Drive"), error(lost));
    assert_eq!(
        upload_problem(UploadEnd::DriveFailed, "not connected to Drive", word),
        Some(format!("{word}: {lost}"))
    );
    let failed = "Upload to Drive failed. See Settings → Diagnostics → logs for details.";
    assert_eq!(kept(UploadEnd::DriveFailed, "quota"), error(failed));
    assert_eq!(upload_problem(UploadEnd::DriveFailed, "quota", word).as_deref(), Some(failed));
    assert_eq!(kept(UploadEnd::Failed, "disk full"), None);
    assert_eq!(upload_problem(UploadEnd::Failed, "disk full", word).as_deref(), Some("disk full"));
    assert_eq!(kept(UploadEnd::Linked, ""), None);
    assert_eq!(upload_problem(UploadEnd::Linked, "", word), None);
    assert_eq!((STATUS_UPLOADING, STATUS_ERROR), ("uploading", "error"));
}

fn spoken(job: SpeechJob, answer: fn(SpeechStep) -> WorkResult) -> (SpeechEnd, bool) {
    let mut s = Speech::start(job);
    for _ in 0..8 {
        if let SpeechStep::Finished(_) = s.step {
            break;
        }
        let a = answer(s.step);
        s = s.advance(a);
    }
    match s.step {
        SpeechStep::Finished(e) => (e, s.sweep),
        x => panic!("not finished: {x:?}"),
    }
}

#[test]
fn transcripts_sweep_their_sound() {
    assert_eq!(spoken(SpeechJob::Transcript, |_| WorkResult::Done), (SpeechEnd::Ready, true));
    let none = spoken(SpeechJob::Transcript, |s| match s {
        SpeechStep::Extract => WorkResult::NoAudio,
        _ => WorkResult::Done,
    });
    assert_eq!(none, (SpeechEnd::NoAudio, true));
    assert_eq!(SpeechEnd::NoAudio.message(SpeechJob::Transcript, ""), "Recording has no audio");
    assert_eq!(
        SpeechEnd::FileMissing.message(SpeechJob::Transcript, ""),
        "recording file is missing on disk"
    );
    assert_eq!(
        SpeechEnd::NoModel.message(SpeechJob::Transcript, ""),
        "Download a transcription model first"
    );
    assert_eq!(
        SpeechEnd::ExtractPanicked.message(SpeechJob::Transcript, ""),
        "extraction task panicked"
    );
    assert_eq!(speech_wav_name(SpeechJob::Transcript, "rec-5"), "rec-5.transcribe.wav");
}

#[test]
fn captions_fail_with_one_text() {
    assert_eq!(spoken(SpeechJob::Captions, |_| WorkResult::Done), (SpeechEnd::Ready, true));
    for end in [
        SpeechEnd::NoRecording,
        SpeechEnd::FileMissing,
        SpeechEnd::NoModel,
        SpeechEnd::NoFolder,
        SpeechEnd::ExtractPanicked,
        SpeechEnd::NoAudio,
        SpeechEnd::ExtractFailed,
        SpeechEnd::LoadFailed,
        SpeechEnd::RecognizeFailed,
        SpeechEnd::StoreFailed,
    ] {
        assert_eq!(
            end.message(SpeechJob::Captions, "why"),
            "Caption generation failed — see logs."
        );
    }
    assert_eq!(SpeechEnd::Ready.message(SpeechJob::Captions, ""), "");
    let unready = spoken(SpeechJob::Captions, |s| match s {
        SpeechStep::FindModel => WorkResult::Failed,
        _ => WorkResult::Done,
    });
    assert_eq!(unready, (SpeechEnd::NoModel, false));
    // Nothing is stored: a store that would fail fails nothing.
    let unstored = spoken(SpeechJob::Captions, |s| match s {
        SpeechStep::Store => WorkResult::Failed,
        _ => WorkResult::Done,
    });
    assert_eq!(unstored, (SpeechEnd::Ready, true));
    let lost = spoken(SpeechJob::Transcript, |s| match s {
        SpeechStep::FindRecording => WorkResult::Failed,
        _ => WorkResult::Done,
    });
    assert_eq!(lost, (SpeechEnd::NoRecording, false));
    assert_eq!(
        SpeechEnd::NoRecording.message(SpeechJob::Transcript, "recording not found"),
        "recording not found"
    );
    assert_eq!(speech_wav_name(SpeechJob::Captions, "rec-5"), "rec-5.captions.wav");
}

#[test]
fn empty_captions_are_dropped() {
    let at = |ms: u64, text: &str| CaptionSegment { start_ms: ms, end_ms: ms + 1, text: text.into() };
    let left = drop_empty_captions(vec![at(0, ""), at(1, "a"), at(2, ""), at(3, "b")]);
    let seen: Vec<(u64, u64, &str)> =
        left.iter().map(|c| (c.start_ms, c.end_ms, c.text.as_str())).collect();
    assert_eq!(seen, vec![(1, 2, "a"), (3, 4, "b")]);
    assert!(drop_empty_captions(vec![at(0, "")]).is_empty());
}

fn cleaned(answer: fn(CleanStep) -> WorkResult) -> Clean {
    let mut c = Clean::start();
    for _ in 0..10 {
        if let CleanStep::Finished(_) = c.step {
            break;
        }
        let a = answer(c.step);
        c = c.advance(a);
    }
    c
}

#[test]
fn cleaning_keeps_the_original_until_the_end() {
    let all = cleaned(|s| match s {
        CleanStep::CheckOutput => WorkResult::Size(9),
        _ => WorkResult::Done,
    });
    assert_eq!(all.step, CleanStep::Finished(CleanEnd::Cleaned));
    assert!(all.dropped);
    let unpromoted = cleaned(|s| match s {
        CleanStep::CheckOutput => WorkResult::Size(9),
        CleanStep::Promote => WorkResult::Failed,
        _ => WorkResult::Done,
    });
    assert_eq!(unpromoted.step, CleanStep::Finished(CleanEnd::PromoteFailed));
    assert!(!unpromoted.dropped);
    let unrecorded = cleaned(|s| match s {
        CleanStep::CheckOutput => WorkResult::Size(9),
        CleanStep::RecordPath => WorkResult::Failed,
        _ => WorkResult::Done,
    });
    assert_eq!(unrecorded.step, CleanStep::Finished(CleanEnd::RecordFailed));
    assert!(!unrecorded.dropped);
    // An original that cannot be removed is no failure.
    let stuck = cleaned(|s| match s {
        CleanStep::CheckOutput => WorkResult::Size(9),
        CleanStep::DropOriginal => WorkResult::Failed,
        _ => WorkResult::Done,
    });
    assert_eq!(stuck.step, CleanStep::Finished(CleanEnd::Cleaned));
    let bad = cleaned(|s| match s {
        CleanStep::Denoise => WorkResult::Failed,
        _ => WorkResult::Done,
    });
    assert_eq!(bad.step, CleanStep::Finished(CleanEnd::DenoiseFailed));
    assert!(!bad.dropped);
    let a = clean_file_name(CleanFile::SourceSound, "rec-5");
    let b = clean_file_name(CleanFile::CleanSound, "rec-5");
    let c = clean_file_name(CleanFile::CleanVideo, "rec-5");
    assert!(a != b && b != c && a != c);
}
