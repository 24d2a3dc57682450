use echo_scribe::diagnostics::{choose_log, current_log_file, log_dir, log_file_of, log_line_limit};
use echo_scribe::diagnostics::{tail_lines, HostSystem, LogChoice};
use echo_scribe::models::{llm_status_for, model_status_for, model_to_restore, refresh_after_download};
use echo_scribe::models::{shown_active_id, unknown_model, LlmDiskState, LlmModelEntry, ModelChoice};
use echo_scribe::models::{ModelEntry, ModelFamily};
use echo_scribe::windows::{editor_label, editor_script, editor_script_with, editor_title, on_close};
use echo_scribe::windows::{overlay_steps, CloseAction, OverlayInput, OverlayStep};

#[test]
fn logs_end_with_the_last_lines() {
    assert_eq!(tail_lines("a\nb\nc\n", 2), "b\nc");
    assert_eq!(tail_lines("a\nb", 9), "a\nb");
    assert_eq!(tail_lines("", 3), "");
    assert_eq!(tail_lines("a\nb", 0), "");
    assert_eq!(log_line_limit(Some(7)), 7);
    assert_eq!(log_line_limit(None), 200);
    assert_eq!(log_line_limit(Some(5000)), 2000);
    assert_eq!(log_file_of("/l", 0), "/l/echo-scribe.log.1970-01-01");
    assert_eq!(current_log_file("/l"), "/l/echo-scribe.log");
    assert_eq!(choose_log(true, true), LogChoice::OfToday);
    assert_eq!(choose_log(false, true), LogChoice::Current);
    assert_eq!(choose_log(false, false), LogChoice::Nothing);
}

#[test]
fn log_folders_follow_the_system() {
    assert_eq!(
        log_dir(HostSystem::Mac, Some("/Users/u"), "/tmp"),
        "/Users/u/Library/Logs/EchoScribe"
    );
    assert_eq!(log_dir(HostSystem::Mac, None, "/tmp"), "/tmp");
    let other = log_dir(HostSystem::Other, Some("/home/u/.local/share"), "/tmp");
    assert_eq!(other, "/home/u/.local/share/EchoScribe/logs");
    assert!(!other.contains("Library"));
    assert_eq!(log_dir(HostSystem::Other, None, "/tmp"), "/tmp");
}

#[test]
fn editors_have_plain_labels() {
    let label = editor_label("rec 1/é");
    assert!(label.chars().all(|c| c.is_ascii_alphanumeric() || "-/:_".contains(c)), "{label}");
    assert_ne!(editor_label("a"), editor_label("b"));
    assert_eq!(editor_title(Some("  Demo ")), "Edit — Demo");
    assert_eq!(editor_title(Some("  ")), "Edit recording");
    assert_eq!(editor_title(None), "Edit recording");
    assert_eq!(editor_script("a\"b"), editor_script_with(r#""a\"b""#));
    assert!(editor_script("a\"b").contains(r#""a\"b""#));
}

#[test]
fn closing_hides_what_is_used_again() {
    assert_eq!(on_close("main"), CloseAction::HideMain);
    assert_eq!(on_close("screenrec_setup"), CloseAction::HideSetup);
    assert_eq!(on_close("editor-1"), CloseAction::Close);
    assert_eq!(
        overlay_steps(OverlayInput::AreaPicked),
        vec![OverlayStep::HideAreaPicker, OverlayStep::TellArea { picked: true }]
    );
    assert_eq!(
        overlay_steps(OverlayInput::AreaCancelled),
        vec![OverlayStep::HideAreaPicker, OverlayStep::TellArea { picked: false }]
    );
    assert!(overlay_steps(OverlayInput::CountdownFinished).contains(&OverlayStep::TellFinished));
    assert!(!overlay_steps(OverlayInput::CountdownFinished).contains(&OverlayStep::TellCancelled));
    assert!(overlay_steps(OverlayInput::CountdownCancelled).contains(&OverlayStep::TellCancelled));
}

fn speech(id: &str) -> ModelEntry {
    ModelEntry {
        id: id.into(),
        display_name: "D".into(),
        version_label: "v1".into(),
        description: String::new(),
        language_label: "en".into(),
        english_only: true,
        accuracy_bars: 3,
        speed_bars: 4,
        size_label: "1 GB".into(),
        size_bytes: 5,
    }
}

#[test]
fn models_show_their_state() {
    let s = model_status_for(&speech("a"), Some("a"), true, false);
    assert!(s.active && s.downloaded && !s.supported && s.english_only);
    assert_eq!((s.id.as_str(), s.size_bytes, s.speed_bars), ("a", 5, 4));
    assert!(!model_status_for(&speech("a"), Some("b"), true, true).active);
    assert!(!model_status_for(&speech("a"), None, true, true).active);
    let entry = LlmModelEntry {
        id: "m".into(),
        display_name: "M".into(),
        family: "f".into(),
        size_label: "2 GB".into(),
        size_bytes: 9,
        context_length: 2048,
    };
    let disk = LlmDiskState { downloaded: false, supported: true, disk_bytes: 4, incomplete: true };
    let s = llm_status_for(&entry, Some("m"), disk);
    assert!(s.active && !s.downloaded && s.incomplete && s.supported);
    assert_eq!((s.disk_bytes, s.context_length), (4, 2048));
}

#[test]
fn a_downloaded_model_is_restored() {
    let m = |id: &str, downloaded| ModelChoice { id: id.into(), downloaded };
    let models = vec![m("a", false), m("b", true), m("c", true)];
    assert_eq!(model_to_restore(Some("c"), "a", &models), Some(2));
    assert_eq!(model_to_restore(Some("a"), "a", &models), Some(1));
    assert_eq!(model_to_restore(Some("gone"), "c", &models), Some(1));
    assert_eq!(model_to_restore(None, "c", &models), Some(2));
    assert_eq!(model_to_restore(None, "a", &vec![m("a", false)]), None);
    assert_eq!(shown_active_id(Some("a".into()), Some("b".into())), "a");
    assert_eq!(shown_active_id(None, Some("b".into())), "b");
    assert_eq!(shown_active_id(None, None), "");
    assert!(refresh_after_download(Some("a"), "a"));
    assert!(!refresh_after_download(None, "a"));
    assert_eq!(unknown_model(ModelFamily::Speech, "x"), "unknown speech model id: x");
}
