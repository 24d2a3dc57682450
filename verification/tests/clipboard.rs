use echo_scribe::clipboard::{join_selection, restore_delay_ms, restore_wait};
use echo_scribe::clipboard::selection_from_clipboard_delta;
use echo_scribe::clipboard::{selection_from_sentinel, text_to_restore, Paste, PasteEnd, PasteError};
use echo_scribe::clipboard::{PasteStep, Probe, ProbeStep, COPY_SENTINEL, RESTORE_DELAY_MAX_MS};

#[test]
fn sentinel_intact_means_nothing_was_copied() {
    assert_eq!(selection_from_sentinel(Some(COPY_SENTINEL)), None);
}

#[test]
fn sentinel_replaced_means_real_selection() {
    assert_eq!(
        selection_from_sentinel(Some("the highlighted sentence")),
        Some("the highlighted sentence".to_string())
    );
}

#[test]
fn sentinel_unreadable_or_empty_is_not_a_selection() {
    assert_eq!(selection_from_sentinel(None), None);
    assert_eq!(selection_from_sentinel(Some("")), None);
}

#[test]
fn clipboard_delta_is_unsound_without_a_known_before() {
    assert_eq!(
        selection_from_clipboard_delta(None, Some("https://github.com/")),
        Some("https://github.com/".to_string()),
        "documents the unsoundness that motivated the sentinel probe"
    );
}

#[test]
fn paste_error_display_messages() {
    let e = PasteError::Clipboard("test".into());
    assert!(e.message().contains("clipboard"));

    let e = PasteError::Keystroke("test".into());
    assert!(e.message().contains("keystroke"));

    let e = PasteError::Init("test".into());
    assert!(e.message().contains("enigo"));
}

#[test]
fn paste_error_init_display() {
    let e = PasteError::Init("bad driver".into());
    assert_eq!(e.message(), "failed to initialize enigo: bad driver");
}

#[test]
fn restore_delay_is_reasonable() {
    let short = restore_delay_ms(50);
    assert!(short >= 200, "base delay too low: {short}");
    assert!(short <= 500, "base delay too high: {short}");

    let long = restore_delay_ms(5000);
    assert!(long > short, "long text should have longer delay");
    assert!(long <= RESTORE_DELAY_MAX_MS, "delay must not exceed cap: {long}");

    assert_eq!(restore_delay_ms(usize::MAX), RESTORE_DELAY_MAX_MS);
}

#[test]
fn clipboard_delta_detects_new_selection() {
    assert_eq!(
        selection_from_clipboard_delta(Some("old"), Some("selected text")),
        Some("selected text".to_string())
    );
    assert_eq!(selection_from_clipboard_delta(Some("old"), Some("old")), None);
    assert_eq!(selection_from_clipboard_delta(Some("old"), Some("")), None);
    assert_eq!(selection_from_clipboard_delta(None, Some("x")), Some("x".to_string()));
}

#[test]
fn a_paste_puts_the_old_text_back() {
    let mut p = Paste::start(&"x".repeat(400));
    let mut steps = Vec::new();
    for _ in 0..5 {
        steps.push(p.step);
        p = p.advance(true);
    }
    assert_eq!(
        steps,
        vec![
            PasteStep::OpenClipboard,
            PasteStep::ReadOld,
            PasteStep::WriteText,
            PasteStep::PressPaste,
            PasteStep::Restore { wait_ms: 400 },
        ]
    );
    assert_eq!(p.step, PasteStep::Finished(PasteEnd::Pasted));
    assert_eq!(Paste::start("").advance(false).step, PasteStep::Finished(PasteEnd::ClipboardFailed));
}

#[test]
fn a_failed_restore_fails_no_paste() {
    let mut p = Paste::start("x");
    while !matches!(p.step, PasteStep::Restore { .. }) {
        p = p.advance(true);
    }
    assert_eq!(p.advance(false).step, PasteStep::Finished(PasteEnd::Pasted));
    // Without an old text there is nothing to wait for.
    let pressed = Paste::start("x").advance(true).advance(false).advance(true);
    assert_eq!(pressed.advance(true).step, PasteStep::Finished(PasteEnd::Pasted));
    assert_eq!(pressed.advance(false).step, PasteStep::Finished(PasteEnd::KeystrokeFailed));
}

#[test]
fn the_wait_goes_by_the_bytes_of_the_text() {
    assert_eq!(restore_wait(""), 300);
    assert_eq!(restore_wait(&"x".repeat(130)), 310);
    // Two bytes each.
    assert_eq!(restore_wait(&"é".repeat(130)), 353);
    assert_eq!(restore_wait(&"é".repeat(130)), restore_delay_ms("é".repeat(130).len()));
    assert_eq!(restore_wait(&"x".repeat(9000)), RESTORE_DELAY_MAX_MS);
}

#[test]
fn a_probe_clears_its_sentinel() {
    let mut p = Probe::start();
    let mut restored = false;
    for _ in 0..6 {
        restored = restored || matches!(p.step, ProbeStep::Restore { .. });
        p = p.advance(true);
    }
    assert!(restored);
    assert_eq!(p.step, ProbeStep::Finished { found: true });
    assert_eq!(text_to_restore(Some("old")), "old");
    assert_eq!(text_to_restore(None), "");
}

#[test]
fn delays_grow_with_the_text() {
    assert_eq!(restore_delay_ms(0), 300);
    assert_eq!(restore_delay_ms(100), 300);
    assert_eq!(restore_delay_ms(103), 301);
    assert_eq!(restore_delay_ms(400), 400);
    assert_eq!(restore_delay_ms(3700), 1500);
    assert!((0..5000usize).all(|n| restore_delay_ms(n) <= restore_delay_ms(n + 1)));
}

#[test]
fn selections_are_joined() {
    let parts = |v: &[&str]| v.iter().map(|s| s.to_string()).collect::<Vec<String>>();
    assert_eq!(join_selection(&parts(&["a", "", "b"])), Some("a\nb".to_string()));
    assert_eq!(join_selection(&parts(&[" ", "\t"])), None);
    assert_eq!(join_selection(&vec![]), None);
    assert_eq!(join_selection(&vec!["a".to_string()]), Some("a".to_string()));
}
