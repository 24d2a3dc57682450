use echo_scribe::uninstall::{after_reset, applescript_string, containing_app_bundle, reset_not_started};
use echo_scribe::uninstall::{reset_refused, tcc_reset_services, trash_failure, trash_script};
use echo_scribe::uninstall::{uninstall_data_paths, uninstall_paths, ResetNext, ResetRun, UninstallProblem};

#[test]
fn containing_app_bundle_finds_only_the_echo_scribe_bundle() {
    let installed = "/Applications/Echo Scribe.app/Contents/MacOS/echo-scribe";
    assert_eq!(
        containing_app_bundle(installed),
        Some("/Applications/Echo Scribe.app".to_string())
    );
    assert!(containing_app_bundle("/tmp/Another.app/Contents/MacOS/echo-scribe").is_none());
    assert!(containing_app_bundle("/repo/src-tauri/target/debug/echo-scribe").is_none());
}

#[test]
fn the_bundle_holds_the_executable() {
    for path in [
        "/Applications/Echo Scribe.app/Contents/MacOS/echo-scribe",
        "/a/Echo Scribe.app/b/Echo Scribe.app/x",
        "Echo Scribe.app",
    ] {
        let bundle = containing_app_bundle(path).unwrap();
        let found = std::path::Path::new(path)
            .ancestors()
            .find(|p| p.file_name().and_then(|n| n.to_str()) == Some("Echo Scribe.app"))
            .unwrap();
        assert_eq!(std::path::Path::new(&bundle), found);
    }
}

#[test]
fn uninstall_data_paths_cover_user_data_without_dev_signing_material() {
    let home = "/Users/tester";
    let paths = uninstall_data_paths(home);
    assert!(paths.contains(&format!("{home}/Library/Application Support/EchoScribe")));
    assert!(paths.contains(&format!("{home}/Library/Application Support/com.echoscribe.app")));
    assert!(paths.contains(&format!("{home}/EchoScribe")));
    assert!(!paths.iter().any(|path| path.contains("EchoScribeSigning")));
}

#[test]
fn applescript_string_escapes_quotes_and_backslashes() {
    assert_eq!(
        applescript_string(r#"/Users/a\b/"Echo".app"#),
        r#"/Users/a\\b/\"Echo\".app"#
    );
}

#[test]
fn the_bundle_goes_last() {
    let exe = "/Applications/Echo Scribe.app/Contents/MacOS/echo-scribe";
    let only = uninstall_paths(exe, false, None).unwrap();
    assert_eq!(only, vec!["/Applications/Echo Scribe.app"]);
    let all = uninstall_paths(exe, true, Some("/Users/tester")).unwrap();
    assert_eq!(all.len(), 16);
    assert_eq!(all.last().unwrap(), "/Applications/Echo Scribe.app");
    let e = uninstall_paths(exe, true, None).unwrap_err();
    assert_eq!(e, UninstallProblem::NoHome);
    assert_eq!(e.message(), "could not locate your home folder");
    let e = uninstall_paths("/bin/echo-scribe", true, None).unwrap_err();
    assert_eq!(
        e.message(),
        "Uninstall is only available when Echo Scribe is running from its app bundle."
    );
}

#[test]
fn the_script_names_every_path() {
    let script = trash_script(&vec!["/a b".to_string(), "/q\"".to_string()]);
    assert_eq!(
        script,
        "with timeout of 3600 seconds\ntell application \"Finder\"\n\
         delete POSIX file \"/a b\"\ndelete POSIX file \"/q\\\"\"\nend tell\nend timeout"
    );
    assert_eq!(
        trash_failure("  no access\n"),
        "Finder could not move Echo Scribe to the Trash: no access"
    );
}

#[test]
fn resets_stop_at_the_first_failure() {
    let n = tcc_reset_services().len();
    assert!(n > 1);
    assert_eq!(after_reset(0, n, ResetRun::Reset), ResetNext::Reset(1));
    assert_eq!(after_reset(n - 1, n, ResetRun::Reset), ResetNext::Quit);
    assert_eq!(after_reset(0, n, ResetRun::Refused), ResetNext::Fail);
    assert_eq!(after_reset(0, n, ResetRun::NotStarted), ResetNext::Fail);
    assert_eq!(reset_not_started("Camera", "gone"), "failed to run tccutil for Camera: gone");
    assert_eq!(
        reset_refused("Camera", "exit status: 1", " bad \n"),
        "tccutil reset Camera failed: exit status: 1 (stderr: bad)"
    );
}
