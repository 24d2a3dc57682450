use echo_scribe::action::{action_json, build_action_system_prompt, formatted_text, launch_app_by_name};
use echo_scribe::action::{plan_action, rejection, retry_prompt, ActionCommand, ActionError, ActionPlan};
use echo_scribe::action::{Classify, FormatTemplate, Round};
use echo_scribe::spoken::{address_of_lowered, command_after_trigger, normalize_spoken_email};
use echo_scribe::spoken::{percent_encode, strip_trigger_prefix};

fn command(kind: &str) -> ActionCommand {
    ActionCommand {
        is_action: true,
        action_type: Some(kind.to_string()),
        app_name: None,
        email_to: None,
        email_subject: None,
        email_body: None,
        url: None,
        format_id: None,
        format_body: None,
    }
}

#[test]
fn spoken_addresses_are_written_out() {
    assert_eq!(normalize_spoken_email("Denis AT Example.com"), "denis@example.com");
    assert_eq!(normalize_spoken_email("d-e-n-i-s at exa-mple.com"), "denis@example.com");
    assert_eq!(normalize_spoken_email("jean-luc at example.com"), "jean-luc@example.com");
    assert_eq!(normalize_spoken_email("a [at] b.c"), "a@b.c");
    assert_eq!(normalize_spoken_email("a (at) b.c"), "a@b.c");
    assert_eq!(normalize_spoken_email("d-e-n-i-s"), "denis");
    assert_eq!(normalize_spoken_email("jean-luc"), "jean-luc");
    assert_eq!(normalize_spoken_email(""), "");
    // Letters are lowered as text, not one by one.
    assert_eq!(normalize_spoken_email("ΟΔΟΣ"), "οδος");
    assert_eq!(address_of_lowered("a b at c d"), "ab@cd");
}

#[test]
fn texts_are_percent_encoded() {
    assert_eq!(percent_encode("a b&c"), "a%20b%26c");
    assert_eq!(percent_encode("é~._-9Z"), "%C3%A9~._-9Z");
    assert_eq!(percent_encode(""), "");
    // Every text is read back, and only plain characters are used.
    for s in ["a b", "100% &é\n", "日本"] {
        let e = percent_encode(s);
        assert!(e.chars().all(|c| c.is_ascii_alphanumeric() || "-._~%".contains(c)), "{e}");
        let mut bytes = Vec::new();
        let mut rest = e.as_str();
        while !rest.is_empty() {
            let n = if rest.starts_with('%') { 3 } else { 1 };
            let byte = if n == 3 {
                u8::from_str_radix(&rest[1..3], 16).unwrap()
            } else {
                rest.as_bytes()[0]
            };
            bytes.push(byte);
            rest = &rest[n..];
        }
        assert_eq!(String::from_utf8(bytes).unwrap(), s);
    }
}

#[test]
fn trigger_words_are_stripped() {
    assert_eq!(strip_trigger_prefix("echo open Slack"), Some("open Slack".to_string()));
    assert_eq!(strip_trigger_prefix("  Echo, open Slack"), Some("open Slack".to_string()));
    assert_eq!(strip_trigger_prefix("ECO"), Some(String::new()));
    assert_eq!(strip_trigger_prefix("hecho: go"), Some("go".to_string()));
    assert_eq!(strip_trigger_prefix("ekko go"), Some("go".to_string()));
    assert_eq!(strip_trigger_prefix("echoes of the past"), None);
    assert_eq!(strip_trigger_prefix("note this"), None);
    assert_eq!(command_after_trigger("Echo GO", "echo go"), Some("GO".to_string()));
}

#[test]
fn trigger_words_are_cut_by_characters() {
    // U+212A is a capital of three bytes whose lower-case form is `k`.
    assert_eq!(strip_trigger_prefix("e\u{212a}\u{212a}o go"), Some("go".to_string()));
    assert_eq!(strip_trigger_prefix("ek\u{212a}o go"), Some("go".to_string()));
    assert_eq!(strip_trigger_prefix("E\u{212a}KO, été"), Some("été".to_string()));
    assert_eq!(strip_trigger_prefix("e\u{212a}\u{212a}o"), Some(String::new()));
    assert_eq!(strip_trigger_prefix("echo . , !"), Some(String::new()));
    // A lower-case form that does not belong to the text leaves nothing behind the cut.
    assert_eq!(command_after_trigger("ab", "echo go"), Some(String::new()));
}

#[test]
fn addresses_are_settled() {
    for raw in [
        "Denis AT Example.com",
        "d-e-n-i-s at exa-mple.com",
        "A [at] B (at) C at D-E",
        "ÉLAN at İzmir.com",
        "ΟΔΟΣ at ΟΔΟΣ",
        "a - b - c",
        "x-y",
        "at at at",
        "",
    ] {
        let r = normalize_spoken_email(raw);
        assert!(!r.contains(char::is_whitespace), "{r}");
        assert_eq!(r, r.to_lowercase());
        let (name, domain) = r.split_once('@').unwrap_or((&r, ""));
        assert!(name.matches('-').count() <= 1, "{r}");
        assert!(!domain.contains('-'), "{r}");
        assert_eq!(normalize_spoken_email(&r), r);
    }
}

#[test]
fn texts_are_encoded_in_turn() {
    for (a, b) in [("a b", "c&d"), ("", "é"), ("100%", "25"), ("日", "本")] {
        let joined = format!("{a}{b}");
        assert_eq!(percent_encode(&joined), percent_encode(a) + &percent_encode(b));
    }
}

#[test]
fn the_json_of_an_answer_is_cut_out() {
    assert_eq!(action_json("sure: {\"a\":1} done").unwrap(), "{\"a\":1}");
    assert_eq!(action_json("none").unwrap_err(), "no '{' in output");
    assert_eq!(action_json("{").unwrap_err(), "no '}' in output");
    assert_eq!(action_json("é} {").unwrap_err(), "malformed braces: start=4 end=2");
}

#[test]
fn prompts_list_the_templates() {
    let none = build_action_system_prompt(&vec![]);
    assert!(none.starts_with("You are Echo Scribe's system action classifier.\n"));
    assert!(none.contains(
        "\n\nAvailable format templates: (none configured — do not classify as format_text)\nRules:\n"
    ));
    let t = FormatTemplate {
        id: "email".into(),
        name: "E-mail".into(),
        trigger_phrases: vec!["format as email".into(), "a \"quoted\" one".into()],
        system_prompt: String::new(),
    };
    let some = build_action_system_prompt(&vec![t]);
    assert!(some.contains(
        "\n\nAvailable format templates:\n- id='email' name='E-mail' \
         trigger_phrases=[\"format as email\", \"a \\\"quoted\\\" one\"]\nRules:\n"
    ));
    assert!(some.ends_with("No surrounding markdown, no backticks, no prose."));
}

#[test]
fn an_answer_gets_a_second_chance() {
    assert_eq!(Classify::Ask.advance(Round::Read), Classify::Accept);
    assert_eq!(Classify::Ask.advance(Round::Unreadable), Classify::AskAgain);
    assert_eq!(Classify::Ask.advance(Round::NoAnswer), Classify::GiveUp);
    assert_eq!(Classify::AskAgain.advance(Round::Read), Classify::Accept);
    assert_eq!(Classify::AskAgain.advance(Round::Unreadable), Classify::Reject);
    assert_eq!(
        retry_prompt("open it", "bad"),
        "open it\n\n(Your previous response failed to parse: bad. \
         Respond ONLY with a single JSON object matching the action schema. \
         No prose, no code fences.)"
    );
    assert_eq!(rejection("a", "b").message(), "json parsing failed: primary: a; retry: b");
    assert_eq!(formatted_text("  Hi\n"), "Hi");
}

#[test]
fn actions_are_planned() {
    let mut c = command("launch_app");
    assert_eq!(
        plan_action(&c).unwrap_err().message(),
        "execution failed: launch_app missing app_name"
    );
    c.app_name = Some("Slack".into());
    let plan = plan_action(&c).unwrap();
    assert!(plan.counts());
    assert_eq!(plan.done_message(3), "Launched application 'Slack'");

    let mut c = command("draft_email");
    c.email_to = Some("denis at example.com".into());
    c.email_subject = Some("a b".into());
    c.email_body = Some("c&d".into());
    match plan_action(&c).unwrap() {
        ActionPlan::DraftEmail { url, done } => {
            assert_eq!(url, "mailto:denis@example.com?subject=a%20b&body=c%26d");
            assert_eq!(done, "Drafted email to 'denis@example.com' with subject 'a b'");
        }
        other => panic!("{other:?}"),
    }
    match plan_action(&command("draft_email")).unwrap() {
        ActionPlan::DraftEmail { url, done } => {
            assert_eq!(url, "mailto:?subject=&body=");
            assert_eq!(done, "Drafted email to 'default recipient' with subject 'no subject'");
        }
        other => panic!("{other:?}"),
    }

    let mut c = command("open_url");
    assert_eq!(
        plan_action(&c).unwrap_err().message(),
        "execution failed: open_url missing url parameter"
    );
    c.url = Some("github.com".into());
    let plan = plan_action(&c).unwrap();
    assert_eq!(plan.done_message(0), "Opened URL 'https://github.com'");
    assert_eq!(
        plan.failure("gone").message(),
        "execution failed: Failed to open URL 'https://github.com': gone"
    );
    c.url = Some("http://x".into());
    assert_eq!(plan_action(&c).unwrap().done_message(0), "Opened URL 'http://x'");

    let plan = plan_action(&command("increment_counter")).unwrap();
    assert_eq!(plan.done_message(4), "Incremented action counter. Current count: 4");
    let plan = plan_action(&command("reset_counter")).unwrap();
    assert_eq!(plan.done_message(0), "Action counter has been reset to 0");
    let plan = plan_action(&command("show_counter")).unwrap();
    assert_eq!(plan.done_message(12), "The current action counter value is 12");
    assert_eq!(
        plan_action(&command("dance")).unwrap_err().message(),
        "execution failed: Unsupported or unrecognized action type: 'dance'"
    );
    let none = ActionCommand { action_type: None, ..command("") };
    assert_eq!(
        plan_action(&none).unwrap_err().message(),
        "execution failed: Unsupported or unrecognized action type: ''"
    );
}

#[test]
fn errors_say_what_failed() {
    assert_eq!(ActionError::Llm("x".into()).message(), "llm error: x");
    assert_eq!(ActionError::Settings("x".into()).message(), "settings error: x");
    assert_eq!(
        launch_app_by_name("Slack").unwrap_err().message(),
        "execution failed: Launching applications by name isn't supported on this platform \
         (wanted 'Slack')."
    );
}
