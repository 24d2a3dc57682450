use echo_scribe::sessions::{is_project_of, list_claude_sessions, load_claude_session, SessionFile};
use echo_scribe::sessions::{session_file_name, session_id_of, sessions_dir_for};
use echo_scribe::sessions::{sort_newest_first, summarize_session, ClaudeSessionSummary};

#[test]
fn sessions_are_found_by_their_folder() {
    assert_eq!(
        sessions_dir_for("/home/u/.tool", "/home/u/work"),
        "/home/u/.tool/projects/-home-u-work/.sessions"
    );
    assert_eq!(session_id_of("/s/abc.jsonl"), Some("abc".to_string()));
    assert_eq!(session_id_of("/s/abc.json"), None);
    assert_eq!(session_id_of("/s/.jsonl"), None);
    assert_eq!(session_file_name("abc"), "abc.jsonl");
}

const SESSION: &str = r#"{"role":"system","timestamp":"2024-01-02","content":"x"}
not json
{"role":"user","content":[{"type":"text","text":"one"},{"type":"image"},{"type":"text","text":"two"}]}
{"content":"three"}
{"role":"assistant","content":[]}
"#;

#[test]
fn messages_with_text_are_read() {
    let m = load_claude_session(SESSION);
    let seen: Vec<(&str, &str, &str)> =
        m.iter().map(|m| (m.role.as_str(), m.content.as_str(), m.timestamp.as_str())).collect();
    assert_eq!(
        seen,
        vec![("system", "x", "2024-01-02"), ("user", "one\ntwo", ""), ("unknown", "three", "")]
    );
    assert!(load_claude_session("").is_empty());
}

#[test]
fn sessions_are_summarized() {
    let s = summarize_session("abc".into(), SESSION).unwrap();
    assert_eq!(s.session_id, "abc");
    assert_eq!(s.preview, "one two");
    assert_eq!(s.message_count, 5);
    assert_eq!(s.timestamp, "2024-01-02");
    assert!(summarize_session("abc".into(), "").is_none());
    let long = format!(r#"{{"role":"human","content":"{}"}}"#, "é".repeat(150));
    assert_eq!(summarize_session("a".into(), &long).unwrap().preview, "é".repeat(100));
}

#[test]
fn the_newest_session_comes_first() {
    let s = |id: &str, t: &str| ClaudeSessionSummary {
        session_id: id.into(),
        preview: String::new(),
        message_count: 1,
        timestamp: t.into(),
    };
    let sorted = sort_newest_first(vec![s("a", "1"), s("b", "3"), s("c", "1"), s("d", "2")]);
    let ids: Vec<&str> = sorted.iter().map(|x| x.session_id.as_str()).collect();
    assert_eq!(ids, vec!["b", "d", "a", "c"]);
}

#[test]
fn sessions_are_listed_from_their_files() {
    let file = |name: &str, content: Option<&str>| SessionFile {
        name: name.to_string(),
        content: content.map(str::to_string),
    };
    let files = vec![
        file("old.jsonl", Some(r#"{"role":"user","timestamp":"2024-01-01","content":"first"}"#)),
        file("notes.txt", Some(r#"{"timestamp":"2025-01-01"}"#)),
        file("new.jsonl", Some(SESSION)),
        file("unreadable.jsonl", None),
        file("empty.jsonl", Some("")),
        file(".jsonl", Some("x")),
        file("also-old.jsonl", Some(r#"{"timestamp":"2024-01-01"}"#)),
        file("broken.jsonl", Some("not json")),
    ];
    let listed = list_claude_sessions(&files);
    let seen: Vec<(&str, &str, usize, &str)> = listed
        .iter()
        .map(|s| (s.session_id.as_str(), s.preview.as_str(), s.message_count, s.timestamp.as_str()))
        .collect();
    assert_eq!(
        seen,
        vec![
            ("new", "one two", 5, "2024-01-02"),
            ("old", "first", 1, "2024-01-01"),
            ("also-old", "", 1, "2024-01-01"),
            ("broken", "", 1, ""),
        ]
    );
    assert!(list_claude_sessions(&vec![]).is_empty());
}

#[test]
fn projects_are_told_by_their_folder() {
    assert!(is_project_of("-home-u-my-work", "/home/u/my.work"));
    assert!(is_project_of("-home-u-my-work", "/home/u/my_work"));
    assert!(!is_project_of("-home-u-other", "/home/u/my.work"));
    assert!(!is_project_of("-home-u-work", "/home/u/Work"));
}
