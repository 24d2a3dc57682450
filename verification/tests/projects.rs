use echo_scribe::activity::{activity_file_name, activity_format, export_label, export_outcome};
use echo_scribe::activity::{project_name_of, projects_to_resolve, ActivityFormat, ActivityItem};
use echo_scribe::activity::{ProjectName, EXPORT_FRIENDLY_ERR};
use echo_scribe::items::{backfill_source, clamp_limit, kind_change, required_kind, update_notes};
use echo_scribe::items::{ItemKind, ItemSource, UpdateItemArgs};
use echo_scribe::projects::{create_project, normalize_keywords, normalize_patch, normalize_string_list};
use echo_scribe::projects::{project_with_id, rename_patch, sorted_words, CreateProjectInput};
use echo_scribe::projects::{ProjectPatch, ProjectProblem};

fn strings(v: &[&str]) -> Vec<String> {
    v.iter().map(|s| s.to_string()).collect()
}

fn input(name: &str) -> CreateProjectInput {
    CreateProjectInput {
        name: name.into(),
        description: Some("  ".into()),
        keywords: Some(strings(&["B", " a ", "b", ""])),
        routing_aliases: None,
        routing_app_hints: Some(strings(&["Slack", "slack"])),
        routing_url_hints: None,
        routing_window_hints: None,
        routing_positive_examples: None,
        routing_negative_examples: None,
        color: Some(" red ".into()),
        emoji: None,
    }
}

#[test]
fn word_lists_are_sorted_and_without_repeats() {
    let raw = strings(&[" Beta", "alpha", "beta ", "", "  ", "alpha"]);
    assert_eq!(normalize_keywords(raw), vec!["alpha", "beta"]);
    let raw = strings(&["b", "B", "a", "É"]);
    assert_eq!(normalize_string_list(raw, false), vec!["B", "a", "b", "É"]);
    assert_eq!(normalize_string_list(strings(&["É"]), true), vec!["é"]);
    let once = normalize_keywords(strings(&["z", "y", "z"]));
    assert_eq!(normalize_keywords(once.clone()), once);
    assert_eq!(sorted_words(strings(&["é", "z", "a"])), vec!["a", "z", "é"]);
}

#[test]
fn projects_are_cleaned() {
    let p = project_with_id(input("  Work "), "id1".into(), "now").unwrap();
    assert_eq!(p.id, "id1");
    assert_eq!(p.name, "Work");
    assert_eq!(p.description, None);
    assert_eq!(p.keywords, vec!["a", "b"]);
    assert_eq!(p.routing_app_hints, vec!["Slack", "slack"]);
    assert_eq!(p.color, Some("red".to_string()));
    assert_eq!(p.created_at, "now");
    assert_eq!(p.updated_at, Some("now".to_string()));
    assert_eq!(p.archived_at, None);
    let e = project_with_id(input("   "), "id1".into(), "now").unwrap_err();
    assert_eq!(e, ProjectProblem::EmptyName);
    assert_eq!(e.message(), "Project name cannot be empty.");
}

#[test]
fn new_projects_get_an_id() {
    let a = create_project(input("Work"), "now").unwrap();
    assert_eq!(a.id.len(), 26);
    let alphabet = "0123456789ABCDEFGHJKMNPQRSTVWXYZ";
    assert!(a.id.chars().all(|c| alphabet.contains(c)), "{}", a.id);
    let b = create_project(input("Work"), "now").unwrap();
    assert_ne!(a.id, b.id);
    assert!(create_project(input(""), "now").is_err());
}

#[test]
fn patches_keep_what_they_do_not_name() {
    let p = normalize_patch(rename_patch("  New ".into())).unwrap();
    assert_eq!(p.name, Some("New".to_string()));
    assert!(p.description.is_none() && p.keywords.is_none());
    let p = normalize_patch(ProjectPatch {
        name: None,
        description: Some(Some("  ".into())),
        keywords: Some(strings(&["B", "a"])),
        color: Some(None),
        emoji: Some(Some(" x ".into())),
        routing_aliases: None,
        routing_app_hints: Some(strings(&["B", "a"])),
        routing_url_hints: None,
        routing_window_hints: None,
        routing_positive_examples: None,
        routing_negative_examples: None,
    })
    .unwrap();
    assert_eq!(p.name, None);
    assert_eq!(p.description, Some(None));
    assert_eq!(p.keywords, Some(strings(&["a", "b"])));
    assert_eq!(p.color, Some(None));
    assert_eq!(p.emoji, Some(Some("x".to_string())));
    assert_eq!(p.routing_app_hints, Some(strings(&["B", "a"])));
    assert!(normalize_patch(rename_patch(" ".into())).is_err());
}

#[test]
fn list_lengths_are_bounded() {
    assert_eq!(clamp_limit(None), 50);
    assert_eq!(clamp_limit(Some(0)), 1);
    assert_eq!(clamp_limit(Some(7)), 7);
    assert_eq!(clamp_limit(Some(501)), 500);
}

#[test]
fn kinds_and_sources_are_read() {
    assert_eq!(ItemKind::parse("note"), Some(ItemKind::Note));
    assert_eq!(ItemKind::parse("Note"), None);
    assert_eq!(ItemKind::Task.as_str(), "task");
    assert_eq!(required_kind("x").unwrap_err(), "invalid kind: x");
    assert_eq!(backfill_source(None).unwrap(), ItemSource::VoiceAtCursor);
    assert_eq!(backfill_source(Some("log_capture")).unwrap(), ItemSource::LogCapture);
    assert_eq!(backfill_source(Some("meeting")).unwrap(), ItemSource::Meeting);
    assert_eq!(backfill_source(Some("x")).unwrap_err(), "invalid source: x");
}

#[test]
fn changes_of_an_item_are_noted() {
    let mut args = UpdateItemArgs {
        id: "i".into(),
        content: None,
        project_id: None,
        kind: None,
        tags: None,
    };
    assert!(update_notes(&args).is_empty());
    assert_eq!(kind_change(&args).unwrap(), None);
    args.content = Some("c".into());
    args.kind = Some("task".into());
    args.project_id = Some(Some("p".into()));
    args.tags = Some(vec![]);
    let notes = update_notes(&args);
    let seen: Vec<(&str, Option<&str>)> =
        notes.iter().map(|n| (n.event.as_str(), n.detail.as_deref())).collect();
    assert_eq!(
        seen,
        vec![
            ("content_edited", None),
            ("kind_changed", Some("kind set to task")),
            ("project_changed", Some("assigned to project p")),
            ("tags_changed", None),
        ]
    );
    assert_eq!(kind_change(&args).unwrap(), Some(Some(ItemKind::Task)));
    args.kind = Some(String::new());
    args.project_id = Some(None);
    assert_eq!(kind_change(&args).unwrap(), Some(None));
    let notes = update_notes(&args);
    assert_eq!(notes[1].detail.as_deref(), Some("kind cleared"));
    assert_eq!(notes[2].detail.as_deref(), Some("removed from project"));
    args.kind = Some("x".into());
    assert_eq!(kind_change(&args).unwrap_err(), "invalid kind: x");
}

#[test]
fn activity_is_exported_under_its_time() {
    assert_eq!(activity_format("markdown").unwrap(), ActivityFormat::Markdown);
    assert_eq!(activity_format("csv").unwrap(), ActivityFormat::Csv);
    assert_eq!(activity_format("pdf").unwrap_err(), EXPORT_FRIENDLY_ERR);
    assert_eq!(
        activity_file_name("2026-06-11T18:04:21Z", ActivityFormat::Markdown),
        "echo-scribe-activity-2026-06-11-1804.md"
    );
    assert_eq!(
        activity_file_name("", ActivityFormat::Csv),
        "echo-scribe-activity-0000-00-00-0000.csv"
    );
    assert_eq!(export_label(None), "All time");
    assert_eq!(export_label(Some("Week".into())), "Week");
    let o = export_outcome("/d/x.md".into(), 3);
    assert_eq!((o.path.as_str(), o.count), ("/d/x.md", 3));
}

#[test]
fn each_project_is_looked_up_once() {
    let item = |p: Option<&str>, source, kind| ActivityItem {
        project_id: p.map(|s| s.to_string()),
        source,
        kind,
    };
    let items = vec![
        item(Some("p"), ItemSource::LogCapture, Some(ItemKind::Note)),
        item(None, ItemSource::Meeting, None),
        item(Some("q"), ItemSource::Meeting, Some(ItemKind::Task)),
        item(Some("p"), ItemSource::LogCapture, None),
    ];
    assert_eq!(projects_to_resolve(&items), vec!["p", "q"]);
    let names = vec![ProjectName { id: "p".into(), name: "Work".into() }];
    assert_eq!(project_name_of(&items[0], &names), Some("Work".to_string()));
    assert_eq!(project_name_of(&items[1], &names), None);
    assert_eq!(project_name_of(&items[2], &names), None);
    let meetings: Vec<bool> = items.iter().map(|i| i.wants_meeting()).collect();
    assert_eq!(meetings, vec![false, true, false, false]);
}
