use echo_scribe::chat::{auto_name, build_rag_query, chat_system_prompt, chunk_budget, context_sources};
use echo_scribe::chat::{earlier_messages, item_day, linked_items, needs_name, query_from};
use echo_scribe::chat::{reply_without_model, ChatEntry, ChatMessage, ContextChunk, Turn, TurnEnd};
use echo_scribe::chat::{passage_source, FoundItem, TurnStep};
use echo_scribe::items::ItemKind;

#[test]
fn build_rag_query_extracts_long_words() {
    let q = build_rag_query("what did I say about the project meeting yesterday");
    assert!(
        q.contains("\"about\"")
            || q.contains("\"project\"")
            || q.contains("\"meeting\"")
            || q.contains("\"yesterday\"")
    );
    assert!(!q.contains("\"did\""));
    assert!(!q.contains("\"the\""));
}

#[test]
fn build_rag_query_returns_empty_for_short_message() {
    assert_eq!(build_rag_query("hi"), "");
    assert_eq!(build_rag_query("ok go"), "");
}

#[test]
fn keywords_are_counted_in_characters() {
    // Three characters, whatever bytes they take.
    assert_eq!(build_rag_query("été"), "");
    assert_eq!(build_rag_query("日本語"), "");
    assert_eq!(build_rag_query("étés été"), "\"étés\"");
    // A word may be long enough only with its punctuation.
    assert_eq!(build_rag_query("\"été\""), "");
    assert_eq!(build_rag_query("one1 two2 three four five5 six66 seven").matches('"').count(), 12);
}

#[test]
fn build_rag_query_strips_punctuation() {
    let q = build_rag_query("meeting! project?");
    assert!(q.contains("\"meeting\""));
    assert!(q.contains("\"project\""));
}

#[test]
fn queries_quote_words_that_are_letters_in_any_script() {
    let q = build_rag_query("Überblick: (straße)");
    assert!(q.contains("\"straße\""), "{q}");
    assert!(!q.contains('('), "{q}");
    assert_eq!(query_from(&vec![], &vec![]), "");
}

#[test]
fn chats_are_named_once() {
    let list = vec![
        ChatEntry { id: "a".into(), name: "New Chat".into() },
        ChatEntry { id: "b".into(), name: "Plans".into() },
    ];
    assert!(needs_name(&list, "a"));
    assert!(!needs_name(&list, "b"));
    assert!(!needs_name(&list, "c"));
    assert_eq!(auto_name("hello"), "hello");
    assert_eq!(auto_name(&"é".repeat(60)), "é".repeat(50));
}

#[test]
fn notes_get_what_the_history_leaves() {
    assert_eq!(chunk_budget(1000, &vec![100, 200], 300), 700);
    assert_eq!(chunk_budget(1000, &vec![900], 300), 300);
    assert_eq!(chunk_budget(1000, &vec![2000], 300), 300);
}

#[test]
fn the_question_is_no_history() {
    let m = |c: &str| ChatMessage { role: "user".into(), content: c.into() };
    let earlier = earlier_messages(vec![m("one"), m("two")]);
    assert_eq!(earlier.len(), 1);
    assert_eq!(earlier[0].content, "one");
    assert!(earlier_messages(vec![]).is_empty());
}

fn chunk(id: &str, content: &str) -> ContextChunk {
    ContextChunk {
        item_id: id.into(),
        date: "2024-05-21".into(),
        kind: "note".into(),
        content: content.into(),
    }
}

#[test]
fn one_source_for_each_item() {
    let chunks = vec![chunk("a", "x"), chunk("b", "y"), chunk("a", "z")];
    assert_eq!(linked_items(&chunks), vec!["a", "b"]);
    let sources = context_sources(&chunks);
    assert_eq!(sources.len(), 2);
    assert_eq!(sources[0].content, "x\n…\nz");
    assert_eq!(sources[1].content, "y");
    assert_eq!(sources[0].date, "2024-05-21");
}

#[test]
fn prompts_carry_the_notes() {
    let p = chat_system_prompt(&vec![chunk("a", "x"), chunk("b", "y")], "2024-05-22", false);
    assert_eq!(
        p,
        "You are a helpful assistant built into Echo Scribe. \
         Today is 2024-05-22. \
         Here are the user's relevant notes and captures:\n\n---\n\
         [2024-05-21] (note): x\n[2024-05-21] (note): y\n---\n\n\
         Answer based only on these notes. \
         Do not invent or add content beyond what is shown above. \
         If the notes don't address the question, say so explicitly."
    );
    let none = chat_system_prompt(&vec![], "2024-05-22", false);
    assert_eq!(
        none,
        "You are a helpful assistant built into Echo Scribe, a voice note and task capture app. \
         Today is 2024-05-22. \
         No relevant notes were found for this question. \
         Do not invent or fabricate any captures or activities. \
         If the user is asking what they did or said, tell them no matching captures were found."
    );
    let dated = chat_system_prompt(&vec![], "2024-05-22", true);
    assert!(dated.contains(
        "No captures were found for the requested time period — do not guess or invent content."
    ));
}

#[test]
fn days_are_the_first_ten_bytes() {
    assert_eq!(item_day("2024-05-21T10:00:00Z"), Some("2024-05-21".to_string()));
    assert_eq!(item_day("2024"), Some("2024".to_string()));
    // A cut within a character is no day.
    assert_eq!(item_day("2024-05-2é"), None);
}

#[test]
fn passages_come_with_their_day_and_kind() {
    let item = |kind: Option<ItemKind>, at: &str| FoundItem {
        id: "i1".into(),
        kind,
        captured_at: at.into(),
        content: "text".into(),
    };
    let s = passage_source(item(Some(ItemKind::Task), "2024-05-21T10:00:00Z")).unwrap();
    assert_eq!(
        (s.item_id.as_str(), s.date.as_str(), s.kind.as_str(), s.content.as_str()),
        ("i1", "2024-05-21", "task", "text")
    );
    let s = passage_source(item(None, "2024")).unwrap();
    assert_eq!((s.date.as_str(), s.kind.as_str()), ("2024", "note"));
    assert!(passage_source(item(None, "2024-05-2é")).is_none());
}

#[test]
fn without_a_model_the_user_is_told() {
    let r = reply_without_model();
    assert_eq!(
        r.reply,
        "No local AI model is loaded. Please download one in Settings → AI Model."
    );
    assert!(r.sources.is_empty());
}

fn turned(unnamed: bool, searchable: bool, answer: fn(TurnStep) -> bool) -> (TurnEnd, Vec<TurnStep>) {
    let mut t = Turn::start(searchable);
    let mut steps = Vec::new();
    for _ in 0..9 {
        if let TurnStep::Finished(e) = t.step {
            return (e, steps);
        }
        steps.push(t.step);
        let ok = if t.step == TurnStep::CheckName { unnamed } else { answer(t.step) };
        t = t.advance(ok);
    }
    panic!("not finished")
}

#[test]
fn a_turn_answers_and_names() {
    let (end, steps) = turned(true, true, |_| true);
    assert_eq!(end, TurnEnd::Answered);
    assert!(steps.contains(&TurnStep::Rename) && steps.contains(&TurnStep::Search));
    let (end, steps) = turned(false, false, |_| true);
    assert_eq!(end, TurnEnd::Answered);
    assert!(!steps.contains(&TurnStep::Rename) && !steps.contains(&TurnStep::Search));
    // Nothing is looked up or stored before there is a model.
    let (end, steps) = turned(true, true, |s| s != TurnStep::CheckModel);
    assert_eq!((end, steps), (TurnEnd::NoModel, vec![TurnStep::CheckModel]));
    assert_eq!(turned(true, true, |s| s != TurnStep::Generate).0, TurnEnd::Failed);
    // A search or a name that fails does not fail the turn.
    assert_eq!(turned(true, true, |s| s != TurnStep::Search).0, TurnEnd::Answered);
    assert_eq!(turned(true, true, |s| s != TurnStep::Rename).0, TurnEnd::Answered);
}
