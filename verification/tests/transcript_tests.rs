use duck_summarizer::message::SavedMessage;
use duck_summarizer::transcript::render;

fn said(id: i32, author: Option<&str>, reply_to: Option<i32>, text: &str) -> SavedMessage {
    SavedMessage {
        message_id: id,
        from_user: author.map(|name| name.to_string()),
        reply_to_message_id: reply_to,
        text: text.to_string(),
    }
}

#[test]
fn empty_snapshot_renders_empty() {
    assert_eq!(render(&[]), "");
}

#[test]
fn one_line_per_message_in_order() {
    let snapshot = vec![
        said(1, Some("Alice"), None, "hello"),
        said(2, Some("Bob"), None, "hi there"),
        said(3, Some("Alice"), None, "bye"),
    ];
    assert_eq!(render(&snapshot), "Alice: hello\nBob: hi there\nAlice: bye\n");
}

#[test]
fn reply_names_the_author_found_in_the_snapshot() {
    let snapshot = vec![said(1, Some("Alice"), None, "ping"), said(2, Some("Bob"), Some(1), "pong")];
    assert_eq!(render(&snapshot), "Alice: ping\nBob (replying to Alice): pong\n");
}

#[test]
fn reply_to_a_message_outside_the_snapshot_names_someone() {
    let snapshot = vec![said(2, Some("Bob"), Some(99), "pong")];
    assert_eq!(render(&snapshot), "Bob (replying to someone): pong\n");
}

#[test]
fn reply_to_an_evicted_message_names_someone() {
    let mut store = duck_summarizer::store::MessageStore::with_capacity(1);
    store.add_message(1, None, said(1, Some("Alice"), None, "ping"));
    store.add_message(1, None, said(2, Some("Bob"), Some(1), "pong"));
    let snapshot = store.get_last_n_messages(1, None, 10);
    assert_eq!(render(&snapshot), "Bob (replying to someone): pong\n");
}

#[test]
fn reply_is_resolved_in_the_window_not_in_the_store() {
    let mut store = duck_summarizer::store::MessageStore::with_capacity(10);
    store.add_message(1, None, said(1, Some("Alice"), None, "ping"));
    store.add_message(1, None, said(2, Some("Bob"), Some(1), "pong"));
    let window = store.get_last_n_messages(1, None, 1);
    assert_eq!(render(&window), "Bob (replying to someone): pong\n");
    let both = store.get_last_n_messages(1, None, 2);
    assert_eq!(render(&both), "Alice: ping\nBob (replying to Alice): pong\n");
}

#[test]
fn reply_to_a_later_message_is_resolved_too() {
    let snapshot = vec![said(1, Some("Alice"), Some(2), "a"), said(2, Some("Bob"), None, "b")];
    assert_eq!(render(&snapshot), "Alice (replying to Bob): a\nBob: b\n");
}

#[test]
fn reply_to_oneself() {
    let snapshot = vec![said(1, Some("Alice"), Some(1), "a")];
    assert_eq!(render(&snapshot), "Alice (replying to Alice): a\n");
}

#[test]
fn first_message_with_the_id_is_the_target() {
    let snapshot = vec![
        said(1, Some("Alice"), None, "a"),
        said(1, Some("Mallory"), None, "b"),
        said(2, Some("Bob"), Some(1), "c"),
    ];
    assert_eq!(render(&snapshot), "Alice: a\nMallory: b\nBob (replying to Alice): c\n");
}

#[test]
fn unknown_author_is_labelled_unknown() {
    let snapshot = vec![said(1, None, None, "who am i")];
    assert_eq!(render(&snapshot), "Unknown: who am i\n");
}

#[test]
fn reply_to_a_message_of_unknown_author_names_its_label() {
    let snapshot = vec![said(1, None, None, "a"), said(2, Some("Bob"), Some(1), "b")];
    assert_eq!(render(&snapshot), "Unknown: a\nBob (replying to Unknown): b\n");
}

#[test]
fn newline_is_escaped() {
    let snapshot = vec![said(1, Some("Alice"), None, "line one\nline two")];
    assert_eq!(render(&snapshot), "Alice: line one\\nline two\n");
}

#[test]
fn line_count_equals_message_count() {
    let snapshot = vec![
        said(1, Some("Alice"), None, "\n\n\n"),
        said(2, Some("Bob"), Some(1), "a\nb\nc\n"),
        said(3, None, Some(7), "\n"),
        said(4, Some("Carol"), None, ""),
    ];
    let text = render(&snapshot);
    assert_eq!(text.matches('\n').count(), snapshot.len());
    assert_eq!(text.lines().count(), snapshot.len());
    assert!(text.ends_with('\n'));
    assert_eq!(
        text,
        "Alice: \\n\\n\\n\nBob (replying to Alice): a\\nb\\nc\\n\nUnknown (replying to someone): \\n\nCarol: \n"
    );
}

#[test]
fn only_line_feeds_are_escaped() {
    let snapshot = vec![said(1, Some("Alice"), None, "tab\there\r\\n ünï çödé 🦆")];
    assert_eq!(render(&snapshot), "Alice: tab\there\r\\n ünï çödé 🦆\n");
}

#[test]
fn rendering_twice_gives_the_same_text() {
    let snapshot = vec![
        said(1, Some("Alice"), None, "ping\n"),
        said(2, Some("Bob"), Some(1), "pong"),
        said(3, None, Some(5), "?"),
    ];
    let first = render(&snapshot);
    let second = render(&snapshot);
    assert_eq!(first.as_bytes(), second.as_bytes());
    let copy = snapshot.clone();
    assert_eq!(render(&copy).as_bytes(), first.as_bytes());
}

#[test]
fn rendering_leaves_the_snapshot_as_it_was() {
    let snapshot = vec![said(1, Some("Alice"), None, "a\nb"), said(2, Some("Bob"), Some(1), "c")];
    let before = snapshot.clone();
    let _ = render(&snapshot);
    assert_eq!(snapshot, before);
}
