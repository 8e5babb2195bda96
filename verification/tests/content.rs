use synx::content::{extract_text_content, Content, ContentKind};
use synx::error::DatabaseError;
use synx::message::{CreateMessage, Message, UpdateMessage};
use synx::thread::Thread;
use synx::embedding::Embedding;
use synx::id::new_id;
use synx::clock::{now_millis, now_seconds, seconds_of_millis};

fn text(value: &str) -> ContentKind {
    ContentKind::Text { text: value.to_string() }
}

fn image(value: &str) -> ContentKind {
    ContentKind::Image { image: value.to_string(), mime_type: Some("image/png".to_string()) }
}

#[test]
fn single_text_carries_its_text() {
    let content = Content::Single(text("hello"));
    assert_eq!(extract_text_content(&content), Some("hello".to_string()));
    assert_eq!(content.to_string(), "hello");
}

#[test]
fn single_image_carries_no_text() {
    let content = Content::Single(image("https://example.org/a.png"));
    assert_eq!(extract_text_content(&content), None);
    assert_eq!(content.to_string(), "https://example.org/a.png");
}

#[test]
fn list_joins_its_texts_with_newlines() {
    let content = Content::Multiple(vec![text("a"), image("pic"), text("b"), text("c")]);
    assert_eq!(extract_text_content(&content), Some("a\nb\nc".to_string()));
    assert_eq!(content.to_string(), "a\npic\nb\nc");
}

#[test]
fn list_without_text_carries_none() {
    assert_eq!(extract_text_content(&Content::Multiple(vec![])), None);
    assert_eq!(extract_text_content(&Content::Multiple(vec![image("p"), image("q")])), None);
    assert_eq!(Content::Multiple(vec![]).to_string(), "");
    assert_eq!(Content::Multiple(vec![image("p"), image("q")]).to_string(), "p\nq");
}

#[test]
fn list_with_an_empty_text_carries_it() {
    assert_eq!(
        extract_text_content(&Content::Multiple(vec![text("")])),
        Some(String::new())
    );
    assert_eq!(
        extract_text_content(&Content::Multiple(vec![text(""), text("x")])),
        Some("\nx".to_string())
    );
}

#[test]
fn content_is_made_from_strings() {
    assert_eq!(Content::from("hi".to_string()), Content::Single(text("hi")));
    assert_eq!(
        Content::from(vec!["a".to_string(), "b".to_string()]),
        Content::Multiple(vec![text("a"), text("b")])
    );
    assert_eq!(Content::from_text("hi".to_string()), Content::Single(text("hi")));
    assert_eq!(Content::from_texts(vec![]), Content::Multiple(vec![]));
    assert_eq!(Content::from_kind(image("p")), Content::Single(image("p")));
    assert_eq!(Content::from_kinds(vec![text("t")]), Content::Multiple(vec![text("t")]));
    assert_eq!(ContentKind::text("t".to_string()), text("t"));
    assert_eq!(
        ContentKind::image("p".to_string(), None),
        ContentKind::Image { image: "p".to_string(), mime_type: None }
    );
    assert_eq!(image("p").shown(), "p");
}

#[test]
fn clones_are_equal() {
    let content = Content::Multiple(vec![text("a"), image("pic")]);
    assert_eq!(content.clone(), content);
    let single = Content::Single(image("pic"));
    assert_eq!(single.clone(), single);
}

#[test]
fn error_messages() {
    assert_eq!(DatabaseError::NotFound.message(), "Item not found");
    assert_eq!(
        DatabaseError::ConnectionError("down".to_string()).message(),
        "Connection error: down"
    );
    assert_eq!(DatabaseError::QueryError("q".to_string()).message(), "Query error: q");
    assert_eq!(
        DatabaseError::SerializationError("s".to_string()).message(),
        "Serialization error: s"
    );
    assert_eq!(
        DatabaseError::OperationFailed("w".to_string()).message(),
        "Database operation failed: w"
    );
    assert_eq!(DatabaseError::InvalidInput("i".to_string()).message(), "Invalid input: i");
    assert_eq!(DatabaseError::InternalError("x".to_string()).message(), "Internal error: x");
    assert!(DatabaseError::NotFound.is_not_found());
    assert!(!DatabaseError::QueryError(String::new()).is_not_found());
}

#[test]
fn new_thread_has_nothing_set() {
    let thread = Thread::new();
    assert_eq!(thread.title, None);
    assert_eq!(thread.summary, None);
    assert_eq!(thread.embedding, None);
    assert_eq!(thread.id(), thread.id);
    assert_eq!(Thread::with_id(7), Thread { id: 7, title: None, summary: None, embedding: None });
}

#[test]
fn fresh_identifiers_are_random_uuids() {
    let first = new_id();
    let second = new_id();
    assert_ne!(first, second);
    for id in [first, second, Thread::new().id] {
        assert_eq!((id >> 76) & 0xf, 4);
        assert_eq!((id >> 62) & 0x3, 2);
    }
}

#[test]
fn thread_setters_change_one_field() {
    let mut thread = Thread::with_id(9);
    thread.set_title(Some("t".to_string()));
    assert_eq!(
        thread,
        Thread { id: 9, title: Some("t".to_string()), summary: None, embedding: None }
    );
    thread.set_summary("s".to_string());
    thread.set_embedding(Embedding::new(vec![1, 2, 3]));
    assert_eq!(
        thread,
        Thread {
            id: 9,
            title: Some("t".to_string()),
            summary: Some("s".to_string()),
            embedding: Some(Embedding { bits: vec![1, 2, 3] }),
        }
    );
    thread.set_title(None);
    assert_eq!(thread.title, None);
    assert_eq!(thread.clone(), thread);
    assert_eq!(Embedding::new(vec![1, 2, 3]).len(), 3);
}

#[test]
fn message_is_made_from_its_input() {
    let input = CreateMessage { role: "user".to_string(), content: Content::from("hi".to_string()) };
    let message = input.into_message_at(5, 6, 7000);
    assert_eq!(
        message,
        Message {
            id: 6,
            thread_id: 5,
            role: "user".to_string(),
            content: Content::Single(text("hi")),
            created_at: 7000,
        }
    );
    assert_eq!(message.id(), 6);
    assert_eq!(message.created_at(), 7000);
    assert_eq!(message.to_string(), "hi");
    assert_eq!(message.clone(), message);
}

#[test]
fn message_made_now_keeps_role_content_and_thread() {
    let before = now_millis();
    let input = CreateMessage { role: "user".to_string(), content: Content::from("hi".to_string()) };
    let message = input.into_message(5);
    let after = now_millis();
    assert_eq!(message.thread_id, 5);
    assert_eq!(message.role, "user");
    assert_eq!(message.content, Content::Single(text("hi")));
    assert!(before <= message.created_at && message.created_at <= after);
    assert_eq!((message.id >> 76) & 0xf, 4);
}

#[test]
fn the_clock_reads_the_present() {
    let millis = now_millis();
    let seconds = now_seconds();
    assert!(millis > 1_600_000_000_000);
    assert!(seconds > 1_600_000_000);
    assert!(seconds_of_millis(millis) <= seconds);
    assert!(seconds - seconds_of_millis(millis) <= 2);
    assert_eq!(seconds_of_millis(1999), 1);
    assert_eq!(seconds_of_millis(999), 0);
    assert_eq!(seconds_of_millis(u64::MAX), u64::MAX / 1000);
}

#[test]
fn update_content_changes_only_content() {
    let mut message = Message {
        id: 6,
        thread_id: 5,
        role: "user".to_string(),
        content: Content::Single(text("hi")),
        created_at: 7000,
    };
    message.update_content(UpdateMessage { content: Content::Multiple(vec![text("new")]) });
    assert_eq!(
        message,
        Message {
            id: 6,
            thread_id: 5,
            role: "user".to_string(),
            content: Content::Multiple(vec![text("new")]),
            created_at: 7000,
        }
    );
}
