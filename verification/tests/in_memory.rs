use synx::content::{Content, ContentKind};
use synx::embedding::Embedding;
use synx::error::DatabaseError;
use synx::in_memory::SynxInMemory;
use synx::message::{CreateMessage, Message, UpdateMessage};
use synx::thread::{Thread, UpdateThread};

fn input(text: &str) -> CreateMessage {
    CreateMessage { role: "user".to_string(), content: Content::from(text.to_string()) }
}

fn message(thread_id: u128, id: u128, text: &str, created_at: u64) -> Message {
    Message {
        id,
        thread_id,
        role: "user".to_string(),
        content: Content::Single(ContentKind::Text { text: text.to_string() }),
        created_at,
    }
}

fn with_five_messages() -> SynxInMemory {
    let mut db = SynxInMemory::new();
    db.create_thread_with_id(1).unwrap();
    for i in 0..5u64 {
        db.create_message_at(1, input(&format!("m{}", i)), 100 + i as u128, 1000 + i).unwrap();
    }
    db
}

#[test]
fn volatile_created_thread_is_found() {
    let mut db = SynxInMemory::new();
    let created = db.create_thread().unwrap();
    let found = db.get_thread(created.id).unwrap();
    assert_eq!(found.id, created.id);
    assert_eq!(found.summary, None);
    assert_eq!(found.embedding, None);
    assert_eq!(found.title, None);
    assert_eq!(found, created);
}

#[test]
fn volatile_page_of_five_messages() {
    let db = with_five_messages();
    let response = db.get_thread_messages(1, Some(3), Some(1)).unwrap();
    assert_eq!(
        response.messages,
        vec![
            message(1, 101, "m1", 1001),
            message(1, 102, "m2", 1002),
            message(1, 103, "m3", 1003),
        ]
    );
    assert_eq!(response.total, 5);
    assert_eq!(response.offset, 1);
    assert_eq!(response.limit, 3);
}

#[test]
fn volatile_message_is_deleted_once() {
    let mut db = SynxInMemory::new();
    let thread = db.create_thread().unwrap();
    let created = db.create_message(thread.id, input("hello")).unwrap();
    assert_eq!(db.delete_message(thread.id, created.id), Ok(()));
    assert_eq!(db.delete_message(thread.id, created.id), Err(DatabaseError::NotFound));
    let response = db.get_thread_messages(thread.id, None, None).unwrap();
    assert_eq!(response.total, 0);
    assert!(response.messages.is_empty());
}

#[test]
fn volatile_deleted_thread_takes_its_messages() {
    let mut db = SynxInMemory::new();
    db.create_thread_with_id(1).unwrap();
    db.create_thread_with_id(2).unwrap();
    for id in [10u128, 11, 12] {
        db.create_message_at(1, input("x"), id, 5).unwrap();
    }
    db.create_message_at(2, input("kept"), 20, 5).unwrap();
    assert_eq!(db.delete_thread(1), Ok(()));
    assert_eq!(db.get_thread_messages(1, None, None), Err(DatabaseError::NotFound));
    assert_eq!(db.get_thread_messages(1, Some(1), Some(0)), Err(DatabaseError::NotFound));
    for id in [10u128, 11, 12] {
        assert_eq!(db.delete_message(1, id), Err(DatabaseError::NotFound));
        assert_eq!(db.delete_message(2, id), Err(DatabaseError::NotFound));
    }
    assert_eq!(db.get_thread(1), Err(DatabaseError::NotFound));
    assert_eq!(db.delete_thread(1), Err(DatabaseError::NotFound));
    let listed = db.list_threads().unwrap();
    assert_eq!(listed, vec![Thread::with_id(2)]);
    assert_eq!(db.get_thread_messages(2, None, None).unwrap().messages, vec![message(2, 20, "kept", 5)]);
}

#[test]
fn volatile_message_needs_its_thread() {
    let mut db = SynxInMemory::new();
    db.create_thread_with_id(1).unwrap();
    assert_eq!(db.create_message(2, input("x")), Err(DatabaseError::NotFound));
    assert_eq!(db.create_message_at(2, input("x"), 7, 1), Err(DatabaseError::NotFound));
    assert_eq!(db.debug_state().unwrap().messages, vec![]);
    assert_eq!(db.get_thread_messages(1, None, None).unwrap().total, 0);
    assert_eq!(db.delete_message(1, 7), Err(DatabaseError::NotFound));
}

#[test]
fn messages_come_back_in_creation_order() {
    let db = with_five_messages();
    let response = db.get_thread_messages(1, None, None).unwrap();
    assert_eq!(
        response.messages,
        (0..5u64).map(|i| message(1, 100 + i as u128, &format!("m{}", i), 1000 + i)).collect::<Vec<_>>()
    );
    assert_eq!(response.total, 5);
    assert_eq!(response.offset, 0);
    assert_eq!(response.limit, 5);
}

#[test]
fn creation_order_does_not_follow_the_clock() {
    let mut db = SynxInMemory::new();
    db.create_thread_with_id(1).unwrap();
    db.create_message_at(1, input("late clock"), 9, 2000).unwrap();
    db.create_message_at(1, input("early clock"), 3, 1000).unwrap();
    let response = db.get_thread_messages(1, None, None).unwrap();
    assert_eq!(
        response.messages,
        vec![message(1, 9, "late clock", 2000), message(1, 3, "early clock", 1000)]
    );
}

#[test]
fn pages_count_min_of_limit_and_what_is_left() {
    let db = with_five_messages();
    for (limit, offset, expected) in [
        (Some(2), Some(0), 2usize),
        (Some(10), Some(3), 2),
        (Some(0), Some(1), 0),
        (Some(3), Some(5), 0),
        (Some(3), Some(9), 0),
        (None, Some(4), 1),
        (Some(4), None, 4),
    ] {
        let response = db.get_thread_messages(1, limit, offset).unwrap();
        assert_eq!(response.messages.len(), expected);
        assert_eq!(response.total, 5);
        assert_eq!(response.offset, offset.unwrap_or(0));
        assert_eq!(response.limit, limit.unwrap_or(5));
        for (i, found) in response.messages.iter().enumerate() {
            assert_eq!(found.id, 100 + (offset.unwrap_or(0) + i) as u128);
        }
    }
}

#[test]
fn volatile_update_changes_only_content() {
    let mut db = with_five_messages();
    let updated = db
        .update_message(1, 102, UpdateMessage { content: Content::from("new".to_string()) })
        .unwrap();
    assert_eq!(updated, message(1, 102, "new", 1002));
    let response = db.get_thread_messages(1, None, None).unwrap();
    assert_eq!(response.messages[2], message(1, 102, "new", 1002));
    assert_eq!(response.messages[1], message(1, 101, "m1", 1001));
    assert_eq!(response.total, 5);
}

#[test]
fn update_looks_the_message_up_by_its_identifier_alone() {
    let mut db = with_five_messages();
    db.create_thread_with_id(2).unwrap();
    let updated = db
        .update_message(2, 103, UpdateMessage { content: Content::from("moved?".to_string()) })
        .unwrap();
    assert_eq!(updated, message(1, 103, "moved?", 1003));
    assert_eq!(
        db.update_message(3, 103, UpdateMessage { content: Content::from("x".to_string()) }),
        Err(DatabaseError::NotFound)
    );
    assert_eq!(
        db.update_message(1, 999, UpdateMessage { content: Content::from("x".to_string()) }),
        Err(DatabaseError::NotFound)
    );
    assert_eq!(db.delete_message(2, 104), Ok(()));
    assert_eq!(db.get_thread_messages(1, None, None).unwrap().total, 4);
}

#[test]
fn volatile_identifiers_in_use_are_refused() {
    let mut db = with_five_messages();
    assert!(matches!(db.create_thread_with_id(1), Err(DatabaseError::InternalError(_))));
    assert!(matches!(
        db.create_message_at(1, input("again"), 100, 1),
        Err(DatabaseError::InternalError(_))
    ));
    assert_eq!(db.get_thread_messages(1, None, None).unwrap().total, 5);
    assert_eq!(db.get_thread_messages(1, Some(1), None).unwrap().messages[0], message(1, 100, "m0", 1000));
}

#[test]
fn volatile_threads_are_read_with_the_embedding_they_have() {
    let mut db = SynxInMemory::new();
    db.create_thread_with_id(1).unwrap();
    db.create_thread_with_id(2).unwrap();
    assert_eq!(
        db.update_thread_summary_and_embedding(2, "sum".to_string(), Embedding::new(vec![7, 8])),
        Ok(())
    );
    assert_eq!(
        db.update_thread_summary_and_embedding(9, "sum".to_string(), Embedding::new(vec![7, 8])),
        Err(DatabaseError::NotFound)
    );
    let found = db.get_threads_with_embeddings(&[2, 5, 1, 2]).unwrap();
    let second = Thread {
        id: 2,
        title: None,
        summary: Some("sum".to_string()),
        embedding: Some(Embedding { bits: vec![7, 8] }),
    };
    assert_eq!(found, vec![second.clone(), Thread::with_id(1), second]);
    assert_eq!(found[1].embedding, None);
    assert_eq!(db.get_threads_with_embeddings(&[]).unwrap(), vec![]);
    assert_eq!(db.get_threads_with_embeddings(&[77]).unwrap(), vec![]);
}

#[test]
fn title_is_updated() {
    let mut db = SynxInMemory::new();
    db.create_thread_with_id(1).unwrap();
    let updated = db.update_thread(1, UpdateThread { title: Some("t".to_string()) }).unwrap();
    assert_eq!(updated.title, Some("t".to_string()));
    assert_eq!(db.get_thread(1).unwrap(), updated);
    assert_eq!(
        db.update_thread(2, UpdateThread { title: None }),
        Err(DatabaseError::NotFound)
    );
    assert_eq!(db.update_thread(1, UpdateThread { title: None }).unwrap(), Thread::with_id(1));
}

#[test]
fn listing_holds_every_thread_once() {
    let mut db = SynxInMemory::new();
    assert_eq!(db.list_threads().unwrap(), vec![]);
    for id in [3u128, 1, 2] {
        db.create_thread_with_id(id).unwrap();
    }
    let mut ids: Vec<u128> = db.list_threads().unwrap().iter().map(|t| t.id).collect();
    ids.sort();
    assert_eq!(ids, vec![1, 2, 3]);
}

#[test]
fn dump_holds_everything() {
    let db = with_five_messages();
    let dump = db.debug_state().unwrap();
    assert_eq!(dump.threads, vec![Thread::with_id(1)]);
    assert_eq!(dump.thread_messages, vec![(1u128, vec![100u128, 101, 102, 103, 104])]);
    let mut ids: Vec<u128> = dump.messages.iter().map(|m| m.id).collect();
    ids.sort();
    assert_eq!(ids, vec![100, 101, 102, 103, 104]);
}
