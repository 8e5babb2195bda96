use std::collections::BTreeMap;

use synx::content::{Content, ContentKind};
use synx::durable::failure::{failure, table_provided, Stage};
use synx::durable::protocol::{Entry, Read, Record, Reply, Table, Write};
use synx::durable::step::{Next, Outcome, Step};
use synx::durable::transaction::Transaction;
use synx::embedding::Embedding;
use synx::error::DatabaseError;
use synx::keys::{HeedMessageCreationTimeId, HeedTimestampUuid, HeedUuid, HeedUuidTuple};
use synx::message::{CreateMessage, Message, ThreadMessagesResponse, UpdateMessage};
use synx::thread::{Thread, UpdateThread};

/// A store that keeps its tables in memory, in byte order of the keys.
struct Store {
    tables: BTreeMap<(u8, Vec<u8>), Record>,
}

fn index(table: Table) -> u8 {
    Table::all().iter().position(|t| *t == table).unwrap() as u8
}

impl Store {
    fn new() -> Store {
        Store { tables: BTreeMap::new() }
    }

    fn answer(&self, read: &Read) -> Reply {
        match read {
            Read::Get { table, key } => {
                Reply::Record(self.tables.get(&(index(*table), key.clone())).cloned())
            }
            Read::First { table, from } => Reply::Key(
                self.tables
                    .range((index(*table), from.clone())..)
                    .next()
                    .filter(|((t, _), _)| *t == index(*table))
                    .map(|((_, key), _)| key.clone()),
            ),
            Read::All { table } => Reply::Entries(
                self.tables
                    .iter()
                    .filter(|((t, _), _)| *t == index(*table))
                    .map(|((_, key), record)| Entry { key: key.clone(), record: record.clone() })
                    .collect(),
            ),
        }
    }

    fn apply(&mut self, write: Write) {
        match write {
            Write::Put { table, key, record } => {
                self.tables.insert((index(table), key), record);
            }
            Write::Delete { table, key } => {
                self.tables.remove(&(index(table), key));
            }
        }
    }

    /// Runs a transaction to its end; commits on success, rolls back on failure.
    fn run(&mut self, step: Step) -> Result<Outcome, DatabaseError> {
        let before = self.tables.clone();
        let mut step = step;
        let mut reads = 0;
        loop {
            for write in step.writes {
                self.apply(write);
            }
            match step.next {
                Next::Done(Ok(outcome)) => return Ok(outcome),
                Next::Done(Err(error)) => {
                    self.tables = before;
                    return Err(error);
                }
                Next::Read { read, then } => {
                    reads += 1;
                    assert!(reads < 1000);
                    step = then.resume(self.answer(&read));
                }
            }
        }
    }

    fn keys(&self, table: Table) -> Vec<Vec<u8>> {
        self.tables.keys().filter(|(t, _)| *t == index(table)).map(|(_, k)| k.clone()).collect()
    }
}

fn input(text: &str) -> CreateMessage {
    CreateMessage { role: "user".to_string(), content: Content::from(text.to_string()) }
}

fn message(thread_id: u128, id: u128, text: &str, created_at: u64) -> Message {
    Message {
        id,
        thread_id,
        role: "user".to_string(),
        content: Content::Single(ContentKind::Text { text: text.to_string() }),
        created_at,
    }
}

fn with_five_messages() -> Store {
    let mut store = Store::new();
    store.run(Transaction::create_thread_at(1, 50)).unwrap();
    for i in 0..5u64 {
        store
            .run(Transaction::create_message_at(
                1,
                input(&format!("m{}", i)),
                100 + i as u128,
                1000 * (60 + i),
            ))
            .unwrap();
    }
    store
}

fn page(store: &mut Store, thread: u128, limit: Option<usize>, offset: Option<usize>) -> Result<ThreadMessagesResponse, DatabaseError> {
    match store.run(Transaction::get_thread_messages(thread, limit, offset)) {
        Ok(Outcome::Messages(response)) => Ok(response),
        Ok(other) => panic!("unexpected outcome {:?}", other),
        Err(error) => Err(error),
    }
}

#[test]
fn tables_have_their_names() {
    let names: Vec<&str> = Table::all().iter().map(|t| t.name()).collect();
    assert_eq!(
        names,
        vec![
            "threads",
            "messages",
            "thread_messages",
            "embeddings",
            "thread_creation_time",
            "message_creation_time",
        ]
    );
}

#[test]
fn creating_a_thread_writes_three_records() {
    let mut store = Store::new();
    let outcome = store.run(Transaction::create_thread_at(7, 50)).unwrap();
    assert_eq!(outcome, Outcome::Thread(Thread::with_id(7)));
    assert_eq!(store.tables.len(), 3);
    assert_eq!(
        store.tables.get(&(index(Table::Threads), HeedUuid(7).bytes_encode())),
        Some(&Record::Thread(Thread::with_id(7)))
    );
    assert_eq!(
        store.tables.get(&(index(Table::ThreadMessages), HeedUuid(7).bytes_encode())),
        Some(&Record::Members(vec![]))
    );
    assert_eq!(
        store.tables.get(&(
            index(Table::ThreadCreationTime),
            HeedTimestampUuid((50, 7)).bytes_encode()
        )),
        Some(&Record::Marker)
    );
}

#[test]
fn first_step_of_creating_a_thread_reads_the_identifier() {
    let step = Transaction::create_thread_at(7, 50);
    assert_eq!(
        step,
        Step {
            writes: vec![],
            next: Next::Read {
                read: Read::Get { table: Table::Threads, key: HeedUuid(7).bytes_encode() },
                then: Transaction::CreateThreadVacancy { id: 7, seconds: 50 },
            },
        }
    );
    let random = Transaction::create_thread();
    match random.next {
        Next::Read { read: Read::Get { table, key }, then: Transaction::CreateThreadVacancy { id, .. } } => {
            assert_eq!(table, Table::Threads);
            assert_eq!(key, HeedUuid(id).bytes_encode());
            assert_eq!((id >> 76) & 0xf, 4);
        }
        other => panic!("unexpected step {:?}", other),
    }
}

#[test]
fn durable_created_thread_is_found() {
    let mut store = Store::new();
    let created = match store.run(Transaction::create_thread()).unwrap() {
        Outcome::Thread(thread) => thread,
        other => panic!("unexpected outcome {:?}", other),
    };
    assert_eq!(created.summary, None);
    assert_eq!(created.embedding, None);
    assert_eq!(store.run(Transaction::get_thread(created.id)), Ok(Outcome::Thread(created)));
    assert_eq!(store.run(Transaction::get_thread(1)), Err(DatabaseError::NotFound));
}

#[test]
fn durable_page_of_five_messages() {
    let mut store = with_five_messages();
    let response = page(&mut store, 1, Some(3), Some(1)).unwrap();
    assert_eq!(
        response,
        ThreadMessagesResponse {
            messages: vec![
                message(1, 101, "m1", 61000),
                message(1, 102, "m2", 62000),
                message(1, 103, "m3", 63000),
            ],
            total: 5,
            offset: 1,
            limit: 3,
        }
    );
    let all = page(&mut store, 1, None, None).unwrap();
    assert_eq!(all.total, 5);
    assert_eq!(all.limit, 5);
    assert_eq!(all.offset, 0);
    assert_eq!(all.messages.iter().map(|m| m.id).collect::<Vec<_>>(), vec![100, 101, 102, 103, 104]);
    assert_eq!(page(&mut store, 1, Some(9), Some(4)).unwrap().messages.len(), 1);
    assert_eq!(page(&mut store, 1, Some(9), Some(6)).unwrap().messages.len(), 0);
}

#[test]
fn durable_message_is_deleted_once() {
    let mut store = Store::new();
    store.run(Transaction::create_thread_at(1, 50)).unwrap();
    store.run(Transaction::create_message_at(1, input("hello"), 5, 60_000)).unwrap();
    assert_eq!(
        store.keys(Table::MessageCreationTime),
        vec![HeedMessageCreationTimeId((1, 60, 5)).bytes_encode()]
    );
    assert_eq!(store.run(Transaction::delete_message(1, 5)), Ok(Outcome::Done));
    assert_eq!(store.run(Transaction::delete_message(1, 5)), Err(DatabaseError::NotFound));
    assert_eq!(store.keys(Table::Messages), Vec::<Vec<u8>>::new());
    assert_eq!(store.keys(Table::MessageCreationTime), Vec::<Vec<u8>>::new());
    assert_eq!(
        store.tables.get(&(index(Table::ThreadMessages), HeedUuid(1).bytes_encode())),
        Some(&Record::Members(vec![]))
    );
    assert_eq!(page(&mut store, 1, None, None).unwrap().total, 0);
}

#[test]
fn durable_deleted_thread_takes_its_messages() {
    let mut store = Store::new();
    store.run(Transaction::create_thread_at(1, 50)).unwrap();
    for id in [10u128, 11, 12] {
        store.run(Transaction::create_message_at(1, input("x"), id, 60_000 + id as u64 * 1000)).unwrap();
    }
    store
        .run(Transaction::update_thread_summary_and_embedding(
            1,
            "s".to_string(),
            Embedding::new(vec![1]),
        ))
        .unwrap();
    assert_eq!(store.run(Transaction::delete_thread(1)), Ok(Outcome::Done));
    assert_eq!(page(&mut store, 1, None, None), Err(DatabaseError::NotFound));
    for id in [10u128, 11, 12] {
        assert_eq!(store.run(Transaction::delete_message(1, id)), Err(DatabaseError::NotFound));
    }
    assert_eq!(store.run(Transaction::get_thread(1)), Err(DatabaseError::NotFound));
    assert_eq!(store.run(Transaction::list_threads()), Ok(Outcome::Threads(vec![])));
    assert_eq!(store.run(Transaction::delete_thread(1)), Err(DatabaseError::NotFound));
    assert!(store.tables.is_empty());
}

#[test]
fn deleting_a_thread_leaves_the_others() {
    let mut store = Store::new();
    store.run(Transaction::create_thread_at(2, 50)).unwrap();
    store.run(Transaction::create_thread_at(1, 51)).unwrap();
    store.run(Transaction::create_message_at(1, input("a"), 10, 70_000)).unwrap();
    store.run(Transaction::create_message_at(2, input("b"), 10, 71_000)).unwrap();
    assert_eq!(store.run(Transaction::delete_thread(2)), Ok(Outcome::Done));
    assert_eq!(
        store.run(Transaction::list_threads()),
        Ok(Outcome::Threads(vec![Thread::with_id(1)]))
    );
    assert_eq!(page(&mut store, 1, None, None).unwrap().messages, vec![message(1, 10, "a", 70_000)]);
    assert_eq!(store.keys(Table::Messages), vec![HeedUuidTuple((1, 10)).bytes_encode()]);
    assert_eq!(
        store.keys(Table::MessageCreationTime),
        vec![HeedMessageCreationTimeId((1, 70, 10)).bytes_encode()]
    );
    assert_eq!(
        store.keys(Table::ThreadCreationTime),
        vec![HeedTimestampUuid((51, 1)).bytes_encode()]
    );
}

#[test]
fn probe_skips_an_entry_of_another_thread() {
    let mut store = Store::new();
    store.run(Transaction::create_thread_at(1, 50)).unwrap();
    store.run(Transaction::create_thread_at(2, 60)).unwrap();
    assert_eq!(store.run(Transaction::delete_thread(2)), Ok(Outcome::Done));
    assert_eq!(
        store.keys(Table::ThreadCreationTime),
        vec![
            HeedTimestampUuid((50, 1)).bytes_encode(),
            HeedTimestampUuid((60, 2)).bytes_encode(),
        ]
    );
    assert_eq!(store.run(Transaction::get_thread(2)), Err(DatabaseError::NotFound));
    assert_eq!(store.run(Transaction::get_thread(1)), Ok(Outcome::Thread(Thread::with_id(1))));
}

#[test]
fn probe_skips_an_entry_of_another_message() {
    let mut store = with_five_messages();
    assert_eq!(store.run(Transaction::delete_message(1, 103)), Ok(Outcome::Done));
    assert_eq!(store.keys(Table::MessageCreationTime).len(), 5);
    assert_eq!(store.run(Transaction::delete_message(1, 100)), Ok(Outcome::Done));
    assert_eq!(store.keys(Table::MessageCreationTime).len(), 4);
    let response = page(&mut store, 1, None, None).unwrap();
    assert_eq!(response.messages.iter().map(|m| m.id).collect::<Vec<_>>(), vec![101, 102, 104]);
    assert_eq!(response.total, 3);
}

#[test]
fn durable_message_needs_its_thread() {
    let mut store = Store::new();
    store.run(Transaction::create_thread_at(1, 50)).unwrap();
    let before = store.tables.clone();
    assert_eq!(
        store.run(Transaction::create_message_at(2, input("x"), 5, 1)),
        Err(DatabaseError::NotFound)
    );
    assert_eq!(store.run(Transaction::create_message(2, input("x"))), Err(DatabaseError::NotFound));
    assert_eq!(store.tables, before);
}

#[test]
fn creating_a_message_writes_record_list_and_entry() {
    let mut store = Store::new();
    store.run(Transaction::create_thread_at(1, 50)).unwrap();
    let outcome = store.run(Transaction::create_message_at(1, input("hi"), 5, 61_999)).unwrap();
    assert_eq!(outcome, Outcome::Message(message(1, 5, "hi", 61_999)));
    assert_eq!(
        store.tables.get(&(index(Table::Messages), HeedUuidTuple((1, 5)).bytes_encode())),
        Some(&Record::Message(message(1, 5, "hi", 61_999)))
    );
    assert_eq!(
        store.tables.get(&(index(Table::ThreadMessages), HeedUuid(1).bytes_encode())),
        Some(&Record::Members(vec![5]))
    );
    assert_eq!(
        store.keys(Table::MessageCreationTime),
        vec![HeedMessageCreationTimeId((1, 61, 5)).bytes_encode()]
    );
    let made_now = store.run(Transaction::create_message(1, input("now"))).unwrap();
    match made_now {
        Outcome::Message(found) => {
            assert_eq!(found.thread_id, 1);
            assert_eq!(found.role, "user");
            assert_eq!((found.id >> 62) & 0x3, 2);
        }
        other => panic!("unexpected outcome {:?}", other),
    }
    assert_eq!(page(&mut store, 1, None, None).unwrap().total, 2);
}

#[test]
fn durable_identifiers_in_use_are_refused() {
    let mut store = with_five_messages();
    let before = store.tables.clone();
    assert!(matches!(
        store.run(Transaction::create_thread_at(1, 99)),
        Err(DatabaseError::InternalError(_))
    ));
    assert!(matches!(
        store.run(Transaction::create_message_at(1, input("again"), 100, 1)),
        Err(DatabaseError::InternalError(_))
    ));
    assert_eq!(store.tables, before);
}

#[test]
fn durable_update_changes_only_content() {
    let mut store = with_five_messages();
    let before = store.tables.clone();
    let outcome = store
        .run(Transaction::update_message(
            1,
            102,
            UpdateMessage { content: Content::from("new".to_string()) },
        ))
        .unwrap();
    assert_eq!(outcome, Outcome::Message(message(1, 102, "new", 62_000)));
    let mut expected = before;
    expected.insert(
        (index(Table::Messages), HeedUuidTuple((1, 102)).bytes_encode()),
        Record::Message(message(1, 102, "new", 62_000)),
    );
    assert_eq!(store.tables, expected);
}

#[test]
fn update_looks_the_message_up_in_its_thread() {
    let mut store = with_five_messages();
    store.run(Transaction::create_thread_at(2, 50)).unwrap();
    let update = || UpdateMessage { content: Content::from("x".to_string()) };
    assert_eq!(store.run(Transaction::update_message(2, 102, update())), Err(DatabaseError::NotFound));
    assert_eq!(store.run(Transaction::update_message(1, 999, update())), Err(DatabaseError::NotFound));
    assert_eq!(store.run(Transaction::delete_message(2, 102)), Err(DatabaseError::NotFound));
}

#[test]
fn durable_threads_are_read_with_the_embedding_they_have() {
    let mut store = Store::new();
    store.run(Transaction::create_thread_at(1, 50)).unwrap();
    store.run(Transaction::create_thread_at(2, 50)).unwrap();
    assert_eq!(
        store.run(Transaction::update_thread_summary_and_embedding(
            2,
            "sum".to_string(),
            Embedding::new(vec![7, 8]),
        )),
        Ok(Outcome::Done)
    );
    assert_eq!(
        store.run(Transaction::update_thread_summary_and_embedding(
            9,
            "sum".to_string(),
            Embedding::new(vec![7, 8]),
        )),
        Err(DatabaseError::NotFound)
    );
    let stored = Thread { id: 2, title: None, summary: Some("sum".to_string()), embedding: None };
    assert_eq!(store.run(Transaction::get_thread(2)), Ok(Outcome::Thread(stored.clone())));
    let attached = Thread { embedding: Some(Embedding { bits: vec![7, 8] }), ..stored };
    assert_eq!(
        store.run(Transaction::get_threads_with_embeddings(&[2, 5, 1, 2])),
        Ok(Outcome::Threads(vec![attached.clone(), Thread::with_id(1), attached]))
    );
    assert_eq!(
        store.run(Transaction::get_threads_with_embeddings(&[])),
        Ok(Outcome::Threads(vec![]))
    );
}

#[test]
fn dump_holds_every_table() {
    let mut store = Store::new();
    store.run(Transaction::create_thread_at(1, 50)).unwrap();
    store.run(Transaction::create_message_at(1, input("hi"), 5, 61_000)).unwrap();
    let dump = match store.run(Transaction::debug_state()).unwrap() {
        Outcome::Dump(dump) => dump,
        other => panic!("unexpected outcome {:?}", other),
    };
    assert_eq!(dump.len(), 6);
    assert_eq!(
        dump[0],
        vec![Entry { key: HeedUuid(1).bytes_encode(), record: Record::Thread(Thread::with_id(1)) }]
    );
    assert_eq!(
        dump[1],
        vec![Entry {
            key: HeedUuidTuple((1, 5)).bytes_encode(),
            record: Record::Message(message(1, 5, "hi", 61_000)),
        }]
    );
    assert_eq!(
        dump[2],
        vec![Entry { key: HeedUuid(1).bytes_encode(), record: Record::Members(vec![5]) }]
    );
    assert_eq!(dump[3], vec![]);
    assert_eq!(
        dump[4],
        vec![Entry { key: HeedTimestampUuid((50, 1)).bytes_encode(), record: Record::Marker }]
    );
    assert_eq!(
        dump[5],
        vec![Entry {
            key: HeedMessageCreationTimeId((1, 61, 5)).bytes_encode(),
            record: Record::Marker,
        }]
    );
}

#[test]
fn failed_write_is_operation_failed() {
    let step = Transaction::DeleteThreadLookup { thread_id: 1 }
        .resume(Reply::WriteFailed("disk full".to_string()));
    assert_eq!(
        step,
        Step {
            writes: vec![],
            next: Next::Done(Err(DatabaseError::OperationFailed("disk full".to_string()))),
        }
    );
}

#[test]
fn failed_read_is_query_error() {
    let step = Transaction::GetThread.resume(Reply::ReadFailed("broken".to_string()));
    assert_eq!(
        step,
        Step { writes: vec![], next: Next::Done(Err(DatabaseError::QueryError("broken".to_string()))) }
    );
}

#[test]
fn failed_read_of_one_message_is_a_missing_message() {
    let state = Transaction::GetMessagesFetch {
        thread_id: 1,
        ids: vec![5, 6],
        at: 0,
        found: vec![],
        limit: None,
        offset: None,
    };
    let step = state.resume(Reply::ReadFailed("broken".to_string()));
    assert_eq!(
        step,
        Step {
            writes: vec![],
            next: Next::Read {
                read: Read::Get { table: Table::Messages, key: HeedUuidTuple((1, 6)).bytes_encode() },
                then: Transaction::GetMessagesFetch {
                    thread_id: 1,
                    ids: vec![5, 6],
                    at: 1,
                    found: vec![],
                    limit: None,
                    offset: None,
                },
            },
        }
    );
    let last = Transaction::GetMessagesFetch {
        thread_id: 1,
        ids: vec![5, 6],
        at: 1,
        found: vec![message(1, 5, "a", 1)],
        limit: None,
        offset: None,
    }
    .resume(Reply::Record(None));
    assert_eq!(
        last,
        Step {
            writes: vec![],
            next: Next::Done(Ok(Outcome::Messages(ThreadMessagesResponse {
                messages: vec![message(1, 5, "a", 1)],
                total: 1,
                offset: 0,
                limit: 1,
            }))),
        }
    );
}

#[test]
fn wrong_reply_is_an_internal_error() {
    for step in [
        Transaction::GetThread.resume(Reply::Key(None)),
        Transaction::ListThreads.resume(Reply::Record(None)),
        Transaction::DeleteThreadProbe { thread_id: 1 }.resume(Reply::Entries(vec![])),
        Transaction::GetThread.resume(Reply::Record(Some(Record::Marker))),
        Transaction::DeleteThreadMembers { thread_id: 1 }
            .resume(Reply::Record(Some(Record::Thread(Thread::with_id(1))))),
        Transaction::DeleteThreadMessageProbe { thread_id: 1, ids: vec![], at: 0 }
            .resume(Reply::Key(None)),
    ] {
        assert_eq!(
            step,
            Step {
                writes: vec![],
                next: Next::Done(Err(DatabaseError::InternalError(
                    "reply does not answer the read".to_string()
                ))),
            }
        );
    }
}

#[test]
fn key_of_another_length_fails_the_probe() {
    let step = Transaction::DeleteThreadProbe { thread_id: 1 }.resume(Reply::Key(Some(vec![1, 2, 3])));
    assert_eq!(
        step,
        Step {
            writes: vec![],
            next: Next::Done(Err(DatabaseError::QueryError(
                "Invalid byte length for HeedTimestampUuid".to_string()
            ))),
        }
    );
    let step = Transaction::DeleteMessageProbe { thread_id: 1, message_id: 2 }
        .resume(Reply::Key(Some(vec![0; 24])));
    assert_eq!(
        step,
        Step {
            writes: vec![],
            next: Next::Done(Err(DatabaseError::QueryError(
                "Invalid byte length for HeedMessageCreationTimeId".to_string()
            ))),
        }
    );
}

#[test]
fn thread_that_is_not_there_after_insertion_fails() {
    let step = Transaction::CreateThreadCheck { id: 1 }.resume(Reply::Record(None));
    assert_eq!(
        step,
        Step {
            writes: vec![],
            next: Next::Done(Err(DatabaseError::OperationFailed(
                "Thread not found after insertion".to_string()
            ))),
        }
    );
}

#[test]
fn a_failure_in_the_middle_rolls_back() {
    let mut store = with_five_messages();
    let before = store.tables.clone();
    let mut step = Transaction::delete_thread(1);
    let mut reads = 0;
    let ending = loop {
        for write in step.writes {
            store.apply(write);
        }
        match step.next {
            Next::Done(ending) => break ending,
            Next::Read { read, then } => {
                reads += 1;
                let reply = if reads == 4 { Reply::ReadFailed("gone".to_string()) } else { store.answer(&read) };
                step = then.resume(reply);
            }
        }
    };
    assert_eq!(ending, Err(DatabaseError::QueryError("gone".to_string())));
    assert_ne!(store.tables, before);
    store.tables = before;
    assert_eq!(page(&mut store, 1, None, None).unwrap().total, 5);
}

#[test]
fn store_failures_are_reported_by_stage() {
    let d = || "d".to_string();
    assert_eq!(failure(Stage::OpenEnvironment, d()), DatabaseError::ConnectionError(d()));
    assert_eq!(failure(Stage::CreateTable, d()), DatabaseError::OperationFailed(d()));
    assert_eq!(failure(Stage::OpenTable, d()), DatabaseError::QueryError(d()));
    assert_eq!(failure(Stage::Begin, d()), DatabaseError::OperationFailed(d()));
    assert_eq!(failure(Stage::Read, d()), DatabaseError::QueryError(d()));
    assert_eq!(failure(Stage::Write, d()), DatabaseError::OperationFailed(d()));
    assert_eq!(failure(Stage::Commit, d()), DatabaseError::OperationFailed(d()));
    assert_eq!(table_provided(true), Ok(()));
    assert_eq!(table_provided(false), Err(DatabaseError::NotFound));
}

#[test]
fn title_is_updated_and_nothing_else() {
    let mut store = with_five_messages();
    store
        .run(Transaction::update_thread_summary_and_embedding(
            1,
            "sum".to_string(),
            Embedding::new(vec![3]),
        ))
        .unwrap();
    let before = store.tables.clone();
    let titled = Thread {
        id: 1,
        title: Some("t".to_string()),
        summary: Some("sum".to_string()),
        embedding: None,
    };
    assert_eq!(
        store.run(Transaction::update_thread(1, UpdateThread { title: Some("t".to_string()) })),
        Ok(Outcome::Thread(titled.clone()))
    );
    let mut expected = before;
    expected.insert((index(Table::Threads), HeedUuid(1).bytes_encode()), Record::Thread(titled));
    assert_eq!(store.tables, expected);
    assert_eq!(
        store.run(Transaction::update_thread(2, UpdateThread { title: None })),
        Err(DatabaseError::NotFound)
    );
}

#[test]
fn reads_ask_for_no_write() {
    let mut store = with_five_messages();
    let before = store.tables.clone();
    for start in [
        Transaction::get_thread(1),
        Transaction::get_thread(2),
        Transaction::list_threads(),
        Transaction::get_thread_messages(1, Some(2), Some(1)),
        Transaction::get_thread_messages(9, None, None),
        Transaction::get_threads_with_embeddings(&[1, 2, 1]),
        Transaction::debug_state(),
    ] {
        let mut step = start;
        loop {
            assert_eq!(step.writes, vec![]);
            match step.next {
                Next::Done(_) => break,
                Next::Read { read, then } => step = then.resume(store.answer(&read)),
            }
        }
    }
    assert_eq!(store.tables, before);
}
