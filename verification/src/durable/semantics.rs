//! What each operation of the durable engine makes of the tables, said
//! directly, and the proof that its transaction does exactly that.

use vstd::prelude::*;
use crate::clock::seconds_of;
use crate::content::ContentView;
use crate::durable::protocol::{
    message_key, message_time_key, thread_key, thread_time_key, EntryView, RecordView, Table,
    WriteView,
};
use crate::durable::step::OutcomeView;
use crate::durable::tables::{execute, lemma_run_more_fuel, reads_only, run, Ending, Tables};
use crate::durable::transaction::{
    members_or_empty, prune_message_time, prune_thread_time, response, threads_of, TransactionView,
};
use crate::error::DatabaseErrorView;
use crate::membership::others;
use crate::message::MessageView;
use crate::thread::ThreadView;

verus! {

/// The failure that reports a record of another kind than its table
/// holds.
pub open spec fn unexpected_record() -> DatabaseErrorView {
    DatabaseErrorView::InternalError("reply does not answer the read"@)
}

impl Tables {
    /// The tables after the creation-time entry of message `message_id`
    /// of thread `thread_id` was looked for and, if found, removed.
    ///
    /// The entry is looked for as the first key of the table at or after
    /// the key that thread and message would have at time zero, and it
    /// counts as found only if that key names the same thread and message.
    pub open spec fn prune_message(self, thread_id: u128, message_id: u128) -> Result<
        Tables,
        DatabaseErrorView,
    > {
        match prune_message_time(
            self.first(Table::MessageCreationTime, message_time_key(thread_id, 0, message_id)),
            thread_id,
            message_id,
        ) {
            Err(error) => Err(error),
            Ok(writes) => Ok(self.apply_all(writes)),
        }
    }

    /// The tables after the creation-time entry of thread `thread_id` was
    /// looked for and, if found, removed.
    pub open spec fn prune_thread(self, thread_id: u128) -> Result<Tables, DatabaseErrorView> {
        match prune_thread_time(
            self.first(Table::ThreadCreationTime, thread_time_key(0, thread_id)),
            thread_id,
        ) {
            Err(error) => Err(error),
            Ok(writes) => Ok(self.apply_all(writes)),
        }
    }

    /// The tables after the messages `ids[at..]` of thread `thread_id`
    /// were removed one by one, each with its creation-time entry.
    pub open spec fn cascade(self, thread_id: u128, ids: Seq<u128>, at: int) -> Result<
        Tables,
        DatabaseErrorView,
    >
        decreases ids.len() - at,
    {
        if 0 <= at < ids.len() {
            match self.delete(Table::Messages, message_key(thread_id, ids[at])).prune_message(
                thread_id,
                ids[at],
            ) {
                Err(error) => Err(error),
                Ok(next) => next.cascade(thread_id, ids, at + 1),
            }
        } else {
            Ok(self)
        }
    }

    /// The messages `ids[at..]` of thread `thread_id` that the tables
    /// hold, in order, after `found`.
    pub open spec fn messages_from(
        self,
        thread_id: u128,
        ids: Seq<u128>,
        at: int,
        found: Seq<MessageView>,
    ) -> Seq<MessageView>
        decreases ids.len() - at,
    {
        if 0 <= at < ids.len() {
            match self.get(Table::Messages, message_key(thread_id, ids[at])) {
                Some(RecordView::Message(message)) => self.messages_from(
                    thread_id,
                    ids,
                    at + 1,
                    found.push(message),
                ),
                _ => self.messages_from(thread_id, ids, at + 1, found),
            }
        } else {
            found
        }
    }

    /// The threads `ids[at..]` that the tables hold, in order and each
    /// with its embedding if it has one, after `found`.
    pub open spec fn threads_from(self, ids: Seq<u128>, at: int, found: Seq<ThreadView>) -> Result<
        Seq<ThreadView>,
        DatabaseErrorView,
    >
        decreases ids.len() - at,
    {
        if 0 <= at < ids.len() {
            match self.get(Table::Threads, thread_key(ids[at])) {
                None => self.threads_from(ids, at + 1, found),
                Some(RecordView::Thread(thread)) => match self.get(
                    Table::Embeddings,
                    thread_key(ids[at]),
                ) {
                    None => self.threads_from(ids, at + 1, found.push(thread)),
                    Some(RecordView::Embedding(embedding)) => self.threads_from(
                        ids,
                        at + 1,
                        found.push(ThreadView { embedding: Some(embedding), ..thread }),
                    ),
                    Some(_) => Err(unexpected_record()),
                },
                Some(_) => Err(unexpected_record()),
            }
        } else {
            Ok(found)
        }
    }

    /// The entries of the tables that follow those `collected`, after
    /// them.
    pub open spec fn dump_from(self, collected: Seq<Seq<EntryView>>) -> Seq<Seq<EntryView>>
        decreases Table::all_tables().len() - collected.len(),
    {
        if collected.len() < Table::all_tables().len() {
            self.dump_from(collected.push(self.entries(Table::all_tables()[collected.len() as int])))
        } else {
            collected
        }
    }

    /// Creating a thread under `id` at `seconds`.
    ///
    /// Fails with `InternalError` if the identifier is in use. Otherwise
    /// the thread record, an empty list of messages and the creation-time
    /// entry are written together.
    pub open spec fn create_thread(self, id: u128, seconds: u64) -> (Ending, Tables) {
        if self.has(Table::Threads, thread_key(id)) {
            (Err(DatabaseErrorView::InternalError("thread identifier already in use"@)), self)
        } else {
            (
                Ok(OutcomeView::Thread(ThreadView::fresh(id))),
                self.put(
                    Table::Threads,
                    thread_key(id),
                    RecordView::Thread(ThreadView::fresh(id)),
                ).put(Table::ThreadMessages, thread_key(id), RecordView::Members(Seq::empty())).put(
                    Table::ThreadCreationTime,
                    thread_time_key(seconds, id),
                    RecordView::Marker,
                ),
            )
        }
    }

    /// Deleting thread `thread_id`.
    ///
    /// Fails with `NotFound` if there is no such thread. Otherwise the
    /// thread record, its list of messages and its embedding are removed,
    /// then every message that the list named, each with its creation-time
    /// entry, then the thread's own creation-time entry.
    pub open spec fn delete_thread(self, thread_id: u128) -> (Ending, Tables) {
        let key = thread_key(thread_id);
        if !self.has(Table::Threads, key) {
            (Err(DatabaseErrorView::NotFound), self)
        } else {
            match members_or_empty(self.get(Table::ThreadMessages, key)) {
                None => (Err(unexpected_record()), self),
                Some(ids) => match self.delete(Table::Threads, key).delete(
                    Table::ThreadMessages,
                    key,
                ).delete(Table::Embeddings, key).cascade(thread_id, ids, 0) {
                    Err(error) => (Err(error), self),
                    Ok(emptied) => match emptied.prune_thread(thread_id) {
                        Err(error) => (Err(error), self),
                        Ok(pruned) => (Ok(OutcomeView::Done), pruned),
                    },
                },
            }
        }
    }

    /// Creating `message` in its thread.
    ///
    /// Fails with `NotFound` if the thread does not exist, and with
    /// `InternalError` if the thread has a message under the identifier.
    /// Otherwise the message record is written, its identifier is put at
    /// the end of the thread's list, and its creation-time entry is
    /// written.
    pub open spec fn create_message(self, message: MessageView) -> (Ending, Tables) {
        let thread = thread_key(message.thread_id);
        let key = message_key(message.thread_id, message.id);
        if !self.has(Table::Threads, thread) {
            (Err(DatabaseErrorView::NotFound), self)
        } else if self.has(Table::Messages, key) {
            (Err(DatabaseErrorView::InternalError("message identifier already in use"@)), self)
        } else {
            match members_or_empty(self.get(Table::ThreadMessages, thread)) {
                None => (Err(unexpected_record()), self),
                Some(ids) => (
                    Ok(OutcomeView::Message(message)),
                    self.put(Table::Messages, key, RecordView::Message(message)).put(
                        Table::ThreadMessages,
                        thread,
                        RecordView::Members(ids.push(message.id)),
                    ).put(
                        Table::MessageCreationTime,
                        message_time_key(
                            message.thread_id,
                            seconds_of(message.created_at),
                            message.id,
                        ),
                        RecordView::Marker,
                    ),
                ),
            }
        }
    }

    /// Replacing the content of message `message_id` of thread
    /// `thread_id`.
    pub open spec fn update_message(
        self,
        thread_id: u128,
        message_id: u128,
        content: ContentView,
    ) -> (Ending, Tables) {
        let key = message_key(thread_id, message_id);
        match self.get(Table::Messages, key) {
            None => (Err(DatabaseErrorView::NotFound), self),
            Some(RecordView::Message(message)) => (
                Ok(OutcomeView::Message(message.with_content(content))),
                self.put(Table::Messages, key, RecordView::Message(message.with_content(content))),
            ),
            Some(_) => (Err(unexpected_record()), self),
        }
    }

    /// Deleting message `message_id` of thread `thread_id`.
    ///
    /// Fails with `NotFound` if the thread has no such message. Otherwise
    /// the message record is removed, its identifier is taken off the
    /// thread's list, and its creation-time entry is removed.
    pub open spec fn delete_message(self, thread_id: u128, message_id: u128) -> (Ending, Tables) {
        let key = message_key(thread_id, message_id);
        if !self.has(Table::Messages, key) {
            (Err(DatabaseErrorView::NotFound), self)
        } else {
            match members_or_empty(self.get(Table::ThreadMessages, thread_key(thread_id))) {
                None => (Err(unexpected_record()), self),
                Some(ids) => match self.delete(Table::Messages, key).put(
                    Table::ThreadMessages,
                    thread_key(thread_id),
                    RecordView::Members(others(ids, message_id)),
                ).prune_message(thread_id, message_id) {
                    Err(error) => (Err(error), self),
                    Ok(pruned) => (Ok(OutcomeView::Done), pruned),
                },
            }
        }
    }

    /// Setting the summary and the embedding of thread `thread_id`
    /// together.
    pub open spec fn update_thread_summary_and_embedding(
        self,
        thread_id: u128,
        summary: Seq<char>,
        embedding: Seq<u32>,
    ) -> (Ending, Tables) {
        let key = thread_key(thread_id);
        match self.get(Table::Threads, key) {
            None => (Err(DatabaseErrorView::NotFound), self),
            Some(RecordView::Thread(thread)) => (
                Ok(OutcomeView::Done),
                self.put(
                    Table::Threads,
                    key,
                    RecordView::Thread(
                        ThreadView { summary: Some(summary), embedding: None, ..thread },
                    ),
                ).put(Table::Embeddings, key, RecordView::Embedding(embedding)),
            ),
            Some(_) => (Err(unexpected_record()), self),
        }
    }

    /// Setting the title of thread `thread_id`.
    pub open spec fn update_thread(self, thread_id: u128, title: Option<Seq<char>>) -> (
        Ending,
        Tables,
    ) {
        let key = thread_key(thread_id);
        match self.get(Table::Threads, key) {
            None => (Err(DatabaseErrorView::NotFound), self),
            Some(RecordView::Thread(thread)) => (
                Ok(OutcomeView::Thread(ThreadView { title, embedding: None, ..thread })),
                self.put(
                    Table::Threads,
                    key,
                    RecordView::Thread(ThreadView { title, embedding: None, ..thread }),
                ),
            ),
            Some(_) => (Err(unexpected_record()), self),
        }
    }

    /// Reading thread `thread_id`.
    pub open spec fn get_thread(self, thread_id: u128) -> Ending {
        match self.get(Table::Threads, thread_key(thread_id)) {
            None => Err(DatabaseErrorView::NotFound),
            Some(RecordView::Thread(thread)) => Ok(OutcomeView::Thread(thread)),
            Some(_) => Err(unexpected_record()),
        }
    }

    /// Listing the threads.
    pub open spec fn list_threads(self) -> Ending {
        Ok(OutcomeView::Threads(threads_of(self.entries(Table::Threads))))
    }

    /// Reading one page of the messages of thread `thread_id`: of the
    /// messages that the thread's list names and the tables hold, in the
    /// order of the list.
    pub open spec fn get_thread_messages(
        self,
        thread_id: u128,
        limit: Option<usize>,
        offset: Option<usize>,
    ) -> Ending {
        let key = thread_key(thread_id);
        if !self.has(Table::Threads, key) {
            Err(DatabaseErrorView::NotFound)
        } else {
            match members_or_empty(self.get(Table::ThreadMessages, key)) {
                None => Err(unexpected_record()),
                Some(ids) => Ok(
                    OutcomeView::Messages(
                        response(
                            self.messages_from(thread_id, ids, 0, Seq::empty()),
                            limit,
                            offset,
                        ),
                    ),
                ),
            }
        }
    }

    /// Reading the threads that `ids` name, each with its embedding.
    pub open spec fn get_threads_with_embeddings(self, ids: Seq<u128>) -> Ending {
        match self.threads_from(ids, 0, Seq::empty()) {
            Err(error) => Err(error),
            Ok(found) => Ok(OutcomeView::Threads(found)),
        }
    }

    /// Dumping every table.
    pub open spec fn debug_state(self) -> Ending {
        Ok(OutcomeView::Dump(self.dump_from(Seq::empty())))
    }

    /// One write is applied as itself.
    pub proof fn lemma_apply_one(self, a: WriteView)
        ensures
            self.apply_all(Seq::empty().push(a)) == self.apply(a),
    {
        self.lemma_apply_all_push(Seq::empty(), a);
    }

    /// Two writes are applied one after the other.
    pub proof fn lemma_apply_two(self, a: WriteView, b: WriteView)
        ensures
            self.apply_all(Seq::empty().push(a).push(b)) == self.apply(a).apply(b),
    {
        self.lemma_apply_one(a);
        self.lemma_apply_all_push(Seq::empty().push(a), b);
    }

    /// Three writes are applied one after the other.
    pub proof fn lemma_apply_three(self, a: WriteView, b: WriteView, c: WriteView)
        ensures
            self.apply_all(Seq::empty().push(a).push(b).push(c)) == self.apply(a).apply(b).apply(c),
    {
        self.lemma_apply_two(a, b);
        self.lemma_apply_all_push(Seq::empty().push(a).push(b), c);
    }
}

/// The transaction that creates a thread does what
/// [`Tables::create_thread`] says, in two reads.
pub proof fn lemma_create_thread_runs(tables: Tables, id: u128, seconds: u64, fuel: nat)
    requires
        fuel >= 2,
    ensures
        execute(TransactionView::create_thread(id, seconds), tables, fuel) == Some(
            tables.create_thread(id, seconds),
        ),
{
    let start = TransactionView::create_thread(id, seconds);
    let key = thread_key(id);
    reveal_with_fuel(run, 3);
    assert(tables.apply_all(Seq::empty()) == tables);
    if !tables.has(Table::Threads, key) {
        let a = WriteView::Put {
            table: Table::Threads,
            key,
            record: RecordView::Thread(ThreadView::fresh(id)),
        };
        let b = WriteView::Put {
            table: Table::ThreadMessages,
            key,
            record: RecordView::Members(Seq::empty()),
        };
        let c = WriteView::Put {
            table: Table::ThreadCreationTime,
            key: thread_time_key(seconds, id),
            record: RecordView::Marker,
        };
        tables.lemma_apply_three(a, b, c);
        let written = tables.apply(a).apply(b).apply(c);
        assert(written.has(Table::Threads, key));
        assert(written.apply_all(Seq::empty()) == written);
    }
    assert(run(start, tables, 2) is Some);
    lemma_run_more_fuel(start, tables, 2, fuel);
}

/// The transaction that creates a message does what
/// [`Tables::create_message`] says, in three reads.
pub proof fn lemma_create_message_runs(tables: Tables, message: MessageView, fuel: nat)
    requires
        fuel >= 3,
    ensures
        execute(TransactionView::create_message(message), tables, fuel) == Some(
            tables.create_message(message),
        ),
{
    let start = TransactionView::create_message(message);
    let thread = thread_key(message.thread_id);
    let key = message_key(message.thread_id, message.id);
    reveal_with_fuel(run, 4);
    assert(tables.apply_all(Seq::empty()) == tables);
    if tables.has(Table::Threads, thread) && !tables.has(Table::Messages, key) {
        let a = WriteView::Put { table: Table::Messages, key, record: RecordView::Message(message) };
        tables.lemma_apply_one(a);
        let written = tables.apply(a);
        assert(written.get(Table::ThreadMessages, thread) == tables.get(
            Table::ThreadMessages,
            thread,
        ));
        match members_or_empty(tables.get(Table::ThreadMessages, thread)) {
            None => {},
            Some(ids) => {
                let b = WriteView::Put {
                    table: Table::ThreadMessages,
                    key: thread,
                    record: RecordView::Members(ids.push(message.id)),
                };
                let c = WriteView::Put {
                    table: Table::MessageCreationTime,
                    key: message_time_key(
                        message.thread_id,
                        seconds_of(message.created_at),
                        message.id,
                    ),
                    record: RecordView::Marker,
                };
                written.lemma_apply_two(b, c);
            },
        }
    }
    assert(run(start, tables, 3) is Some);
    lemma_run_more_fuel(start, tables, 3, fuel);
}

/// The transaction that replaces a message's content does what
/// [`Tables::update_message`] says, in one read.
pub proof fn lemma_update_message_runs(
    tables: Tables,
    thread_id: u128,
    message_id: u128,
    content: ContentView,
    fuel: nat,
)
    requires
        fuel >= 1,
    ensures
        execute(TransactionView::update_message(thread_id, message_id, content), tables, fuel)
            == Some(tables.update_message(thread_id, message_id, content)),
{
    let start = TransactionView::update_message(thread_id, message_id, content);
    let key = message_key(thread_id, message_id);
    reveal_with_fuel(run, 2);
    assert(tables.apply_all(Seq::empty()) == tables);
    match tables.get(Table::Messages, key) {
        Some(RecordView::Message(message)) => {
            tables.lemma_apply_one(
                WriteView::Put {
                    table: Table::Messages,
                    key,
                    record: RecordView::Message(message.with_content(content)),
                },
            );
        },
        _ => {},
    }
    assert(run(start, tables, 1) is Some);
    lemma_run_more_fuel(start, tables, 1, fuel);
}

/// The transaction that deletes a message does what
/// [`Tables::delete_message`] says, in three reads.
pub proof fn lemma_delete_message_runs(tables: Tables, thread_id: u128, message_id: u128, fuel: nat)
    requires
        fuel >= 3,
    ensures
        execute(TransactionView::delete_message(thread_id, message_id), tables, fuel) == Some(
            tables.delete_message(thread_id, message_id),
        ),
{
    let start = TransactionView::delete_message(thread_id, message_id);
    let key = message_key(thread_id, message_id);
    let thread = thread_key(thread_id);
    reveal_with_fuel(run, 4);
    assert(tables.apply_all(Seq::empty()) == tables);
    if tables.has(Table::Messages, key) {
        let a = WriteView::Delete { table: Table::Messages, key };
        tables.lemma_apply_one(a);
        let first = tables.apply(a);
        assert(first.get(Table::ThreadMessages, thread) == tables.get(Table::ThreadMessages, thread));
        match members_or_empty(tables.get(Table::ThreadMessages, thread)) {
            None => {},
            Some(ids) => {
                let b = WriteView::Put {
                    table: Table::ThreadMessages,
                    key: thread,
                    record: RecordView::Members(others(ids, message_id)),
                };
                first.lemma_apply_one(b);
            },
        }
    }
    assert(run(start, tables, 3) is Some);
    lemma_run_more_fuel(start, tables, 3, fuel);
}

/// The transaction that sets summary and embedding does what
/// [`Tables::update_thread_summary_and_embedding`] says, in one read.
pub proof fn lemma_update_summary_runs(
    tables: Tables,
    thread_id: u128,
    summary: Seq<char>,
    embedding: Seq<u32>,
    fuel: nat,
)
    requires
        fuel >= 1,
    ensures
        execute(
            TransactionView::update_thread_summary_and_embedding(thread_id, summary, embedding),
            tables,
            fuel,
        ) == Some(tables.update_thread_summary_and_embedding(thread_id, summary, embedding)),
{
    let start = TransactionView::update_thread_summary_and_embedding(thread_id, summary, embedding);
    let key = thread_key(thread_id);
    reveal_with_fuel(run, 2);
    assert(tables.apply_all(Seq::empty()) == tables);
    match tables.get(Table::Threads, key) {
        Some(RecordView::Thread(thread)) => {
            tables.lemma_apply_two(
                WriteView::Put {
                    table: Table::Threads,
                    key,
                    record: RecordView::Thread(
                        ThreadView { summary: Some(summary), embedding: None, ..thread },
                    ),
                },
                WriteView::Put {
                    table: Table::Embeddings,
                    key,
                    record: RecordView::Embedding(embedding),
                },
            );
        },
        _ => {},
    }
    assert(run(start, tables, 1) is Some);
    lemma_run_more_fuel(start, tables, 1, fuel);
}

/// The transaction that sets a thread's title does what
/// [`Tables::update_thread`] says, in one read.
pub proof fn lemma_update_thread_runs(
    tables: Tables,
    thread_id: u128,
    title: Option<Seq<char>>,
    fuel: nat,
)
    requires
        fuel >= 1,
    ensures
        execute(TransactionView::update_thread(thread_id, title), tables, fuel) == Some(
            tables.update_thread(thread_id, title),
        ),
{
    let start = TransactionView::update_thread(thread_id, title);
    let key = thread_key(thread_id);
    reveal_with_fuel(run, 2);
    assert(tables.apply_all(Seq::empty()) == tables);
    match tables.get(Table::Threads, key) {
        Some(RecordView::Thread(thread)) => {
            tables.lemma_apply_one(
                WriteView::Put {
                    table: Table::Threads,
                    key,
                    record: RecordView::Thread(ThreadView { title, embedding: None, ..thread }),
                },
            );
        },
        _ => {},
    }
    assert(run(start, tables, 1) is Some);
    lemma_run_more_fuel(start, tables, 1, fuel);
}

/// The transaction that reads a thread returns what [`Tables::get_thread`]
/// says and changes nothing, in one read.
pub proof fn lemma_get_thread_runs(tables: Tables, thread_id: u128, fuel: nat)
    requires
        fuel >= 1,
    ensures
        execute(TransactionView::get_thread(thread_id), tables, fuel) == Some(
            (tables.get_thread(thread_id), tables),
        ),
{
    let start = TransactionView::get_thread(thread_id);
    reveal_with_fuel(run, 2);
    assert(tables.apply_all(Seq::empty()) == tables);
    assert(run(start, tables, 1) is Some);
    lemma_run_more_fuel(start, tables, 1, fuel);
}

/// The transaction that lists the threads returns what
/// [`Tables::list_threads`] says and changes nothing, in one read.
pub proof fn lemma_list_threads_runs(tables: Tables, fuel: nat)
    requires
        fuel >= 1,
    ensures
        execute(TransactionView::list_threads(), tables, fuel) == Some(
            (tables.list_threads(), tables),
        ),
{
    let start = TransactionView::list_threads();
    reveal_with_fuel(run, 2);
    assert(tables.apply_all(Seq::empty()) == tables);
    assert(run(start, tables, 1) is Some);
    lemma_run_more_fuel(start, tables, 1, fuel);
}

/// How the deletion of a thread goes on from message `ids[at]`, after
/// `writes`: how it ends, and with which tables if it ends well.
pub open spec fn delete_thread_rest(
    tables: Tables,
    thread_id: u128,
    ids: Seq<u128>,
    at: int,
    writes: Seq<WriteView>,
) -> Result<Tables, DatabaseErrorView> {
    match tables.apply_all(writes).cascade(thread_id, ids, at) {
        Err(error) => Err(error),
        Ok(emptied) => emptied.prune_thread(thread_id),
    }
}

/// From any message on, the transaction that deletes a thread goes on as
/// [`delete_thread_rest`] says.
pub proof fn lemma_delete_thread_rest_runs(
    tables: Tables,
    thread_id: u128,
    ids: Seq<u128>,
    at: int,
    writes: Seq<WriteView>,
    fuel: nat,
)
    requires
        0 <= at <= ids.len(),
        fuel >= ids.len() - at + 1,
    ensures
        match delete_thread_rest(tables, thread_id, ids, at, writes) {
            Err(error) => run(
                TransactionView::delete_thread_next(thread_id, ids, at, writes),
                tables,
                fuel,
            ) matches Some((Err(e), _)) && e == error,
            Ok(pruned) => run(
                TransactionView::delete_thread_next(thread_id, ids, at, writes),
                tables,
                fuel,
            ) == Some((Ok::<OutcomeView, DatabaseErrorView>(OutcomeView::Done), pruned)),
        },
    decreases ids.len() - at,
{
    reveal_with_fuel(run, 2);
    if at < ids.len() {
        let remove = WriteView::Delete {
            table: Table::Messages,
            key: message_key(thread_id, ids[at]),
        };
        tables.lemma_apply_all_push(writes, remove);
        let written = tables.apply_all(writes).apply(remove);
        let found = written.first(
            Table::MessageCreationTime,
            message_time_key(thread_id, 0, ids[at]),
        );
        match prune_message_time(found, thread_id, ids[at]) {
            Err(error) => {
                assert(written.apply_all(Seq::empty()) == written);
            },
            Ok(pruning) => {
                lemma_delete_thread_rest_runs(
                    written,
                    thread_id,
                    ids,
                    at + 1,
                    pruning,
                    (fuel - 1) as nat,
                );
            },
        }
    } else {
        let written = tables.apply_all(writes);
        let found = written.first(Table::ThreadCreationTime, thread_time_key(0, thread_id));
        match prune_thread_time(found, thread_id) {
            Err(error) => {
                assert(written.apply_all(Seq::empty()) == written);
            },
            Ok(pruning) => {},
        }
    }
}

/// How many reads the deletion of thread `thread_id` may take: three, and
/// one for each message that its list names.
pub open spec fn reads_to_delete_thread(tables: Tables, thread_id: u128) -> nat {
    match members_or_empty(tables.get(Table::ThreadMessages, thread_key(thread_id))) {
        Some(ids) => ids.len() + 3,
        None => 3,
    }
}

/// The transaction that deletes a thread does what
/// [`Tables::delete_thread`] says.
pub proof fn lemma_delete_thread_runs(tables: Tables, thread_id: u128, fuel: nat)
    requires
        fuel >= reads_to_delete_thread(tables, thread_id),
    ensures
        execute(TransactionView::delete_thread(thread_id), tables, fuel) == Some(
            tables.delete_thread(thread_id),
        ),
{
    let key = thread_key(thread_id);
    reveal_with_fuel(run, 3);
    assert(tables.apply_all(Seq::empty()) == tables);
    if tables.has(Table::Threads, key) {
        match members_or_empty(tables.get(Table::ThreadMessages, key)) {
            None => {},
            Some(ids) => {
                let a = WriteView::Delete { table: Table::Threads, key };
                let b = WriteView::Delete { table: Table::ThreadMessages, key };
                let c = WriteView::Delete { table: Table::Embeddings, key };
                let writes = Seq::empty().push(a).push(b).push(c);
                tables.lemma_apply_three(a, b, c);
                lemma_delete_thread_rest_runs(
                    tables,
                    thread_id,
                    ids,
                    0,
                    writes,
                    (fuel - 2) as nat,
                );
            },
        }
    }
}

/// From any message on, the transaction that reads a thread's messages
/// returns the page asked for of [`Tables::messages_from`] and changes
/// nothing.
pub proof fn lemma_get_messages_rest_runs(
    tables: Tables,
    thread_id: u128,
    ids: Seq<u128>,
    at: int,
    found: Seq<MessageView>,
    limit: Option<usize>,
    offset: Option<usize>,
    fuel: nat,
)
    requires
        0 <= at <= ids.len(),
        fuel >= ids.len() - at,
    ensures
        run(
            TransactionView::get_messages_next(thread_id, ids, at, found, limit, offset),
            tables,
            fuel,
        ) == Some(
            (
                Ok::<OutcomeView, DatabaseErrorView>(
                    OutcomeView::Messages(
                        response(tables.messages_from(thread_id, ids, at, found), limit, offset),
                    ),
                ),
                tables,
            ),
        ),
    decreases ids.len() - at,
{
    reveal_with_fuel(run, 2);
    assert(tables.apply_all(Seq::empty()) == tables);
    if at < ids.len() {
        let next = match tables.get(Table::Messages, message_key(thread_id, ids[at])) {
            Some(RecordView::Message(message)) => found.push(message),
            _ => found,
        };
        lemma_get_messages_rest_runs(
            tables,
            thread_id,
            ids,
            at + 1,
            next,
            limit,
            offset,
            (fuel - 1) as nat,
        );
    }
}

/// How many reads a page of the messages of thread `thread_id` may take:
/// two, and one for each message that its list names.
pub open spec fn reads_to_get_messages(tables: Tables, thread_id: u128) -> nat {
    match members_or_empty(tables.get(Table::ThreadMessages, thread_key(thread_id))) {
        Some(ids) => ids.len() + 2,
        None => 2,
    }
}

/// The transaction that reads a page of a thread's messages returns what
/// [`Tables::get_thread_messages`] says and changes nothing.
pub proof fn lemma_get_thread_messages_runs(
    tables: Tables,
    thread_id: u128,
    limit: Option<usize>,
    offset: Option<usize>,
    fuel: nat,
)
    requires
        fuel >= reads_to_get_messages(tables, thread_id),
    ensures
        execute(TransactionView::get_thread_messages(thread_id, limit, offset), tables, fuel)
            == Some((tables.get_thread_messages(thread_id, limit, offset), tables)),
{
    let key = thread_key(thread_id);
    reveal_with_fuel(run, 3);
    assert(tables.apply_all(Seq::empty()) == tables);
    if tables.has(Table::Threads, key) {
        match members_or_empty(tables.get(Table::ThreadMessages, key)) {
            None => {},
            Some(ids) => {
                lemma_get_messages_rest_runs(
                    tables,
                    thread_id,
                    ids,
                    0,
                    Seq::empty(),
                    limit,
                    offset,
                    (fuel - 2) as nat,
                );
            },
        }
    }
}

/// From any identifier on, the transaction that reads threads with their
/// embeddings returns what [`Tables::threads_from`] says and changes
/// nothing.
pub proof fn lemma_with_embeddings_rest_runs(
    tables: Tables,
    ids: Seq<u128>,
    at: int,
    found: Seq<ThreadView>,
    fuel: nat,
)
    requires
        0 <= at <= ids.len(),
        fuel >= 2 * (ids.len() - at),
    ensures
        run(TransactionView::with_embeddings_next(ids, at, found), tables, fuel) == Some(
            (
                match tables.threads_from(ids, at, found) {
                    Err(error) => Err::<OutcomeView, DatabaseErrorView>(error),
                    Ok(threads) => Ok(OutcomeView::Threads(threads)),
                },
                tables,
            ),
        ),
    decreases ids.len() - at,
{
    reveal_with_fuel(run, 3);
    assert(tables.apply_all(Seq::empty()) == tables);
    if at < ids.len() {
        match tables.get(Table::Threads, thread_key(ids[at])) {
            None => {
                lemma_with_embeddings_rest_runs(tables, ids, at + 1, found, (fuel - 1) as nat);
            },
            Some(RecordView::Thread(thread)) => {
                match tables.get(Table::Embeddings, thread_key(ids[at])) {
                    None => {
                        lemma_with_embeddings_rest_runs(
                            tables,
                            ids,
                            at + 1,
                            found.push(thread),
                            (fuel - 2) as nat,
                        );
                    },
                    Some(RecordView::Embedding(embedding)) => {
                        lemma_with_embeddings_rest_runs(
                            tables,
                            ids,
                            at + 1,
                            found.push(ThreadView { embedding: Some(embedding), ..thread }),
                            (fuel - 2) as nat,
                        );
                    },
                    Some(_) => {},
                }
            },
            Some(_) => {},
        }
    }
}

/// The transaction that reads threads with their embeddings returns what
/// [`Tables::get_threads_with_embeddings`] says and changes nothing, in
/// at most two reads for each identifier.
pub proof fn lemma_get_threads_with_embeddings_runs(tables: Tables, ids: Seq<u128>, fuel: nat)
    requires
        fuel >= 2 * ids.len(),
    ensures
        execute(TransactionView::get_threads_with_embeddings(ids), tables, fuel) == Some(
            (tables.get_threads_with_embeddings(ids), tables),
        ),
{
    lemma_with_embeddings_rest_runs(tables, ids, 0, Seq::empty(), fuel);
}

/// After any number of tables, the transaction that dumps the tables
/// returns what [`Tables::dump_from`] says and changes nothing.
pub proof fn lemma_dump_rest_runs(tables: Tables, collected: Seq<Seq<EntryView>>, fuel: nat)
    requires
        fuel + collected.len() >= Table::all_tables().len(),
    ensures
        run(TransactionView::dump_next(collected), tables, fuel) == Some(
            (
                Ok::<OutcomeView, DatabaseErrorView>(
                    OutcomeView::Dump(tables.dump_from(collected)),
                ),
                tables,
            ),
        ),
    decreases Table::all_tables().len() - collected.len(),
{
    reveal_with_fuel(run, 2);
    assert(tables.apply_all(Seq::empty()) == tables);
    if collected.len() < Table::all_tables().len() {
        lemma_dump_rest_runs(
            tables,
            collected.push(tables.entries(Table::all_tables()[collected.len() as int])),
            (fuel - 1) as nat,
        );
    }
}

/// The transaction that dumps the tables returns what
/// [`Tables::debug_state`] says and changes nothing, in one read for each
/// table.
pub proof fn lemma_debug_state_runs(tables: Tables, fuel: nat)
    requires
        fuel >= Table::all_tables().len(),
    ensures
        execute(TransactionView::debug_state(), tables, fuel) == Some(
            (tables.debug_state(), tables),
        ),
{
    lemma_dump_rest_runs(tables, Seq::empty(), fuel);
}

/// Reading a thread asks for no write.
pub proof fn lemma_get_thread_reads_only(tables: Tables, thread_id: u128, fuel: nat)
    requires
        fuel >= 1,
    ensures
        reads_only(TransactionView::get_thread(thread_id), tables, fuel),
{
    reveal_with_fuel(reads_only, 3);
}

/// Listing the threads asks for no write.
pub proof fn lemma_list_threads_reads_only(tables: Tables, fuel: nat)
    requires
        fuel >= 1,
    ensures
        reads_only(TransactionView::list_threads(), tables, fuel),
{
    reveal_with_fuel(reads_only, 3);
}

/// From any message on, reading a thread's messages asks for no write.
pub proof fn lemma_get_messages_rest_reads_only(
    tables: Tables,
    thread_id: u128,
    ids: Seq<u128>,
    at: int,
    found: Seq<MessageView>,
    limit: Option<usize>,
    offset: Option<usize>,
    fuel: nat,
)
    requires
        0 <= at <= ids.len(),
        fuel >= ids.len() - at,
    ensures
        reads_only(
            TransactionView::get_messages_next(thread_id, ids, at, found, limit, offset),
            tables,
            fuel,
        ),
    decreases ids.len() - at,
{
    reveal_with_fuel(reads_only, 2);
    if at < ids.len() {
        let next = match tables.get(Table::Messages, message_key(thread_id, ids[at])) {
            Some(RecordView::Message(message)) => found.push(message),
            _ => found,
        };
        lemma_get_messages_rest_reads_only(
            tables,
            thread_id,
            ids,
            at + 1,
            next,
            limit,
            offset,
            (fuel - 1) as nat,
        );
    }
}

/// Reading a page of a thread's messages asks for no write.
pub proof fn lemma_get_thread_messages_reads_only(
    tables: Tables,
    thread_id: u128,
    limit: Option<usize>,
    offset: Option<usize>,
    fuel: nat,
)
    requires
        fuel >= reads_to_get_messages(tables, thread_id),
    ensures
        reads_only(TransactionView::get_thread_messages(thread_id, limit, offset), tables, fuel),
{
    let key = thread_key(thread_id);
    reveal_with_fuel(reads_only, 3);
    if tables.has(Table::Threads, key) {
        match members_or_empty(tables.get(Table::ThreadMessages, key)) {
            None => {},
            Some(ids) => {
                lemma_get_messages_rest_reads_only(
                    tables,
                    thread_id,
                    ids,
                    0,
                    Seq::empty(),
                    limit,
                    offset,
                    (fuel - 2) as nat,
                );
            },
        }
    }
}

/// From any identifier on, reading threads with their embeddings asks for
/// no write.
pub proof fn lemma_with_embeddings_rest_reads_only(
    tables: Tables,
    ids: Seq<u128>,
    at: int,
    found: Seq<ThreadView>,
    fuel: nat,
)
    requires
        0 <= at <= ids.len(),
        fuel >= 2 * (ids.len() - at),
    ensures
        reads_only(TransactionView::with_embeddings_next(ids, at, found), tables, fuel),
    decreases ids.len() - at,
{
    reveal_with_fuel(reads_only, 3);
    if at < ids.len() {
        match tables.get(Table::Threads, thread_key(ids[at])) {
            None => {
                lemma_with_embeddings_rest_reads_only(tables, ids, at + 1, found, (fuel - 1) as nat);
            },
            Some(RecordView::Thread(thread)) => {
                match tables.get(Table::Embeddings, thread_key(ids[at])) {
                    None => {
                        lemma_with_embeddings_rest_reads_only(
                            tables,
                            ids,
                            at + 1,
                            found.push(thread),
                            (fuel - 2) as nat,
                        );
                    },
                    Some(RecordView::Embedding(embedding)) => {
                        lemma_with_embeddings_rest_reads_only(
                            tables,
                            ids,
                            at + 1,
                            found.push(ThreadView { embedding: Some(embedding), ..thread }),
                            (fuel - 2) as nat,
                        );
                    },
                    Some(_) => {},
                }
            },
            Some(_) => {},
        }
    }
}

/// Reading threads with their embeddings asks for no write.
pub proof fn lemma_get_threads_with_embeddings_reads_only(
    tables: Tables,
    ids: Seq<u128>,
    fuel: nat,
)
    requires
        fuel >= 2 * ids.len(),
    ensures
        reads_only(TransactionView::get_threads_with_embeddings(ids), tables, fuel),
{
    lemma_with_embeddings_rest_reads_only(tables, ids, 0, Seq::empty(), fuel);
}

/// After any number of tables, dumping the tables asks for no write.
pub proof fn lemma_dump_rest_reads_only(tables: Tables, collected: Seq<Seq<EntryView>>, fuel: nat)
    requires
        fuel + collected.len() >= Table::all_tables().len(),
    ensures
        reads_only(TransactionView::dump_next(collected), tables, fuel),
    decreases Table::all_tables().len() - collected.len(),
{
    reveal_with_fuel(reads_only, 2);
    if collected.len() < Table::all_tables().len() {
        lemma_dump_rest_reads_only(
            tables,
            collected.push(tables.entries(Table::all_tables()[collected.len() as int])),
            (fuel - 1) as nat,
        );
    }
}

/// Dumping the tables asks for no write.
pub proof fn lemma_debug_state_reads_only(tables: Tables, fuel: nat)
    requires
        fuel >= Table::all_tables().len(),
    ensures
        reads_only(TransactionView::debug_state(), tables, fuel),
{
    lemma_dump_rest_reads_only(tables, Seq::empty(), fuel);
}

} // verus!
