//! The operations of the durable engine, as transactions.
//!
//! A transaction is a state that awaits the answer to its latest read.
//! Starting an operation gives its first [`Step`]; [`Transaction::resume`]
//! gives each following one. The mathematics of both is in
//! [`TransactionView`].

use vstd::prelude::*;
use vstd::string::StringExecFns;
use crate::clock::{now_millis, now_seconds, seconds_of, seconds_of_millis};
use crate::content::{opt_text, Content, ContentView};
use crate::durable::protocol::{
    delete, entries_view, first, get, message_key, message_time_key, opt_key, opt_record, put,
    thread_key, thread_time_key, Entry, EntryView, Read, ReadView, Record, RecordView, Reply,
    ReplyView, Table, Write, WriteView,
};
use crate::durable::protocol::writes_view;
use crate::durable::step::{
    dump_view, no_writes, with_write, Outcome, OutcomeView, Step, StepView,
};
use crate::embedding::Embedding;
use crate::error::{DatabaseError, DatabaseErrorView};
use crate::id::{is_random_id, new_id};
use crate::keys::{HeedMessageCreationTimeId, HeedTimestampUuid, HeedUuid, HeedUuidTuple};
use crate::membership::{others, retain_others};
use crate::message::{
    messages_view, CreateMessage, Message, MessageView, ThreadMessagesResponse,
    ThreadMessagesResponseView, UpdateMessage,
};
use crate::pagination::{apply_pagination, effective_limit, effective_offset, page};
use crate::thread::{threads_view, Thread, ThreadView, UpdateThread};

verus! {

/// An operation in progress: what it awaits and what it has kept so far.
#[derive(Debug, PartialEq, Eq)]
#[allow(inconsistent_fields)]
pub enum Transaction {
    /// Creating a thread: awaits the record under the new identifier,
    /// which must be absent.
    CreateThreadVacancy { id: u128, seconds: u64 },
    /// Creating a thread: awaits the record just written.
    CreateThreadCheck { id: u128 },
    /// Deleting a thread: awaits the thread.
    DeleteThreadLookup { thread_id: u128 },
    /// Deleting a thread: awaits the list of its messages.
    DeleteThreadMembers { thread_id: u128 },
    /// Deleting a thread: awaits the creation-time entry found for message
    /// `ids[at]`.
    DeleteThreadMessageProbe { thread_id: u128, ids: Vec<u128>, at: usize },
    /// Deleting a thread: awaits the creation-time entry found for it.
    DeleteThreadProbe { thread_id: u128 },
    /// Creating a message: awaits the thread.
    CreateMessageLookup { message: Message },
    /// Creating a message: awaits the record under the new identifier,
    /// which must be absent.
    CreateMessageVacancy { message: Message },
    /// Creating a message: awaits the list of the thread's messages.
    CreateMessageMembers { message: Message },
    /// Updating a message: awaits the message.
    UpdateMessageLookup { thread_id: u128, message_id: u128, content: Content },
    /// Deleting a message: awaits the message.
    DeleteMessageLookup { thread_id: u128, message_id: u128 },
    /// Deleting a message: awaits the list of the thread's messages.
    DeleteMessageMembers { thread_id: u128, message_id: u128 },
    /// Deleting a message: awaits the creation-time entry found for it.
    DeleteMessageProbe { thread_id: u128, message_id: u128 },
    /// Setting summary and embedding: awaits the thread.
    UpdateSummaryLookup { thread_id: u128, summary: String, embedding: Embedding },
    /// Setting the title: awaits the thread.
    UpdateThreadLookup { thread_id: u128, title: Option<String> },
    /// Reading a thread: awaits it.
    GetThread,
    /// Listing the threads: awaits them.
    ListThreads,
    /// Reading a thread's messages: awaits the thread.
    GetMessagesLookup { thread_id: u128, limit: Option<usize>, offset: Option<usize> },
    /// Reading a thread's messages: awaits the list of them.
    GetMessagesMembers { thread_id: u128, limit: Option<usize>, offset: Option<usize> },
    /// Reading a thread's messages: awaits message `ids[at]`.
    GetMessagesFetch {
        thread_id: u128,
        ids: Vec<u128>,
        at: usize,
        found: Vec<Message>,
        limit: Option<usize>,
        offset: Option<usize>,
    },
    /// Reading threads with embeddings: awaits thread `ids[at]`.
    WithEmbeddingsThread { ids: Vec<u128>, at: usize, found: Vec<Thread> },
    /// Reading threads with embeddings: awaits the embedding of `thread`,
    /// which is thread `ids[at]`.
    WithEmbeddingsEmbedding { ids: Vec<u128>, at: usize, found: Vec<Thread>, thread: Thread },
    /// Dumping the tables: awaits the entries of the table that follows
    /// those collected.
    Dump { collected: Vec<Vec<Entry>> },
}

/// The mathematical value of a [`Transaction`].
#[allow(inconsistent_fields)]
pub enum TransactionView {
    CreateThreadVacancy { id: u128, seconds: u64 },
    CreateThreadCheck { id: u128 },
    DeleteThreadLookup { thread_id: u128 },
    DeleteThreadMembers { thread_id: u128 },
    DeleteThreadMessageProbe { thread_id: u128, ids: Seq<u128>, at: int },
    DeleteThreadProbe { thread_id: u128 },
    CreateMessageLookup { message: MessageView },
    CreateMessageVacancy { message: MessageView },
    CreateMessageMembers { message: MessageView },
    UpdateMessageLookup { thread_id: u128, message_id: u128, content: ContentView },
    DeleteMessageLookup { thread_id: u128, message_id: u128 },
    DeleteMessageMembers { thread_id: u128, message_id: u128 },
    DeleteMessageProbe { thread_id: u128, message_id: u128 },
    UpdateSummaryLookup { thread_id: u128, summary: Seq<char>, embedding: Seq<u32> },
    UpdateThreadLookup { thread_id: u128, title: Option<Seq<char>> },
    GetThread,
    ListThreads,
    GetMessagesLookup { thread_id: u128, limit: Option<usize>, offset: Option<usize> },
    GetMessagesMembers { thread_id: u128, limit: Option<usize>, offset: Option<usize> },
    GetMessagesFetch {
        thread_id: u128,
        ids: Seq<u128>,
        at: int,
        found: Seq<MessageView>,
        limit: Option<usize>,
        offset: Option<usize>,
    },
    WithEmbeddingsThread { ids: Seq<u128>, at: int, found: Seq<ThreadView> },
    WithEmbeddingsEmbedding { ids: Seq<u128>, at: int, found: Seq<ThreadView>, thread: ThreadView },
    Dump { collected: Seq<Seq<EntryView>> },
}

impl View for Transaction {
    type V = TransactionView;

    open spec fn view(&self) -> TransactionView {
        match *self {
            Transaction::CreateThreadVacancy { id, seconds } => TransactionView::CreateThreadVacancy {
                id,
                seconds,
            },
            Transaction::CreateThreadCheck { id } => TransactionView::CreateThreadCheck { id },
            Transaction::DeleteThreadLookup { thread_id } => TransactionView::DeleteThreadLookup {
                thread_id,
            },
            Transaction::DeleteThreadMembers { thread_id } => TransactionView::DeleteThreadMembers {
                thread_id,
            },
            Transaction::DeleteThreadMessageProbe {
                thread_id,
                ids,
                at,
            } => TransactionView::DeleteThreadMessageProbe { thread_id, ids: ids@, at: at as int },
            Transaction::DeleteThreadProbe { thread_id } => TransactionView::DeleteThreadProbe {
                thread_id,
            },
            Transaction::CreateMessageLookup { message } => TransactionView::CreateMessageLookup {
                message: message@,
            },
            Transaction::CreateMessageVacancy { message } => TransactionView::CreateMessageVacancy {
                message: message@,
            },
            Transaction::CreateMessageMembers { message } => TransactionView::CreateMessageMembers {
                message: message@,
            },
            Transaction::UpdateMessageLookup {
                thread_id,
                message_id,
                content,
            } => TransactionView::UpdateMessageLookup { thread_id, message_id, content: content@ },
            Transaction::DeleteMessageLookup {
                thread_id,
                message_id,
            } => TransactionView::DeleteMessageLookup { thread_id, message_id },
            Transaction::DeleteMessageMembers {
                thread_id,
                message_id,
            } => TransactionView::DeleteMessageMembers { thread_id, message_id },
            Transaction::DeleteMessageProbe {
                thread_id,
                message_id,
            } => TransactionView::DeleteMessageProbe { thread_id, message_id },
            Transaction::UpdateSummaryLookup {
                thread_id,
                summary,
                embedding,
            } => TransactionView::UpdateSummaryLookup {
                thread_id,
                summary: summary@,
                embedding: embedding@,
            },
            Transaction::UpdateThreadLookup { thread_id, title } => TransactionView::UpdateThreadLookup {
                thread_id,
                title: opt_text(title),
            },
            Transaction::GetThread => TransactionView::GetThread,
            Transaction::ListThreads => TransactionView::ListThreads,
            Transaction::GetMessagesLookup {
                thread_id,
                limit,
                offset,
            } => TransactionView::GetMessagesLookup { thread_id, limit, offset },
            Transaction::GetMessagesMembers {
                thread_id,
                limit,
                offset,
            } => TransactionView::GetMessagesMembers { thread_id, limit, offset },
            Transaction::GetMessagesFetch {
                thread_id,
                ids,
                at,
                found,
                limit,
                offset,
            } => TransactionView::GetMessagesFetch {
                thread_id,
                ids: ids@,
                at: at as int,
                found: messages_view(found@),
                limit,
                offset,
            },
            Transaction::WithEmbeddingsThread {
                ids,
                at,
                found,
            } => TransactionView::WithEmbeddingsThread {
                ids: ids@,
                at: at as int,
                found: threads_view(found@),
            },
            Transaction::WithEmbeddingsEmbedding {
                ids,
                at,
                found,
                thread,
            } => TransactionView::WithEmbeddingsEmbedding {
                ids: ids@,
                at: at as int,
                found: threads_view(found@),
                thread: thread@,
            },
            Transaction::Dump { collected } => TransactionView::Dump {
                collected: dump_view(collected@),
            },
        }
    }
}

/// The failure of a transaction that was resumed with an answer to
/// another read than its own.
pub open spec fn mismatch() -> StepView {
    StepView::fail(DatabaseErrorView::InternalError("reply does not answer the read"@))
}

/// The identifiers in a membership record, none where there is no
/// record; nothing where the record is of another kind.
pub open spec fn members_or_empty(record: Option<RecordView>) -> Option<Seq<u128>> {
    match record {
        None => Some(Seq::empty()),
        Some(RecordView::Members(ids)) => Some(ids),
        Some(_) => None,
    }
}

/// The threads among the records of `entries`, in order.
pub open spec fn threads_of(entries: Seq<EntryView>) -> Seq<ThreadView>
    decreases entries.len(),
{
    if entries.len() == 0 {
        Seq::empty()
    } else {
        match entries.last().record {
            RecordView::Thread(thread) => threads_of(entries.drop_last()).push(thread),
            _ => threads_of(entries.drop_last()),
        }
    }
}

/// What removing the creation-time entry of thread `thread_id` writes,
/// given the key that the probe found: a delete of that key if it is an
/// entry of the thread, and nothing otherwise. A key that is no entry at
/// all is a failure.
pub open spec fn prune_thread_time(found: Option<Seq<u8>>, thread_id: u128) -> Result<
    Seq<WriteView>,
    DatabaseErrorView,
> {
    match found {
        None => Ok(Seq::empty()),
        Some(key) => match HeedTimestampUuid::decoding(key) {
            None => Err(
                DatabaseErrorView::QueryError("Invalid byte length for HeedTimestampUuid"@),
            ),
            Some(entry) => if entry.0.1 == thread_id {
                Ok(
                    Seq::empty().push(
                        WriteView::Delete { table: Table::ThreadCreationTime, key },
                    ),
                )
            } else {
                Ok(Seq::empty())
            },
        },
    }
}

/// What removing the creation-time entry of message `message_id` of
/// thread `thread_id` writes, given the key that the probe found.
pub open spec fn prune_message_time(
    found: Option<Seq<u8>>,
    thread_id: u128,
    message_id: u128,
) -> Result<Seq<WriteView>, DatabaseErrorView> {
    match found {
        None => Ok(Seq::empty()),
        Some(key) => match HeedMessageCreationTimeId::decoding(key) {
            None => Err(
                DatabaseErrorView::QueryError("Invalid byte length for HeedMessageCreationTimeId"@),
            ),
            Some(entry) => if entry.0.0 == thread_id && entry.0.2 == message_id {
                Ok(
                    Seq::empty().push(
                        WriteView::Delete { table: Table::MessageCreationTime, key },
                    ),
                )
            } else {
                Ok(Seq::empty())
            },
        },
    }
}

/// The page of `found` that the bounds ask for, with the bounds applied.
pub open spec fn response(
    found: Seq<MessageView>,
    limit: Option<usize>,
    offset: Option<usize>,
) -> ThreadMessagesResponseView {
    ThreadMessagesResponseView {
        messages: page(found, effective_offset(offset), effective_limit(found.len(), limit)),
        total: found.len() as usize,
        offset: effective_offset(offset) as usize,
        limit: effective_limit(found.len(), limit) as usize,
    }
}

impl TransactionView {
    /// Creating a thread under `id` at `seconds`: first, see that the
    /// identifier is free.
    pub open spec fn create_thread(id: u128, seconds: u64) -> StepView {
        StepView::read(
            Seq::empty(),
            ReadView::Get { table: Table::Threads, key: thread_key(id) },
            TransactionView::CreateThreadVacancy { id, seconds },
        )
    }

    /// Deleting thread `thread_id`: first, see that it exists.
    pub open spec fn delete_thread(thread_id: u128) -> StepView {
        StepView::read(
            Seq::empty(),
            ReadView::Get { table: Table::Threads, key: thread_key(thread_id) },
            TransactionView::DeleteThreadLookup { thread_id },
        )
    }

    /// Creating `message`: first, see that its thread exists.
    pub open spec fn create_message(message: MessageView) -> StepView {
        StepView::read(
            Seq::empty(),
            ReadView::Get { table: Table::Threads, key: thread_key(message.thread_id) },
            TransactionView::CreateMessageLookup { message },
        )
    }

    /// Replacing the content of a message: first, read the message.
    pub open spec fn update_message(
        thread_id: u128,
        message_id: u128,
        content: ContentView,
    ) -> StepView {
        StepView::read(
            Seq::empty(),
            ReadView::Get { table: Table::Messages, key: message_key(thread_id, message_id) },
            TransactionView::UpdateMessageLookup { thread_id, message_id, content },
        )
    }

    /// Deleting a message: first, see that it exists.
    pub open spec fn delete_message(thread_id: u128, message_id: u128) -> StepView {
        StepView::read(
            Seq::empty(),
            ReadView::Get { table: Table::Messages, key: message_key(thread_id, message_id) },
            TransactionView::DeleteMessageLookup { thread_id, message_id },
        )
    }

    /// Setting summary and embedding of a thread: first, read the thread.
    pub open spec fn update_thread_summary_and_embedding(
        thread_id: u128,
        summary: Seq<char>,
        embedding: Seq<u32>,
    ) -> StepView {
        StepView::read(
            Seq::empty(),
            ReadView::Get { table: Table::Threads, key: thread_key(thread_id) },
            TransactionView::UpdateSummaryLookup { thread_id, summary, embedding },
        )
    }

    /// Setting the title of a thread: first, read the thread.
    pub open spec fn update_thread(thread_id: u128, title: Option<Seq<char>>) -> StepView {
        StepView::read(
            Seq::empty(),
            ReadView::Get { table: Table::Threads, key: thread_key(thread_id) },
            TransactionView::UpdateThreadLookup { thread_id, title },
        )
    }

    /// Reading thread `thread_id`.
    pub open spec fn get_thread(thread_id: u128) -> StepView {
        StepView::read(
            Seq::empty(),
            ReadView::Get { table: Table::Threads, key: thread_key(thread_id) },
            TransactionView::GetThread,
        )
    }

    /// Listing the threads.
    pub open spec fn list_threads() -> StepView {
        StepView::read(
            Seq::empty(),
            ReadView::All { table: Table::Threads },
            TransactionView::ListThreads,
        )
    }

    /// Reading a page of a thread's messages: first, see that the thread
    /// exists.
    pub open spec fn get_thread_messages(
        thread_id: u128,
        limit: Option<usize>,
        offset: Option<usize>,
    ) -> StepView {
        StepView::read(
            Seq::empty(),
            ReadView::Get { table: Table::Threads, key: thread_key(thread_id) },
            TransactionView::GetMessagesLookup { thread_id, limit, offset },
        )
    }

    /// Reading the threads that `ids` name, each with its embedding.
    pub open spec fn get_threads_with_embeddings(ids: Seq<u128>) -> StepView {
        Self::with_embeddings_next(ids, 0, Seq::empty())
    }

    /// Dumping every table.
    pub open spec fn debug_state() -> StepView {
        Self::dump_next(Seq::empty())
    }

    /// Deleting a thread, from message `ids[at]` on: after `writes`,
    /// delete the message and probe for its creation-time entry; after the
    /// last message, probe for the thread's own.
    pub open spec fn delete_thread_next(
        thread_id: u128,
        ids: Seq<u128>,
        at: int,
        writes: Seq<WriteView>,
    ) -> StepView {
        if 0 <= at < ids.len() {
            StepView::read(
                writes.push(
                    WriteView::Delete {
                        table: Table::Messages,
                        key: message_key(thread_id, ids[at]),
                    },
                ),
                ReadView::First {
                    table: Table::MessageCreationTime,
                    from: message_time_key(thread_id, 0, ids[at]),
                },
                TransactionView::DeleteThreadMessageProbe { thread_id, ids, at },
            )
        } else {
            StepView::read(
                writes,
                ReadView::First {
                    table: Table::ThreadCreationTime,
                    from: thread_time_key(0, thread_id),
                },
                TransactionView::DeleteThreadProbe { thread_id },
            )
        }
    }

    /// Reading a thread's messages, from message `ids[at]` on: read it;
    /// after the last, return the page asked for of those found.
    pub open spec fn get_messages_next(
        thread_id: u128,
        ids: Seq<u128>,
        at: int,
        found: Seq<MessageView>,
        limit: Option<usize>,
        offset: Option<usize>,
    ) -> StepView {
        if 0 <= at < ids.len() {
            StepView::read(
                Seq::empty(),
                ReadView::Get { table: Table::Messages, key: message_key(thread_id, ids[at]) },
                TransactionView::GetMessagesFetch { thread_id, ids, at, found, limit, offset },
            )
        } else {
            StepView::succeed(Seq::empty(), OutcomeView::Messages(response(found, limit, offset)))
        }
    }

    /// Reading threads with embeddings, from thread `ids[at]` on: read it;
    /// after the last, return those found.
    pub open spec fn with_embeddings_next(
        ids: Seq<u128>,
        at: int,
        found: Seq<ThreadView>,
    ) -> StepView {
        if 0 <= at < ids.len() {
            StepView::read(
                Seq::empty(),
                ReadView::Get { table: Table::Threads, key: thread_key(ids[at]) },
                TransactionView::WithEmbeddingsThread { ids, at, found },
            )
        } else {
            StepView::succeed(Seq::empty(), OutcomeView::Threads(found))
        }
    }

    /// Dumping the tables, after those `collected`: read the next; after
    /// the last, return them all.
    pub open spec fn dump_next(collected: Seq<Seq<EntryView>>) -> StepView {
        if collected.len() < Table::all_tables().len() {
            StepView::read(
                Seq::empty(),
                ReadView::All { table: Table::all_tables()[collected.len() as int] },
                TransactionView::Dump { collected },
            )
        } else {
            StepView::succeed(Seq::empty(), OutcomeView::Dump(collected))
        }
    }

    /// The step after the store answered the read with `record`.
    pub open spec fn on_record(self, record: Option<RecordView>) -> StepView {
        match self {
            TransactionView::CreateThreadVacancy { id, seconds } => match record {
                Some(_) => StepView::fail(
                    DatabaseErrorView::InternalError("thread identifier already in use"@),
                ),
                None => StepView::read(
                    Seq::empty().push(
                        WriteView::Put {
                            table: Table::Threads,
                            key: thread_key(id),
                            record: RecordView::Thread(ThreadView::fresh(id)),
                        },
                    ).push(
                        WriteView::Put {
                            table: Table::ThreadMessages,
                            key: thread_key(id),
                            record: RecordView::Members(Seq::empty()),
                        },
                    ).push(
                        WriteView::Put {
                            table: Table::ThreadCreationTime,
                            key: thread_time_key(seconds, id),
                            record: RecordView::Marker,
                        },
                    ),
                    ReadView::Get { table: Table::Threads, key: thread_key(id) },
                    TransactionView::CreateThreadCheck { id },
                ),
            },
            TransactionView::CreateThreadCheck { id } => match record {
                Some(_) => StepView::succeed(
                    Seq::empty(),
                    OutcomeView::Thread(ThreadView::fresh(id)),
                ),
                None => StepView::fail(
                    DatabaseErrorView::OperationFailed("Thread not found after insertion"@),
                ),
            },
            TransactionView::DeleteThreadLookup { thread_id } => match record {
                None => StepView::fail(DatabaseErrorView::NotFound),
                Some(_) => StepView::read(
                    Seq::empty(),
                    ReadView::Get { table: Table::ThreadMessages, key: thread_key(thread_id) },
                    TransactionView::DeleteThreadMembers { thread_id },
                ),
            },
            TransactionView::DeleteThreadMembers { thread_id } => match members_or_empty(record) {
                None => mismatch(),
                Some(ids) => Self::delete_thread_next(
                    thread_id,
                    ids,
                    0,
                    Seq::empty().push(
                        WriteView::Delete { table: Table::Threads, key: thread_key(thread_id) },
                    ).push(
                        WriteView::Delete {
                            table: Table::ThreadMessages,
                            key: thread_key(thread_id),
                        },
                    ).push(
                        WriteView::Delete { table: Table::Embeddings, key: thread_key(thread_id) },
                    ),
                ),
            },
            TransactionView::CreateMessageLookup { message } => match record {
                None => StepView::fail(DatabaseErrorView::NotFound),
                Some(_) => StepView::read(
                    Seq::empty(),
                    ReadView::Get {
                        table: Table::Messages,
                        key: message_key(message.thread_id, message.id),
                    },
                    TransactionView::CreateMessageVacancy { message },
                ),
            },
            TransactionView::CreateMessageVacancy { message } => match record {
                Some(_) => StepView::fail(
                    DatabaseErrorView::InternalError("message identifier already in use"@),
                ),
                None => StepView::read(
                    Seq::empty().push(
                        WriteView::Put {
                            table: Table::Messages,
                            key: message_key(message.thread_id, message.id),
                            record: RecordView::Message(message),
                        },
                    ),
                    ReadView::Get {
                        table: Table::ThreadMessages,
                        key: thread_key(message.thread_id),
                    },
                    TransactionView::CreateMessageMembers { message },
                ),
            },
            TransactionView::CreateMessageMembers { message } => match members_or_empty(record) {
                None => mismatch(),
                Some(ids) => StepView::succeed(
                    Seq::empty().push(
                        WriteView::Put {
                            table: Table::ThreadMessages,
                            key: thread_key(message.thread_id),
                            record: RecordView::Members(ids.push(message.id)),
                        },
                    ).push(
                        WriteView::Put {
                            table: Table::MessageCreationTime,
                            key: message_time_key(
                                message.thread_id,
                                seconds_of(message.created_at),
                                message.id,
                            ),
                            record: RecordView::Marker,
                        },
                    ),
                    OutcomeView::Message(message),
                ),
            },
            TransactionView::UpdateMessageLookup { thread_id, message_id, content } => match record {
                None => StepView::fail(DatabaseErrorView::NotFound),
                Some(RecordView::Message(message)) => StepView::succeed(
                    Seq::empty().push(
                        WriteView::Put {
                            table: Table::Messages,
                            key: message_key(thread_id, message_id),
                            record: RecordView::Message(message.with_content(content)),
                        },
                    ),
                    OutcomeView::Message(message.with_content(content)),
                ),
                Some(_) => mismatch(),
            },
            TransactionView::DeleteMessageLookup { thread_id, message_id } => match record {
                None => StepView::fail(DatabaseErrorView::NotFound),
                Some(_) => StepView::read(
                    Seq::empty().push(
                        WriteView::Delete {
                            table: Table::Messages,
                            key: message_key(thread_id, message_id),
                        },
                    ),
                    ReadView::Get { table: Table::ThreadMessages, key: thread_key(thread_id) },
                    TransactionView::DeleteMessageMembers { thread_id, message_id },
                ),
            },
            TransactionView::DeleteMessageMembers {
                thread_id,
                message_id,
            } => match members_or_empty(record) {
                None => mismatch(),
                Some(ids) => StepView::read(
                    Seq::empty().push(
                        WriteView::Put {
                            table: Table::ThreadMessages,
                            key: thread_key(thread_id),
                            record: RecordView::Members(others(ids, message_id)),
                        },
                    ),
                    ReadView::First {
                        table: Table::MessageCreationTime,
                        from: message_time_key(thread_id, 0, message_id),
                    },
                    TransactionView::DeleteMessageProbe { thread_id, message_id },
                ),
            },
            TransactionView::UpdateSummaryLookup { thread_id, summary, embedding } => match record {
                None => StepView::fail(DatabaseErrorView::NotFound),
                Some(RecordView::Thread(thread)) => StepView::succeed(
                    Seq::empty().push(
                        WriteView::Put {
                            table: Table::Threads,
                            key: thread_key(thread_id),
                            record: RecordView::Thread(
                                ThreadView { summary: Some(summary), embedding: None, ..thread },
                            ),
                        },
                    ).push(
                        WriteView::Put {
                            table: Table::Embeddings,
                            key: thread_key(thread_id),
                            record: RecordView::Embedding(embedding),
                        },
                    ),
                    OutcomeView::Done,
                ),
                Some(_) => mismatch(),
            },
            TransactionView::UpdateThreadLookup { thread_id, title } => match record {
                None => StepView::fail(DatabaseErrorView::NotFound),
                Some(RecordView::Thread(thread)) => StepView::succeed(
                    Seq::empty().push(
                        WriteView::Put {
                            table: Table::Threads,
                            key: thread_key(thread_id),
                            record: RecordView::Thread(
                                ThreadView { title, embedding: None, ..thread },
                            ),
                        },
                    ),
                    OutcomeView::Thread(ThreadView { title, embedding: None, ..thread }),
                ),
                Some(_) => mismatch(),
            },
            TransactionView::GetThread => match record {
                None => StepView::fail(DatabaseErrorView::NotFound),
                Some(RecordView::Thread(thread)) => StepView::succeed(
                    Seq::empty(),
                    OutcomeView::Thread(thread),
                ),
                Some(_) => mismatch(),
            },
            TransactionView::GetMessagesLookup { thread_id, limit, offset } => match record {
                None => StepView::fail(DatabaseErrorView::NotFound),
                Some(_) => StepView::read(
                    Seq::empty(),
                    ReadView::Get { table: Table::ThreadMessages, key: thread_key(thread_id) },
                    TransactionView::GetMessagesMembers { thread_id, limit, offset },
                ),
            },
            TransactionView::GetMessagesMembers {
                thread_id,
                limit,
                offset,
            } => match members_or_empty(record) {
                None => mismatch(),
                Some(ids) => Self::get_messages_next(thread_id, ids, 0, Seq::empty(), limit, offset),
            },
            TransactionView::GetMessagesFetch {
                thread_id,
                ids,
                at,
                found,
                limit,
                offset,
            } => match record {
                Some(RecordView::Message(message)) => Self::get_messages_next(
                    thread_id,
                    ids,
                    at + 1,
                    found.push(message),
                    limit,
                    offset,
                ),
                _ => Self::get_messages_next(thread_id, ids, at + 1, found, limit, offset),
            },
            TransactionView::WithEmbeddingsThread { ids, at, found } => match record {
                None => Self::with_embeddings_next(ids, at + 1, found),
                Some(RecordView::Thread(thread)) => if 0 <= at < ids.len() {
                    StepView::read(
                        Seq::empty(),
                        ReadView::Get { table: Table::Embeddings, key: thread_key(ids[at]) },
                        TransactionView::WithEmbeddingsEmbedding { ids, at, found, thread },
                    )
                } else {
                    mismatch()
                },
                Some(_) => mismatch(),
            },
            TransactionView::WithEmbeddingsEmbedding { ids, at, found, thread } => match record {
                None => Self::with_embeddings_next(ids, at + 1, found.push(thread)),
                Some(RecordView::Embedding(embedding)) => Self::with_embeddings_next(
                    ids,
                    at + 1,
                    found.push(ThreadView { embedding: Some(embedding), ..thread }),
                ),
                Some(_) => mismatch(),
            },
            _ => mismatch(),
        }
    }

    /// The step after the store answered the probe with `key`.
    pub open spec fn on_key(self, key: Option<Seq<u8>>) -> StepView {
        match self {
            TransactionView::DeleteThreadMessageProbe { thread_id, ids, at } => if 0 <= at
                < ids.len() {
                match prune_message_time(key, thread_id, ids[at]) {
                    Err(error) => StepView::fail(error),
                    Ok(writes) => Self::delete_thread_next(thread_id, ids, at + 1, writes),
                }
            } else {
                mismatch()
            },
            TransactionView::DeleteThreadProbe { thread_id } => match prune_thread_time(
                key,
                thread_id,
            ) {
                Err(error) => StepView::fail(error),
                Ok(writes) => StepView::succeed(writes, OutcomeView::Done),
            },
            TransactionView::DeleteMessageProbe { thread_id, message_id } => match prune_message_time(
                key,
                thread_id,
                message_id,
            ) {
                Err(error) => StepView::fail(error),
                Ok(writes) => StepView::succeed(writes, OutcomeView::Done),
            },
            _ => mismatch(),
        }
    }

    /// The step after the store answered the read with all of `entries`.
    pub open spec fn on_entries(self, entries: Seq<EntryView>) -> StepView {
        match self {
            TransactionView::ListThreads => StepView::succeed(
                Seq::empty(),
                OutcomeView::Threads(threads_of(entries)),
            ),
            TransactionView::Dump { collected } => Self::dump_next(collected.push(entries)),
            _ => mismatch(),
        }
    }

    /// The step after the store answered with `reply`.
    ///
    /// A failed write ends the operation with `OperationFailed` and a
    /// failed read with `QueryError`, but for the read of one message of a
    /// page, which counts as a message that is not there.
    pub open spec fn resume(self, reply: ReplyView) -> StepView {
        match reply {
            ReplyView::WriteFailed(detail) => StepView::fail(
                DatabaseErrorView::OperationFailed(detail),
            ),
            ReplyView::ReadFailed(detail) => if self is GetMessagesFetch {
                self.on_record(None)
            } else {
                StepView::fail(DatabaseErrorView::QueryError(detail))
            },
            ReplyView::Record(record) => self.on_record(record),
            ReplyView::Key(key) => self.on_key(key),
            ReplyView::Entries(entries) => self.on_entries(entries),
        }
    }
}

/// The failure of a transaction that was resumed with an answer to
/// another read than its own.
fn mismatch_step() -> (step: Step)
    ensures
        step@ == mismatch(),
{
    Step::fail(DatabaseError::InternalError(String::from_str("reply does not answer the read")))
}

/// The identifiers in a membership record, none where there is no record;
/// nothing where the record is of another kind.
fn members_of(record: Option<Record>) -> (ids: Option<Vec<u128>>)
    ensures
        match ids {
            Some(ids) => members_or_empty(opt_record(record)) == Some(ids@),
            None => members_or_empty(opt_record(record)) is None,
        },
{
    match record {
        None => Some(Vec::new()),
        Some(Record::Members(ids)) => Some(ids),
        Some(_) => None,
    }
}

/// The threads among the records of `entries`, in order.
fn threads_among(entries: &Vec<Entry>) -> (threads: Vec<Thread>)
    ensures
        threads_view(threads@) == threads_of(entries_view(entries@)),
{
    let ghost all = entries_view(entries@);
    let mut threads: Vec<Thread> = Vec::new();
    let mut i: usize = 0;
    while i < entries.len()
        invariant
            i <= entries.len(),
            all == entries_view(entries@),
            threads_view(threads@) == threads_of(all.take(i as int)),
        decreases entries.len() - i,
    {
        proof {
            assert(all.take(i as int + 1).drop_last() =~= all.take(i as int));
        }
        let ghost before = threads@;
        match &entries[i].record {
            Record::Thread(thread) => {
                threads.push(thread.clone());
                assert(threads_view(threads@) =~= threads_view(before).push(thread@));
            },
            _ => {},
        }
        i += 1;
    }
    assert(all.take(entries.len() as int) =~= all);
    threads
}

/// The writes that remove the creation-time entry of thread `thread_id`,
/// given the key that the probe found.
fn prune_thread_entry(found: Option<Vec<u8>>, thread_id: u128) -> (r: Result<
    Vec<Write>,
    DatabaseError,
>)
    ensures
        match r {
            Ok(writes) => prune_thread_time(opt_key(found), thread_id) == Ok::<
                Seq<WriteView>,
                DatabaseErrorView,
            >(writes_view(writes@)),
            Err(error) => prune_thread_time(opt_key(found), thread_id) == Err::<
                Seq<WriteView>,
                DatabaseErrorView,
            >(error@),
        },
{
    match found {
        None => Ok(no_writes()),
        Some(key) => match HeedTimestampUuid::bytes_decode(key.as_slice()) {
            Err(_) => Err(
                DatabaseError::QueryError(
                    String::from_str("Invalid byte length for HeedTimestampUuid"),
                ),
            ),
            Ok(entry) => if entry.0.1 == thread_id {
                Ok(with_write(no_writes(), delete(Table::ThreadCreationTime, key)))
            } else {
                Ok(no_writes())
            },
        },
    }
}

/// The writes that remove the creation-time entry of message `message_id`
/// of thread `thread_id`, given the key that the probe found.
fn prune_message_entry(found: Option<Vec<u8>>, thread_id: u128, message_id: u128) -> (r: Result<
    Vec<Write>,
    DatabaseError,
>)
    ensures
        match r {
            Ok(writes) => prune_message_time(opt_key(found), thread_id, message_id) == Ok::<
                Seq<WriteView>,
                DatabaseErrorView,
            >(writes_view(writes@)),
            Err(error) => prune_message_time(opt_key(found), thread_id, message_id) == Err::<
                Seq<WriteView>,
                DatabaseErrorView,
            >(error@),
        },
{
    match found {
        None => Ok(no_writes()),
        Some(key) => match HeedMessageCreationTimeId::bytes_decode(key.as_slice()) {
            Err(_) => Err(
                DatabaseError::QueryError(
                    String::from_str("Invalid byte length for HeedMessageCreationTimeId"),
                ),
            ),
            Ok(entry) => if entry.0.0 == thread_id && entry.0.2 == message_id {
                Ok(with_write(no_writes(), delete(Table::MessageCreationTime, key)))
            } else {
                Ok(no_writes())
            },
        },
    }
}

/// Deleting a thread, from message `ids[at]` on.
fn delete_thread_from(thread_id: u128, ids: Vec<u128>, at: usize, writes: Vec<Write>) -> (step:
    Step)
    ensures
        step@ == TransactionView::delete_thread_next(
            thread_id,
            ids@,
            at as int,
            writes_view(writes@),
        ),
{
    if at < ids.len() {
        let id: u128 = ids[at];
        let writes = with_write(
            writes,
            delete(Table::Messages, HeedUuidTuple((thread_id, id)).bytes_encode()),
        );
        let probe = HeedMessageCreationTimeId((thread_id, 0, id)).bytes_encode();
        Step::read(
            writes,
            first(Table::MessageCreationTime, probe),
            Transaction::DeleteThreadMessageProbe { thread_id, ids, at },
        )
    } else {
        let probe = HeedTimestampUuid((0, thread_id)).bytes_encode();
        Step::read(
            writes,
            first(Table::ThreadCreationTime, probe),
            Transaction::DeleteThreadProbe { thread_id },
        )
    }
}

/// Reading a thread's messages, from message `ids[at]` on.
fn get_messages_from(
    thread_id: u128,
    ids: Vec<u128>,
    at: usize,
    found: Vec<Message>,
    limit: Option<usize>,
    offset: Option<usize>,
) -> (step: Step)
    ensures
        step@ == TransactionView::get_messages_next(
            thread_id,
            ids@,
            at as int,
            messages_view(found@),
            limit,
            offset,
        ),
{
    if at < ids.len() {
        let key = HeedUuidTuple((thread_id, ids[at])).bytes_encode();
        Step::read(
            no_writes(),
            get(Table::Messages, key),
            Transaction::GetMessagesFetch { thread_id, ids, at, found, limit, offset },
        )
    } else {
        let ghost all = found@;
        let (messages, total, offset, limit) = apply_pagination(found, limit, offset);
        assert(messages_view(messages@) =~= page(
            messages_view(all),
            offset as nat,
            limit as nat,
        ));
        Step::succeed(
            no_writes(),
            Outcome::Messages(ThreadMessagesResponse { messages, total, offset, limit }),
        )
    }
}

/// Reading threads with embeddings, from thread `ids[at]` on.
fn with_embeddings_from(ids: Vec<u128>, at: usize, found: Vec<Thread>) -> (step: Step)
    ensures
        step@ == TransactionView::with_embeddings_next(ids@, at as int, threads_view(found@)),
{
    if at < ids.len() {
        let key = HeedUuid(ids[at]).bytes_encode();
        Step::read(
            no_writes(),
            get(Table::Threads, key),
            Transaction::WithEmbeddingsThread { ids, at, found },
        )
    } else {
        Step::succeed(no_writes(), Outcome::Threads(found))
    }
}

/// Dumping the tables, after those `collected`.
fn dump_from(collected: Vec<Vec<Entry>>) -> (step: Step)
    ensures
        step@ == TransactionView::dump_next(dump_view(collected@)),
{
    let tables = Table::all();
    if collected.len() < tables.len() {
        let table = tables[collected.len()];
        Step::read(no_writes(), Read::All { table }, Transaction::Dump { collected })
    } else {
        Step::succeed(no_writes(), Outcome::Dump(collected))
    }
}

/// The position after `at` in a list of `len`, or `len` where `at` is no
/// position of the list.
fn position_after(at: usize, len: usize) -> (next: usize)
    ensures
        next == if at < len {
            at + 1
        } else {
            len as int
        },
{
    if at < len {
        at + 1
    } else {
        len
    }
}

impl Transaction {
    /// Starts the creation of a thread under a fresh random identifier,
    /// at the current time.
    pub fn create_thread() -> (step: Step)
        ensures
            exists|id: u128, seconds: u64|
                is_random_id(id) && step@ == #[trigger] TransactionView::create_thread(id, seconds),
    {
        let id = new_id();
        let seconds = now_seconds();
        Self::create_thread_at(id, seconds)
    }

    /// Starts the creation of a thread under `id` at `seconds`.
    pub fn create_thread_at(id: u128, seconds: u64) -> (step: Step)
        ensures
            step@ == TransactionView::create_thread(id, seconds),
    {
        Step::read(
            no_writes(),
            get(Table::Threads, HeedUuid(id).bytes_encode()),
            Transaction::CreateThreadVacancy { id, seconds },
        )
    }

    /// Starts the deletion of thread `thread_id` with all its messages.
    pub fn delete_thread(thread_id: u128) -> (step: Step)
        ensures
            step@ == TransactionView::delete_thread(thread_id),
    {
        Step::read(
            no_writes(),
            get(Table::Threads, HeedUuid(thread_id).bytes_encode()),
            Transaction::DeleteThreadLookup { thread_id },
        )
    }

    /// Starts the creation of a message in thread `thread_id` under a
    /// fresh random identifier, stamped with the current time.
    pub fn create_message(thread_id: u128, input: CreateMessage) -> (step: Step)
        ensures
            exists|id: u128, created_at: u64|
                is_random_id(id) && step@ == TransactionView::create_message(
                    #[trigger] input.message(thread_id, id, created_at),
                ),
    {
        let id = new_id();
        let created_at = now_millis();
        let step = Self::create_message_at(thread_id, input, id, created_at);
        assert(step@ == TransactionView::create_message(input.message(thread_id, id, created_at)));
        step
    }

    /// Starts the creation of a message in thread `thread_id` under `id`,
    /// stamped `created_at`.
    pub fn create_message_at(thread_id: u128, input: CreateMessage, id: u128, created_at: u64) -> (step:
        Step)
        ensures
            step@ == TransactionView::create_message(input.message(thread_id, id, created_at)),
    {
        let message = input.into_message_at(thread_id, id, created_at);
        Step::read(
            no_writes(),
            get(Table::Threads, HeedUuid(thread_id).bytes_encode()),
            Transaction::CreateMessageLookup { message },
        )
    }

    /// Starts the replacement of the content of message `message_id` of
    /// thread `thread_id`.
    pub fn update_message(thread_id: u128, message_id: u128, content: UpdateMessage) -> (step: Step)
        ensures
            step@ == TransactionView::update_message(thread_id, message_id, content.content@),
    {
        Step::read(
            no_writes(),
            get(Table::Messages, HeedUuidTuple((thread_id, message_id)).bytes_encode()),
            Transaction::UpdateMessageLookup { thread_id, message_id, content: content.content },
        )
    }

    /// Starts the deletion of message `message_id` of thread `thread_id`.
    pub fn delete_message(thread_id: u128, message_id: u128) -> (step: Step)
        ensures
            step@ == TransactionView::delete_message(thread_id, message_id),
    {
        Step::read(
            no_writes(),
            get(Table::Messages, HeedUuidTuple((thread_id, message_id)).bytes_encode()),
            Transaction::DeleteMessageLookup { thread_id, message_id },
        )
    }

    /// Starts setting the summary and the embedding of thread `thread_id`.
    pub fn update_thread_summary_and_embedding(
        thread_id: u128,
        summary: String,
        embedding: Embedding,
    ) -> (step: Step)
        ensures
            step@ == TransactionView::update_thread_summary_and_embedding(
                thread_id,
                summary@,
                embedding@,
            ),
    {
        Step::read(
            no_writes(),
            get(Table::Threads, HeedUuid(thread_id).bytes_encode()),
            Transaction::UpdateSummaryLookup { thread_id, summary, embedding },
        )
    }

    /// Starts setting the title of thread `thread_id`.
    pub fn update_thread(thread_id: u128, update: UpdateThread) -> (step: Step)
        ensures
            step@ == TransactionView::update_thread(thread_id, opt_text(update.title)),
    {
        Step::read(
            no_writes(),
            get(Table::Threads, HeedUuid(thread_id).bytes_encode()),
            Transaction::UpdateThreadLookup { thread_id, title: update.title },
        )
    }

    /// Starts reading thread `thread_id`.
    pub fn get_thread(thread_id: u128) -> (step: Step)
        ensures
            step@ == TransactionView::get_thread(thread_id),
    {
        Step::read(
            no_writes(),
            get(Table::Threads, HeedUuid(thread_id).bytes_encode()),
            Transaction::GetThread,
        )
    }

    /// Starts listing the threads.
    pub fn list_threads() -> (step: Step)
        ensures
            step@ == TransactionView::list_threads(),
    {
        Step::read(no_writes(), Read::All { table: Table::Threads }, Transaction::ListThreads)
    }

    /// Starts reading one page of the messages of thread `thread_id`.
    pub fn get_thread_messages(thread_id: u128, limit: Option<usize>, offset: Option<usize>) -> (step:
        Step)
        ensures
            step@ == TransactionView::get_thread_messages(thread_id, limit, offset),
    {
        Step::read(
            no_writes(),
            get(Table::Threads, HeedUuid(thread_id).bytes_encode()),
            Transaction::GetMessagesLookup { thread_id, limit, offset },
        )
    }

    /// Starts reading the threads that `thread_ids` name, each with its
    /// embedding.
    pub fn get_threads_with_embeddings(thread_ids: &[u128]) -> (step: Step)
        ensures
            step@ == TransactionView::get_threads_with_embeddings(thread_ids@),
    {
        let mut ids: Vec<u128> = Vec::new();
        let mut i: usize = 0;
        while i < thread_ids.len()
            invariant
                i <= thread_ids.len(),
                ids@ == thread_ids@.take(i as int),
            decreases thread_ids.len() - i,
        {
            ids.push(thread_ids[i]);
            assert(ids@ =~= thread_ids@.take(i as int + 1));
            i += 1;
        }
        assert(thread_ids@.take(thread_ids.len() as int) =~= thread_ids@);
        let found: Vec<Thread> = Vec::new();
        assert(threads_view(found@) =~= Seq::<ThreadView>::empty());
        with_embeddings_from(ids, 0, found)
    }

    /// Starts dumping every table.
    pub fn debug_state() -> (step: Step)
        ensures
            step@ == TransactionView::debug_state(),
    {
        let collected: Vec<Vec<Entry>> = Vec::new();
        assert(dump_view(collected@) =~= Seq::<Seq<EntryView>>::empty());
        dump_from(collected)
    }

    /// The step after the store answered with `reply`.
    pub fn resume(self, reply: Reply) -> (step: Step)
        ensures
            step@ == self@.resume(reply@),
    {
        match reply {
            Reply::WriteFailed(detail) => Step::fail(DatabaseError::OperationFailed(detail)),
            Reply::ReadFailed(detail) => match self {
                Transaction::GetMessagesFetch { .. } => self.on_record(None),
                _ => Step::fail(DatabaseError::QueryError(detail)),
            },
            Reply::Record(record) => self.on_record(record),
            Reply::Key(key) => self.on_key(key),
            Reply::Entries(entries) => self.on_entries(entries),
        }
    }

    fn on_record(self, record: Option<Record>) -> (step: Step)
        ensures
            step@ == self@.on_record(opt_record(record)),
    {
        match self {
            Transaction::CreateThreadVacancy { id, seconds } => match record {
                Some(_) => Step::fail(
                    DatabaseError::InternalError(
                        String::from_str("thread identifier already in use"),
                    ),
                ),
                None => {
                    let writes = with_write(
                        no_writes(),
                        put(
                            Table::Threads,
                            HeedUuid(id).bytes_encode(),
                            Record::Thread(Thread::with_id(id)),
                        ),
                    );
                    let writes = with_write(
                        writes,
                        put(
                            Table::ThreadMessages,
                            HeedUuid(id).bytes_encode(),
                            Record::Members(Vec::new()),
                        ),
                    );
                    let writes = with_write(
                        writes,
                        put(
                            Table::ThreadCreationTime,
                            HeedTimestampUuid((seconds, id)).bytes_encode(),
                            Record::Marker,
                        ),
                    );
                    Step::read(
                        writes,
                        get(Table::Threads, HeedUuid(id).bytes_encode()),
                        Transaction::CreateThreadCheck { id },
                    )
                },
            },
            Transaction::CreateThreadCheck { id } => match record {
                Some(_) => Step::succeed(no_writes(), Outcome::Thread(Thread::with_id(id))),
                None => Step::fail(
                    DatabaseError::OperationFailed(
                        String::from_str("Thread not found after insertion"),
                    ),
                ),
            },
            Transaction::DeleteThreadLookup { thread_id } => match record {
                None => Step::fail(DatabaseError::NotFound),
                Some(_) => Step::read(
                    no_writes(),
                    get(Table::ThreadMessages, HeedUuid(thread_id).bytes_encode()),
                    Transaction::DeleteThreadMembers { thread_id },
                ),
            },
            Transaction::DeleteThreadMembers { thread_id } => match members_of(record) {
                None => mismatch_step(),
                Some(ids) => {
                    let writes = with_write(
                        no_writes(),
                        delete(Table::Threads, HeedUuid(thread_id).bytes_encode()),
                    );
                    let writes = with_write(
                        writes,
                        delete(Table::ThreadMessages, HeedUuid(thread_id).bytes_encode()),
                    );
                    let writes = with_write(
                        writes,
                        delete(Table::Embeddings, HeedUuid(thread_id).bytes_encode()),
                    );
                    delete_thread_from(thread_id, ids, 0, writes)
                },
            },
            Transaction::CreateMessageLookup { message } => match record {
                None => Step::fail(DatabaseError::NotFound),
                Some(_) => {
                    let key = HeedUuidTuple((message.thread_id, message.id)).bytes_encode();
                    Step::read(
                        no_writes(),
                        get(Table::Messages, key),
                        Transaction::CreateMessageVacancy { message },
                    )
                },
            },
            Transaction::CreateMessageVacancy { message } => match record {
                Some(_) => Step::fail(
                    DatabaseError::InternalError(
                        String::from_str("message identifier already in use"),
                    ),
                ),
                None => {
                    let key = HeedUuidTuple((message.thread_id, message.id)).bytes_encode();
                    let writes = with_write(
                        no_writes(),
                        put(Table::Messages, key, Record::Message(message.clone())),
                    );
                    Step::read(
                        writes,
                        get(Table::ThreadMessages, HeedUuid(message.thread_id).bytes_encode()),
                        Transaction::CreateMessageMembers { message },
                    )
                },
            },
            Transaction::CreateMessageMembers { message } => match members_of(record) {
                None => mismatch_step(),
                Some(ids) => {
                    let mut ids = ids;
                    ids.push(message.id);
                    let writes = with_write(
                        no_writes(),
                        put(
                            Table::ThreadMessages,
                            HeedUuid(message.thread_id).bytes_encode(),
                            Record::Members(ids),
                        ),
                    );
                    let key = HeedMessageCreationTimeId(
                        (message.thread_id, seconds_of_millis(message.created_at), message.id),
                    ).bytes_encode();
                    let writes = with_write(
                        writes,
                        put(Table::MessageCreationTime, key, Record::Marker),
                    );
                    Step::succeed(writes, Outcome::Message(message))
                },
            },
            Transaction::UpdateMessageLookup { thread_id, message_id, content } => match record {
                None => Step::fail(DatabaseError::NotFound),
                Some(Record::Message(message)) => {
                    let mut message = message;
                    message.update_content(UpdateMessage { content });
                    let key = HeedUuidTuple((thread_id, message_id)).bytes_encode();
                    let writes = with_write(
                        no_writes(),
                        put(Table::Messages, key, Record::Message(message.clone())),
                    );
                    Step::succeed(writes, Outcome::Message(message))
                },
                Some(_) => mismatch_step(),
            },
            Transaction::DeleteMessageLookup { thread_id, message_id } => match record {
                None => Step::fail(DatabaseError::NotFound),
                Some(_) => {
                    let key = HeedUuidTuple((thread_id, message_id)).bytes_encode();
                    let writes = with_write(no_writes(), delete(Table::Messages, key));
                    Step::read(
                        writes,
                        get(Table::ThreadMessages, HeedUuid(thread_id).bytes_encode()),
                        Transaction::DeleteMessageMembers { thread_id, message_id },
                    )
                },
            },
            Transaction::DeleteMessageMembers { thread_id, message_id } => match members_of(
                record,
            ) {
                None => mismatch_step(),
                Some(ids) => {
                    let kept = retain_others(ids, message_id);
                    let writes = with_write(
                        no_writes(),
                        put(
                            Table::ThreadMessages,
                            HeedUuid(thread_id).bytes_encode(),
                            Record::Members(kept),
                        ),
                    );
                    let probe = HeedMessageCreationTimeId(
                        (thread_id, 0, message_id),
                    ).bytes_encode();
                    Step::read(
                        writes,
                        first(Table::MessageCreationTime, probe),
                        Transaction::DeleteMessageProbe { thread_id, message_id },
                    )
                },
            },
            Transaction::UpdateSummaryLookup { thread_id, summary, embedding } => match record {
                None => Step::fail(DatabaseError::NotFound),
                Some(Record::Thread(thread)) => {
                    let mut thread = thread;
                    thread.set_summary(summary);
                    thread.embedding = None;
                    let writes = with_write(
                        no_writes(),
                        put(
                            Table::Threads,
                            HeedUuid(thread_id).bytes_encode(),
                            Record::Thread(thread),
                        ),
                    );
                    let writes = with_write(
                        writes,
                        put(
                            Table::Embeddings,
                            HeedUuid(thread_id).bytes_encode(),
                            Record::Embedding(embedding),
                        ),
                    );
                    Step::succeed(writes, Outcome::Done)
                },
                Some(_) => mismatch_step(),
            },
            Transaction::UpdateThreadLookup { thread_id, title } => match record {
                None => Step::fail(DatabaseError::NotFound),
                Some(Record::Thread(thread)) => {
                    let mut thread = thread;
                    thread.set_title(title);
                    thread.embedding = None;
                    let writes = with_write(
                        no_writes(),
                        put(
                            Table::Threads,
                            HeedUuid(thread_id).bytes_encode(),
                            Record::Thread(thread.clone()),
                        ),
                    );
                    Step::succeed(writes, Outcome::Thread(thread))
                },
                Some(_) => mismatch_step(),
            },
            Transaction::GetThread => match record {
                None => Step::fail(DatabaseError::NotFound),
                Some(Record::Thread(thread)) => Step::succeed(no_writes(), Outcome::Thread(thread)),
                Some(_) => mismatch_step(),
            },
            Transaction::GetMessagesLookup { thread_id, limit, offset } => match record {
                None => Step::fail(DatabaseError::NotFound),
                Some(_) => Step::read(
                    no_writes(),
                    get(Table::ThreadMessages, HeedUuid(thread_id).bytes_encode()),
                    Transaction::GetMessagesMembers { thread_id, limit, offset },
                ),
            },
            Transaction::GetMessagesMembers { thread_id, limit, offset } => match members_of(
                record,
            ) {
                None => mismatch_step(),
                Some(ids) => {
                    let found: Vec<Message> = Vec::new();
                    assert(messages_view(found@) =~= Seq::<MessageView>::empty());
                    get_messages_from(thread_id, ids, 0, found, limit, offset)
                },
            },
            Transaction::GetMessagesFetch { thread_id, ids, at, found, limit, offset } => {
                let next = position_after(at, ids.len());
                let mut found = found;
                match record {
                    Some(Record::Message(message)) => {
                        let ghost before = found@;
                        found.push(message);
                        assert(messages_view(found@) =~= messages_view(before).push(message@));
                    },
                    _ => {},
                }
                get_messages_from(thread_id, ids, next, found, limit, offset)
            },
            Transaction::WithEmbeddingsThread { ids, at, found } => match record {
                None => {
                    let next = position_after(at, ids.len());
                    with_embeddings_from(ids, next, found)
                },
                Some(Record::Thread(thread)) => if at < ids.len() {
                    let key = HeedUuid(ids[at]).bytes_encode();
                    Step::read(
                        no_writes(),
                        get(Table::Embeddings, key),
                        Transaction::WithEmbeddingsEmbedding { ids, at, found, thread },
                    )
                } else {
                    mismatch_step()
                },
                Some(_) => mismatch_step(),
            },
            Transaction::WithEmbeddingsEmbedding { ids, at, found, thread } => {
                let next = position_after(at, ids.len());
                let mut found = found;
                let mut thread = thread;
                let ghost before = found@;
                match record {
                    None => {
                        found.push(thread);
                        assert(threads_view(found@) =~= threads_view(before).push(thread@));
                        with_embeddings_from(ids, next, found)
                    },
                    Some(Record::Embedding(embedding)) => {
                        thread.set_embedding(embedding);
                        found.push(thread);
                        assert(threads_view(found@) =~= threads_view(before).push(thread@));
                        with_embeddings_from(ids, next, found)
                    },
                    Some(_) => mismatch_step(),
                }
            },
            _ => mismatch_step(),
        }
    }

    fn on_key(self, key: Option<Vec<u8>>) -> (step: Step)
        ensures
            step@ == self@.on_key(opt_key(key)),
    {
        match self {
            Transaction::DeleteThreadMessageProbe { thread_id, ids, at } => if at < ids.len() {
                match prune_message_entry(key, thread_id, ids[at]) {
                    Err(error) => Step::fail(error),
                    Ok(writes) => delete_thread_from(thread_id, ids, at + 1, writes),
                }
            } else {
                mismatch_step()
            },
            Transaction::DeleteThreadProbe { thread_id } => match prune_thread_entry(
                key,
                thread_id,
            ) {
                Err(error) => Step::fail(error),
                Ok(writes) => Step::succeed(writes, Outcome::Done),
            },
            Transaction::DeleteMessageProbe { thread_id, message_id } => match prune_message_entry(
                key,
                thread_id,
                message_id,
            ) {
                Err(error) => Step::fail(error),
                Ok(writes) => Step::succeed(writes, Outcome::Done),
            },
            _ => mismatch_step(),
        }
    }

    fn on_entries(self, entries: Vec<Entry>) -> (step: Step)
        ensures
            step@ == self@.on_entries(entries_view(entries@)),
    {
        match self {
            Transaction::ListThreads => Step::succeed(
                no_writes(),
                Outcome::Threads(threads_among(&entries)),
            ),
            Transaction::Dump { collected } => {
                let mut collected = collected;
                let ghost before = collected@;
                collected.push(entries);
                assert(dump_view(collected@) =~= dump_view(before).push(entries_view(entries@)));
                dump_from(collected)
            },
            _ => mismatch_step(),
        }
    }
}

} // verus!
