//! What a transaction asks of the store and what the store answers.

use vstd::prelude::*;
use crate::embedding::Embedding;
use crate::membership::clone_ids;
use crate::keys::{HeedMessageCreationTimeId, HeedTimestampUuid, HeedUuid, HeedUuidTuple};
use crate::message::{Message, MessageView};
use crate::thread::{Thread, ThreadView};

verus! {

/// The six tables of the store.
#[derive(Clone, Copy, Debug, PartialEq, Eq, Structural)]
pub enum Table {
    /// Thread records, by thread.
    Threads,
    /// Message records, by owning thread and message.
    Messages,
    /// The identifiers of each thread's messages in creation order, by
    /// thread.
    ThreadMessages,
    /// Embeddings, by thread.
    Embeddings,
    /// Presence markers by creation time and thread.
    ThreadCreationTime,
    /// Presence markers by owning thread, creation time and message.
    MessageCreationTime,
}

impl Table {
    /// The name under which the store keeps the table.
    pub open spec fn name_text(self) -> Seq<char> {
        match self {
            Table::Threads => "threads"@,
            Table::Messages => "messages"@,
            Table::ThreadMessages => "thread_messages"@,
            Table::Embeddings => "embeddings"@,
            Table::ThreadCreationTime => "thread_creation_time"@,
            Table::MessageCreationTime => "message_creation_time"@,
        }
    }

    /// The name under which the store keeps the table.
    pub fn name(&self) -> (name: &'static str)
        ensures
            name@ == self.name_text(),
    {
        match self {
            Table::Threads => "threads",
            Table::Messages => "messages",
            Table::ThreadMessages => "thread_messages",
            Table::Embeddings => "embeddings",
            Table::ThreadCreationTime => "thread_creation_time",
            Table::MessageCreationTime => "message_creation_time",
        }
    }

    /// The tables in the order in which the store provides them.
    pub open spec fn all_tables() -> Seq<Table> {
        seq![
            Table::Threads,
            Table::Messages,
            Table::ThreadMessages,
            Table::Embeddings,
            Table::ThreadCreationTime,
            Table::MessageCreationTime,
        ]
    }

    /// Every table once, in the order in which the store provides them.
    pub fn all() -> (tables: Vec<Table>)
        ensures
            tables@ == Self::all_tables(),
    {
        let mut tables: Vec<Table> = Vec::with_capacity(6);
        tables.push(Table::Threads);
        tables.push(Table::Messages);
        tables.push(Table::ThreadMessages);
        tables.push(Table::Embeddings);
        tables.push(Table::ThreadCreationTime);
        tables.push(Table::MessageCreationTime);
        assert(tables@ =~= Self::all_tables());
        tables
    }
}

/// What a table holds under a key.
#[derive(Debug, PartialEq, Eq)]
pub enum Record {
    /// In `Threads`: the thread, without its embedding.
    Thread(Thread),
    /// In `Messages`.
    Message(Message),
    /// In `ThreadMessages`.
    Members(Vec<u128>),
    /// In `Embeddings`.
    Embedding(Embedding),
    /// In the two creation-time tables: the key alone says everything.
    Marker,
}

/// The mathematical value of a [`Record`].
pub enum RecordView {
    Thread(ThreadView),
    Message(MessageView),
    Members(Seq<u128>),
    Embedding(Seq<u32>),
    Marker,
}

impl View for Record {
    type V = RecordView;

    open spec fn view(&self) -> RecordView {
        match *self {
            Record::Thread(thread) => RecordView::Thread(thread@),
            Record::Message(message) => RecordView::Message(message@),
            Record::Members(ids) => RecordView::Members(ids@),
            Record::Embedding(embedding) => RecordView::Embedding(embedding@),
            Record::Marker => RecordView::Marker,
        }
    }
}

impl Clone for Record {
    fn clone(&self) -> (r: Self)
        ensures
            r@ == self@,
    {
        match self {
            Record::Thread(thread) => Record::Thread(thread.clone()),
            Record::Message(message) => Record::Message(message.clone()),
            Record::Members(ids) => Record::Members(clone_ids(ids)),
            Record::Embedding(embedding) => Record::Embedding(embedding.clone()),
            Record::Marker => Record::Marker,
        }
    }
}

impl RecordView {
    /// True when the record is of the kind that `table` holds.
    pub open spec fn fits(self, table: Table) -> bool {
        match table {
            Table::Threads => self is Thread,
            Table::Messages => self is Message,
            Table::ThreadMessages => self is Members,
            Table::Embeddings => self is Embedding,
            Table::ThreadCreationTime => self is Marker,
            Table::MessageCreationTime => self is Marker,
        }
    }
}

/// A read of one table.
#[derive(Debug, PartialEq, Eq)]
pub enum Read {
    /// The record under `key`, if there is one.
    Get { table: Table, key: Vec<u8> },
    /// The least key of the table that is not below `from` in byte order,
    /// if there is one.
    First { table: Table, from: Vec<u8> },
    /// Every key of the table with its record.
    All { table: Table },
}

/// The mathematical value of a [`Read`].
pub enum ReadView {
    Get { table: Table, key: Seq<u8> },
    First { table: Table, from: Seq<u8> },
    All { table: Table },
}

impl View for Read {
    type V = ReadView;

    open spec fn view(&self) -> ReadView {
        match *self {
            Read::Get { table, key } => ReadView::Get { table, key: key@ },
            Read::First { table, from } => ReadView::First { table, from: from@ },
            Read::All { table } => ReadView::All { table },
        }
    }
}

/// A write to one table.
#[derive(Debug, PartialEq, Eq)]
pub enum Write {
    /// Stores `record` under `key`, in place of what was there.
    Put { table: Table, key: Vec<u8>, record: Record },
    /// Removes what is under `key`, if anything is.
    Delete { table: Table, key: Vec<u8> },
}

/// The mathematical value of a [`Write`].
pub enum WriteView {
    Put { table: Table, key: Seq<u8>, record: RecordView },
    Delete { table: Table, key: Seq<u8> },
}

impl View for Write {
    type V = WriteView;

    open spec fn view(&self) -> WriteView {
        match *self {
            Write::Put { table, key, record } => WriteView::Put { table, key: key@, record: record@ },
            Write::Delete { table, key } => WriteView::Delete { table, key: key@ },
        }
    }
}

/// The values of a list of writes, in order.
pub open spec fn writes_view(writes: Seq<Write>) -> Seq<WriteView> {
    Seq::new(writes.len(), |i: int| writes[i]@)
}

/// One key of a table with its record.
#[derive(Debug, PartialEq, Eq)]
pub struct Entry {
    pub key: Vec<u8>,
    pub record: Record,
}

/// The mathematical value of an [`Entry`].
pub struct EntryView {
    pub key: Seq<u8>,
    pub record: RecordView,
}

impl View for Entry {
    type V = EntryView;

    open spec fn view(&self) -> EntryView {
        EntryView { key: self.key@, record: self.record@ }
    }
}

/// The values of a list of entries, in order.
pub open spec fn entries_view(entries: Seq<Entry>) -> Seq<EntryView> {
    Seq::new(entries.len(), |i: int| entries[i]@)
}

/// What the store answers to the writes and the read of one step.
#[derive(Debug, PartialEq, Eq)]
pub enum Reply {
    /// To `Get`.
    Record(Option<Record>),
    /// To `First`.
    Key(Option<Vec<u8>>),
    /// To `All`.
    Entries(Vec<Entry>),
    /// One of the writes failed; the read was not made.
    WriteFailed(String),
    /// The writes were applied and the read failed.
    ReadFailed(String),
}

/// The mathematical value of a [`Reply`].
pub enum ReplyView {
    Record(Option<RecordView>),
    Key(Option<Seq<u8>>),
    Entries(Seq<EntryView>),
    WriteFailed(Seq<char>),
    ReadFailed(Seq<char>),
}

/// The value of an optional record.
pub open spec fn opt_record(record: Option<Record>) -> Option<RecordView> {
    match record {
        Some(r) => Some(r@),
        None => None,
    }
}

/// The value of an optional key.
pub open spec fn opt_key(key: Option<Vec<u8>>) -> Option<Seq<u8>> {
    match key {
        Some(k) => Some(k@),
        None => None,
    }
}

impl View for Reply {
    type V = ReplyView;

    open spec fn view(&self) -> ReplyView {
        match *self {
            Reply::Record(record) => ReplyView::Record(opt_record(record)),
            Reply::Key(key) => ReplyView::Key(opt_key(key)),
            Reply::Entries(entries) => ReplyView::Entries(entries_view(entries@)),
            Reply::WriteFailed(detail) => ReplyView::WriteFailed(detail@),
            Reply::ReadFailed(detail) => ReplyView::ReadFailed(detail@),
        }
    }
}

/// The key of thread `id` in `Threads`, `ThreadMessages` and `Embeddings`.
pub open spec fn thread_key(id: u128) -> Seq<u8> {
    HeedUuid(id).encoding()
}

/// The key of message `message_id` of thread `thread_id` in `Messages`.
pub open spec fn message_key(thread_id: u128, message_id: u128) -> Seq<u8> {
    HeedUuidTuple((thread_id, message_id)).encoding()
}

/// The key in `ThreadCreationTime` of thread `id` created at `seconds`.
pub open spec fn thread_time_key(seconds: u64, id: u128) -> Seq<u8> {
    HeedTimestampUuid((seconds, id)).encoding()
}

/// The key in `MessageCreationTime` of message `message_id` of thread
/// `thread_id` created at `seconds`.
pub open spec fn message_time_key(thread_id: u128, seconds: u64, message_id: u128) -> Seq<u8> {
    HeedMessageCreationTimeId((thread_id, seconds, message_id)).encoding()
}

/// A read of the record under `key`.
pub fn get(table: Table, key: Vec<u8>) -> (read: Read)
    ensures
        read@ == (ReadView::Get { table, key: key@ }),
{
    Read::Get { table, key }
}

/// A read of the least key not below `from`.
pub fn first(table: Table, from: Vec<u8>) -> (read: Read)
    ensures
        read@ == (ReadView::First { table, from: from@ }),
{
    Read::First { table, from }
}

/// A write of `record` under `key`.
pub fn put(table: Table, key: Vec<u8>, record: Record) -> (write: Write)
    ensures
        write@ == (WriteView::Put { table, key: key@, record: record@ }),
{
    Write::Put { table, key, record }
}

/// A write that removes what is under `key`.
pub fn delete(table: Table, key: Vec<u8>) -> (write: Write)
    ensures
        write@ == (WriteView::Delete { table, key: key@ }),
{
    Write::Delete { table, key }
}

} // verus!
