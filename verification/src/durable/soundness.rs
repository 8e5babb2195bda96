//! What the tables hold in every state that the operations can reach.

use vstd::prelude::*;
use crate::clock::seconds_of;
use crate::content::ContentView;
use crate::durable::protocol::{
    message_key, message_time_key, thread_key, thread_time_key, RecordView, Table, WriteView,
};
use crate::durable::step::OutcomeView;
use crate::durable::tables::Tables;
use crate::error::DatabaseErrorView;
use crate::keys::{HeedMessageCreationTimeId, HeedTimestampUuid, HeedUuid, HeedUuidTuple};
use crate::membership::{lemma_others_contains, lemma_others_no_duplicates, others};
use crate::message::MessageView;
use crate::thread::ThreadView;

verus! {

/// The length of every key of `table`.
pub open spec fn key_width(table: Table) -> nat {
    match table {
        Table::Threads => 16,
        Table::Messages => 32,
        Table::ThreadMessages => 16,
        Table::Embeddings => 16,
        Table::ThreadCreationTime => 24,
        Table::MessageCreationTime => 40,
    }
}

/// Different threads, messages and times have different keys, and every
/// key has the length of its table.
pub proof fn lemma_keys_distinct()
    ensures
        forall|a: u128, b: u128|
            #![trigger thread_key(a), thread_key(b)]
            thread_key(a) == thread_key(b) ==> a == b,
        forall|a: u128, b: u128, c: u128, d: u128|
            #![trigger message_key(a, b), message_key(c, d)]
            message_key(a, b) == message_key(c, d) ==> a == c && b == d,
        forall|s: u64, a: u128|
            #![trigger thread_time_key(s, a)]
            HeedTimestampUuid::decoding(thread_time_key(s, a)) == Some(HeedTimestampUuid((s, a))),
        forall|a: u128, s: u64, b: u128|
            #![trigger message_time_key(a, s, b)]
            HeedMessageCreationTimeId::decoding(message_time_key(a, s, b)) == Some(
                HeedMessageCreationTimeId((a, s, b)),
            ),
        forall|a: u128| #![trigger thread_key(a)] thread_key(a).len() == 16,
        forall|a: u128, b: u128| #![trigger message_key(a, b)] message_key(a, b).len() == 32,
        forall|s: u64, a: u128| #![trigger thread_time_key(s, a)] thread_time_key(s, a).len() == 24,
        forall|a: u128, s: u64, b: u128|
            #![trigger message_time_key(a, s, b)]
            message_time_key(a, s, b).len() == 40,
{
    assert forall|a: u128, b: u128|
        #![trigger thread_key(a), thread_key(b)]
        thread_key(a) == thread_key(b) implies a == b by {
        HeedUuid(a).lemma_encoding_order(HeedUuid(b));
    }
    assert forall|a: u128, b: u128, c: u128, d: u128|
        #![trigger message_key(a, b), message_key(c, d)]
        message_key(a, b) == message_key(c, d) implies a == c && b == d by {
        HeedUuidTuple((a, b)).lemma_round_trip(message_key(c, d));
        HeedUuidTuple((c, d)).lemma_round_trip(message_key(a, b));
    }
    assert forall|s: u64, a: u128|
        #![trigger thread_time_key(s, a)]
        HeedTimestampUuid::decoding(thread_time_key(s, a)) == Some(HeedTimestampUuid((s, a))) by {
        HeedTimestampUuid((s, a)).lemma_round_trip(Seq::empty());
    }
    assert forall|a: u128, s: u64, b: u128|
        #![trigger message_time_key(a, s, b)]
        HeedMessageCreationTimeId::decoding(message_time_key(a, s, b)) == Some(
            HeedMessageCreationTimeId((a, s, b)),
        ) by {
        HeedMessageCreationTimeId((a, s, b)).lemma_round_trip(Seq::empty());
    }
    assert forall|a: u128| #![trigger thread_key(a)] thread_key(a).len() == 16 by {
        HeedUuid(a).lemma_encoding_len();
    }
    assert forall|a: u128, b: u128| #![trigger message_key(a, b)] message_key(a, b).len() == 32 by {
        HeedUuidTuple((a, b)).lemma_encoding_len();
    }
    assert forall|s: u64, a: u128|
        #![trigger thread_time_key(s, a)]
        thread_time_key(s, a).len() == 24 by {
        HeedTimestampUuid((s, a)).lemma_encoding_len();
    }
    assert forall|a: u128, s: u64, b: u128|
        #![trigger message_time_key(a, s, b)]
        message_time_key(a, s, b).len() == 40 by {
        HeedMessageCreationTimeId((a, s, b)).lemma_encoding_len();
    }
}

impl Tables {
    /// The record of thread `id`, if the tables hold the thread.
    pub open spec fn thread(self, id: u128) -> Option<ThreadView> {
        match self.get(Table::Threads, thread_key(id)) {
            Some(RecordView::Thread(thread)) => Some(thread),
            _ => None,
        }
    }

    /// The identifiers of the messages of thread `id` in creation order;
    /// none if the tables hold no list for the thread.
    pub open spec fn members(self, id: u128) -> Seq<u128> {
        match self.get(Table::ThreadMessages, thread_key(id)) {
            Some(RecordView::Members(ids)) => ids,
            _ => Seq::empty(),
        }
    }

    /// The record of message `message_id` of thread `thread_id`, if the
    /// tables hold the message.
    pub open spec fn message(self, thread_id: u128, message_id: u128) -> Option<MessageView> {
        match self.get(Table::Messages, message_key(thread_id, message_id)) {
            Some(RecordView::Message(message)) => Some(message),
            _ => None,
        }
    }

    /// The embedding of thread `id`, if the tables hold one.
    pub open spec fn embedding(self, id: u128) -> Option<Seq<u32>> {
        match self.get(Table::Embeddings, thread_key(id)) {
            Some(RecordView::Embedding(embedding)) => Some(embedding),
            _ => None,
        }
    }

    /// Every key has the length of its table and every record the kind of
    /// its table.
    pub open spec fn well_typed(self) -> bool {
        forall|table: Table, key: Seq<u8>|
            #![trigger self.has(table, key)]
            self.has(table, key) ==> key.len() == key_width(table) && self.records[(
                table,
                key,
            )].fits(table)
    }

    /// What holds of thread `id` if the tables hold it: its record is
    /// under its own identifier and carries no embedding, and it has a list
    /// of messages and a creation-time entry.
    pub open spec fn thread_sound(self, id: u128) -> bool {
        &&& self.thread(id) matches Some(thread) && thread.id == id && thread.embedding is None
        &&& self.has(Table::ThreadMessages, thread_key(id))
        &&& exists|seconds: u64|
            self.has(Table::ThreadCreationTime, #[trigger] thread_time_key(seconds, id))
    }

    /// What holds of the list of messages of thread `id` if the tables hold
    /// one: the thread exists, and the list names messages of the thread
    /// that the tables hold, each once.
    pub open spec fn members_sound(self, id: u128) -> bool {
        &&& self.has(Table::Threads, thread_key(id))
        &&& self.members(id).no_duplicates()
        &&& forall|i: int|
            0 <= i < self.members(id).len() ==> self.has(
                Table::Messages,
                message_key(id, #[trigger] self.members(id)[i]),
            )
    }

    /// What holds of message `message_id` of thread `thread_id` if the
    /// tables hold it: its record is under its own identifiers, its thread
    /// exists and lists it, and it has its creation-time entry.
    pub open spec fn message_sound(self, thread_id: u128, message_id: u128) -> bool {
        &&& self.message(thread_id, message_id) matches Some(message) && message.thread_id
            == thread_id && message.id == message_id && self.has(
            Table::MessageCreationTime,
            message_time_key(thread_id, seconds_of(message.created_at), message_id),
        )
        &&& self.has(Table::Threads, thread_key(thread_id))
        &&& self.members(thread_id).contains(message_id)
    }

    /// The invariant of the tables.
    pub open spec fn wf(self) -> bool {
        &&& self.records.dom().finite()
        &&& self.well_typed()
        &&& forall|id: u128|
            #![trigger self.has(Table::Threads, thread_key(id))]
            self.has(Table::Threads, thread_key(id)) ==> self.thread_sound(id)
        &&& forall|id: u128|
            #![trigger self.has(Table::ThreadMessages, thread_key(id))]
            self.has(Table::ThreadMessages, thread_key(id)) ==> self.members_sound(id)
        &&& forall|id: u128|
            #![trigger self.has(Table::Embeddings, thread_key(id))]
            self.has(Table::Embeddings, thread_key(id)) ==> self.has(
                Table::Threads,
                thread_key(id),
            )
        &&& forall|thread_id: u128, message_id: u128|
            #![trigger self.has(Table::Messages, message_key(thread_id, message_id))]
            self.has(Table::Messages, message_key(thread_id, message_id)) ==> self.message_sound(
                thread_id,
                message_id,
            )
    }

    /// The empty tables satisfy the invariant.
    pub proof fn lemma_empty_wf()
        ensures
            Tables::empty().wf(),
    {
    }

    /// Creating a thread keeps the invariant.
    pub proof fn lemma_create_thread_wf(self, id: u128, seconds: u64)
        requires
            self.wf(),
        ensures
            self.create_thread(id, seconds).1.wf(),
    {
        lemma_keys_distinct();
        let after = self.create_thread(id, seconds).1;
        if !self.has(Table::Threads, thread_key(id)) {
            assert(after.records.dom().finite());
            assert forall|table: Table, key: Seq<u8>|
                #![trigger after.has(table, key)]
                after.has(table, key) implies key.len() == key_width(table) && after.records[(
                table,
                key,
            )].fits(table) by {
                if !self.has(table, key) {
                } else {
                    assert(self.records[(table, key)].fits(table));
                }
            }
            assert forall|other: u128|
                #![trigger after.has(Table::Threads, thread_key(other))]
                after.has(Table::Threads, thread_key(other)) implies after.thread_sound(other) by {
                if other == id {
                    assert(after.has(Table::ThreadCreationTime, thread_time_key(seconds, id)));
                } else {
                    assert(self.has(Table::Threads, thread_key(other)));
                    let s = choose|s: u64|
                        self.has(Table::ThreadCreationTime, #[trigger] thread_time_key(s, other));
                    assert(after.has(Table::ThreadCreationTime, thread_time_key(s, other)));
                }
            }
            assert forall|other: u128|
                #![trigger after.has(Table::ThreadMessages, thread_key(other))]
                after.has(Table::ThreadMessages, thread_key(other)) implies after.members_sound(
                other,
            ) by {
                if other != id {
                    assert(self.has(Table::ThreadMessages, thread_key(other)));
                    assert(self.members_sound(other));
                    assert(after.members(other) == self.members(other));
                }
            }
            assert forall|t: u128, m: u128|
                #![trigger after.has(Table::Messages, message_key(t, m))]
                after.has(Table::Messages, message_key(t, m)) implies after.message_sound(t, m) by {
                assert(self.has(Table::Messages, message_key(t, m)));
                assert(self.message_sound(t, m));
                assert(after.members(t) == self.members(t));
            }
            assert forall|other: u128|
                #![trigger after.has(Table::Embeddings, thread_key(other))]
                after.has(Table::Embeddings, thread_key(other)) implies after.has(
                Table::Threads,
                thread_key(other),
            ) by {
                assert(self.has(Table::Embeddings, thread_key(other)));
            }
        }
    }

    /// Creating a message keeps the invariant, and fails only for want of
    /// the thread or because the identifier is in use.
    pub proof fn lemma_create_message_wf(self, message: MessageView)
        requires
            self.wf(),
        ensures
            self.create_message(message).1.wf(),
            match self.create_message(message).0 {
                Ok(outcome) => self.has(Table::Threads, thread_key(message.thread_id)) && !self.has(
                    Table::Messages,
                    message_key(message.thread_id, message.id),
                ),
                Err(DatabaseErrorView::NotFound) => !self.has(
                    Table::Threads,
                    thread_key(message.thread_id),
                ),
                Err(_) => self.has(Table::Threads, thread_key(message.thread_id)) && self.has(
                    Table::Messages,
                    message_key(message.thread_id, message.id),
                ),
            },
    {
        lemma_keys_distinct();
        let owner = message.thread_id;
        let thread = thread_key(owner);
        let key = message_key(owner, message.id);
        let after = self.create_message(message).1;
        if self.has(Table::Threads, thread) && !self.has(Table::Messages, key) {
            assert(self.thread_sound(owner));
            assert(self.members_sound(owner));
            assert(self.records[(Table::ThreadMessages, thread)].fits(Table::ThreadMessages));
            let ids = self.members(owner);
            let time = message_time_key(owner, seconds_of(message.created_at), message.id);
            let a = WriteView::Put { table: Table::Messages, key, record: RecordView::Message(message) };
            let b = WriteView::Put {
                table: Table::ThreadMessages,
                key: thread,
                record: RecordView::Members(ids.push(message.id)),
            };
            let c = WriteView::Put {
                table: Table::MessageCreationTime,
                key: time,
                record: RecordView::Marker,
            };
            self.lemma_write_typed(a);
            self.apply(a).lemma_write_typed(b);
            self.apply(a).apply(b).lemma_write_typed(c);
            assert(after == self.apply(a).apply(b).apply(c));
            assert(after.members(owner) == ids.push(message.id));
            assert forall|other: u128|
                #![trigger after.has(Table::Threads, thread_key(other))]
                after.has(Table::Threads, thread_key(other)) implies after.thread_sound(other) by {
                assert(self.has(Table::Threads, thread_key(other)));
                let s = choose|s: u64|
                    self.has(Table::ThreadCreationTime, #[trigger] thread_time_key(s, other));
                assert(after.has(Table::ThreadCreationTime, thread_time_key(s, other)));
            }
            assert forall|other: u128|
                #![trigger after.has(Table::ThreadMessages, thread_key(other))]
                after.has(Table::ThreadMessages, thread_key(other)) implies after.members_sound(
                other,
            ) by {
                assert(self.has(Table::ThreadMessages, thread_key(other)));
                assert(self.members_sound(other));
                if other == owner {
                    assert forall|i: int, j: int|
                        0 <= i < ids.len() + 1 && 0 <= j < ids.len() + 1 && i != j implies ids.push(
                        message.id,
                    )[i] != ids.push(message.id)[j] by {
                        if i < ids.len() {
                            assert(self.has(Table::Messages, message_key(owner, ids[i])));
                        }
                        if j < ids.len() {
                            assert(self.has(Table::Messages, message_key(owner, ids[j])));
                        }
                    }
                    assert forall|i: int| 0 <= i < after.members(owner).len() implies after.has(
                        Table::Messages,
                        message_key(owner, #[trigger] after.members(owner)[i]),
                    ) by {
                        if i < ids.len() {
                            assert(self.has(Table::Messages, message_key(owner, ids[i])));
                        }
                    }
                } else {
                    assert(after.members(other) == self.members(other));
                    assert forall|i: int| 0 <= i < after.members(other).len() implies after.has(
                        Table::Messages,
                        message_key(other, #[trigger] after.members(other)[i]),
                    ) by {
                        assert(self.has(Table::Messages, message_key(other, self.members(other)[i])));
                    }
                }
            }
            assert forall|other: u128|
                #![trigger after.has(Table::Embeddings, thread_key(other))]
                after.has(Table::Embeddings, thread_key(other)) implies after.has(
                Table::Threads,
                thread_key(other),
            ) by {
                assert(self.has(Table::Embeddings, thread_key(other)));
            }
            assert forall|t: u128, m: u128|
                #![trigger after.has(Table::Messages, message_key(t, m))]
                after.has(Table::Messages, message_key(t, m)) implies after.message_sound(t, m) by {
                if t == owner && m == message.id {
                    assert(after.members(owner)[ids.len() as int] == m);
                } else {
                    assert(self.has(Table::Messages, message_key(t, m)));
                    assert(self.message_sound(t, m));
                    if t == owner {
                        let j = choose|j: int| 0 <= j < ids.len() && ids[j] == m;
                        assert(after.members(owner)[j] == m);
                    } else {
                        assert(after.members(t) == self.members(t));
                    }
                }
            }
        }
    }

    /// Replacing a message's content keeps the invariant, and fails only
    /// for want of the message.
    pub proof fn lemma_update_message_wf(
        self,
        thread_id: u128,
        message_id: u128,
        content: ContentView,
    )
        requires
            self.wf(),
        ensures
            self.update_message(thread_id, message_id, content).1.wf(),
            match self.update_message(thread_id, message_id, content).0 {
                Ok(outcome) => self.message(thread_id, message_id) matches Some(message) && outcome
                    == OutcomeView::Message(message.with_content(content)),
                Err(error) => error == DatabaseErrorView::NotFound && !self.has(
                    Table::Messages,
                    message_key(thread_id, message_id),
                ),
            },
    {
        lemma_keys_distinct();
        let key = message_key(thread_id, message_id);
        let after = self.update_message(thread_id, message_id, content).1;
        if self.has(Table::Messages, key) {
            assert(self.message_sound(thread_id, message_id));
            let message = self.message(thread_id, message_id)->0;
            let a = WriteView::Put {
                table: Table::Messages,
                key,
                record: RecordView::Message(message.with_content(content)),
            };
            self.lemma_write_typed(a);
            assert(after == self.apply(a));
            assert forall|other: u128|
                #![trigger after.has(Table::Threads, thread_key(other))]
                after.has(Table::Threads, thread_key(other)) implies after.thread_sound(other) by {
                assert(self.has(Table::Threads, thread_key(other)));
                let s = choose|s: u64|
                    self.has(Table::ThreadCreationTime, #[trigger] thread_time_key(s, other));
                assert(after.has(Table::ThreadCreationTime, thread_time_key(s, other)));
            }
            assert forall|other: u128|
                #![trigger after.has(Table::ThreadMessages, thread_key(other))]
                after.has(Table::ThreadMessages, thread_key(other)) implies after.members_sound(
                other,
            ) by {
                assert(self.has(Table::ThreadMessages, thread_key(other)));
                assert(self.members_sound(other));
                assert(after.members(other) == self.members(other));
                assert forall|i: int| 0 <= i < after.members(other).len() implies after.has(
                    Table::Messages,
                    message_key(other, #[trigger] after.members(other)[i]),
                ) by {
                    assert(self.has(Table::Messages, message_key(other, self.members(other)[i])));
                }
            }
            assert forall|other: u128|
                #![trigger after.has(Table::Embeddings, thread_key(other))]
                after.has(Table::Embeddings, thread_key(other)) implies after.has(
                Table::Threads,
                thread_key(other),
            ) by {
                assert(self.has(Table::Embeddings, thread_key(other)));
            }
            assert forall|t: u128, m: u128|
                #![trigger after.has(Table::Messages, message_key(t, m))]
                after.has(Table::Messages, message_key(t, m)) implies after.message_sound(t, m) by {
                assert(self.has(Table::Messages, message_key(t, m)));
                assert(self.message_sound(t, m));
                assert(after.members(t) == self.members(t));
            }
        }
    }

    /// Setting summary and embedding keeps the invariant, and fails only
    /// for want of the thread.
    pub proof fn lemma_update_summary_wf(
        self,
        thread_id: u128,
        summary: Seq<char>,
        embedding: Seq<u32>,
    )
        requires
            self.wf(),
        ensures
            self.update_thread_summary_and_embedding(thread_id, summary, embedding).1.wf(),
            match self.update_thread_summary_and_embedding(thread_id, summary, embedding).0 {
                Ok(outcome) => self.has(Table::Threads, thread_key(thread_id)) && outcome
                    == OutcomeView::Done,
                Err(error) => error == DatabaseErrorView::NotFound && !self.has(
                    Table::Threads,
                    thread_key(thread_id),
                ),
            },
    {
        lemma_keys_distinct();
        let key = thread_key(thread_id);
        let after = self.update_thread_summary_and_embedding(thread_id, summary, embedding).1;
        if self.has(Table::Threads, key) {
            assert(self.thread_sound(thread_id));
            let thread = self.thread(thread_id)->0;
            let a = WriteView::Put {
                table: Table::Threads,
                key,
                record: RecordView::Thread(
                    ThreadView { summary: Some(summary), embedding: None, ..thread },
                ),
            };
            let b = WriteView::Put {
                table: Table::Embeddings,
                key,
                record: RecordView::Embedding(embedding),
            };
            self.lemma_write_typed(a);
            self.apply(a).lemma_write_typed(b);
            assert(after == self.apply(a).apply(b));
            assert forall|other: u128|
                #![trigger after.has(Table::Threads, thread_key(other))]
                after.has(Table::Threads, thread_key(other)) implies after.thread_sound(other) by {
                assert(self.has(Table::Threads, thread_key(other)));
                let s = choose|s: u64|
                    self.has(Table::ThreadCreationTime, #[trigger] thread_time_key(s, other));
                assert(after.has(Table::ThreadCreationTime, thread_time_key(s, other)));
            }
            assert forall|other: u128|
                #![trigger after.has(Table::ThreadMessages, thread_key(other))]
                after.has(Table::ThreadMessages, thread_key(other)) implies after.members_sound(
                other,
            ) by {
                assert(self.has(Table::ThreadMessages, thread_key(other)));
                assert(self.members_sound(other));
                assert(after.members(other) == self.members(other));
                assert forall|i: int| 0 <= i < after.members(other).len() implies after.has(
                    Table::Messages,
                    message_key(other, #[trigger] after.members(other)[i]),
                ) by {
                    assert(self.has(Table::Messages, message_key(other, self.members(other)[i])));
                }
            }
            assert forall|other: u128|
                #![trigger after.has(Table::Embeddings, thread_key(other))]
                after.has(Table::Embeddings, thread_key(other)) implies after.has(
                Table::Threads,
                thread_key(other),
            ) by {
                if other != thread_id {
                    assert(self.has(Table::Embeddings, thread_key(other)));
                }
            }
            assert forall|t: u128, m: u128|
                #![trigger after.has(Table::Messages, message_key(t, m))]
                after.has(Table::Messages, message_key(t, m)) implies after.message_sound(t, m) by {
                assert(self.has(Table::Messages, message_key(t, m)));
                assert(self.message_sound(t, m));
                assert(after.members(t) == self.members(t));
            }
        }
    }

    /// Setting a thread's title keeps the invariant, fails only for want of
    /// the thread, and changes nothing but the title.
    pub proof fn lemma_update_thread_wf(self, thread_id: u128, title: Option<Seq<char>>)
        requires
            self.wf(),
        ensures
            self.update_thread(thread_id, title).1.wf(),
            match self.update_thread(thread_id, title).0 {
                Ok(outcome) => self.thread(thread_id) matches Some(thread) && outcome
                    == OutcomeView::Thread(ThreadView { title, ..thread }) && self.update_thread(
                    thread_id,
                    title,
                ).1 == self.put(
                    Table::Threads,
                    thread_key(thread_id),
                    RecordView::Thread(ThreadView { title, ..thread }),
                ),
                Err(error) => error == DatabaseErrorView::NotFound && !self.has(
                    Table::Threads,
                    thread_key(thread_id),
                ),
            },
    {
        lemma_keys_distinct();
        let key = thread_key(thread_id);
        let after = self.update_thread(thread_id, title).1;
        if self.has(Table::Threads, key) {
            assert(self.thread_sound(thread_id));
            let thread = self.thread(thread_id)->0;
            let a = WriteView::Put {
                table: Table::Threads,
                key,
                record: RecordView::Thread(ThreadView { title, embedding: None, ..thread }),
            };
            self.lemma_write_typed(a);
            assert(after == self.apply(a));
            assert forall|other: u128|
                #![trigger after.has(Table::Threads, thread_key(other))]
                after.has(Table::Threads, thread_key(other)) implies after.thread_sound(other) by {
                assert(self.has(Table::Threads, thread_key(other)));
                let s = choose|s: u64|
                    self.has(Table::ThreadCreationTime, #[trigger] thread_time_key(s, other));
                assert(after.has(Table::ThreadCreationTime, thread_time_key(s, other)));
            }
            assert forall|other: u128|
                #![trigger after.has(Table::ThreadMessages, thread_key(other))]
                after.has(Table::ThreadMessages, thread_key(other)) implies after.members_sound(
                other,
            ) by {
                assert(self.has(Table::ThreadMessages, thread_key(other)));
                assert(self.members_sound(other));
                assert(after.members(other) == self.members(other));
                assert forall|i: int| 0 <= i < after.members(other).len() implies after.has(
                    Table::Messages,
                    message_key(other, #[trigger] after.members(other)[i]),
                ) by {
                    assert(self.has(Table::Messages, message_key(other, self.members(other)[i])));
                }
            }
            assert forall|other: u128|
                #![trigger after.has(Table::Embeddings, thread_key(other))]
                after.has(Table::Embeddings, thread_key(other)) implies after.has(
                Table::Threads,
                thread_key(other),
            ) by {
                assert(self.has(Table::Embeddings, thread_key(other)));
            }
            assert forall|t: u128, m: u128|
                #![trigger after.has(Table::Messages, message_key(t, m))]
                after.has(Table::Messages, message_key(t, m)) implies after.message_sound(t, m) by {
                assert(self.has(Table::Messages, message_key(t, m)));
                assert(self.message_sound(t, m));
                assert(after.members(t) == self.members(t));
            }
        }
    }

    /// Deleting a message keeps the invariant, and fails only for want of
    /// the message.
    pub proof fn lemma_delete_message_wf(self, thread_id: u128, message_id: u128)
        requires
            self.wf(),
        ensures
            self.delete_message(thread_id, message_id).1.wf(),
            match self.delete_message(thread_id, message_id).0 {
                Ok(outcome) => self.has(Table::Messages, message_key(thread_id, message_id))
                    && outcome == OutcomeView::Done && !self.delete_message(
                    thread_id,
                    message_id,
                ).1.has(Table::Messages, message_key(thread_id, message_id)),
                Err(error) => error == DatabaseErrorView::NotFound && !self.has(
                    Table::Messages,
                    message_key(thread_id, message_id),
                ),
            },
    {
        lemma_keys_distinct();
        let key = message_key(thread_id, message_id);
        let thread = thread_key(thread_id);
        if self.has(Table::Messages, key) {
            assert(self.message_sound(thread_id, message_id));
            assert(self.thread_sound(thread_id));
            assert(self.members_sound(thread_id));
            assert(self.records[(Table::ThreadMessages, thread)].fits(Table::ThreadMessages));
            let ids = self.members(thread_id);
            let kept = others(ids, message_id);
            let a = WriteView::Delete { table: Table::Messages, key };
            let b = WriteView::Put {
                table: Table::ThreadMessages,
                key: thread,
                record: RecordView::Members(kept),
            };
            self.lemma_write_typed(a);
            self.apply(a).lemma_write_typed(b);
            let mid = self.apply(a).apply(b);
            mid.lemma_prune_message_keeps(thread_id, message_id);
            let after = mid.prune_message(thread_id, message_id)->Ok_0;
            assert(self.delete_message(thread_id, message_id).1 == after);
            lemma_others_no_duplicates(ids, message_id);
            assert forall|x: u128| kept.contains(x) <==> ids.contains(x) && x != message_id by {
                lemma_others_contains(ids, message_id, x);
            }
            assert forall|t: Table, k: Seq<u8>|
                #![trigger after.has(t, k)]
                t != Table::MessageCreationTime && mid.has(t, k) implies after.has(t, k) by {}
            assert(after.members(thread_id) == kept);
            assert forall|other: u128|
                #![trigger after.has(Table::Threads, thread_key(other))]
                after.has(Table::Threads, thread_key(other)) implies after.thread_sound(other) by {
                assert(mid.has(Table::Threads, thread_key(other)));
                assert(self.has(Table::Threads, thread_key(other)));
                assert(self.thread_sound(other));
                let s = choose|s: u64|
                    self.has(Table::ThreadCreationTime, #[trigger] thread_time_key(s, other));
                assert(mid.has(Table::ThreadCreationTime, thread_time_key(s, other)));
                assert(after.has(Table::ThreadCreationTime, thread_time_key(s, other)));
                assert(mid.has(Table::ThreadMessages, thread_key(other)));
            }
            assert forall|other: u128|
                #![trigger after.has(Table::ThreadMessages, thread_key(other))]
                after.has(Table::ThreadMessages, thread_key(other)) implies after.members_sound(
                other,
            ) by {
                assert(mid.has(Table::ThreadMessages, thread_key(other)));
                assert(self.has(Table::ThreadMessages, thread_key(other)));
                assert(self.members_sound(other));
                assert(mid.has(Table::Threads, thread_key(other)));
                if other == thread_id {
                    assert forall|i: int| 0 <= i < kept.len() implies after.has(
                        Table::Messages,
                        message_key(other, #[trigger] kept[i]),
                    ) by {
                        assert(kept.contains(kept[i]));
                        let j = choose|j: int| 0 <= j < ids.len() && ids[j] == kept[i];
                        assert(self.has(Table::Messages, message_key(other, ids[j])));
                        assert(mid.has(Table::Messages, message_key(other, kept[i])));
                    }
                } else {
                    assert(mid.members(other) == self.members(other));
                    assert(after.members(other) == self.members(other));
                    assert forall|i: int| 0 <= i < after.members(other).len() implies after.has(
                        Table::Messages,
                        message_key(other, #[trigger] after.members(other)[i]),
                    ) by {
                        assert(self.has(Table::Messages, message_key(other, self.members(other)[i])));
                        assert(mid.has(Table::Messages, message_key(other, self.members(other)[i])));
                    }
                }
            }
            assert forall|other: u128|
                #![trigger after.has(Table::Embeddings, thread_key(other))]
                after.has(Table::Embeddings, thread_key(other)) implies after.has(
                Table::Threads,
                thread_key(other),
            ) by {
                assert(mid.has(Table::Embeddings, thread_key(other)));
                assert(self.has(Table::Embeddings, thread_key(other)));
                assert(mid.has(Table::Threads, thread_key(other)));
            }
            assert forall|t: u128, m: u128|
                #![trigger after.has(Table::Messages, message_key(t, m))]
                after.has(Table::Messages, message_key(t, m)) implies after.message_sound(t, m) by {
                assert(mid.has(Table::Messages, message_key(t, m)));
                assert(self.has(Table::Messages, message_key(t, m)));
                assert(self.message_sound(t, m));
                let record = self.message(t, m)->0;
                let time = message_time_key(t, seconds_of(record.created_at), m);
                assert(mid.has(Table::MessageCreationTime, time));
                assert(!message_entry(thread_id, message_id)(Table::MessageCreationTime, time));
                assert(after.has(Table::MessageCreationTime, time));
                assert(mid.has(Table::Threads, thread_key(t)));
                if t == thread_id {
                    assert(kept.contains(m));
                } else {
                    assert(mid.members(t) == self.members(t));
                }
            }
        }
    }

    /// Deleting a thread keeps the invariant, fails only for want of the
    /// thread, and leaves neither the thread nor any message of it.
    pub proof fn lemma_delete_thread_wf(self, thread_id: u128)
        requires
            self.wf(),
        ensures
            self.delete_thread(thread_id).1.wf(),
            match self.delete_thread(thread_id).0 {
                Ok(outcome) => {
                    &&& outcome == OutcomeView::Done
                    &&& self.has(Table::Threads, thread_key(thread_id))
                    &&& !self.delete_thread(thread_id).1.has(Table::Threads, thread_key(thread_id))
                    &&& forall|m: u128|
                        !self.delete_thread(thread_id).1.has(
                            Table::Messages,
                            #[trigger] message_key(thread_id, m),
                        )
                    &&& forall|t: u128|
                        t != thread_id ==> self.delete_thread(thread_id).1.get(
                            Table::Threads,
                            #[trigger] thread_key(t),
                        ) == self.get(Table::Threads, thread_key(t))
                },
                Err(error) => error == DatabaseErrorView::NotFound && !self.has(
                    Table::Threads,
                    thread_key(thread_id),
                ),
            },
    {
        lemma_keys_distinct();
        let key = thread_key(thread_id);
        if self.has(Table::Threads, key) {
            assert(self.thread_sound(thread_id));
            assert(self.members_sound(thread_id));
            assert(self.records[(Table::ThreadMessages, key)].fits(Table::ThreadMessages));
            let ids = self.members(thread_id);
            let a = WriteView::Delete { table: Table::Threads, key };
            let b = WriteView::Delete { table: Table::ThreadMessages, key };
            let c = WriteView::Delete { table: Table::Embeddings, key };
            self.lemma_write_typed(a);
            self.apply(a).lemma_write_typed(b);
            self.apply(a).apply(b).lemma_write_typed(c);
            let bare = self.apply(a).apply(b).apply(c);
            bare.lemma_cascade_keeps(thread_id, ids, 0);
            let emptied = bare.cascade(thread_id, ids, 0)->Ok_0;
            emptied.lemma_prune_thread_keeps(thread_id);
            let after = emptied.prune_thread(thread_id)->Ok_0;
            assert(self.delete_thread(thread_id).1 == after);
            assert forall|t: Table, k: Seq<u8>|
                #![trigger after.has(t, k)]
                after.has(t, k) implies emptied.has(t, k) && bare.has(t, k) && self.has(t, k)
                && after.records[(t, k)] == self.records[(t, k)] by {
                assert(emptied.has(t, k));
                assert(bare.has(t, k));
            }
            assert forall|t: Table, k: Seq<u8>|
                #![trigger self.has(t, k)]
                self.has(t, k) && !after.has(t, k) implies (k == key && (t == Table::Threads || t
                == Table::ThreadMessages || t == Table::Embeddings)) || of_thread_messages(
                thread_id,
            )(t, k) || thread_entry(thread_id)(t, k) by {
                if bare.has(t, k) {
                    if emptied.has(t, k) {
                        assert(thread_entry(thread_id)(t, k));
                    } else {
                        assert(of_thread_messages(thread_id)(t, k));
                    }
                }
            }
            assert forall|m: u128|
                self.has(Table::Messages, #[trigger] message_key(thread_id, m)) implies !after.has(
                Table::Messages,
                message_key(thread_id, m),
            ) by {
                assert(self.message_sound(thread_id, m));
                let j = choose|j: int| 0 <= j < ids.len() && ids[j] == m;
                assert(!emptied.has(Table::Messages, message_key(thread_id, ids[j])));
            }
            assert forall|other: u128|
                #![trigger after.has(Table::Threads, thread_key(other))]
                after.has(Table::Threads, thread_key(other)) implies after.thread_sound(other) by {
                assert(self.has(Table::Threads, thread_key(other)));
                assert(self.thread_sound(other));
                assert(other != thread_id);
                let s = choose|s: u64|
                    self.has(Table::ThreadCreationTime, #[trigger] thread_time_key(s, other));
                let time = thread_time_key(s, other);
                assert(!thread_entry(thread_id)(Table::ThreadCreationTime, time));
                assert(!of_thread_messages(thread_id)(Table::ThreadCreationTime, time));
                assert(after.has(Table::ThreadCreationTime, time));
                assert(!of_thread_messages(thread_id)(Table::ThreadMessages, thread_key(other)));
                assert(!thread_entry(thread_id)(Table::ThreadMessages, thread_key(other)));
                assert(after.has(Table::ThreadMessages, thread_key(other)));
            }
            assert forall|other: u128|
                #![trigger after.has(Table::ThreadMessages, thread_key(other))]
                after.has(Table::ThreadMessages, thread_key(other)) implies after.members_sound(
                other,
            ) by {
                assert(self.has(Table::ThreadMessages, thread_key(other)));
                assert(self.members_sound(other));
                assert(other != thread_id);
                assert(!of_thread_messages(thread_id)(Table::Threads, thread_key(other)));
                assert(!thread_entry(thread_id)(Table::Threads, thread_key(other)));
                assert(self.has(Table::Threads, thread_key(other)));
                assert(after.has(Table::Threads, thread_key(other)));
                assert(after.members(other) == self.members(other));
                assert forall|i: int| 0 <= i < after.members(other).len() implies after.has(
                    Table::Messages,
                    message_key(other, #[trigger] after.members(other)[i]),
                ) by {
                    let m = self.members(other)[i];
                    assert(self.has(Table::Messages, message_key(other, m)));
                    HeedUuidTuple((other, m)).lemma_round_trip(Seq::empty());
                    assert(!of_thread_messages(thread_id)(Table::Messages, message_key(other, m)));
                    assert(!thread_entry(thread_id)(Table::Messages, message_key(other, m)));
                }
            }
            assert forall|other: u128|
                #![trigger after.has(Table::Embeddings, thread_key(other))]
                after.has(Table::Embeddings, thread_key(other)) implies after.has(
                Table::Threads,
                thread_key(other),
            ) by {
                assert(self.has(Table::Embeddings, thread_key(other)));
                assert(other != thread_id);
                assert(self.has(Table::Threads, thread_key(other)));
                assert(!of_thread_messages(thread_id)(Table::Threads, thread_key(other)));
                assert(!thread_entry(thread_id)(Table::Threads, thread_key(other)));
            }
            assert forall|t: u128, m: u128|
                #![trigger after.has(Table::Messages, message_key(t, m))]
                after.has(Table::Messages, message_key(t, m)) implies after.message_sound(t, m) by {
                assert(self.has(Table::Messages, message_key(t, m)));
                assert(self.message_sound(t, m));
                assert(t != thread_id);
                let record = self.message(t, m)->0;
                let time = message_time_key(t, seconds_of(record.created_at), m);
                assert(!of_thread_messages(thread_id)(Table::MessageCreationTime, time));
                assert(!thread_entry(thread_id)(Table::MessageCreationTime, time));
                assert(after.has(Table::MessageCreationTime, time));
                assert(!of_thread_messages(thread_id)(Table::Threads, thread_key(t)));
                assert(!thread_entry(thread_id)(Table::Threads, thread_key(t)));
                assert(after.has(Table::Threads, thread_key(t)));
                assert(!of_thread_messages(thread_id)(Table::ThreadMessages, thread_key(t)));
                assert(!thread_entry(thread_id)(Table::ThreadMessages, thread_key(t)));
                assert(after.has(Table::ThreadMessages, thread_key(t)));
                assert(after.members(t) == self.members(t));
            }
            assert forall|t: u128| t != thread_id implies after.get(
                Table::Threads,
                #[trigger] thread_key(t),
            ) == self.get(Table::Threads, thread_key(t)) by {
                assert(!of_thread_messages(thread_id)(Table::Threads, thread_key(t)));
                assert(!thread_entry(thread_id)(Table::Threads, thread_key(t)));
                if self.has(Table::Threads, thread_key(t)) {
                    assert(after.has(Table::Threads, thread_key(t)));
                }
            }
        }
    }

    /// A store of a record of the table's kind under a key of the table's
    /// length, and a removal, keep the tables finite and well typed.
    pub proof fn lemma_write_typed(self, write: WriteView)
        requires
            self.records.dom().finite(),
            self.well_typed(),
            write matches WriteView::Put { table, key, record } ==> key.len() == key_width(table)
                && record.fits(table),
        ensures
            self.apply(write).records.dom().finite(),
            self.apply(write).well_typed(),
    {
        let after = self.apply(write);
        assert forall|table: Table, key: Seq<u8>|
            #![trigger after.has(table, key)]
            after.has(table, key) implies key.len() == key_width(table) && after.records[(
            table,
            key,
        )].fits(table) by {
            if self.has(table, key) {
                assert(self.records[(table, key)].fits(table));
            }
        }
    }

    /// True when `after` holds nothing that `self` does not hold, and
    /// lacks of what `self` holds only what `lost` admits.
    pub open spec fn keeps(self, after: Tables, lost: spec_fn(Table, Seq<u8>) -> bool) -> bool {
        &&& forall|table: Table, key: Seq<u8>|
            #![trigger after.has(table, key)]
            after.has(table, key) ==> self.has(table, key) && after.records[(table, key)]
                == self.records[(table, key)]
        &&& forall|table: Table, key: Seq<u8>|
            #![trigger self.has(table, key)]
            self.has(table, key) && !after.has(table, key) ==> lost(table, key)
    }

    /// Looking for the creation-time entry of a message never fails on
    /// well-typed tables, and removes at most an entry of that message.
    pub proof fn lemma_prune_message_keeps(self, thread_id: u128, message_id: u128)
        requires
            self.records.dom().finite(),
            self.well_typed(),
        ensures
            self.prune_message(thread_id, message_id) matches Ok(after) && self.keeps(
                after,
                message_entry(thread_id, message_id),
            ) && after.records.dom().finite() && after.well_typed(),
    {
        let from = message_time_key(thread_id, 0, message_id);
        self.lemma_first_is_first(Table::MessageCreationTime, from);
        match self.first(Table::MessageCreationTime, from) {
            None => {
                assert(self.apply_all(Seq::empty()) == self);
            },
            Some(key) => {
                assert(self.has(Table::MessageCreationTime, key));
                assert(key.len() == 40);
                let entry = HeedMessageCreationTimeId::decoding(key)->0;
                if entry.0.0 == thread_id && entry.0.2 == message_id {
                    let remove = WriteView::Delete { table: Table::MessageCreationTime, key };
                    self.lemma_apply_one(remove);
                    self.lemma_write_typed(remove);
                } else {
                    assert(self.apply_all(Seq::empty()) == self);
                }
            },
        }
    }

    /// Looking for the creation-time entry of a thread never fails on
    /// well-typed tables, and removes at most an entry of that thread.
    pub proof fn lemma_prune_thread_keeps(self, thread_id: u128)
        requires
            self.records.dom().finite(),
            self.well_typed(),
        ensures
            self.prune_thread(thread_id) matches Ok(after) && self.keeps(
                after,
                thread_entry(thread_id),
            ) && after.records.dom().finite() && after.well_typed(),
    {
        let from = thread_time_key(0, thread_id);
        self.lemma_first_is_first(Table::ThreadCreationTime, from);
        match self.first(Table::ThreadCreationTime, from) {
            None => {
                assert(self.apply_all(Seq::empty()) == self);
            },
            Some(key) => {
                assert(self.has(Table::ThreadCreationTime, key));
                assert(key.len() == 24);
                let entry = HeedTimestampUuid::decoding(key)->0;
                if entry.0.1 == thread_id {
                    let remove = WriteView::Delete { table: Table::ThreadCreationTime, key };
                    self.lemma_apply_one(remove);
                    self.lemma_write_typed(remove);
                } else {
                    assert(self.apply_all(Seq::empty()) == self);
                }
            },
        }
    }

    /// Removing the messages of a thread one by one never fails on
    /// well-typed tables, removes every message named, and removes nothing
    /// but messages of the thread and creation-time entries of its
    /// messages.
    pub proof fn lemma_cascade_keeps(self, thread_id: u128, ids: Seq<u128>, at: int)
        requires
            self.records.dom().finite(),
            self.well_typed(),
            0 <= at <= ids.len(),
        ensures
            self.cascade(thread_id, ids, at) matches Ok(after) && self.keeps(
                after,
                of_thread_messages(thread_id),
            ) && after.records.dom().finite() && after.well_typed() && forall|i: int|
                at <= i < ids.len() ==> !after.has(
                    Table::Messages,
                    #[trigger] message_key(thread_id, ids[i]),
                ),
        decreases ids.len() - at,
    {
        lemma_keys_distinct();
        if at < ids.len() {
            let remove = WriteView::Delete {
                table: Table::Messages,
                key: message_key(thread_id, ids[at]),
            };
            self.lemma_write_typed(remove);
            let removed = self.apply(remove);
            removed.lemma_prune_message_keeps(thread_id, ids[at]);
            let pruned = removed.prune_message(thread_id, ids[at])->Ok_0;
            pruned.lemma_cascade_keeps(thread_id, ids, at + 1);
            let after = pruned.cascade(thread_id, ids, at + 1)->Ok_0;
            assert(self.cascade(thread_id, ids, at) == Ok::<Tables, DatabaseErrorView>(after));
            assert forall|table: Table, key: Seq<u8>|
                #![trigger after.has(table, key)]
                after.has(table, key) implies self.has(table, key) && after.records[(table, key)]
                == self.records[(table, key)] by {
                assert(pruned.has(table, key));
                assert(removed.has(table, key));
            }
            assert forall|table: Table, key: Seq<u8>|
                #![trigger self.has(table, key)]
                self.has(table, key) && !after.has(table, key) implies of_thread_messages(thread_id)(
                table,
                key,
            ) by {
                if !removed.has(table, key) {
                    assert(HeedUuidTuple::decoding(message_key(thread_id, ids[at])) == Some(
                        HeedUuidTuple((thread_id, ids[at])),
                    )) by {
                        HeedUuidTuple((thread_id, ids[at])).lemma_round_trip(Seq::empty());
                    }
                } else if !pruned.has(table, key) {
                    assert(message_entry(thread_id, ids[at])(table, key));
                } else {
                    assert(of_thread_messages(thread_id)(table, key));
                }
            }
            assert forall|i: int| at <= i < ids.len() implies !after.has(
                Table::Messages,
                #[trigger] message_key(thread_id, ids[i]),
            ) by {
                if i == at {
                    assert(!removed.has(Table::Messages, message_key(thread_id, ids[at])));
                    if after.has(Table::Messages, message_key(thread_id, ids[at])) {
                        assert(pruned.has(Table::Messages, message_key(thread_id, ids[at])));
                    }
                }
            }
        }
    }
}

/// True of the creation-time entries of message `message_id` of thread
/// `thread_id`, whatever their time.
pub open spec fn message_entry(thread_id: u128, message_id: u128) -> spec_fn(
    Table,
    Seq<u8>,
) -> bool {
    |table: Table, key: Seq<u8>|
        table == Table::MessageCreationTime && (HeedMessageCreationTimeId::decoding(key) matches Some(
            entry,
        ) && entry.0.0 == thread_id && entry.0.2 == message_id)
}

/// True of the creation-time entries of thread `thread_id`, whatever their
/// time.
pub open spec fn thread_entry(thread_id: u128) -> spec_fn(Table, Seq<u8>) -> bool {
    |table: Table, key: Seq<u8>|
        table == Table::ThreadCreationTime && (HeedTimestampUuid::decoding(key) matches Some(entry)
            && entry.0.1 == thread_id)
}

/// True of the message records of thread `thread_id` and of the
/// creation-time entries of its messages.
pub open spec fn of_thread_messages(thread_id: u128) -> spec_fn(Table, Seq<u8>) -> bool {
    |table: Table, key: Seq<u8>|
        (table == Table::Messages && (HeedUuidTuple::decoding(key) matches Some(pair) && pair.0.0
            == thread_id)) || (table == Table::MessageCreationTime && (
        HeedMessageCreationTimeId::decoding(key) matches Some(entry) && entry.0.0 == thread_id))
}

} // verus!
