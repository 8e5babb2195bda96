//! What holds of the durable engine across operations.

use vstd::prelude::*;
use crate::content::ContentView;
use crate::durable::protocol::{
    message_key, thread_key, EntryView, RecordView, ReplyView, Table,
};
use crate::durable::soundness::lemma_keys_distinct;
use crate::durable::step::{OutcomeView, StepView};
use crate::durable::tables::{execute, Tables};
use crate::durable::transaction::{response, threads_of, TransactionView};
use crate::error::DatabaseErrorView;
use crate::big_endian::{lemma_lex_lt_total, lex_le};
use crate::durable::protocol::{message_time_key, thread_time_key};
use crate::keys::{HeedMessageCreationTimeId, HeedTimestampUuid, HeedUuid};
use crate::message::MessageView;
use crate::pagination::{effective_limit, effective_offset, lemma_page_unbounded, page};
use crate::thread::ThreadView;

verus! {

impl Tables {
    /// The messages of thread `id` in creation order.
    pub open spec fn thread_messages(self, id: u128) -> Seq<MessageView> {
        self.members(id).map_values(|m: u128| self.message(id, m)->0)
    }

    /// Thread `id` as it is read with its embedding: the record, with the
    /// embedding attached if the tables hold one.
    pub open spec fn thread_with_embedding(self, id: u128) -> ThreadView {
        match self.embedding(id) {
            Some(embedding) => ThreadView { embedding: Some(embedding), ..self.thread(id)->0 },
            None => self.thread(id)->0,
        }
    }

    /// The threads that `ids` name, in the order of `ids`, each with its
    /// embedding; an identifier that names no thread gives none.
    pub open spec fn found_threads(self, ids: Seq<u128>) -> Seq<ThreadView>
        decreases ids.len(),
    {
        if ids.len() == 0 {
            Seq::empty()
        } else if self.has(Table::Threads, thread_key(ids.last())) {
            self.found_threads(ids.drop_last()).push(self.thread_with_embedding(ids.last()))
        } else {
            self.found_threads(ids.drop_last())
        }
    }

    /// The tables after each of `messages` was created, first to last.
    pub open spec fn create_messages(self, messages: Seq<MessageView>) -> Tables
        decreases messages.len(),
    {
        if messages.len() == 0 {
            self
        } else {
            self.create_messages(messages.drop_last()).create_message(messages.last()).1
        }
    }

    /// On sound tables, reading the messages that a thread's list names
    /// finds every one of them.
    pub proof fn lemma_messages_from(self, id: u128, at: int, found: Seq<MessageView>)
        requires
            self.wf(),
            self.has(Table::Threads, thread_key(id)),
            0 <= at <= self.members(id).len(),
        ensures
            self.messages_from(id, self.members(id), at, found) == found
                + self.thread_messages(id).subrange(at, self.members(id).len() as int),
        decreases self.members(id).len() - at,
    {
        let ids = self.members(id);
        let all = self.thread_messages(id);
        assert(self.thread_sound(id));
        assert(self.members_sound(id));
        if at < ids.len() {
            assert(self.has(Table::Messages, message_key(id, ids[at])));
            assert(self.message_sound(id, ids[at]));
            let message = self.message(id, ids[at])->0;
            self.lemma_messages_from(id, at + 1, found.push(message));
            assert(found.push(message) + all.subrange(at + 1, ids.len() as int) =~= found
                + all.subrange(at, ids.len() as int));
        } else {
            assert(found + all.subrange(at, ids.len() as int) =~= found);
        }
    }

    /// On sound tables, reading threads with their embeddings finds what
    /// [`Tables::found_threads`] says.
    pub proof fn lemma_threads_from(self, ids: Seq<u128>, at: int, found: Seq<ThreadView>)
        requires
            self.wf(),
            0 <= at <= ids.len(),
        ensures
            self.threads_from(ids, at, found) == Ok::<Seq<ThreadView>, DatabaseErrorView>(
                found + self.found_threads(ids.subrange(at, ids.len() as int)),
            ),
        decreases ids.len() - at,
    {
        let rest = ids.subrange(at, ids.len() as int);
        if at < ids.len() {
            let id = ids[at];
            let key = thread_key(id);
            let later = ids.subrange(at + 1, ids.len() as int);
            self.lemma_found_threads_first(id, later);
            assert(seq![id] + later =~= rest);
            if self.has(Table::Threads, key) {
                assert(self.thread_sound(id));
                if self.has(Table::Embeddings, key) {
                    assert(self.records[(Table::Embeddings, key)].fits(Table::Embeddings));
                }
                let thread = self.thread_with_embedding(id);
                self.lemma_threads_from(ids, at + 1, found.push(thread));
                assert(found.push(thread) + self.found_threads(later) =~= found + (seq![thread]
                    + self.found_threads(later)));
            } else {
                self.lemma_threads_from(ids, at + 1, found);
                assert(Seq::<ThreadView>::empty() + self.found_threads(later)
                    =~= self.found_threads(later));
            }
        } else {
            assert(rest =~= Seq::<u128>::empty());
            assert(found + Seq::<ThreadView>::empty() =~= found);
        }
    }

    /// The threads found for a list of identifiers are what is found for
    /// the first, then what is found for the rest.
    pub proof fn lemma_found_threads_first(self, id: u128, rest: Seq<u128>)
        ensures
            self.found_threads(seq![id] + rest) == (if self.has(Table::Threads, thread_key(id)) {
                seq![self.thread_with_embedding(id)]
            } else {
                Seq::empty()
            }) + self.found_threads(rest),
        decreases rest.len(),
    {
        let first = if self.has(Table::Threads, thread_key(id)) {
            seq![self.thread_with_embedding(id)]
        } else {
            Seq::empty()
        };
        if rest.len() == 0 {
            assert(seq![id] + rest =~= seq![id]);
            assert(seq![id].drop_last() =~= Seq::<u128>::empty());
            reveal_with_fuel(Tables::found_threads, 2);
            assert(self.found_threads(seq![id]) =~= first);
            assert(first + self.found_threads(rest) =~= first);
        } else {
            let all = seq![id] + rest;
            assert(all.drop_last() =~= seq![id] + rest.drop_last());
            assert(all.last() == rest.last());
            self.lemma_found_threads_first(id, rest.drop_last());
            if self.has(Table::Threads, thread_key(rest.last())) {
                let last = self.thread_with_embedding(rest.last());
                assert((first + self.found_threads(rest.drop_last())).push(last) =~= first
                    + self.found_threads(rest.drop_last()).push(last));
            }
        }
    }

    /// On sound tables, every key of the thread table is the key of the
    /// thread whose record it holds.
    pub proof fn lemma_thread_keys(self, key: Seq<u8>)
        requires
            self.wf(),
            self.has(Table::Threads, key),
        ensures
            self.records[(Table::Threads, key)] matches RecordView::Thread(thread) && key
                == thread_key(thread.id),
    {
        assert(key.len() == 16);
        let id = HeedUuid::decoding(key)->0;
        id.lemma_round_trip(key);
        assert(key == thread_key(id.0));
        assert(self.thread_sound(id.0));
    }
}

/// A thread just created is found under its identifier, with no title, no
/// summary and no embedding, also when it is read with its embedding.
pub proof fn law_created_thread_is_found(tables: Tables, id: u128, seconds: u64)
    requires
        tables.wf(),
        tables.create_thread(id, seconds).0 is Ok,
    ensures
        ({
            let after = tables.create_thread(id, seconds).1;
            &&& after.wf()
            &&& tables.create_thread(id, seconds).0 == Ok::<OutcomeView, DatabaseErrorView>(
                OutcomeView::Thread(ThreadView::fresh(id)),
            )
            &&& after.get_thread(id) == Ok::<OutcomeView, DatabaseErrorView>(
                OutcomeView::Thread(ThreadView::fresh(id)),
            )
            &&& after.get_threads_with_embeddings(seq![id]) == Ok::<
                OutcomeView,
                DatabaseErrorView,
            >(OutcomeView::Threads(seq![ThreadView::fresh(id)]))
            &&& ThreadView::fresh(id).summary is None
            &&& ThreadView::fresh(id).embedding is None
        }),
{
    lemma_keys_distinct();
    let after = tables.create_thread(id, seconds).1;
    tables.lemma_create_thread_wf(id, seconds);
    assert(!tables.has(Table::Embeddings, thread_key(id)));
    assert(!after.has(Table::Embeddings, thread_key(id)));
    after.lemma_threads_from(seq![id], 0, Seq::empty());
    assert(seq![id].subrange(0, 1) =~= seq![id]);
    after.lemma_found_threads_first(id, Seq::empty());
    assert(seq![id] + Seq::<u128>::empty() =~= seq![id]);
    assert(after.found_threads(seq![id]) =~= seq![ThreadView::fresh(id)]);
    assert(Seq::<ThreadView>::empty() + seq![ThreadView::fresh(id)] =~= seq![
        ThreadView::fresh(id),
    ]);
}

/// After a thread is deleted it is not found, no listing holds it, its
/// messages cannot be read, and none of the messages it owned can be
/// deleted.
pub proof fn law_deleted_thread_is_gone(
    tables: Tables,
    id: u128,
    listed: Seq<EntryView>,
    limit: Option<usize>,
    offset: Option<usize>,
)
    requires
        tables.wf(),
        tables.delete_thread(id).0 is Ok,
        tables.delete_thread(id).1.lists(Table::Threads, listed),
    ensures
        ({
            let after = tables.delete_thread(id).1;
            &&& after.wf()
            &&& after.get_thread(id) == Err::<OutcomeView, DatabaseErrorView>(
                DatabaseErrorView::NotFound,
            )
            &&& after.get_thread_messages(id, limit, offset) == Err::<
                OutcomeView,
                DatabaseErrorView,
            >(DatabaseErrorView::NotFound)
            &&& forall|i: int|
                0 <= i < threads_of(listed).len() ==> (#[trigger] threads_of(listed)[i]).id != id
            &&& forall|m: u128|
                #![trigger after.delete_message(id, m)]
                after.delete_message(id, m) == (
                    Err::<OutcomeView, DatabaseErrorView>(DatabaseErrorView::NotFound),
                    after,
                )
        }),
{
    let after = tables.delete_thread(id).1;
    tables.lemma_delete_thread_wf(id);
    lemma_listed_threads(after, listed);
    assert forall|i: int| 0 <= i < threads_of(listed).len() implies (#[trigger] threads_of(
        listed,
    )[i]).id != id by {
        let thread = threads_of(listed)[i];
        assert(after.has(Table::Threads, thread_key(thread.id)));
    }
    assert forall|m: u128|
        #![trigger after.delete_message(id, m)]
        after.delete_message(id, m) == (
            Err::<OutcomeView, DatabaseErrorView>(DatabaseErrorView::NotFound),
            after,
        ) by {
        assert(!after.has(Table::Messages, message_key(id, m)));
    }
}

impl Tables {
    /// True when every entry of `entries` is a key of `table` with its
    /// record.
    pub open spec fn lists_part(self, table: Table, entries: Seq<EntryView>) -> bool {
        forall|i: int|
            0 <= i < entries.len() ==> self.get(table, (#[trigger] entries[i]).key) == Some(
                entries[i].record,
            )
    }
}

/// On sound tables, every thread among entries of the thread table is a
/// thread that the tables hold, under its own identifier.
pub proof fn lemma_listed_threads(tables: Tables, listed: Seq<EntryView>)
    requires
        tables.wf(),
        tables.lists_part(Table::Threads, listed),
    ensures
        threads_of(listed).len() == listed.len(),
        forall|i: int|
            0 <= i < threads_of(listed).len() ==> tables.has(
                Table::Threads,
                thread_key((#[trigger] threads_of(listed)[i]).id),
            ) && tables.thread(threads_of(listed)[i].id) == Some(threads_of(listed)[i])
                && listed[i].key == thread_key(threads_of(listed)[i].id),
    decreases listed.len(),
{
    if listed.len() > 0 {
        let init = listed.drop_last();
        assert forall|i: int| 0 <= i < init.len() implies tables.get(
            Table::Threads,
            (#[trigger] init[i]).key,
        ) == Some(init[i].record) by {
            assert(init[i] == listed[i]);
        }
        lemma_listed_threads(tables, init);
        let last = listed.last();
        assert(listed[listed.len() - 1] == last);
        assert(tables.has(Table::Threads, last.key));
        tables.lemma_thread_keys(last.key);
    }
}

/// Creating a message in a thread that does not exist fails with
/// `NotFound` and changes nothing.
pub proof fn law_message_needs_thread(tables: Tables, message: MessageView)
    requires
        !tables.has(Table::Threads, thread_key(message.thread_id)),
    ensures
        tables.create_message(message) == (
            Err::<OutcomeView, DatabaseErrorView>(DatabaseErrorView::NotFound),
            tables,
        ),
{
}

/// True when every message of `messages` belongs to `thread_id` and no
/// two have one identifier.
pub open spec fn new_messages_of(messages: Seq<MessageView>, thread_id: u128) -> bool {
    &&& forall|i: int| 0 <= i < messages.len() ==> (#[trigger] messages[i]).thread_id == thread_id
    &&& forall|i: int, j: int|
        0 <= i < messages.len() && 0 <= j < messages.len() && i != j ==> (#[trigger] messages[i]).id
            != (#[trigger] messages[j]).id
}

/// Messages created one after another in a thread are appended, in that
/// order, to the messages the thread already had.
pub proof fn law_messages_keep_creation_order(
    tables: Tables,
    thread_id: u128,
    messages: Seq<MessageView>,
)
    requires
        tables.wf(),
        tables.has(Table::Threads, thread_key(thread_id)),
        new_messages_of(messages, thread_id),
        forall|i: int|
            0 <= i < messages.len() ==> !tables.has(
                Table::Messages,
                message_key(thread_id, (#[trigger] messages[i]).id),
            ),
    ensures
        ({
            let after = tables.create_messages(messages);
            &&& after.wf()
            &&& after.has(Table::Threads, thread_key(thread_id))
            &&& after.thread_messages(thread_id) == tables.thread_messages(thread_id) + messages
            &&& forall|m: u128|
                #![trigger after.has(Table::Messages, message_key(thread_id, m))]
                after.has(Table::Messages, message_key(thread_id, m)) <==> tables.has(
                    Table::Messages,
                    message_key(thread_id, m),
                ) || exists|i: int| 0 <= i < messages.len() && (#[trigger] messages[i]).id == m
        }),
    decreases messages.len(),
{
    lemma_keys_distinct();
    if messages.len() == 0 {
        assert(tables.thread_messages(thread_id) + messages =~= tables.thread_messages(thread_id));
    } else {
        let init = messages.drop_last();
        let last = messages.last();
        let mid = tables.create_messages(init);
        law_messages_keep_creation_order(tables, thread_id, init);
        assert(messages[messages.len() - 1] == last);
        assert(!mid.has(Table::Messages, message_key(thread_id, last.id))) by {
            if mid.has(Table::Messages, message_key(thread_id, last.id)) {
                let i = choose|i: int| 0 <= i < init.len() && (#[trigger] init[i]).id == last.id;
                assert(messages[i].id == messages[messages.len() - 1].id);
            }
        }
        mid.lemma_create_message_wf(last);
        let after = mid.create_message(last).1;
        assert(mid.thread_sound(thread_id));
        assert(mid.members_sound(thread_id));
        assert(mid.records[(Table::ThreadMessages, thread_key(thread_id))].fits(
            Table::ThreadMessages,
        ));
        let ids = mid.members(thread_id);
        assert(after.members(thread_id) == ids.push(last.id));
        assert(after.message(thread_id, last.id) == Some(last));
        assert(after.thread_messages(thread_id) =~= mid.thread_messages(thread_id).push(last)) by {
            assert forall|i: int| 0 <= i < ids.len() implies after.message(thread_id, ids[i])
                == mid.message(thread_id, ids[i]) by {
                assert(mid.has(Table::Messages, message_key(thread_id, ids[i])));
            }
        }
        assert(tables.thread_messages(thread_id) + messages =~= (tables.thread_messages(thread_id)
            + init).push(last));
        assert forall|m: u128|
            #![trigger after.has(Table::Messages, message_key(thread_id, m))]
            after.has(Table::Messages, message_key(thread_id, m)) <==> tables.has(
                Table::Messages,
                message_key(thread_id, m),
            ) || exists|i: int| 0 <= i < messages.len() && (#[trigger] messages[i]).id == m by {
            if m == last.id {
                assert(messages[messages.len() - 1].id == m);
            }
            if mid.has(Table::Messages, message_key(thread_id, m)) && !tables.has(
                Table::Messages,
                message_key(thread_id, m),
            ) {
                let i = choose|i: int| 0 <= i < init.len() && (#[trigger] init[i]).id == m;
                assert(messages[i].id == m);
            }
            if exists|i: int| 0 <= i < messages.len() && (#[trigger] messages[i]).id == m {
                let i = choose|i: int| 0 <= i < messages.len() && (#[trigger] messages[i]).id == m;
                if i < init.len() {
                    assert(init[i].id == m);
                }
            }
        }
    }
}

/// What reading one page of a thread's messages returns on sound tables,
/// for a thread whose messages a machine can count: `total` counts all the
/// thread's messages, and the page holds `min(limit, max(0, total -
/// offset))` of them from the `offset`-th on, in creation order.
pub proof fn law_page_of_thread_messages(
    tables: Tables,
    thread_id: u128,
    limit: Option<usize>,
    offset: Option<usize>,
)
    requires
        tables.wf(),
        tables.has(Table::Threads, thread_key(thread_id)),
        tables.members(thread_id).len() <= usize::MAX,
    ensures
        tables.get_thread_messages(thread_id, limit, offset) == Ok::<
            OutcomeView,
            DatabaseErrorView,
        >(OutcomeView::Messages(response(tables.thread_messages(thread_id), limit, offset))),
        ({
            let all = tables.thread_messages(thread_id);
            let r = response(all, limit, offset);
            &&& r.total == all.len() == tables.members(thread_id).len()
            &&& r.offset == effective_offset(offset)
            &&& r.limit == effective_limit(all.len(), limit)
            &&& r.messages == page(all, r.offset as nat, r.limit as nat)
            &&& r.messages.len() == vstd::math::min(
                r.limit as int,
                vstd::math::max(0, all.len() - r.offset),
            )
            &&& forall|i: int|
                0 <= i < r.messages.len() ==> #[trigger] r.messages[i] == all[r.offset + i]
            &&& limit is None && offset is None ==> r.messages == all
        }),
{
    let all = tables.thread_messages(thread_id);
    assert(tables.thread_sound(thread_id));
    assert(tables.records[(Table::ThreadMessages, thread_key(thread_id))].fits(
        Table::ThreadMessages,
    ));
    tables.lemma_messages_from(thread_id, 0, Seq::empty());
    assert(Seq::<MessageView>::empty() + all.subrange(0, all.len() as int) =~= all);
    crate::pagination::lemma_page_contents(
        all,
        effective_offset(offset),
        effective_limit(all.len(), limit),
    );
    lemma_page_unbounded(all);
}

/// A message that was deleted cannot be deleted again, and no page of
/// its thread holds it any more.
pub proof fn law_deleted_message_is_gone(tables: Tables, thread_id: u128, message_id: u128)
    requires
        tables.wf(),
        tables.delete_message(thread_id, message_id).0 is Ok,
    ensures
        ({
            let after = tables.delete_message(thread_id, message_id).1;
            &&& after.wf()
            &&& after.delete_message(thread_id, message_id) == (
                Err::<OutcomeView, DatabaseErrorView>(DatabaseErrorView::NotFound),
                after,
            )
            &&& !after.members(thread_id).contains(message_id)
            &&& after.has(Table::Threads, thread_key(thread_id))
        }),
{
    lemma_keys_distinct();
    let after = tables.delete_message(thread_id, message_id).1;
    tables.lemma_delete_message_wf(thread_id, message_id);
    assert(tables.message_sound(thread_id, message_id));
    if after.members(thread_id).contains(message_id) {
        let ids = after.members(thread_id);
        let j = choose|j: int| 0 <= j < ids.len() && ids[j] == message_id;
        assert(after.has(Table::ThreadMessages, thread_key(thread_id)));
        assert(after.members_sound(thread_id));
        assert(after.has(Table::Messages, message_key(thread_id, ids[j])));
    }
    assert(after.has(Table::Threads, thread_key(thread_id))) by {
        tables.lemma_delete_message_keeps_threads(thread_id, message_id, thread_id);
    }
}

impl Tables {
    /// Deleting a message leaves every thread record as it was.
    pub proof fn lemma_delete_message_keeps_threads(
        self,
        thread_id: u128,
        message_id: u128,
        other: u128,
    )
        requires
            self.wf(),
        ensures
            self.delete_message(thread_id, message_id).1.get(Table::Threads, thread_key(other))
                == self.get(Table::Threads, thread_key(other)),
    {
        lemma_keys_distinct();
        let key = message_key(thread_id, message_id);
        if self.has(Table::Messages, key) {
            assert(self.message_sound(thread_id, message_id));
            assert(self.thread_sound(thread_id));
            assert(self.records[(Table::ThreadMessages, thread_key(thread_id))].fits(
                Table::ThreadMessages,
            ));
            let ids = self.members(thread_id);
            let mid = self.delete(Table::Messages, key).put(
                Table::ThreadMessages,
                thread_key(thread_id),
                RecordView::Members(crate::membership::others(ids, message_id)),
            );
            assert(mid.records.dom().finite());
            assert(mid.well_typed()) by {
                self.lemma_write_typed(
                    crate::durable::protocol::WriteView::Delete { table: Table::Messages, key },
                );
                self.delete(Table::Messages, key).lemma_write_typed(
                    crate::durable::protocol::WriteView::Put {
                        table: Table::ThreadMessages,
                        key: thread_key(thread_id),
                        record: RecordView::Members(crate::membership::others(ids, message_id)),
                    },
                );
            }
            mid.lemma_prune_message_keeps(thread_id, message_id);
            let after = mid.prune_message(thread_id, message_id)->Ok_0;
            if mid.has(Table::Threads, thread_key(other)) {
                assert(!crate::durable::soundness::message_entry(thread_id, message_id)(
                    Table::Threads,
                    thread_key(other),
                ));
                assert(after.has(Table::Threads, thread_key(other)));
            }
        }
    }
}

/// Replacing a message's content changes its content and nothing else:
/// its identifier, its thread, its role and its creation time stay, and so
/// does every other record of every table.
pub proof fn law_update_changes_only_content(
    tables: Tables,
    thread_id: u128,
    message_id: u128,
    content: ContentView,
)
    requires
        tables.wf(),
        tables.update_message(thread_id, message_id, content).0 is Ok,
    ensures
        ({
            let before = tables.message(thread_id, message_id)->0;
            let after = tables.update_message(thread_id, message_id, content).1;
            let updated = after.message(thread_id, message_id)->0;
            &&& after.wf()
            &&& tables.message(thread_id, message_id) is Some
            &&& after.message(thread_id, message_id) is Some
            &&& tables.update_message(thread_id, message_id, content).0 == Ok::<
                OutcomeView,
                DatabaseErrorView,
            >(OutcomeView::Message(updated))
            &&& updated.content == content
            &&& updated.id == before.id
            &&& updated.thread_id == before.thread_id
            &&& updated.role == before.role
            &&& updated.created_at == before.created_at
            &&& forall|table: Table, key: Seq<u8>|
                #![trigger after.get(table, key)]
                !(table == Table::Messages && key == message_key(thread_id, message_id))
                    ==> after.get(table, key) == tables.get(table, key)
        }),
{
    tables.lemma_update_message_wf(thread_id, message_id, content);
}

/// Reading threads by identifier returns threads that the tables hold
/// only, each under one of the identifiers asked for, and at most one for
/// each identifier asked for; each carries the embedding that the tables
/// hold for it, and none if they hold none.
pub proof fn law_found_threads_exist(tables: Tables, ids: Seq<u128>)
    requires
        tables.wf(),
    ensures
        tables.get_threads_with_embeddings(ids) == Ok::<OutcomeView, DatabaseErrorView>(
            OutcomeView::Threads(tables.found_threads(ids)),
        ),
        tables.found_threads(ids).len() <= ids.len(),
        forall|i: int|
            0 <= i < tables.found_threads(ids).len() ==> {
                let found = #[trigger] tables.found_threads(ids)[i];
                &&& ids.contains(found.id)
                &&& tables.has(Table::Threads, thread_key(found.id))
                &&& found == tables.thread_with_embedding(found.id)
                &&& found.embedding == tables.embedding(found.id)
            },
    decreases ids.len(),
{
    tables.lemma_threads_from(ids, 0, Seq::empty());
    assert(ids.subrange(0, ids.len() as int) =~= ids);
    assert(Seq::<ThreadView>::empty() + tables.found_threads(ids) =~= tables.found_threads(ids));
    if ids.len() > 0 {
        let init = ids.drop_last();
        law_found_threads_exist(tables, init);
        assert forall|i: int| 0 <= i < tables.found_threads(ids).len() implies {
            let found = #[trigger] tables.found_threads(ids)[i];
            &&& ids.contains(found.id)
            &&& tables.has(Table::Threads, thread_key(found.id))
            &&& found == tables.thread_with_embedding(found.id)
            &&& found.embedding == tables.embedding(found.id)
        } by {
            let found = tables.found_threads(ids)[i];
            if i < tables.found_threads(init).len() {
                assert(tables.found_threads(init)[i] == found);
                let j = choose|j: int| 0 <= j < init.len() && init[j] == found.id;
                assert(ids[j] == found.id);
            } else {
                assert(ids[ids.len() - 1] == ids.last());
                assert(tables.thread_sound(ids.last()));
                if tables.has(Table::Embeddings, thread_key(ids.last())) {
                    assert(tables.records[(Table::Embeddings, thread_key(ids.last()))].fits(
                        Table::Embeddings,
                    ));
                }
            }
        }
    }
}

/// Once summary and embedding of a thread are set, reading the thread with
/// its embedding returns both.
pub proof fn law_embedding_after_update(
    tables: Tables,
    id: u128,
    summary: Seq<char>,
    embedding: Seq<u32>,
)
    requires
        tables.wf(),
        tables.update_thread_summary_and_embedding(id, summary, embedding).0 is Ok,
    ensures
        ({
            let after = tables.update_thread_summary_and_embedding(id, summary, embedding).1;
            &&& after.wf()
            &&& after.found_threads(seq![id]).len() == 1
            &&& after.found_threads(seq![id])[0].summary == Some(summary)
            &&& after.found_threads(seq![id])[0].embedding == Some(embedding)
            &&& after.found_threads(seq![id])[0].id == id
        }),
{
    lemma_keys_distinct();
    let after = tables.update_thread_summary_and_embedding(id, summary, embedding).1;
    tables.lemma_update_summary_wf(id, summary, embedding);
    assert(tables.thread_sound(id));
    after.lemma_found_threads_first(id, Seq::empty());
    assert(seq![id] + Seq::<u128>::empty() =~= seq![id]);
    assert(after.found_threads(seq![id]) =~= seq![after.thread_with_embedding(id)]);
}

/// The creation-time entry that the probe for thread `thread_id` finds is
/// the earliest entry of the table that is not below time zero of the
/// thread, ties broken by identifier; it is removed if it is an entry of
/// the thread, and nothing is removed if it is an entry of another.
pub proof fn law_thread_probe_finds_earliest(
    tables: Tables,
    thread_id: u128,
    seconds: u64,
    id: u128,
)
    requires
        tables.well_typed(),
        tables.has(Table::ThreadCreationTime, thread_time_key(seconds, id)),
        !HeedTimestampUuid((seconds, id)).precedes(HeedTimestampUuid((0, thread_id))),
        forall|s: u64, other: u128|
            #![trigger thread_time_key(s, other)]
            tables.has(Table::ThreadCreationTime, thread_time_key(s, other)) && !HeedTimestampUuid(
                (s, other),
            ).precedes(HeedTimestampUuid((0, thread_id))) ==> !HeedTimestampUuid(
                (s, other),
            ).precedes(HeedTimestampUuid((seconds, id))),
    ensures
        tables.first(Table::ThreadCreationTime, thread_time_key(0, thread_id)) == Some(
            thread_time_key(seconds, id),
        ),
        tables.prune_thread(thread_id) == Ok::<Tables, DatabaseErrorView>(
            if id == thread_id {
                tables.delete(Table::ThreadCreationTime, thread_time_key(seconds, id))
            } else {
                tables
            },
        ),
{
    lemma_keys_distinct();
    let table = Table::ThreadCreationTime;
    let from = thread_time_key(0, thread_id);
    let key = thread_time_key(seconds, id);
    let found = HeedTimestampUuid((seconds, id));
    let probe = HeedTimestampUuid((0, thread_id));
    found.lemma_encoding_order(probe);
    probe.lemma_encoding_order(found);
    lemma_lex_lt_total(from, key);
    assert(lex_le(from, key));
    assert forall|other: Seq<u8>|
        #![trigger tables.has(table, other)]
        tables.has(table, other) && lex_le(from, other) implies lex_le(key, other) by {
        assert(other.len() == 24);
        let entry = HeedTimestampUuid::decoding(other)->0;
        entry.lemma_round_trip(other);
        assert(other == thread_time_key(entry.0.0, entry.0.1));
        entry.lemma_encoding_order(probe);
        probe.lemma_encoding_order(entry);
        entry.lemma_encoding_order(found);
        found.lemma_encoding_order(entry);
        lemma_lex_lt_total(from, other);
        lemma_lex_lt_total(key, other);
    }
    assert(tables.is_first(table, from, key));
    let chosen = tables.first(table, from)->0;
    assert(tables.is_first(table, from, chosen));
    lemma_lex_lt_total(key, chosen);
    assert(chosen == key);
    if id == thread_id {
        tables.lemma_apply_one(crate::durable::protocol::WriteView::Delete { table, key });
    } else {
        assert(tables.apply_all(Seq::empty()) == tables);
    }
}

/// The creation-time entry that the probe for a message finds is the
/// earliest entry of the message's thread from the probe on, ties broken
/// by identifier; it is removed if it is the entry of the message, and
/// nothing is removed if it is the entry of another.
pub proof fn law_message_probe_finds_earliest(
    tables: Tables,
    thread_id: u128,
    message_id: u128,
    owner: u128,
    seconds: u64,
    id: u128,
)
    requires
        tables.well_typed(),
        tables.has(Table::MessageCreationTime, message_time_key(owner, seconds, id)),
        !HeedMessageCreationTimeId((owner, seconds, id)).precedes(
            HeedMessageCreationTimeId((thread_id, 0, message_id)),
        ),
        forall|t: u128, s: u64, other: u128|
            #![trigger message_time_key(t, s, other)]
            tables.has(Table::MessageCreationTime, message_time_key(t, s, other))
                && !HeedMessageCreationTimeId((t, s, other)).precedes(
                HeedMessageCreationTimeId((thread_id, 0, message_id)),
            ) ==> !HeedMessageCreationTimeId((t, s, other)).precedes(
                HeedMessageCreationTimeId((owner, seconds, id)),
            ),
    ensures
        tables.first(Table::MessageCreationTime, message_time_key(thread_id, 0, message_id))
            == Some(message_time_key(owner, seconds, id)),
        tables.prune_message(thread_id, message_id) == Ok::<Tables, DatabaseErrorView>(
            if owner == thread_id && id == message_id {
                tables.delete(Table::MessageCreationTime, message_time_key(owner, seconds, id))
            } else {
                tables
            },
        ),
{
    lemma_keys_distinct();
    let table = Table::MessageCreationTime;
    let from = message_time_key(thread_id, 0, message_id);
    let key = message_time_key(owner, seconds, id);
    let found = HeedMessageCreationTimeId((owner, seconds, id));
    let probe = HeedMessageCreationTimeId((thread_id, 0, message_id));
    found.lemma_encoding_order(probe);
    probe.lemma_encoding_order(found);
    lemma_lex_lt_total(from, key);
    assert(lex_le(from, key));
    assert forall|other: Seq<u8>|
        #![trigger tables.has(table, other)]
        tables.has(table, other) && lex_le(from, other) implies lex_le(key, other) by {
        assert(other.len() == 40);
        let entry = HeedMessageCreationTimeId::decoding(other)->0;
        entry.lemma_round_trip(other);
        assert(other == message_time_key(entry.0.0, entry.0.1, entry.0.2));
        entry.lemma_encoding_order(probe);
        probe.lemma_encoding_order(entry);
        entry.lemma_encoding_order(found);
        found.lemma_encoding_order(entry);
        lemma_lex_lt_total(from, other);
        lemma_lex_lt_total(key, other);
    }
    assert(tables.is_first(table, from, key));
    let chosen = tables.first(table, from)->0;
    assert(tables.is_first(table, from, chosen));
    lemma_lex_lt_total(key, chosen);
    assert(chosen == key);
    if owner == thread_id && id == message_id {
        tables.lemma_apply_one(crate::durable::protocol::WriteView::Delete { table, key });
    } else {
        assert(tables.apply_all(Seq::empty()) == tables);
    }
}

/// Run as transactions against a faithful store: a thread that was
/// created is found, unchanged, by the read that follows.
pub proof fn law_created_thread_is_read_back(tables: Tables, id: u128, seconds: u64, fuel: nat)
    requires
        tables.wf(),
        !tables.has(Table::Threads, thread_key(id)),
        fuel >= 2,
    ensures
        ({
            let after = tables.create_thread(id, seconds).1;
            let thread = OutcomeView::Thread(ThreadView::fresh(id));
            &&& execute(TransactionView::create_thread(id, seconds), tables, fuel) == Some(
                (Ok::<OutcomeView, DatabaseErrorView>(thread), after),
            )
            &&& execute(TransactionView::get_thread(id), after, fuel) == Some(
                (Ok::<OutcomeView, DatabaseErrorView>(thread), after),
            )
        }),
{
    let after = tables.create_thread(id, seconds).1;
    crate::durable::semantics::lemma_create_thread_runs(tables, id, seconds, fuel);
    crate::durable::semantics::lemma_get_thread_runs(after, id, fuel);
    law_created_thread_is_found(tables, id, seconds);
}

/// Run as transactions against a faithful store: after a thread was
/// deleted, reading it, reading its messages and deleting a message of it
/// all fail with `NotFound`.
pub proof fn law_deleted_thread_is_not_read_back(
    tables: Tables,
    id: u128,
    message_id: u128,
    fuel: nat,
)
    requires
        tables.wf(),
        tables.has(Table::Threads, thread_key(id)),
        fuel >= crate::durable::semantics::reads_to_delete_thread(tables, id),
    ensures
        ({
            let after = tables.delete_thread(id).1;
            let not_found = Err::<OutcomeView, DatabaseErrorView>(DatabaseErrorView::NotFound);
            &&& execute(TransactionView::delete_thread(id), tables, fuel) == Some(
                (Ok::<OutcomeView, DatabaseErrorView>(OutcomeView::Done), after),
            )
            &&& execute(TransactionView::get_thread(id), after, 3) == Some((not_found, after))
            &&& execute(TransactionView::get_thread_messages(id, None, None), after, 3) == Some(
                (not_found, after),
            )
            &&& execute(TransactionView::delete_message(id, message_id), after, 3) == Some(
                (not_found, after),
            )
        }),
{
    let after = tables.delete_thread(id).1;
    tables.lemma_delete_thread_wf(id);
    crate::durable::semantics::lemma_delete_thread_runs(tables, id, fuel);
    crate::durable::semantics::lemma_get_thread_runs(after, id, 3);
    crate::durable::semantics::lemma_get_thread_messages_runs(after, id, None, None, 3);
    crate::durable::semantics::lemma_delete_message_runs(after, id, message_id, 3);
    assert(!after.has(Table::Messages, message_key(id, message_id)));
    assert(!after.has(Table::ThreadMessages, thread_key(id))) by {
        if after.has(Table::ThreadMessages, thread_key(id)) {
            assert(after.members_sound(id));
        }
    }
}

/// A write that fails ends every operation with `OperationFailed`, and a
/// read that fails ends every operation with `QueryError`, but for the
/// read of one message of a page.
pub proof fn law_store_failure_ends_operation(
    transaction: TransactionView,
    detail: Seq<char>,
)
    ensures
        transaction.resume(ReplyView::WriteFailed(detail)) == StepView::fail(
            DatabaseErrorView::OperationFailed(detail),
        ),
        !(transaction is GetMessagesFetch) ==> transaction.resume(ReplyView::ReadFailed(detail))
            == StepView::fail(DatabaseErrorView::QueryError(detail)),
{
}

/// An operation that fails leaves the tables as they were.
pub proof fn law_failure_changes_nothing(step: StepView, tables: Tables, fuel: nat)
    ensures
        execute(step, tables, fuel) matches Some((Err(_), after)) ==> after == tables,
{
}

} // verus!
