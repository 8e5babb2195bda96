//! The volatile engine: every table lives in process memory.
//!
//! The engine is a plain value that its methods change in place. Each
//! method is one logical operation on all the tables it touches, so whoever
//! shares an engine between tasks guards the whole engine with one lock and
//! gets operations that never interleave.

pub mod laws;
pub mod model;

use std::collections::HashMap;
use vstd::prelude::*;
use vstd::std_specs::hash::*;
use vstd::std_specs::iter::IteratorSpec;
use vstd::string::StringExecFns;
use crate::clock::now_millis;
use crate::embedding::Embedding;
use crate::error::DatabaseError;
use crate::id::new_id;
use crate::in_memory::model::MemoryView;
use crate::membership::{clone_ids, lemma_others_is_remove_value, retain_others};
use crate::message::{
    messages_view, CreateMessage, Message, MessageView, ThreadMessagesResponse, UpdateMessage,
};
use crate::pagination::{apply_pagination, effective_limit, effective_offset, page};
use crate::thread::{threads_view, Thread, ThreadView, UpdateThread};

verus! {

broadcast use vstd::std_specs::hash::group_hash_axioms;

/// The volatile engine.
pub struct SynxInMemory {
    threads: HashMap<u128, Thread>,
    messages: HashMap<u128, Message>,
    thread_messages: HashMap<u128, Vec<u128>>,
}

/// Everything a volatile engine holds, for diagnostics.
#[derive(Debug, PartialEq, Eq)]
pub struct MemoryDump {
    /// Every thread.
    pub threads: Vec<Thread>,
    /// Every message.
    pub messages: Vec<Message>,
    /// Every thread's identifier with the identifiers of its messages in
    /// creation order.
    pub thread_messages: Vec<(u128, Vec<u128>)>,
}

/// True when `listed` names every thread of `threads` once, with its value.
pub open spec fn lists_all_threads(listed: Seq<ThreadView>, threads: Map<u128, ThreadView>) -> bool {
    &&& listed.len() == threads.dom().len()
    &&& forall|i: int|
        0 <= i < listed.len() ==> threads.contains_key(#[trigger] listed[i].id) && threads[listed[i].id]
            == listed[i]
    &&& forall|i: int, j: int|
        0 <= i < listed.len() && 0 <= j < listed.len() && i != j ==> listed[i].id != listed[j].id
    &&& forall|id: u128|
        threads.contains_key(id) ==> exists|i: int|
            0 <= i < listed.len() && (#[trigger] listed[i]).id == id
}

/// True when `listed` names every message of `messages` once, with its
/// value.
pub open spec fn lists_all_messages(
    listed: Seq<MessageView>,
    messages: Map<u128, MessageView>,
) -> bool {
    &&& listed.len() == messages.dom().len()
    &&& forall|i: int|
        0 <= i < listed.len() ==> messages.contains_key(#[trigger] listed[i].id)
            && messages[listed[i].id] == listed[i]
    &&& forall|i: int, j: int|
        0 <= i < listed.len() && 0 <= j < listed.len() && i != j ==> listed[i].id != listed[j].id
}

/// True when `listed` names every thread of `membership` once, with the
/// identifiers of its messages.
pub open spec fn lists_all_members(
    listed: Seq<(u128, Vec<u128>)>,
    membership: Map<u128, Seq<u128>>,
) -> bool {
    &&& listed.len() == membership.dom().len()
    &&& forall|i: int|
        0 <= i < listed.len() ==> membership.contains_key(#[trigger] listed[i].0)
            && membership[listed[i].0] == listed[i].1@
    &&& forall|i: int, j: int|
        0 <= i < listed.len() && 0 <= j < listed.len() && i != j ==> listed[i].0 != listed[j].0
}

impl View for SynxInMemory {
    type V = MemoryView;

    closed spec fn view(&self) -> MemoryView {
        MemoryView {
            threads: Map::new(
                |k: u128| self.threads@.contains_key(k),
                |k: u128| self.threads@[k]@,
            ),
            messages: Map::new(
                |k: u128| self.messages@.contains_key(k),
                |k: u128| self.messages@[k]@,
            ),
            membership: Map::new(
                |k: u128| self.thread_messages@.contains_key(k),
                |k: u128| self.thread_messages@[k]@,
            ),
        }
    }
}

impl SynxInMemory {
    /// True of every engine that [`SynxInMemory::new`] made and the
    /// methods below changed.
    pub open spec fn wf(&self) -> bool {
        &&& self@.consistent()
        &&& self@.threads.dom().finite()
    }

    /// An engine that holds nothing.
    pub fn new() -> (r: Self)
        ensures
            r.wf(),
            r@ == MemoryView::empty(),
    {
        let r = SynxInMemory {
            threads: HashMap::new(),
            messages: HashMap::new(),
            thread_messages: HashMap::new(),
        };
        assert(r@ =~= MemoryView::empty());
        r
    }

    /// Creates a thread under a fresh random identifier.
    ///
    /// Fails with `InternalError`, changing nothing, in the event that the
    /// identifier drawn is already in use.
    pub fn create_thread(&mut self) -> (r: Result<Thread, DatabaseError>)
        requires
            old(self).wf(),
        ensures
            final(self).wf(),
            match r {
                Ok(thread) => {
                    &&& !old(self)@.threads.contains_key(thread.id)
                    &&& thread@ == ThreadView::fresh(thread.id)
                    &&& final(self)@ == old(self)@.with_thread(thread.id)
                },
                Err(e) => e is InternalError && final(self)@ == old(self)@,
            },
    {
        let id = new_id();
        self.create_thread_with_id(id)
    }

    /// Creates a thread under `id`.
    ///
    /// Fails with `InternalError`, changing nothing, if and only if `id`
    /// already names a thread.
    pub fn create_thread_with_id(&mut self, id: u128) -> (r: Result<Thread, DatabaseError>)
        requires
            old(self).wf(),
        ensures
            final(self).wf(),
            match r {
                Ok(thread) => {
                    &&& !old(self)@.threads.contains_key(id)
                    &&& thread@ == ThreadView::fresh(id)
                    &&& final(self)@ == old(self)@.with_thread(id)
                },
                Err(e) => {
                    &&& old(self)@.threads.contains_key(id)
                    &&& e is InternalError
                    &&& final(self)@ == old(self)@
                },
            },
    {
        if self.threads.contains_key(&id) {
            return Err(
                DatabaseError::InternalError(String::from_str("thread identifier already in use")),
            );
        }
        let thread = Thread::with_id(id);
        self.threads.insert(id, thread.clone());
        self.thread_messages.insert(id, Vec::new());
        proof {
            assert(final(self)@ =~= old(self)@.with_thread(id));
            old(self)@.lemma_with_thread_consistent(id);
        }
        Ok(thread)
    }

    /// Deletes thread `thread_id` together with every message it owns.
    pub fn delete_thread(&mut self, thread_id: u128) -> (r: Result<(), DatabaseError>)
        requires
            old(self).wf(),
        ensures
            final(self).wf(),
            match r {
                Ok(()) => {
                    &&& old(self)@.threads.contains_key(thread_id)
                    &&& final(self)@ == old(self)@.without_thread(thread_id)
                },
                Err(e) => {
                    &&& !old(self)@.threads.contains_key(thread_id)
                    &&& e is NotFound
                    &&& final(self)@ == old(self)@
                },
            },
    {
        if self.threads.remove(&thread_id).is_none() {
            assert(final(self)@ =~= old(self)@);
            return Err(DatabaseError::NotFound);
        }
        proof {
            assert(old(self)@.threads.contains_key(thread_id));
            assert(old(self)@.membership.contains_key(thread_id));
        }
        let ids: Vec<u128> = match self.thread_messages.remove(&thread_id) {
            Some(ids) => ids,
            None => Vec::new(),
        };
        assert(ids@ == old(self)@.membership[thread_id]);
        let ghost threads_left = self.threads@;
        let ghost membership_left = self.thread_messages@;
        let ghost messages_before = self.messages@;
        let mut i: usize = 0;
        while i < ids.len()
            invariant
                i <= ids.len(),
                self.threads@ == threads_left,
                self.thread_messages@ == membership_left,
                forall|k: u128|
                    self.messages@.contains_key(k) <==> messages_before.contains_key(k)
                        && !ids@.take(i as int).contains(k),
                forall|k: u128|
                    self.messages@.contains_key(k) ==> self.messages@[k] == messages_before[k],
            decreases ids.len() - i,
        {
            let ghost head = self.messages@;
            let id: u128 = ids[i];
            self.messages.remove(&id);
            proof {
                assert(self.messages@ == head.remove(id));
                assert(ids@.take(i as int + 1) =~= ids@.take(i as int).push(ids@[i as int]));
                let shorter = ids@.take(i as int);
                let longer = ids@.take(i as int + 1);
                assert forall|k: u128| longer.contains(k) <==> shorter.contains(k) || k == id by {
                    if shorter.contains(k) {
                        let j = choose|j: int| 0 <= j < shorter.len() && shorter[j] == k;
                        assert(longer[j] == k);
                    }
                    if k == id {
                        assert(longer[i as int] == k);
                    }
                    if longer.contains(k) {
                        let j = choose|j: int| 0 <= j < longer.len() && longer[j] == k;
                        if j < i {
                            assert(shorter[j] == k);
                        }
                    }
                }
                assert forall|k: u128|
                    self.messages@.contains_key(k) <==> messages_before.contains_key(k)
                        && !longer.contains(k) by {
                    assert(head.contains_key(k) <==> messages_before.contains_key(k)
                        && !shorter.contains(k));
                    assert(self.messages@.contains_key(k) <==> head.contains_key(k) && k != id);
                }
            }
            i += 1;
        }
        proof {
            assert(ids@.take(ids.len() as int) =~= ids@);
            assert(final(self)@ =~= old(self)@.without_thread(thread_id));
            old(self)@.lemma_without_thread_consistent(thread_id);
        }
        Ok(())
    }

    /// Creates a message in thread `thread_id` under a fresh random
    /// identifier, stamped with the current time.
    ///
    /// Fails with `NotFound` if the thread does not exist, and with
    /// `InternalError` in the event that the identifier drawn is already in
    /// use; either way nothing changes.
    pub fn create_message(&mut self, thread_id: u128, input: CreateMessage) -> (r: Result<
        Message,
        DatabaseError,
    >)
        requires
            old(self).wf(),
        ensures
            final(self).wf(),
            match r {
                Ok(message) => {
                    &&& old(self)@.threads.contains_key(thread_id)
                    &&& !old(self)@.messages.contains_key(message.id)
                    &&& message@ == input.message(thread_id, message.id, message.created_at)
                    &&& final(self)@ == old(self)@.with_message(message@)
                },
                Err(e) => {
                    &&& final(self)@ == old(self)@
                    &&& !old(self)@.threads.contains_key(thread_id) <==> e is NotFound
                    &&& old(self)@.threads.contains_key(thread_id) ==> e is InternalError
                },
            },
    {
        let id = new_id();
        let created_at = now_millis();
        self.create_message_at(thread_id, input, id, created_at)
    }

    /// Creates a message in thread `thread_id` under `id`, stamped
    /// `created_at`.
    ///
    /// Fails with `NotFound` if and only if the thread does not exist;
    /// otherwise with `InternalError` if and only if `id` already names a
    /// message. A failure changes nothing.
    pub fn create_message_at(
        &mut self,
        thread_id: u128,
        input: CreateMessage,
        id: u128,
        created_at: u64,
    ) -> (r: Result<Message, DatabaseError>)
        requires
            old(self).wf(),
        ensures
            final(self).wf(),
            match r {
                Ok(message) => {
                    &&& old(self)@.threads.contains_key(thread_id)
                    &&& !old(self)@.messages.contains_key(id)
                    &&& message@ == input.message(thread_id, id, created_at)
                    &&& final(self)@ == old(self)@.with_message(message@)
                },
                Err(e) => {
                    &&& final(self)@ == old(self)@
                    &&& !old(self)@.threads.contains_key(thread_id) <==> e is NotFound
                    &&& old(self)@.threads.contains_key(thread_id) ==> {
                        &&& e is InternalError
                        &&& old(self)@.messages.contains_key(id)
                    }
                },
            },
    {
        if !self.threads.contains_key(&thread_id) {
            return Err(DatabaseError::NotFound);
        }
        if self.messages.contains_key(&id) {
            return Err(
                DatabaseError::InternalError(
                    String::from_str("message identifier already in use"),
                ),
            );
        }
        let message = input.into_message_at(thread_id, id, created_at);
        let copy = message.clone();
        proof {
            assert(old(self)@.membership.contains_key(thread_id));
        }
        let mut ids: Vec<u128> = match self.thread_messages.remove(&thread_id) {
            Some(ids) => ids,
            None => Vec::new(),
        };
        ids.push(id);
        self.thread_messages.insert(thread_id, ids);
        self.messages.insert(id, message);
        proof {
            assert(final(self)@ =~= old(self)@.with_message(copy@));
            old(self)@.lemma_with_message_consistent(copy@);
        }
        Ok(copy)
    }

    /// Replaces the content of message `message_id`.
    ///
    /// Fails with `NotFound`, changing nothing, if and only if thread
    /// `thread_id` does not exist or no message has the identifier. The
    /// message is looked up by its identifier alone: it need not belong to
    /// the thread named.
    pub fn update_message(
        &mut self,
        thread_id: u128,
        message_id: u128,
        content: UpdateMessage,
    ) -> (r: Result<Message, DatabaseError>)
        requires
            old(self).wf(),
        ensures
            final(self).wf(),
            match r {
                Ok(message) => {
                    &&& old(self)@.threads.contains_key(thread_id)
                    &&& old(self)@.messages.contains_key(message_id)
                    &&& message@ == old(self)@.messages[message_id].with_content(content.content@)
                    &&& final(self)@ == old(self)@.with_content(message_id, content.content@)
                },
                Err(e) => {
                    &&& !(old(self)@.threads.contains_key(thread_id) && old(
                        self,
                    )@.messages.contains_key(message_id))
                    &&& e is NotFound
                    &&& final(self)@ == old(self)@
                },
            },
    {
        if !self.threads.contains_key(&thread_id) {
            return Err(DatabaseError::NotFound);
        }
        let mut message = match self.messages.remove(&message_id) {
            Some(message) => message,
            None => {
                assert(final(self)@ =~= old(self)@);
                return Err(DatabaseError::NotFound);
            },
        };
        message.update_content(content);
        let copy = message.clone();
        self.messages.insert(message_id, message);
        proof {
            assert(final(self)@ =~= old(self)@.with_content(message_id, content.content@));
            old(self)@.lemma_with_content_consistent(message_id, content.content@);
        }
        Ok(copy)
    }

    /// Deletes message `message_id` and takes it off its thread's list.
    ///
    /// Fails with `NotFound`, changing nothing, if and only if thread
    /// `thread_id` does not exist or no message has the identifier. The
    /// message is looked up by its identifier alone: it need not belong to
    /// the thread named.
    pub fn delete_message(&mut self, thread_id: u128, message_id: u128) -> (r: Result<
        (),
        DatabaseError,
    >)
        requires
            old(self).wf(),
        ensures
            final(self).wf(),
            match r {
                Ok(()) => {
                    &&& old(self)@.threads.contains_key(thread_id)
                    &&& old(self)@.messages.contains_key(message_id)
                    &&& final(self)@ == old(self)@.without_message(message_id)
                },
                Err(e) => {
                    &&& !(old(self)@.threads.contains_key(thread_id) && old(
                        self,
                    )@.messages.contains_key(message_id))
                    &&& e is NotFound
                    &&& final(self)@ == old(self)@
                },
            },
    {
        if !self.threads.contains_key(&thread_id) {
            return Err(DatabaseError::NotFound);
        }
        let message = match self.messages.remove(&message_id) {
            Some(message) => message,
            None => {
                assert(final(self)@ =~= old(self)@);
                return Err(DatabaseError::NotFound);
            },
        };
        let owner: u128 = message.thread_id;
        proof {
            assert(old(self)@.messages.contains_key(message_id));
            assert(old(self)@.messages[message_id].thread_id == owner);
            assert(old(self)@.membership.contains_key(owner));
        }
        let ids: Vec<u128> = match self.thread_messages.remove(&owner) {
            Some(ids) => ids,
            None => Vec::new(),
        };
        let kept = retain_others(ids, message_id);
        self.thread_messages.insert(owner, kept);
        proof {
            lemma_others_is_remove_value(old(self)@.membership[owner], message_id);
            assert(final(self)@ =~= old(self)@.without_message(message_id));
            old(self)@.lemma_without_message_consistent(message_id);
        }
        Ok(())
    }

    /// Every thread, in no particular order.
    pub fn list_threads(&self) -> (r: Result<Vec<Thread>, DatabaseError>)
        requires
            self.wf(),
        ensures
            r matches Ok(threads) && lists_all_threads(threads_view(threads@), self@.threads),
    {
        let mut threads: Vec<Thread> = Vec::new();
        for id in it: self.threads.keys()
            invariant
                self.wf(),
                threads.len() == it.index(),
                forall|j: int|
                    0 <= j < it.index() ==> (#[trigger] threads@[j]).id == *it.seq()[j]
                        && self@.threads.contains_key(threads@[j].id) && self@.threads[threads@[j].id]
                        == threads@[j]@,
        {
            proof {
                let keys = spec_keys_iter(&self.threads).remaining();
                assert(keys.unref().to_set().contains(keys.unref()[it.index() as int]));
                assert(self@.threads.contains_key(*id));
                assert(self@.threads[*id].id == *id);
            }
            match self.threads.get(id) {
                Some(thread) => {
                    threads.push(thread.clone());
                },
                None => {},
            }
        }
        proof {
            let keys = spec_keys_iter(&self.threads).remaining();
            let listed = threads_view(threads@);
            assert(keys.unref().to_set() == self.threads@.dom());
            assert(self@.threads.dom() =~= self.threads@.dom());
            assert forall|i: int, j: int|
                0 <= i < listed.len() && 0 <= j < listed.len() && i != j implies listed[i].id
                != listed[j].id by {
                assert(keys.unref()[i] == threads@[i].id);
                assert(keys.unref()[j] == threads@[j].id);
            }
            assert forall|id: u128| self@.threads.contains_key(id) implies exists|i: int|
                0 <= i < listed.len() && (#[trigger] listed[i]).id == id by {
                assert(keys.unref().to_set().contains(id));
                let i = choose|i: int| 0 <= i < keys.unref().len() && keys.unref()[i] == id;
                assert(listed[i].id == id);
            }
        }
        Ok(threads)
    }

    /// Everything the engine holds, each list in no particular order.
    pub fn debug_state(&self) -> (r: Result<MemoryDump, DatabaseError>)
        requires
            self.wf(),
        ensures
            r matches Ok(dump) && lists_all_threads(threads_view(dump.threads@), self@.threads)
                && lists_all_messages(messages_view(dump.messages@), self@.messages)
                && lists_all_members(dump.thread_messages@, self@.membership),
    {
        let threads = match self.list_threads() {
            Ok(threads) => threads,
            Err(error) => {
                return Err(error);
            },
        };
        let mut messages: Vec<Message> = Vec::new();
        for id in it: self.messages.keys()
            invariant
                self.wf(),
                messages.len() == it.index(),
                forall|j: int|
                    0 <= j < it.index() ==> (#[trigger] messages@[j]).id == *it.seq()[j]
                        && self@.messages.contains_key(messages@[j].id)
                        && self@.messages[messages@[j].id] == messages@[j]@,
        {
            proof {
                let keys = spec_keys_iter(&self.messages).remaining();
                assert(keys.unref().to_set().contains(keys.unref()[it.index() as int]));
                assert(self@.messages.contains_key(*id));
                assert(self@.messages[*id].id == *id);
            }
            match self.messages.get(id) {
                Some(message) => {
                    messages.push(message.clone());
                },
                None => {},
            }
        }
        proof {
            let keys = spec_keys_iter(&self.messages).remaining();
            let listed = messages_view(messages@);
            assert(self@.messages.dom() =~= self.messages@.dom());
            assert forall|i: int, j: int|
                0 <= i < listed.len() && 0 <= j < listed.len() && i != j implies listed[i].id
                != listed[j].id by {
                assert(keys.unref()[i] == messages@[i].id);
                assert(keys.unref()[j] == messages@[j].id);
            }
        }
        let mut thread_messages: Vec<(u128, Vec<u128>)> = Vec::new();
        for id in it: self.thread_messages.keys()
            invariant
                self.wf(),
                thread_messages.len() == it.index(),
                forall|j: int|
                    0 <= j < it.index() ==> (#[trigger] thread_messages@[j]).0 == *it.seq()[j]
                        && self@.membership.contains_key(thread_messages@[j].0)
                        && self@.membership[thread_messages@[j].0] == thread_messages@[j].1@,
        {
            proof {
                let keys = spec_keys_iter(&self.thread_messages).remaining();
                assert(keys.unref().to_set().contains(keys.unref()[it.index() as int]));
                assert(self@.membership.contains_key(*id));
            }
            match self.thread_messages.get(id) {
                Some(ids) => {
                    thread_messages.push((*id, clone_ids(ids)));
                },
                None => {},
            }
        }
        proof {
            let keys = spec_keys_iter(&self.thread_messages).remaining();
            assert(self@.membership.dom() =~= self.thread_messages@.dom());
            assert forall|i: int, j: int|
                0 <= i < thread_messages@.len() && 0 <= j < thread_messages@.len() && i
                != j implies thread_messages@[i].0 != thread_messages@[j].0 by {
                assert(keys.unref()[i] == thread_messages@[i].0);
                assert(keys.unref()[j] == thread_messages@[j].0);
            }
        }
        Ok(MemoryDump { threads, messages, thread_messages })
    }

    /// Thread `thread_id`.
    pub fn get_thread(&self, thread_id: u128) -> (r: Result<Thread, DatabaseError>)
        requires
            self.wf(),
        ensures
            match r {
                Ok(thread) => self@.threads.contains_key(thread_id) && thread@
                    == self@.threads[thread_id],
                Err(e) => !self@.threads.contains_key(thread_id) && e is NotFound,
            },
    {
        match self.threads.get(&thread_id) {
            Some(thread) => Ok(thread.clone()),
            None => Err(DatabaseError::NotFound),
        }
    }

    /// One page of the messages of thread `thread_id`, in creation order.
    ///
    /// `total` counts all the thread's messages. The page skips `offset`
    /// messages (none where absent) and holds at most `limit` (all the
    /// thread's messages where absent).
    pub fn get_thread_messages(
        &self,
        thread_id: u128,
        limit: Option<usize>,
        offset: Option<usize>,
    ) -> (r: Result<ThreadMessagesResponse, DatabaseError>)
        requires
            self.wf(),
        ensures
            match r {
                Ok(response) => {
                    &&& self@.threads.contains_key(thread_id)
                    &&& response.total == self@.membership[thread_id].len()
                    &&& response.offset == effective_offset(offset)
                    &&& response.limit == effective_limit(response.total as nat, limit)
                    &&& messages_view(response.messages@) == page(
                        self@.thread_messages(thread_id),
                        response.offset as nat,
                        response.limit as nat,
                    )
                },
                Err(e) => !self@.threads.contains_key(thread_id) && e is NotFound,
            },
    {
        if !self.threads.contains_key(&thread_id) {
            return Err(DatabaseError::NotFound);
        }
        proof {
            assert(self@.membership.contains_key(thread_id));
        }
        let mut all: Vec<Message> = Vec::new();
        match self.thread_messages.get(&thread_id) {
            Some(ids) => {
                let ghost expected = self@.thread_messages(thread_id);
                let mut i: usize = 0;
                while i < ids.len()
                    invariant
                        self.wf(),
                        i <= ids.len(),
                        ids@ == self@.membership[thread_id],
                        self@.membership.contains_key(thread_id),
                        expected == self@.thread_messages(thread_id),
                        messages_view(all@) == expected.take(i as int),
                    decreases ids.len() - i,
                {
                    proof {
                        assert(self@.messages.contains_key(self@.membership[thread_id][i as int]));
                    }
                    let ghost before = all@;
                    match self.messages.get(&ids[i]) {
                        Some(message) => {
                            assert(message@ == expected[i as int]);
                            all.push(message.clone());
                            assert(messages_view(all@) =~= messages_view(before).push(
                                expected[i as int],
                            ));
                        },
                        None => {
                            assert(self.messages@.contains_key(ids@[i as int]));
                            assert(false);
                        },
                    }
                    assert(expected.take(i as int + 1) =~= expected.take(i as int).push(
                        expected[i as int],
                    ));
                    i += 1;
                }
                assert(expected.take(ids.len() as int) =~= expected);
            },
            None => {},
        }
        let ghost whole = all@;
        let (messages, total, offset, limit) = apply_pagination(all, limit, offset);
        assert(messages_view(messages@) =~= page(
            messages_view(whole),
            offset as nat,
            limit as nat,
        ));
        Ok(ThreadMessagesResponse { messages, total, offset, limit })
    }

    /// Sets the title of thread `thread_id`.
    pub fn update_thread(&mut self, thread_id: u128, update: UpdateThread) -> (r: Result<
        Thread,
        DatabaseError,
    >)
        requires
            old(self).wf(),
        ensures
            final(self).wf(),
            match r {
                Ok(thread) => {
                    &&& old(self)@.threads.contains_key(thread_id)
                    &&& final(self)@ == old(self)@.with_title(
                        thread_id,
                        crate::content::opt_text(update.title),
                    )
                    &&& thread@ == final(self)@.threads[thread_id]
                },
                Err(e) => {
                    &&& !old(self)@.threads.contains_key(thread_id)
                    &&& e is NotFound
                    &&& final(self)@ == old(self)@
                },
            },
    {
        let mut thread = match self.threads.remove(&thread_id) {
            Some(thread) => thread,
            None => {
                assert(final(self)@ =~= old(self)@);
                return Err(DatabaseError::NotFound);
            },
        };
        thread.set_title(update.title);
        let copy = thread.clone();
        self.threads.insert(thread_id, thread);
        proof {
            assert(final(self)@ =~= old(self)@.with_title(
                thread_id,
                crate::content::opt_text(update.title),
            ));
            old(self)@.lemma_thread_update_consistent(thread_id, copy@);
        }
        Ok(copy)
    }

    /// Sets the summary and the embedding of thread `thread_id` together.
    pub fn update_thread_summary_and_embedding(
        &mut self,
        thread_id: u128,
        summary: String,
        embedding: Embedding,
    ) -> (r: Result<(), DatabaseError>)
        requires
            old(self).wf(),
        ensures
            final(self).wf(),
            match r {
                Ok(()) => {
                    &&& old(self)@.threads.contains_key(thread_id)
                    &&& final(self)@ == old(self)@.with_summary_and_embedding(
                        thread_id,
                        summary@,
                        embedding@,
                    )
                },
                Err(e) => {
                    &&& !old(self)@.threads.contains_key(thread_id)
                    &&& e is NotFound
                    &&& final(self)@ == old(self)@
                },
            },
    {
        let mut thread = match self.threads.remove(&thread_id) {
            Some(thread) => thread,
            None => {
                assert(final(self)@ =~= old(self)@);
                return Err(DatabaseError::NotFound);
            },
        };
        thread.set_summary(summary);
        thread.set_embedding(embedding);
        let ghost updated = thread@;
        self.threads.insert(thread_id, thread);
        proof {
            assert(final(self)@ =~= old(self)@.with_summary_and_embedding(
                thread_id,
                summary@,
                embedding@,
            ));
            old(self)@.lemma_thread_update_consistent(thread_id, updated);
        }
        Ok(())
    }

    /// The threads that `thread_ids` name, in that order, each as it is
    /// stored: an identifier that names no thread gives none, and a thread
    /// whose embedding was never set carries none.
    pub fn get_threads_with_embeddings(&self, thread_ids: &[u128]) -> (r: Result<
        Vec<Thread>,
        DatabaseError,
    >)
        requires
            self.wf(),
        ensures
            r matches Ok(threads) && threads_view(threads@) == self@.found_threads(thread_ids@),
    {
        let mut threads: Vec<Thread> = Vec::new();
        let mut i: usize = 0;
        while i < thread_ids.len()
            invariant
                i <= thread_ids.len(),
                threads_view(threads@) == self@.found_threads(thread_ids@.take(i as int)),
            decreases thread_ids.len() - i,
        {
            proof {
                assert(thread_ids@.take(i as int + 1).drop_last() =~= thread_ids@.take(i as int));
            }
            match self.threads.get(&thread_ids[i]) {
                Some(thread) => {
                    threads.push(thread.clone());
                },
                None => {},
            }
            assert(threads_view(threads@) =~= self@.found_threads(thread_ids@.take(i as int + 1)));
            i += 1;
        }
        assert(thread_ids@.take(thread_ids.len() as int) =~= thread_ids@);
        Ok(threads)
    }
}

} // verus!
