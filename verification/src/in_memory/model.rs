//! What the volatile engine holds, as mathematics, and what each operation
//! makes of it.

use vstd::prelude::*;
use crate::content::ContentView;
use crate::message::MessageView;
use crate::thread::ThreadView;

verus! {

/// What the volatile engine holds, as mathematics.
#[verifier::ext_equal]
pub struct MemoryView {
    /// Every thread, under its identifier, with its embedding if it has one.
    pub threads: Map<u128, ThreadView>,
    /// Every message, under its own identifier.
    pub messages: Map<u128, MessageView>,
    /// For every thread, the identifiers of its messages in creation order.
    pub membership: Map<u128, Seq<u128>>,
}

impl MemoryView {
    /// The invariant of the engine: a thread and its membership list exist
    /// together, every record sits under its own identifier, every message
    /// is listed once by the thread that owns it, and nothing else is
    /// listed.
    pub open spec fn consistent(self) -> bool {
        &&& self.threads.dom() == self.membership.dom()
        &&& forall|t: u128| self.threads.contains_key(t) ==> (#[trigger] self.threads[t]).id == t
        &&& forall|m: u128|
            self.messages.contains_key(m) ==> {
                &&& (#[trigger] self.messages[m]).id == m
                &&& self.membership.contains_key(self.messages[m].thread_id)
                &&& self.membership[self.messages[m].thread_id].contains(m)
            }
        &&& forall|t: u128, i: int|
            self.membership.contains_key(t) && 0 <= i < self.membership[t].len() ==> {
                &&& self.messages.contains_key(#[trigger] self.membership[t][i])
                &&& self.messages[self.membership[t][i]].thread_id == t
            }
        &&& forall|t: u128|
            self.membership.contains_key(t) ==> (#[trigger] self.membership[t]).no_duplicates()
    }

    /// The engine that holds nothing.
    pub open spec fn empty() -> MemoryView {
        MemoryView { threads: Map::empty(), messages: Map::empty(), membership: Map::empty() }
    }

    /// The engine after a thread was created under `id`.
    pub open spec fn with_thread(self, id: u128) -> MemoryView {
        MemoryView {
            threads: self.threads.insert(id, ThreadView::fresh(id)),
            membership: self.membership.insert(id, Seq::empty()),
            ..self
        }
    }

    /// The engine after thread `id` was deleted with all its messages.
    pub open spec fn without_thread(self, id: u128) -> MemoryView {
        MemoryView {
            threads: self.threads.remove(id),
            messages: self.messages.remove_keys(self.membership[id].to_set()),
            membership: self.membership.remove(id),
        }
    }

    /// The engine after `message` was created in its thread.
    pub open spec fn with_message(self, message: MessageView) -> MemoryView {
        MemoryView {
            messages: self.messages.insert(message.id, message),
            membership: self.membership.insert(
                message.thread_id,
                self.membership[message.thread_id].push(message.id),
            ),
            ..self
        }
    }

    /// The engine after the content of message `id` was replaced.
    pub open spec fn with_content(self, id: u128, content: ContentView) -> MemoryView {
        MemoryView {
            messages: self.messages.insert(id, self.messages[id].with_content(content)),
            ..self
        }
    }

    /// The engine after message `id` was deleted.
    pub open spec fn without_message(self, id: u128) -> MemoryView {
        let owner = self.messages[id].thread_id;
        MemoryView {
            messages: self.messages.remove(id),
            membership: self.membership.insert(
                owner,
                self.membership[owner].remove_value(id),
            ),
            ..self
        }
    }

    /// The engine after the title of thread `id` was set.
    pub open spec fn with_title(self, id: u128, title: Option<Seq<char>>) -> MemoryView {
        MemoryView {
            threads: self.threads.insert(id, ThreadView { title, ..self.threads[id] }),
            ..self
        }
    }

    /// The engine after the summary and the embedding of thread `id` were
    /// set together.
    pub open spec fn with_summary_and_embedding(
        self,
        id: u128,
        summary: Seq<char>,
        embedding: Seq<u32>,
    ) -> MemoryView {
        MemoryView {
            threads: self.threads.insert(
                id,
                ThreadView {
                    summary: Some(summary),
                    embedding: Some(embedding),
                    ..self.threads[id]
                },
            ),
            ..self
        }
    }

    /// The messages of thread `id` in creation order.
    pub open spec fn thread_messages(self, id: u128) -> Seq<MessageView> {
        self.membership[id].map_values(|m: u128| self.messages[m])
    }

    /// The threads that `ids` name, in the order of `ids`; an identifier
    /// that names no thread gives none.
    pub open spec fn found_threads(self, ids: Seq<u128>) -> Seq<ThreadView>
        decreases ids.len(),
    {
        if ids.len() == 0 {
            Seq::empty()
        } else if self.threads.contains_key(ids.last()) {
            self.found_threads(ids.drop_last()).push(self.threads[ids.last()])
        } else {
            self.found_threads(ids.drop_last())
        }
    }

    /// The engine after each of `messages` was created, first to last.
    pub open spec fn with_messages(self, messages: Seq<MessageView>) -> MemoryView
        decreases messages.len(),
    {
        if messages.len() == 0 {
            self
        } else {
            self.with_messages(messages.drop_last()).with_message(messages.last())
        }
    }

    /// The empty engine is consistent.
    pub proof fn lemma_empty_consistent()
        ensures
            Self::empty().consistent(),
    {
    }

    /// Creating a thread under an unused identifier keeps the engine
    /// consistent.
    pub proof fn lemma_with_thread_consistent(self, id: u128)
        requires
            self.consistent(),
            !self.threads.contains_key(id),
        ensures
            self.with_thread(id).consistent(),
    {
        let next = self.with_thread(id);
        assert(next.threads.dom() =~= next.membership.dom());
        assert forall|m: u128| next.messages.contains_key(m) implies {
            &&& (#[trigger] next.messages[m]).id == m
            &&& next.membership.contains_key(next.messages[m].thread_id)
            &&& next.membership[next.messages[m].thread_id].contains(m)
        } by {
            assert(self.membership.contains_key(self.messages[m].thread_id));
        }
    }

    /// Deleting a thread keeps the engine consistent.
    pub proof fn lemma_without_thread_consistent(self, id: u128)
        requires
            self.consistent(),
            self.threads.contains_key(id),
        ensures
            self.without_thread(id).consistent(),
    {
        let next = self.without_thread(id);
        assert(next.threads.dom() =~= next.membership.dom());
        assert forall|m: u128| next.messages.contains_key(m) implies {
            &&& (#[trigger] next.messages[m]).id == m
            &&& next.membership.contains_key(next.messages[m].thread_id)
            &&& next.membership[next.messages[m].thread_id].contains(m)
        } by {
            let owner = self.messages[m].thread_id;
            if owner == id {
                assert(self.membership[id].contains(m));
                assert(self.membership[id].to_set().contains(m));
            }
        }
        assert forall|t: u128, i: int|
            next.membership.contains_key(t) && 0 <= i < next.membership[t].len() implies {
            &&& next.messages.contains_key(#[trigger] next.membership[t][i])
            &&& next.messages[next.membership[t][i]].thread_id == t
        } by {
            let m = self.membership[t][i];
            assert(self.messages.contains_key(m) && self.messages[m].thread_id == t);
            if self.membership[id].to_set().contains(m) {
                let j = choose|j: int| 0 <= j < self.membership[id].len() && self.membership[id][j] == m;
                assert(self.messages[self.membership[id][j]].thread_id == id);
            }
        }
    }

    /// Creating a message under an unused identifier in an existing thread
    /// keeps the engine consistent.
    pub proof fn lemma_with_message_consistent(self, message: MessageView)
        requires
            self.consistent(),
            self.threads.contains_key(message.thread_id),
            !self.messages.contains_key(message.id),
        ensures
            self.with_message(message).consistent(),
    {
        let next = self.with_message(message);
        let owner = message.thread_id;
        let before = self.membership[owner];
        assert(next.threads.dom() =~= next.membership.dom());
        assert forall|m: u128| next.messages.contains_key(m) implies {
            &&& (#[trigger] next.messages[m]).id == m
            &&& next.membership.contains_key(next.messages[m].thread_id)
            &&& next.membership[next.messages[m].thread_id].contains(m)
        } by {
            if m == message.id {
                assert(before.push(m)[before.len() as int] == m);
            } else if self.messages[m].thread_id == owner {
                let j = choose|j: int| 0 <= j < before.len() && before[j] == m;
                assert(before.push(message.id)[j] == m);
            }
        }
        assert forall|t: u128, i: int|
            next.membership.contains_key(t) && 0 <= i < next.membership[t].len() implies {
            &&& next.messages.contains_key(#[trigger] next.membership[t][i])
            &&& next.messages[next.membership[t][i]].thread_id == t
        } by {
            if t == owner && i < before.len() {
                assert(self.messages.contains_key(before[i]));
            } else if t != owner {
                assert(self.messages.contains_key(self.membership[t][i]));
            }
        }
        assert forall|t: u128| next.membership.contains_key(t) implies (
        #[trigger] next.membership[t]).no_duplicates() by {
            if t == owner {
                assert forall|i: int, j: int|
                    0 <= i < before.len() + 1 && 0 <= j < before.len() + 1 && i != j implies before.push(
                    message.id,
                )[i] != before.push(message.id)[j] by {
                    if i < before.len() {
                        assert(self.messages.contains_key(before[i]));
                    }
                    if j < before.len() {
                        assert(self.messages.contains_key(before[j]));
                    }
                }
            }
        }
    }

    /// Replacing the content of an existing message keeps the engine
    /// consistent.
    pub proof fn lemma_with_content_consistent(self, id: u128, content: ContentView)
        requires
            self.consistent(),
            self.messages.contains_key(id),
        ensures
            self.with_content(id, content).consistent(),
    {
        let next = self.with_content(id, content);
        assert forall|t: u128, i: int|
            next.membership.contains_key(t) && 0 <= i < next.membership[t].len() implies {
            &&& next.messages.contains_key(#[trigger] next.membership[t][i])
            &&& next.messages[next.membership[t][i]].thread_id == t
        } by {
            assert(self.messages.contains_key(self.membership[t][i]));
        }
    }

    /// Deleting an existing message keeps the engine consistent.
    pub proof fn lemma_without_message_consistent(self, id: u128)
        requires
            self.consistent(),
            self.messages.contains_key(id),
        ensures
            self.without_message(id).consistent(),
    {
        let next = self.without_message(id);
        let owner = self.messages[id].thread_id;
        let before = self.membership[owner];
        let after = before.remove_value(id);
        let at = before.index_of_first(id);
        before.index_of_first_ensures(id);
        let k = at->0;
        assert(after =~= before.remove(k));
        assert(next.threads.dom() =~= next.membership.dom());
        assert forall|m: u128| next.messages.contains_key(m) implies {
            &&& (#[trigger] next.messages[m]).id == m
            &&& next.membership.contains_key(next.messages[m].thread_id)
            &&& next.membership[next.messages[m].thread_id].contains(m)
        } by {
            if self.messages[m].thread_id == owner {
                let j = choose|j: int| 0 <= j < before.len() && before[j] == m;
                if j < k {
                    assert(after[j] == m);
                } else {
                    assert(after[j - 1] == m);
                }
            }
        }
        assert forall|t: u128, i: int|
            next.membership.contains_key(t) && 0 <= i < next.membership[t].len() implies {
            &&& next.messages.contains_key(#[trigger] next.membership[t][i])
            &&& next.messages[next.membership[t][i]].thread_id == t
        } by {
            if t == owner {
                if i < k {
                    assert(self.messages.contains_key(before[i]));
                } else {
                    assert(self.messages.contains_key(before[i + 1]));
                }
            } else {
                assert(self.messages.contains_key(self.membership[t][i]));
            }
        }
        assert forall|t: u128| next.membership.contains_key(t) implies (
        #[trigger] next.membership[t]).no_duplicates() by {
            if t == owner {
                assert(before.no_duplicates());
            }
        }
    }

    /// Changing a field of an existing thread keeps the engine consistent.
    pub proof fn lemma_thread_update_consistent(self, id: u128, thread: ThreadView)
        requires
            self.consistent(),
            self.threads.contains_key(id),
            thread.id == id,
        ensures
            (MemoryView { threads: self.threads.insert(id, thread), ..self }).consistent(),
    {
        let next = MemoryView { threads: self.threads.insert(id, thread), ..self };
        assert(next.threads.dom() =~= next.membership.dom());
    }
}

} // verus!
