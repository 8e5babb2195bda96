//! What holds of the volatile engine across operations.

use vstd::prelude::*;
use crate::content::ContentView;
use crate::in_memory::lists_all_threads;
use crate::in_memory::model::MemoryView;
use crate::message::MessageView;
use crate::pagination::{effective_limit, effective_offset, page};
use crate::thread::ThreadView;

verus! {

/// True when every message of `messages` belongs to `thread_id` and no
/// two have one identifier.
pub open spec fn new_messages_of(messages: Seq<MessageView>, thread_id: u128) -> bool {
    &&& forall|i: int| 0 <= i < messages.len() ==> (#[trigger] messages[i]).thread_id == thread_id
    &&& forall|i: int, j: int|
        0 <= i < messages.len() && 0 <= j < messages.len() && i != j ==> (#[trigger] messages[i]).id
            != (#[trigger] messages[j]).id
}

/// A thread just created is found under its identifier, with no title, no
/// summary and no embedding.
pub proof fn law_created_thread_is_found(s: MemoryView, id: u128)
    ensures
        s.with_thread(id).threads.contains_key(id),
        s.with_thread(id).threads[id] == ThreadView::fresh(id),
        s.with_thread(id).threads[id].id == id,
        s.with_thread(id).threads[id].summary is None,
        s.with_thread(id).threads[id].embedding is None,
{
}

/// After a thread is deleted no listing holds it, it is not found, and
/// none of the messages it owned is found.
pub proof fn law_deleted_thread_is_gone(s: MemoryView, id: u128, listed: Seq<ThreadView>)
    requires
        s.consistent(),
        s.threads.contains_key(id),
        lists_all_threads(listed, s.without_thread(id).threads),
    ensures
        s.without_thread(id).consistent(),
        !s.without_thread(id).threads.contains_key(id),
        forall|i: int| 0 <= i < listed.len() ==> (#[trigger] listed[i]).id != id,
        forall|m: u128|
            #![trigger s.membership[id].contains(m)]
            s.membership[id].contains(m) ==> !s.without_thread(id).messages.contains_key(m),
        forall|m: u128|
            s.messages.contains_key(m) && (#[trigger] s.messages[m]).thread_id == id
                ==> !s.without_thread(id).messages.contains_key(m),
{
    s.lemma_without_thread_consistent(id);
    assert forall|i: int| 0 <= i < listed.len() implies (#[trigger] listed[i]).id != id by {
        assert(s.without_thread(id).threads.contains_key(listed[i].id));
    }
    assert forall|m: u128|
        s.messages.contains_key(m) && (#[trigger] s.messages[m]).thread_id == id implies !s.without_thread(
        id,
    ).messages.contains_key(m) by {
        assert(s.membership[id].contains(m));
        assert(s.membership[id].to_set().contains(m));
    }
}

/// Messages created one after another in a thread are appended, in that
/// order, to the messages the thread already had.
pub proof fn law_messages_keep_creation_order(
    s: MemoryView,
    thread_id: u128,
    messages: Seq<MessageView>,
)
    requires
        s.consistent(),
        s.threads.contains_key(thread_id),
        new_messages_of(messages, thread_id),
        forall|i: int| 0 <= i < messages.len() ==> !s.messages.contains_key(#[trigger] messages[i].id),
    ensures
        s.with_messages(messages).consistent(),
        s.with_messages(messages).threads == s.threads,
        s.with_messages(messages).thread_messages(thread_id) == s.thread_messages(thread_id)
            + messages,
        forall|m: u128|
            s.with_messages(messages).messages.contains_key(m) <==> s.messages.contains_key(m) || (
            exists|i: int| 0 <= i < messages.len() && (#[trigger] messages[i]).id == m),
    decreases messages.len(),
{
    if messages.len() == 0 {
        assert(s.thread_messages(thread_id) + messages =~= s.thread_messages(thread_id));
    } else {
        let init = messages.drop_last();
        let last = messages.last();
        let mid = s.with_messages(init);
        law_messages_keep_creation_order(s, thread_id, init);
        assert(!mid.messages.contains_key(last.id)) by {
            if mid.messages.contains_key(last.id) {
                assert(!s.messages.contains_key(messages[messages.len() - 1].id));
                let i = choose|i: int| 0 <= i < init.len() && (#[trigger] init[i]).id == last.id;
                assert(messages[i].id == messages[messages.len() - 1].id);
            }
        }
        mid.lemma_with_message_consistent(last);
        let next = mid.with_message(last);
        assert(next.thread_messages(thread_id) =~= mid.thread_messages(thread_id).push(last)) by {
            assert forall|i: int| 0 <= i < mid.membership[thread_id].len() implies mid.membership[thread_id][i]
                != last.id by {
                assert(mid.messages.contains_key(mid.membership[thread_id][i]));
            }
        }
        assert(s.thread_messages(thread_id) + messages =~= (s.thread_messages(thread_id) + init).push(
            last,
        ));
        assert forall|m: u128|
            next.messages.contains_key(m) <==> s.messages.contains_key(m) || (exists|i: int|
                0 <= i < messages.len() && (#[trigger] messages[i]).id == m) by {
            if m == last.id {
                assert(messages[messages.len() - 1].id == m);
            }
            if mid.messages.contains_key(m) && !s.messages.contains_key(m) {
                let i = choose|i: int| 0 <= i < init.len() && (#[trigger] init[i]).id == m;
                assert(messages[i].id == m);
            }
            if exists|i: int| 0 <= i < messages.len() && (#[trigger] messages[i]).id == m {
                let i = choose|i: int| 0 <= i < messages.len() && (#[trigger] messages[i]).id == m;
                if i < init.len() {
                    assert(init[i].id == m);
                }
            }
        }
    }
}

/// In a thread just created, the messages created one after another are
/// exactly what the thread lists when no bound is given, in creation
/// order.
pub proof fn law_new_thread_lists_its_messages(
    s: MemoryView,
    thread_id: u128,
    messages: Seq<MessageView>,
)
    requires
        s.consistent(),
        !s.threads.contains_key(thread_id),
        new_messages_of(messages, thread_id),
        forall|i: int| 0 <= i < messages.len() ==> !s.messages.contains_key(#[trigger] messages[i].id),
    ensures
        ({
            let after = s.with_thread(thread_id).with_messages(messages);
            let total = after.membership[thread_id].len();
            &&& total == messages.len()
            &&& page(
                after.thread_messages(thread_id),
                effective_offset(None),
                effective_limit(total, None),
            ) == messages
        }),
{
    let start = s.with_thread(thread_id);
    s.lemma_with_thread_consistent(thread_id);
    law_messages_keep_creation_order(start, thread_id, messages);
    let after = start.with_messages(messages);
    assert(start.thread_messages(thread_id) =~= Seq::<MessageView>::empty());
    assert(start.thread_messages(thread_id) + messages =~= messages);
    assert(after.thread_messages(thread_id).len() == after.membership[thread_id].len());
    crate::pagination::lemma_page_unbounded(after.thread_messages(thread_id));
}

/// Replacing a message's content changes its content and nothing else:
/// its identifier, its thread, its role and its creation time stay, every
/// other message stays, and so do the threads and their lists.
pub proof fn law_update_changes_only_content(s: MemoryView, id: u128, content: ContentView)
    requires
        s.consistent(),
        s.messages.contains_key(id),
    ensures
        ({
            let after = s.with_content(id, content);
            &&& after.consistent()
            &&& after.messages.dom() == s.messages.dom()
            &&& after.messages[id].content == content
            &&& after.messages[id].id == s.messages[id].id
            &&& after.messages[id].thread_id == s.messages[id].thread_id
            &&& after.messages[id].role == s.messages[id].role
            &&& after.messages[id].created_at == s.messages[id].created_at
            &&& forall|m: u128|
                m != id && s.messages.contains_key(m) ==> #[trigger] after.messages[m]
                    == s.messages[m]
            &&& after.threads == s.threads
            &&& after.membership == s.membership
        }),
{
    s.lemma_with_content_consistent(id, content);
    assert(s.with_content(id, content).messages.dom() =~= s.messages.dom());
}

/// Reading threads by identifier returns stored threads only, each under
/// one of the identifiers asked for and as it is stored, and at most one
/// for each identifier asked for.
pub proof fn law_found_threads_exist(s: MemoryView, ids: Seq<u128>)
    requires
        s.consistent(),
    ensures
        s.found_threads(ids).len() <= ids.len(),
        forall|i: int|
            0 <= i < s.found_threads(ids).len() ==> {
                let found = #[trigger] s.found_threads(ids)[i];
                &&& ids.contains(found.id)
                &&& s.threads.contains_key(found.id)
                &&& s.threads[found.id] == found
            },
    decreases ids.len(),
{
    if ids.len() > 0 {
        let init = ids.drop_last();
        law_found_threads_exist(s, init);
        assert forall|i: int| 0 <= i < s.found_threads(ids).len() implies {
            let found = #[trigger] s.found_threads(ids)[i];
            &&& ids.contains(found.id)
            &&& s.threads.contains_key(found.id)
            &&& s.threads[found.id] == found
        } by {
            let found = s.found_threads(ids)[i];
            if i < s.found_threads(init).len() {
                assert(s.found_threads(init)[i] == found);
                let j = choose|j: int| 0 <= j < init.len() && init[j] == found.id;
                assert(ids[j] == found.id);
            } else {
                assert(ids[ids.len() - 1] == ids.last());
                assert(found == s.threads[ids.last()]);
            }
        }
    }
}

/// A thread whose summary and embedding were never set is read back
/// without an embedding.
pub proof fn law_no_embedding_before_update(s: MemoryView, id: u128)
    ensures
        s.with_thread(id).found_threads(seq![id]) == seq![ThreadView::fresh(id)],
        s.with_thread(id).found_threads(seq![id])[0].embedding is None,
{
    let after = s.with_thread(id);
    assert(seq![id].drop_last() =~= Seq::<u128>::empty());
    assert(after.found_threads(seq![id]) =~= seq![ThreadView::fresh(id)]) by {
        reveal_with_fuel(MemoryView::found_threads, 2);
    }
}

/// Once set, a thread's embedding is what reading the thread returns.
pub proof fn law_embedding_after_update(
    s: MemoryView,
    id: u128,
    summary: Seq<char>,
    embedding: Seq<u32>,
)
    requires
        s.threads.contains_key(id),
    ensures
        ({
            let after = s.with_summary_and_embedding(id, summary, embedding);
            &&& after.found_threads(seq![id]).len() == 1
            &&& after.found_threads(seq![id])[0].embedding == Some(embedding)
            &&& after.found_threads(seq![id])[0].summary == Some(summary)
        }),
{
    assert(seq![id].drop_last() =~= Seq::<u128>::empty());
    reveal_with_fuel(MemoryView::found_threads, 2);
}

} // verus!
