//! Threads: the containers that messages belong to.

use vstd::prelude::*;
use crate::content::{clone_opt_string, opt_text};
use crate::embedding::{clone_opt_embedding, opt_embedding, Embedding};
use crate::id::{is_random_id, new_id};

verus! {

/// A conversation.
#[derive(Debug, PartialEq, Eq)]
pub struct Thread {
    /// Assigned at creation and never changed.
    pub id: u128,
    pub title: Option<String>,
    /// Written by the summarization that follows each new message.
    pub summary: Option<String>,
    /// Kept apart from the record and attached when a thread is read with
    /// its embedding.
    pub embedding: Option<Embedding>,
}

/// The mathematical value of a [`Thread`].
pub struct ThreadView {
    pub id: u128,
    pub title: Option<Seq<char>>,
    pub summary: Option<Seq<char>>,
    pub embedding: Option<Seq<u32>>,
}

impl View for Thread {
    type V = ThreadView;

    open spec fn view(&self) -> ThreadView {
        ThreadView {
            id: self.id,
            title: opt_text(self.title),
            summary: opt_text(self.summary),
            embedding: opt_embedding(self.embedding),
        }
    }
}

impl ThreadView {
    /// The thread as it is when created under `id`: nothing set.
    pub open spec fn fresh(id: u128) -> ThreadView {
        ThreadView { id, title: None, summary: None, embedding: None }
    }

    /// The thread without its embedding, as its record holds it.
    pub open spec fn record(self) -> ThreadView {
        ThreadView { embedding: None, ..self }
    }
}

impl Clone for Thread {
    fn clone(&self) -> (r: Self)
        ensures
            r@ == self@,
    {
        Thread {
            id: self.id,
            title: clone_opt_string(&self.title),
            summary: clone_opt_string(&self.summary),
            embedding: clone_opt_embedding(&self.embedding),
        }
    }
}

impl Thread {
    /// A thread under a fresh random identifier, with nothing set.
    pub fn new() -> (r: Self)
        ensures
            is_random_id(r.id),
            r@ == ThreadView::fresh(r.id),
    {
        Thread::with_id(new_id())
    }

    /// A thread under the given identifier, with nothing set.
    pub fn with_id(id: u128) -> (r: Self)
        ensures
            r@ == ThreadView::fresh(id),
    {
        Thread { id, title: None, summary: None, embedding: None }
    }

    /// The identifier of the thread.
    pub fn id(&self) -> (id: u128)
        ensures
            id == self@.id,
    {
        self.id
    }

    /// Sets or clears the title and changes nothing else.
    pub fn set_title(&mut self, title: Option<String>)
        ensures
            final(self)@ == (ThreadView { title: opt_text(title), ..old(self)@ }),
    {
        self.title = title;
    }

    /// Sets the summary and changes nothing else.
    pub fn set_summary(&mut self, summary: String)
        ensures
            final(self)@ == (ThreadView { summary: Some(summary@), ..old(self)@ }),
    {
        self.summary = Some(summary);
    }

    /// Sets the embedding and changes nothing else.
    pub fn set_embedding(&mut self, embedding: Embedding)
        ensures
            final(self)@ == (ThreadView { embedding: Some(embedding@), ..old(self)@ }),
    {
        self.embedding = Some(embedding);
    }
}

/// The values of a list of threads, in order.
pub open spec fn threads_view(items: Seq<Thread>) -> Seq<ThreadView> {
    Seq::new(items.len(), |i: int| items[i]@)
}

/// The fields of a thread that a caller may change.
#[derive(Debug, PartialEq, Eq)]
pub struct UpdateThread {
    pub title: Option<String>,
}

} // verus!
