//! One step of a transaction, and how a transaction ends.

use vstd::prelude::*;
use crate::durable::protocol::{
    entries_view, writes_view, Entry, EntryView, Read, ReadView, Write, WriteView,
};
use crate::durable::transaction::{Transaction, TransactionView};
use crate::error::{DatabaseError, DatabaseErrorView};
use crate::message::{Message, MessageView, ThreadMessagesResponse, ThreadMessagesResponseView};
use crate::thread::{threads_view, Thread, ThreadView};

verus! {

/// What an operation returns when it succeeds.
#[derive(Debug, PartialEq, Eq)]
pub enum Outcome {
    /// Nothing but the success.
    Done,
    Thread(Thread),
    Threads(Vec<Thread>),
    Message(Message),
    Messages(ThreadMessagesResponse),
    /// The entries of each table, in the order of `Table::all`.
    Dump(Vec<Vec<Entry>>),
}

/// The mathematical value of an [`Outcome`].
pub enum OutcomeView {
    Done,
    Thread(ThreadView),
    Threads(Seq<ThreadView>),
    Message(MessageView),
    Messages(ThreadMessagesResponseView),
    Dump(Seq<Seq<EntryView>>),
}

/// The values of the entry lists of a dump, in order.
pub open spec fn dump_view(tables: Seq<Vec<Entry>>) -> Seq<Seq<EntryView>> {
    Seq::new(tables.len(), |i: int| entries_view(tables[i]@))
}

impl View for Outcome {
    type V = OutcomeView;

    open spec fn view(&self) -> OutcomeView {
        match *self {
            Outcome::Done => OutcomeView::Done,
            Outcome::Thread(thread) => OutcomeView::Thread(thread@),
            Outcome::Threads(threads) => OutcomeView::Threads(threads_view(threads@)),
            Outcome::Message(message) => OutcomeView::Message(message@),
            Outcome::Messages(response) => OutcomeView::Messages(response@),
            Outcome::Dump(tables) => OutcomeView::Dump(dump_view(tables@)),
        }
    }
}

/// What follows the writes of a step.
#[derive(Debug, PartialEq, Eq)]
pub enum Next {
    /// Make `read` and resume `then` with what it returns.
    Read { read: Read, then: Transaction },
    /// The operation is over: commit on `Ok`, roll back on `Err`.
    Done(Result<Outcome, DatabaseError>),
}

/// The mathematical value of a [`Next`].
pub enum NextView {
    Read { read: ReadView, then: TransactionView },
    Done(Result<OutcomeView, DatabaseErrorView>),
}

/// The value of the result that ends an operation.
pub open spec fn result_view(result: Result<Outcome, DatabaseError>) -> Result<
    OutcomeView,
    DatabaseErrorView,
> {
    match result {
        Ok(outcome) => Ok(outcome@),
        Err(error) => Err(error@),
    }
}

impl View for Next {
    type V = NextView;

    open spec fn view(&self) -> NextView {
        match *self {
            Next::Read { read, then } => NextView::Read { read: read@, then: then@ },
            Next::Done(result) => NextView::Done(result_view(result)),
        }
    }
}

/// One step of a transaction: writes to apply in order, then what follows.
#[derive(Debug, PartialEq, Eq)]
pub struct Step {
    pub writes: Vec<Write>,
    pub next: Next,
}

/// The mathematical value of a [`Step`].
pub struct StepView {
    pub writes: Seq<WriteView>,
    pub next: NextView,
}

impl View for Step {
    type V = StepView;

    open spec fn view(&self) -> StepView {
        StepView { writes: writes_view(self.writes@), next: self.next@ }
    }
}

impl StepView {
    /// The step that ends the operation with `outcome` after `writes`.
    pub open spec fn succeed(writes: Seq<WriteView>, outcome: OutcomeView) -> StepView {
        StepView { writes, next: NextView::Done(Ok(outcome)) }
    }

    /// The step that ends the operation with `error`.
    pub open spec fn fail(error: DatabaseErrorView) -> StepView {
        StepView { writes: Seq::empty(), next: NextView::Done(Err(error)) }
    }

    /// The step that makes `read` after `writes` and goes on as `then`.
    pub open spec fn read(writes: Seq<WriteView>, read: ReadView, then: TransactionView) -> StepView {
        StepView { writes, next: NextView::Read { read, then } }
    }
}

impl Step {
    /// The step that ends the operation with `outcome` after `writes`.
    pub fn succeed(writes: Vec<Write>, outcome: Outcome) -> (step: Step)
        ensures
            step@ == StepView::succeed(writes_view(writes@), outcome@),
    {
        Step { writes, next: Next::Done(Ok(outcome)) }
    }

    /// The step that ends the operation with `error`.
    pub fn fail(error: DatabaseError) -> (step: Step)
        ensures
            step@ == StepView::fail(error@),
    {
        let step = Step { writes: Vec::new(), next: Next::Done(Err(error)) };
        assert(step@.writes =~= Seq::<WriteView>::empty());
        step
    }

    /// The step that makes `read` after `writes` and goes on as `then`.
    pub fn read(writes: Vec<Write>, read: Read, then: Transaction) -> (step: Step)
        ensures
            step@ == StepView::read(writes_view(writes@), read@, then@),
    {
        Step { writes, next: Next::Read { read, then } }
    }
}

/// The value of a list of writes with one more at the end.
pub proof fn lemma_writes_view_push(writes: Seq<Write>, write: Write)
    ensures
        writes_view(writes.push(write)) == writes_view(writes).push(write@),
{
    assert(writes_view(writes.push(write)) =~= writes_view(writes).push(write@));
}

/// The list of no writes.
pub fn no_writes() -> (writes: Vec<Write>)
    ensures
        writes_view(writes@) == Seq::<WriteView>::empty(),
{
    let writes: Vec<Write> = Vec::new();
    assert(writes_view(writes@) =~= Seq::<WriteView>::empty());
    writes
}

/// `writes` with `write` at the end.
pub fn with_write(writes: Vec<Write>, write: Write) -> (longer: Vec<Write>)
    ensures
        writes_view(longer@) == writes_view(writes@).push(write@),
{
    let mut longer = writes;
    proof {
        lemma_writes_view_push(longer@, write);
    }
    longer.push(write);
    longer
}

} // verus!
