//! The store as mathematics: what the six tables hold, what a faithful
//! store answers to a read, and how a transaction runs against it.

use vstd::prelude::*;
use crate::big_endian::{lemma_lex_lt_total, lemma_lex_lt_transitive, lex_le};
use crate::durable::protocol::{EntryView, ReadView, RecordView, ReplyView, Table, WriteView};
use crate::durable::step::{NextView, OutcomeView, StepView};
use crate::error::DatabaseErrorView;

verus! {

/// How an operation ends: with what it returns, or with a failure.
pub type Ending = Result<OutcomeView, DatabaseErrorView>;

/// What the six tables hold: the record under each key of each table.
#[verifier::ext_equal]
pub struct Tables {
    pub records: Map<(Table, Seq<u8>), RecordView>,
}

impl Tables {
    /// The tables that hold nothing.
    pub open spec fn empty() -> Tables {
        Tables { records: Map::empty() }
    }

    /// True when `table` holds a record under `key`.
    pub open spec fn has(self, table: Table, key: Seq<u8>) -> bool {
        self.records.contains_key((table, key))
    }

    /// The record that `table` holds under `key`, if it holds one.
    pub open spec fn get(self, table: Table, key: Seq<u8>) -> Option<RecordView> {
        if self.has(table, key) {
            Some(self.records[(table, key)])
        } else {
            None
        }
    }

    /// The tables after `record` was stored under `key` of `table`.
    pub open spec fn put(self, table: Table, key: Seq<u8>, record: RecordView) -> Tables {
        Tables { records: self.records.insert((table, key), record) }
    }

    /// The tables after what was under `key` of `table` was removed.
    pub open spec fn delete(self, table: Table, key: Seq<u8>) -> Tables {
        Tables { records: self.records.remove((table, key)) }
    }

    /// The tables after `write`.
    pub open spec fn apply(self, write: WriteView) -> Tables {
        match write {
            WriteView::Put { table, key, record } => self.put(table, key, record),
            WriteView::Delete { table, key } => self.delete(table, key),
        }
    }

    /// The tables after each of `writes`, first to last.
    pub open spec fn apply_all(self, writes: Seq<WriteView>) -> Tables
        decreases writes.len(),
    {
        if writes.len() == 0 {
            self
        } else {
            self.apply_all(writes.drop_last()).apply(writes.last())
        }
    }

    /// True when `key` is the least key of `table` that is not below
    /// `from` in byte order.
    pub open spec fn is_first(self, table: Table, from: Seq<u8>, key: Seq<u8>) -> bool {
        &&& self.has(table, key)
        &&& lex_le(from, key)
        &&& forall|other: Seq<u8>|
            #![trigger self.has(table, other)]
            self.has(table, other) && lex_le(from, other) ==> lex_le(key, other)
    }

    /// The least key of `table` that is not below `from`, if there is one.
    pub open spec fn first(self, table: Table, from: Seq<u8>) -> Option<Seq<u8>> {
        if exists|key: Seq<u8>| self.is_first(table, from, key) {
            Some(choose|key: Seq<u8>| self.is_first(table, from, key))
        } else {
            None
        }
    }

    /// True when `entries` holds every key of `table` once, each with its
    /// record, and nothing else.
    pub open spec fn lists(self, table: Table, entries: Seq<EntryView>) -> bool {
        &&& forall|i: int|
            0 <= i < entries.len() ==> self.get(table, (#[trigger] entries[i]).key) == Some(
                entries[i].record,
            )
        &&& forall|i: int, j: int|
            0 <= i < entries.len() && 0 <= j < entries.len() && i != j ==> (#[trigger] entries[i]).key
                != (#[trigger] entries[j]).key
        &&& forall|key: Seq<u8>|
            #![trigger self.has(table, key)]
            self.has(table, key) ==> exists|i: int|
                0 <= i < entries.len() && (#[trigger] entries[i]).key == key
    }

    /// The keys of `table` with their records, each once.
    pub open spec fn entries(self, table: Table) -> Seq<EntryView> {
        choose|entries: Seq<EntryView>| self.lists(table, entries)
    }

    /// What a faithful store answers to `read`.
    pub open spec fn answer(self, read: ReadView) -> ReplyView {
        match read {
            ReadView::Get { table, key } => ReplyView::Record(self.get(table, key)),
            ReadView::First { table, from } => ReplyView::Key(self.first(table, from)),
            ReadView::All { table } => ReplyView::Entries(self.entries(table)),
        }
    }

    /// No writes change nothing, and one more write at the end is applied
    /// last.
    pub proof fn lemma_apply_all_push(self, writes: Seq<WriteView>, write: WriteView)
        ensures
            self.apply_all(Seq::empty()) == self,
            self.apply_all(writes.push(write)) == self.apply_all(writes).apply(write),
    {
        assert(writes.push(write).drop_last() =~= writes);
    }

    /// The first key at or after `from` is a key of the table at or after
    /// `from`, and no other such key sorts before it.
    pub proof fn lemma_first_is_first(self, table: Table, from: Seq<u8>)
        ensures
            match self.first(table, from) {
                Some(key) => self.is_first(table, from, key),
                None => !exists|key: Seq<u8>| self.is_first(table, from, key),
            },
    {
    }
}

/// The keys of a finite set in some order, each once.
proof fn lemma_enumerate<A>(keys: Set<A>) -> (listed: Seq<A>)
    requires
        keys.finite(),
    ensures
        listed.no_duplicates(),
        forall|key: A| keys.contains(key) <==> listed.contains(key),
    decreases keys.len(),
{
    if keys.len() == 0 {
        let listed = Seq::<A>::empty();
        assert forall|key: A| keys.contains(key) <==> listed.contains(key) by {
            if keys.contains(key) {
                vstd::set_lib::lemma_set_empty_equivalency_len(keys);
            }
        }
        listed
    } else {
        let key = keys.choose();
        let rest = lemma_enumerate(keys.remove(key));
        let listed = rest.push(key);
        assert forall|other: A| keys.contains(other) <==> listed.contains(other) by {
            if other == key {
                assert(listed[rest.len() as int] == key);
            } else if keys.contains(other) {
                let i = choose|i: int| 0 <= i < rest.len() && rest[i] == other;
                assert(listed[i] == other);
            }
            if listed.contains(other) {
                let i = choose|i: int| 0 <= i < listed.len() && listed[i] == other;
                if i < rest.len() {
                    assert(rest.contains(rest[i]));
                }
            }
        }
        assert forall|i: int, j: int|
            0 <= i < listed.len() && 0 <= j < listed.len() && i != j implies listed[i]
            != listed[j] by {
            if i < rest.len() {
                assert(rest.contains(rest[i]));
            }
            if j < rest.len() {
                assert(rest.contains(rest[j]));
            }
        }
        listed
    }
}

impl Tables {
    /// The keys of `table`.
    pub open spec fn keys(self, table: Table) -> Set<Seq<u8>> {
        Set::new(|key: Seq<u8>| self.has(table, key))
    }

    /// A table of finite tables has finitely many keys.
    pub proof fn lemma_keys_finite(self, table: Table)
        requires
            self.records.dom().finite(),
        ensures
            self.keys(table).finite(),
    {
        let image = self.records.dom().map(|entry: (Table, Seq<u8>)| entry.1);
        self.records.dom().lemma_map_finite(|entry: (Table, Seq<u8>)| entry.1);
        assert forall|key: Seq<u8>| self.keys(table).contains(key) implies image.contains(key) by {
            assert(self.records.dom().contains((table, key)));
        }
        vstd::set_lib::lemma_len_subset(self.keys(table), image);
    }

    /// Finite tables can be listed: what a faithful store answers to a
    /// read of a whole table holds every key of the table once, with its
    /// record.
    pub proof fn lemma_entries_listed(self, table: Table)
        requires
            self.records.dom().finite(),
        ensures
            self.lists(table, self.entries(table)),
    {
        self.lemma_keys_finite(table);
        let keys = lemma_enumerate(self.keys(table));
        let entries = Seq::new(
            keys.len(),
            |i: int| EntryView { key: keys[i], record: self.records[(table, keys[i])] },
        );
        assert forall|i: int| 0 <= i < entries.len() implies self.get(
            table,
            (#[trigger] entries[i]).key,
        ) == Some(entries[i].record) by {
            assert(keys.contains(keys[i]));
        }
        assert forall|key: Seq<u8>|
            #![trigger self.has(table, key)]
            self.has(table, key) implies exists|i: int|
            0 <= i < entries.len() && (#[trigger] entries[i]).key == key by {
            assert(self.keys(table).contains(key));
            let i = choose|i: int| 0 <= i < keys.len() && keys[i] == key;
            assert(entries[i].key == key);
        }
        assert(self.lists(table, entries));
    }
}

/// A list of keys that is not empty has a least key in byte order.
proof fn lemma_least_key(keys: Seq<Seq<u8>>) -> (least: int)
    requires
        keys.len() > 0,
    ensures
        0 <= least < keys.len(),
        forall|j: int| 0 <= j < keys.len() ==> lex_le(keys[least], #[trigger] keys[j]),
    decreases keys.len(),
{
    if keys.len() == 1 {
        0
    } else {
        let init = keys.drop_last();
        let before = lemma_least_key(init);
        let last = keys.last();
        lemma_lex_lt_total(init[before], last);
        if lex_le(init[before], last) {
            assert forall|j: int| 0 <= j < keys.len() implies lex_le(
                keys[before],
                #[trigger] keys[j],
            ) by {
                if j < init.len() {
                    assert(lex_le(init[before], init[j]));
                }
            }
            before
        } else {
            assert forall|j: int| 0 <= j < keys.len() implies lex_le(
                keys[keys.len() - 1],
                #[trigger] keys[j],
            ) by {
                if j < init.len() {
                    assert(lex_le(init[before], init[j]));
                    if init[before] != init[j] {
                        lemma_lex_lt_transitive(last, init[before], init[j]);
                    }
                }
            }
            keys.len() - 1
        }
    }
}

impl Tables {
    /// In finite tables a probe finds a key whenever the table has a key
    /// at or after the one probed for.
    pub proof fn lemma_first_exists(self, table: Table, from: Seq<u8>, key: Seq<u8>)
        requires
            self.records.dom().finite(),
            self.has(table, key),
            lex_le(from, key),
        ensures
            self.first(table, from) is Some,
    {
        self.lemma_keys_finite(table);
        let candidates = Set::new(|k: Seq<u8>| self.has(table, k) && lex_le(from, k));
        vstd::set_lib::lemma_len_subset(candidates, self.keys(table));
        let listed = lemma_enumerate(candidates);
        assert(candidates.contains(key));
        assert(listed.contains(key));
        let least = lemma_least_key(listed);
        assert(listed.contains(listed[least]));
        assert(candidates.contains(listed[least]));
        assert forall|other: Seq<u8>|
            #![trigger self.has(table, other)]
            self.has(table, other) && lex_le(from, other) implies lex_le(listed[least], other) by {
            assert(candidates.contains(other));
            let j = choose|j: int| 0 <= j < listed.len() && listed[j] == other;
            assert(lex_le(listed[least], listed[j]));
        }
        assert(self.is_first(table, from, listed[least]));
    }
}

/// Where a transaction stands after at most `fuel` reads against a
/// faithful store that never fails: how it ended and what the tables hold
/// then, or nothing if it has not ended yet.
pub open spec fn run(step: StepView, tables: Tables, fuel: nat) -> Option<(Ending, Tables)>
    decreases fuel,
{
    let written = tables.apply_all(step.writes);
    match step.next {
        NextView::Done(ending) => Some((ending, written)),
        NextView::Read { read, then } => if fuel == 0 {
            None
        } else {
            run(then.resume(written.answer(read)), written, (fuel - 1) as nat)
        },
    }
}

/// What an operation that starts with `step` makes of `tables`: like
/// [`run`], but a failure leaves the tables as they were, as the roll-back
/// does.
pub open spec fn execute(step: StepView, tables: Tables, fuel: nat) -> Option<(Ending, Tables)> {
    match run(step, tables, fuel) {
        Some((Ok(outcome), after)) => Some((Ok(outcome), after)),
        Some((Err(error), _)) => Some((Err(error), tables)),
        None => None,
    }
}

/// True when a transaction that starts with `step` ends within `fuel`
/// reads and asks for no write on the way: it can run against a snapshot
/// that cannot be written to.
pub open spec fn reads_only(step: StepView, tables: Tables, fuel: nat) -> bool
    decreases fuel,
{
    step.writes.len() == 0 && match step.next {
        NextView::Done(_) => true,
        NextView::Read { read, then } => fuel > 0 && reads_only(
            then.resume(tables.answer(read)),
            tables,
            (fuel - 1) as nat,
        ),
    }
}

/// More reads than a transaction needs change nothing.
pub proof fn lemma_run_more_fuel(step: StepView, tables: Tables, fuel: nat, more: nat)
    requires
        run(step, tables, fuel) is Some,
        fuel <= more,
    ensures
        run(step, tables, more) == run(step, tables, fuel),
    decreases fuel,
{
    let written = tables.apply_all(step.writes);
    match step.next {
        NextView::Done(ending) => {},
        NextView::Read { read, then } => {
            lemma_run_more_fuel(
                then.resume(written.answer(read)),
                written,
                (fuel - 1) as nat,
                (more - 1) as nat,
            );
        },
    }
}

} // verus!
