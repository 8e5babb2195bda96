//! Skip-then-take pagination over an ordered list.

use vstd::prelude::*;

verus! {

/// Optional paging bounds as a caller supplies them.
#[derive(Clone, Copy, Debug, PartialEq, Eq)]
pub struct PaginationParams {
    pub limit: Option<usize>,
    pub offset: Option<usize>,
}

/// The offset that a request means: zero where none was given.
pub open spec fn effective_offset(offset: Option<usize>) -> nat {
    match offset {
        Some(o) => o as nat,
        None => 0,
    }
}

/// The limit that a request means: the whole list where none was given.
pub open spec fn effective_limit(total: nat, limit: Option<usize>) -> nat {
    match limit {
        Some(l) => l as nat,
        None => total,
    }
}

/// How many items the page at `offset` with at most `limit` items holds
/// when the list has `total` items.
pub open spec fn page_len(total: nat, offset: nat, limit: nat) -> nat {
    if offset >= total {
        0
    } else if limit <= total - offset {
        limit
    } else {
        (total - offset) as nat
    }
}

/// The page of `items` that starts at `offset` and holds at most `limit` items.
pub open spec fn page<T>(items: Seq<T>, offset: nat, limit: nat) -> Seq<T> {
    if offset >= items.len() {
        Seq::empty()
    } else {
        items.subrange(offset as int, (offset + page_len(items.len(), offset, limit)) as int)
    }
}

/// A page holds `min(limit, max(0, total - offset))` items, and its `i`-th
/// item is item `offset + i` of the list.
pub proof fn lemma_page_contents<T>(items: Seq<T>, offset: nat, limit: nat)
    ensures
        page(items, offset, limit).len() == page_len(items.len(), offset, limit),
        page_len(items.len(), offset, limit) == vstd::math::min(
            limit as int,
            vstd::math::max(0, items.len() - offset),
        ),
        forall|i: int|
            0 <= i < page(items, offset, limit).len() ==> #[trigger] page(items, offset, limit)[i]
                == items[offset + i],
{
}

/// Paging with neither bound given returns the whole list.
pub proof fn lemma_page_unbounded<T>(items: Seq<T>)
    ensures
        page(items, effective_offset(None), effective_limit(items.len(), None)) == items,
{
    assert(page(items, 0, items.len()) =~= items);
}

/// Skips `offset` items (none where it is absent), then keeps at most
/// `limit` (all where it is absent). Returns the page, then the length of
/// the whole list, the offset and the limit that were applied.
pub fn apply_pagination<T>(items: Vec<T>, limit: Option<usize>, offset: Option<usize>) -> (r: (
    Vec<T>,
    usize,
    usize,
    usize,
))
    ensures
        r.1 == items@.len(),
        r.2 == effective_offset(offset),
        r.3 == effective_limit(items@.len(), limit),
        r.0@ == page(items@, r.2 as nat, r.3 as nat),
{
    let ghost all = items@;
    let mut head = items;
    let total: usize = head.len();
    let offset: usize = match offset {
        Some(o) => o,
        None => 0,
    };
    let limit: usize = match limit {
        Some(l) => l,
        None => total,
    };
    if offset >= total {
        (Vec::new(), total, offset, limit)
    } else {
        let mut tail = head.split_off(offset);
        if limit < tail.len() {
            tail.truncate(limit);
        }
        assert(tail@ =~= page(all, offset as nat, limit as nat));
        (tail, total, offset, limit)
    }
}

} // verus!
