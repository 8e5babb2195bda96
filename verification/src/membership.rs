//! Lists of message identifiers in creation order.

use vstd::prelude::*;

verus! {

/// The test that an identifier is not `id`.
pub open spec fn is_other(id: u128) -> spec_fn(u128) -> bool {
    |x: u128| x != id
}

/// The identifiers of `ids` other than `id`, in order.
pub open spec fn others(ids: Seq<u128>, id: u128) -> Seq<u128> {
    ids.filter(is_other(id))
}

/// `ids` without `id`, the rest in order.
pub fn retain_others(ids: Vec<u128>, id: u128) -> (kept: Vec<u128>)
    ensures
        kept@ == others(ids@, id),
{
    let mut kept: Vec<u128> = Vec::new();
    let mut i: usize = 0;
    while i < ids.len()
        invariant
            i <= ids.len(),
            kept@ == others(ids@.take(i as int), id),
        decreases ids.len() - i,
    {
        proof {
            assert(ids@.take(i as int + 1) =~= ids@.take(i as int).push(ids@[i as int]));
            lemma_others_push(ids@.take(i as int), id, ids@[i as int]);
        }
        if ids[i] != id {
            kept.push(ids[i]);
        }
        i += 1;
    }
    assert(ids@.take(ids.len() as int) =~= ids@);
    kept
}

/// Copies a list of identifiers.
pub fn clone_ids(ids: &Vec<u128>) -> (copy: Vec<u128>)
    ensures
        copy@ == ids@,
{
    let copy = ids.clone();
    assert(copy@ =~= ids@);
    copy
}

/// Appending an identifier appends it to what is kept, unless it is `id`.
pub proof fn lemma_others_push(ids: Seq<u128>, id: u128, x: u128)
    ensures
        others(ids.push(x), id) == if x != id {
            others(ids, id).push(x)
        } else {
            others(ids, id)
        },
{
    ids.lemma_filter_push(x, is_other(id));
}

/// What is kept holds no `id`, and holds everything else that was there.
pub proof fn lemma_others_contains(ids: Seq<u128>, id: u128, x: u128)
    ensures
        others(ids, id).contains(x) <==> ids.contains(x) && x != id,
{
    broadcast use vstd::seq_lib::group_filter_ensures;

    let keep = is_other(id);
    let kept = ids.filter(keep);
    if kept.contains(x) {
        ids.lemma_filter_contains_rev(keep, x);
        let j = choose|j: int| 0 <= j < kept.len() && kept[j] == x;
        assert(keep(kept[j]));
    }
    if ids.contains(x) && x != id {
        let i = choose|i: int| 0 <= i < ids.len() && ids[i] == x;
        assert(keep(ids[i]));
        assert(kept.contains(ids[i]));
    }
}

/// A list without duplicates is left without duplicates.
pub proof fn lemma_others_no_duplicates(ids: Seq<u128>, id: u128)
    requires
        ids.no_duplicates(),
    ensures
        others(ids, id).no_duplicates(),
{
    lemma_others_is_remove_value(ids, id);
    ids.index_of_first_ensures(id);
}

/// In a list without duplicates, keeping what differs from `id` is taking
/// out the one `id`.
pub proof fn lemma_others_is_remove_value(ids: Seq<u128>, id: u128)
    requires
        ids.no_duplicates(),
    ensures
        others(ids, id) == ids.remove_value(id),
    decreases ids.len(),
{
    let keep = is_other(id);
    reveal(Seq::filter);
    ids.index_of_first_ensures(id);
    if ids.len() == 0 {
        assert(!ids.contains(id));
        assert(ids.filter(keep) =~= ids.remove_value(id));
    } else {
        let init = ids.drop_last();
        lemma_others_is_remove_value(init, id);
        assert(init.push(ids.last()) =~= ids);
        init.lemma_filter_push(ids.last(), keep);
        init.index_of_first_ensures(id);
        if init.contains(id) {
            let k = init.index_of_first(id)->0;
            assert(ids[k] == id);
            let k2 = ids.index_of_first(id)->0;
            assert(k2 == k);
            assert(ids.remove(k) =~= init.remove(k).push(ids.last()));
        } else if ids.last() == id {
            let k2 = ids.index_of_first(id)->0;
            assert(k2 == ids.len() - 1);
            assert(ids.remove(k2) =~= init);
        } else {
            assert(!ids.contains(id)) by {
                if ids.contains(id) {
                    let j = choose|j: int| 0 <= j < ids.len() && ids[j] == id;
                    assert(init[j] == id);
                }
            }
        }
    }
}

} // verus!
