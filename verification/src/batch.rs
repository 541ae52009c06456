//! Cutting a list of prompts into the groups that are sent one request each.

use vstd::prelude::*;
use vstd::arithmetic::div_mod::lemma_fundamental_div_mod_converse;
use crate::error::CompletionError;

verus! {

/// How many groups of `size` items it takes to hold `count` items: the
/// quotient rounded up.
pub open spec fn batch_count(count: nat, size: nat) -> nat
    recommends
        size > 0,
{
    ((count + size - 1) / (size as int)) as nat
}

/// How many of `count` items stay where no more than `limit` are kept.
pub open spec fn kept_count(count: nat, limit: nat) -> nat {
    if limit < count {
        limit
    } else {
        count
    }
}

/// The first `limit` items, or all of them where there are no more than that.
pub open spec fn truncated<T>(items: Seq<T>, limit: nat) -> Seq<T> {
    if limit < items.len() {
        items.take(limit as int)
    } else {
        items
    }
}

/// Where the group with the given index ends: `size` items after its start,
/// or at the end of the list where fewer are left.
pub open spec fn chunk_end(len: nat, size: nat, index: int) -> int {
    if (index + 1) * size < len {
        (index + 1) * size
    } else {
        len as int
    }
}

/// The group with the given index when `items` is cut every `size` items.
pub open spec fn chunk<T>(items: Seq<T>, size: nat, index: int) -> Seq<T> {
    items.subrange(index * size, chunk_end(items.len(), size, index))
}

/// `items` cut into consecutive groups of `size` items; the last group holds
/// what is left over.
pub open spec fn chunks<T>(items: Seq<T>, size: nat) -> Seq<Seq<T>>
    recommends
        size > 0,
{
    Seq::new(batch_count(items.len(), size), |index: int| chunk(items, size, index))
}

/// What each vector of a list of vectors holds.
pub open spec fn contents<T>(groups: Seq<Vec<T>>) -> Seq<Seq<T>> {
    Seq::new(groups.len(), |index: int| groups[index]@)
}

/// With `full` groups of `size` items and `rest` more items, the count of
/// groups is `full`, and one more where `rest` is not zero.
pub proof fn lemma_batch_count(full: nat, rest: nat, size: nat)
    requires
        size > 0,
        rest <= size,
    ensures
        batch_count(full * size + rest, size) == if rest == 0 {
            full
        } else {
            full + 1
        },
{
    let total = full * size + rest + size - 1;
    if rest == 0 {
        lemma_fundamental_div_mod_converse(total, size as int, full as int, size - 1);
    } else {
        assert((full + 1) * size == full * size + size) by (nonlinear_arith);
        lemma_fundamental_div_mod_converse(total, size as int, full as int + 1, rest - 1);
    }
}

/// There is no group exactly where there is no item.
pub proof fn lemma_batch_count_zero(len: nat, size: nat)
    requires
        size > 0,
    ensures
        batch_count(len, size) == 0 <==> len == 0,
{
    if len == 0 {
        lemma_batch_count(0, 0, size);
        assert(0 * size + 0 == 0) by (nonlinear_arith);
    } else {
        // `len + size - 1` is at least `size`, so its quotient by `size` is
        // not zero.
        let total = len + size - 1;
        let quotient = total / (size as int);
        vstd::arithmetic::div_mod::lemma_fundamental_div_mod(total, size as int);
        vstd::arithmetic::div_mod::lemma_mod_bound(total, size as int);
        vstd::arithmetic::div_mod::lemma_div_pos_is_pos(total, size as int);
        assert(quotient != 0) by {
            if quotient == 0 {
                assert(size * quotient == 0) by (nonlinear_arith)
                    requires
                        quotient == 0,
                ;
            }
        }
    }
}

/// Every group lies inside the list, is not empty and holds at most `size`
/// items; every group but the last holds exactly `size`.
pub proof fn lemma_chunk_bounds(len: nat, size: nat, index: int)
    requires
        size > 0,
        0 <= index < batch_count(len, size),
    ensures
        0 <= index * size < chunk_end(len, size, index) <= len,
        chunk_end(len, size, index) - index * size <= size,
        index + 1 < batch_count(len, size) ==> chunk_end(len, size, index) - index * size == size,
        index + 1 == batch_count(len, size) ==> chunk_end(len, size, index) == len,
{
    let count = batch_count(len, size) as int;
    let total = len + size - 1;
    vstd::arithmetic::div_mod::lemma_fundamental_div_mod(total, size as int);
    vstd::arithmetic::div_mod::lemma_mod_bound(total, size as int);
    assert(size * count + total % (size as int) == total);
    assert(size * count >= len) by (nonlinear_arith)
        requires
            size * count + total % (size as int) == len + size - 1,
            total % (size as int) < size,
    ;
    assert(size * count < len + size) by (nonlinear_arith)
        requires
            size * count + total % (size as int) == len + size - 1,
            0 <= total % (size as int),
    ;
    assert(index * size + size == (index + 1) * size) by (nonlinear_arith);
    assert(count * size == size * count) by (nonlinear_arith);
    assert(0 <= index * size) by (nonlinear_arith)
        requires
            0 <= index,
            size > 0,
    ;
    assert((index + 1) * size <= size * count) by (nonlinear_arith)
        requires
            index + 1 <= count,
            size > 0,
    ;
    if index + 1 < count {
        assert((index + 2) * size <= size * count) by (nonlinear_arith)
            requires
                index + 2 <= count,
                size > 0,
        ;
        assert((index + 2) * size == (index + 1) * size + size) by (nonlinear_arith);
    }
}

/// The first `upto` groups, joined in order, are the items that come before
/// the group with index `upto`.
proof fn lemma_chunks_prefix<T>(items: Seq<T>, size: nat, upto: nat)
    requires
        size > 0,
        upto <= batch_count(items.len(), size),
    ensures
        upto < batch_count(items.len(), size) ==> upto * size < items.len(),
        chunks(items, size).take(upto as int).flatten() == items.take(
            if upto < batch_count(items.len(), size) {
                (upto * size) as int
            } else {
                items.len() as int
            },
        ),
    decreases upto,
{
    let all = chunks(items, size);
    lemma_batch_count_zero(items.len(), size);
    if upto == 0 {
        assert(all.take(0) =~= Seq::<Seq<T>>::empty());
        assert(0 * size == 0) by (nonlinear_arith);
        if 0 < batch_count(items.len(), size) {
            lemma_chunk_bounds(items.len(), size, 0);
        }
        assert(items.take(0) =~= Seq::<T>::empty());
    } else {
        let last = upto - 1;
        lemma_chunks_prefix(items, size, last as nat);
        lemma_chunk_bounds(items.len(), size, last);
        if upto < batch_count(items.len(), size) {
            lemma_chunk_bounds(items.len(), size, upto as int);
        }
        assert(all.take(upto as int) =~= all.take(last).push(chunk(items, size, last)));
        all.take(last).lemma_flatten_push(chunk(items, size, last));
        assert(items.take(last * size) + chunk(items, size, last) =~= items.take(
            chunk_end(items.len(), size, last),
        ));
    }
}

/// The groups, joined in order, give back the list they were cut from.
pub proof fn lemma_chunks_flatten<T>(items: Seq<T>, size: nat)
    requires
        size > 0,
    ensures
        chunks(items, size).flatten() == items,
{
    let all = chunks(items, size);
    lemma_chunks_prefix(items, size, all.len());
    assert(all.take(all.len() as int) =~= all);
    assert(items.take(items.len() as int) =~= items);
}

/// For every batch size above zero, the first `max_instances` prompts make
/// as many batches as their count divided by the batch size, rounded up, and
/// the batches joined in order are those prompts.
pub proof fn lemma_batches_cover<T>(prompts: Seq<T>, batch_size: nat, max_instances: nat)
    requires
        batch_size > 0,
    ensures
        truncated(prompts, max_instances).len() == kept_count(prompts.len(), max_instances),
        chunks(truncated(prompts, max_instances), batch_size).len() == batch_count(
            kept_count(prompts.len(), max_instances),
            batch_size,
        ),
        chunks(truncated(prompts, max_instances), batch_size).flatten() == truncated(
            prompts,
            max_instances,
        ),
{
    lemma_chunks_flatten(truncated(prompts, max_instances), batch_size);
}

/// Cuts `items` into consecutive groups of `size`, in order; the last group
/// holds what is left over.
pub fn split_into_chunks<T>(items: Vec<T>, size: usize) -> (groups: Vec<Vec<T>>)
    requires
        size > 0,
    ensures
        contents(groups@) == chunks(items@, size as nat),
        groups@.len() == batch_count(items@.len(), size as nat),
{
    let ghost all = items@;
    let mut rest = items;
    let mut groups: Vec<Vec<T>> = Vec::new();
    proof {
        assert(0 * size == 0) by (nonlinear_arith);
        assert(rest@ =~= all.subrange(0, all.len() as int));
    }
    while rest.len() > size
        invariant
            size > 0,
            groups@.len() * size + rest@.len() == all.len(),
            rest@ == all.subrange(groups@.len() * size, all.len() as int),
            forall|i: int|
                0 <= i < groups@.len() ==> (#[trigger] groups@[i])@ == chunk(all, size as nat, i),
        decreases rest@.len(),
    {
        let ghost done = groups@.len() as int;
        let tail = rest.split_off(size);
        proof {
            assert((done + 1) * size == done * size + size) by (nonlinear_arith);
            assert(rest@ =~= chunk(all, size as nat, done));
            assert(tail@ =~= all.subrange((done + 1) * size, all.len() as int));
        }
        groups.push(rest);
        rest = tail;
    }
    let ghost full = groups@.len();
    proof {
        lemma_batch_count(full, rest@.len(), size as nat);
    }
    if rest.len() > 0 {
        proof {
            assert((full + 1) * size == full * size + size) by (nonlinear_arith);
            assert(rest@ =~= chunk(all, size as nat, full as int));
        }
        groups.push(rest);
    }
    assert(contents(groups@) =~= chunks(all, size as nat));
    groups
}

/// Keeps the first `max_instances` prompts and cuts them into groups of
/// `batch_size`, in order; the last group holds what is left over. A batch
/// size of zero is refused.
pub fn prepare_prompt_batches<T>(prompts: Vec<T>, batch_size: usize, max_instances: usize) -> (res:
    Result<Vec<Vec<T>>, CompletionError>)
    ensures
        res is Err <==> batch_size == 0,
        res matches Err(e) ==> e == CompletionError::InvalidBatchSize,
        res matches Ok(batches) ==> {
            let kept = truncated(prompts@, max_instances as nat);
            &&& contents(batches@) == chunks(kept, batch_size as nat)
            &&& batches@.len() == batch_count(
                kept_count(prompts@.len(), max_instances as nat),
                batch_size as nat,
            )
            &&& contents(batches@).flatten() == kept
        },
{
    if batch_size == 0 {
        return Err(CompletionError::InvalidBatchSize);
    }
    let mut kept = prompts;
    kept.truncate(max_instances);
    proof {
        assert(kept@ =~= truncated(prompts@, max_instances as nat));
        lemma_chunks_flatten(kept@, batch_size as nat);
    }
    Ok(split_into_chunks(kept, batch_size))
}

} // verus!
