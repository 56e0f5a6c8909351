//! Whole runs of the queue: what any sequence of operations leaves in memory and in
//! the backing store.

use crate::action::Step;
use crate::disk::{lemma_run_one, run, Disk};
use crate::format::{all_lines, decode, encode_item, is_item};
use crate::recovery::{in_sync, lemma_add_keeps_sync, lemma_rewrite_restores_sync};
use crate::recovery::lemma_sync_reads_back;
use crate::rewrite::script;
use vstd::prelude::*;

verus! {

/// One call on the queue.
pub enum Op {
    /// `add` with the given item.
    Add(Seq<char>),
    /// `remove` with the given item.
    Remove(Seq<char>),
    /// `pop`.
    Pop,
}

/// The items of the queue after `op`, begun with `items`. An operation that fails
/// leaves them as they were.
pub open spec fn items_after(items: Seq<Seq<char>>, op: Op) -> Seq<Seq<char>> {
    match op {
        Op::Add(item) => if is_item(item) {
            items.push(item)
        } else {
            items
        },
        Op::Remove(item) => items.remove_value(item),
        Op::Pop => if items.len() > 0 {
            items.drop_first()
        } else {
            items
        },
    }
}

/// The steps that `op` takes on the backing store, on a queue that holds `items`. An
/// operation that the queue refuses takes none.
pub open spec fn steps_of(items: Seq<Seq<char>>, op: Op) -> Seq<Step> {
    match op {
        Op::Add(item) => if is_item(item) {
            seq![Step::Append(encode_item(item))]
        } else {
            Seq::empty()
        },
        Op::Remove(item) => if items.contains(item) {
            script(items.remove_value(item))
        } else {
            Seq::empty()
        },
        Op::Pop => if items.len() > 0 {
            script(items.drop_first())
        } else {
            Seq::empty()
        },
    }
}

/// The items of the queue after all of `ops`, in order.
pub open spec fn items_after_all(items: Seq<Seq<char>>, ops: Seq<Op>) -> Seq<Seq<char>>
    decreases ops.len(),
{
    if ops.len() == 0 {
        items
    } else {
        items_after(items_after_all(items, ops.drop_last()), ops.last())
    }
}

/// The backing store after the steps of all of `ops`, in order, or `None` if one of
/// the steps fails.
pub open spec fn disk_after_all(items: Seq<Seq<char>>, disk: Disk, ops: Seq<Op>) -> Option<Disk>
    decreases ops.len(),
{
    if ops.len() == 0 {
        Some(disk)
    } else {
        match disk_after_all(items, disk, ops.drop_last()) {
            Some(before) => run(
                before,
                steps_of(items_after_all(items, ops.drop_last()), ops.last()),
            ),
            None => None,
        }
    }
}

/// `n` calls of `pop`.
pub open spec fn pops(n: nat) -> Seq<Op> {
    Seq::new(n, |i: int| Op::Pop)
}

/// One call of `add` for each of `items`, in order.
pub open spec fn adds(items: Seq<Seq<char>>) -> Seq<Op> {
    items.map_values(|item: Seq<char>| Op::Add(item))
}

/// Taking out the first item equal to a given one, or the item at the front, leaves
/// items that fit on one line each.
pub proof fn lemma_lines_after(items: Seq<Seq<char>>, op: Op)
    requires
        all_lines(items),
    ensures
        all_lines(items_after(items, op)),
{
    if let Op::Remove(item) = op {
        items.index_of_first_ensures(item);
    }
}

/// One operation keeps the queue and the backing store in agreement: its steps do
/// not fail, and afterwards the current file again holds exactly the items in memory.
pub proof fn lemma_op_keeps_sync(items: Seq<Seq<char>>, disk: Disk, op: Op)
    requires
        in_sync(items, disk),
    ensures
        run(disk, steps_of(items, op)) matches Some(after) && in_sync(items_after(items, op), after),
{
    lemma_lines_after(items, op);
    match op {
        Op::Add(item) => {
            if is_item(item) {
                lemma_add_keeps_sync(items, disk, item);
                lemma_run_one(disk, Step::Append(encode_item(item)));
            }
        },
        Op::Remove(item) => {
            items.index_of_first_ensures(item);
            if items.contains(item) {
                lemma_rewrite_restores_sync(disk, items.remove_value(item));
            }
        },
        Op::Pop => {
            if items.len() > 0 {
                lemma_rewrite_restores_sync(disk, items.drop_first());
            }
        },
    }
}

/// A `remove` of an item that the queue does not hold changes neither the items nor
/// the backing store.
pub proof fn lemma_remove_absent(items: Seq<Seq<char>>, disk: Disk, item: Seq<char>)
    requires
        !items.contains(item),
    ensures
        items_after(items, Op::Remove(item)) == items,
        run(disk, steps_of(items, Op::Remove(item))) == Some(disk),
{
    items.index_of_first_ensures(item);
}

/// Any sequence of operations, begun with the queue and the backing store in
/// agreement, ends with them in agreement: no step fails, and reading the current
/// file line by line after the last operation gives exactly the items in memory.
pub proof fn lemma_round_trip(items: Seq<Seq<char>>, disk: Disk, ops: Seq<Op>)
    requires
        in_sync(items, disk),
    ensures
        disk_after_all(items, disk, ops) matches Some(after) && {
            &&& in_sync(items_after_all(items, ops), after)
            &&& after.current matches Some(content) && decode(content) == items_after_all(
                items,
                ops,
            )
        },
    decreases ops.len(),
{
    if ops.len() > 0 {
        lemma_round_trip(items, disk, ops.drop_last());
        let before = disk_after_all(items, disk, ops.drop_last())->0;
        lemma_op_keeps_sync(items_after_all(items, ops.drop_last()), before, ops.last());
    }
    let after = disk_after_all(items, disk, ops)->0;
    lemma_sync_reads_back(items_after_all(items, ops), after);
}

/// Adding valid items one by one puts them behind what the queue held, in the order
/// of the calls.
pub proof fn lemma_adds(items: Seq<Seq<char>>, added: Seq<Seq<char>>)
    requires
        forall|i: int| 0 <= i < added.len() ==> is_item(#[trigger] added[i]),
    ensures
        items_after_all(items, adds(added)) == items + added,
    decreases added.len(),
{
    if added.len() > 0 {
        lemma_adds(items, added.drop_last());
        assert(adds(added).drop_last() == adds(added.drop_last()));
    }
}

/// Popping `n` times takes the first `n` items away, or all of them if there are
/// fewer.
pub proof fn lemma_pops(items: Seq<Seq<char>>, n: nat)
    ensures
        items_after_all(items, pops(n)) == if n <= items.len() {
            items.skip(n as int)
        } else {
            Seq::<Seq<char>>::empty()
        },
    decreases n,
{
    if n > 0 {
        lemma_pops(items, (n - 1) as nat);
        assert(pops(n).drop_last() == pops((n - 1) as nat));
    }
}

/// First in, first out: after `add` was called for each of `added` in turn on an
/// empty queue, with no other call between them, `k` calls of `pop` leave the items
/// from the `k`-th on. So the next call of `pop` finds `added[k]` at the front, and
/// the calls of `pop` return the items in the order in which they were added.
pub proof fn lemma_fifo(added: Seq<Seq<char>>, k: int)
    requires
        forall|i: int| 0 <= i < added.len() ==> is_item(#[trigger] added[i]),
        0 <= k <= added.len(),
    ensures
        items_after_all(items_after_all(Seq::empty(), adds(added)), pops(k as nat)) == added.skip(k),
        k < added.len() ==> added.skip(k).first() == added[k],
{
    lemma_adds(Seq::empty(), added);
    lemma_pops(added, k as nat);
}

} // verus!
