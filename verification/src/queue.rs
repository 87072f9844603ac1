//! The fixed-capacity ring that holds the obstacles, and what is taken on
//! trust about it.
//!
//! The ring is `heapless::spsc::Queue`. It lives on the stack, never grows,
//! and keeps one of its slots free, so a ring of `SLOTS` slots holds up to
//! `SLOTS - 1` items. Its contents are known here only by name,
//! [`queue_items`]: the items from the front (the oldest) to the back. Each
//! function below makes one call into the ring and states, over that name,
//! what the call does. None of these statements is proved.

use crate::sprites::obstacle::Obstacle;
use crate::sprites::BUFF_SIZE;
use heapless::spsc::Queue;
use vstd::prelude::*;

verus! {

/// Number of slots in the ring: one more than it can hold.
pub const SLOTS: usize = BUFF_SIZE + 1;

/// `heapless::spsc::Queue`, made known so that it can stand in fields and
/// signatures. Nothing of its inside is visible here.
#[verifier::external_type_specification]
#[verifier::external_body]
#[verifier::reject_recursive_types(T)]
pub struct ExQueue<T, const N: usize>(Queue<T, N>);

/// The items in the ring, oldest first.
pub uninterp spec fn queue_items(queue: Queue<Obstacle, SLOTS>) -> Seq<Obstacle>;

/// `Queue::new`: a ring with nothing in it.
#[verifier::external_body]
pub(crate) fn queue_new() -> (queue: Queue<Obstacle, SLOTS>)
    ensures
        queue_items(queue) == Seq::<Obstacle>::empty(),
{
    Queue::new()
}

/// `Queue::len`: the number of items in the ring, which is never more than
/// the ring can hold.
#[verifier::external_body]
pub(crate) fn queue_len(queue: &Queue<Obstacle, SLOTS>) -> (len: usize)
    ensures
        len == queue_items(*queue).len(),
        len <= BUFF_SIZE,
{
    queue.len()
}

/// `Queue::enqueue`: while there is room the item goes to the back and
/// nothing comes back; a full ring stays as it is and hands the item back.
#[verifier::external_body]
pub(crate) fn queue_enqueue(
    queue: &mut Queue<Obstacle, SLOTS>,
    item: Obstacle,
) -> (rejected: Option<Obstacle>)
    ensures
        rejected == if queue_items(*old(queue)).len() < BUFF_SIZE {
            None
        } else {
            Some(item)
        },
        queue_items(*final(queue)) == if queue_items(*old(queue)).len() < BUFF_SIZE {
            queue_items(*old(queue)).push(item)
        } else {
            queue_items(*old(queue))
        },
{
    queue.enqueue(item).err()
}

/// `Queue::dequeue`: takes the item at the front out of the ring and returns
/// it; an empty ring stays empty and returns nothing.
#[verifier::external_body]
pub(crate) fn queue_dequeue(queue: &mut Queue<Obstacle, SLOTS>) -> (front: Option<Obstacle>)
    ensures
        front == if queue_items(*old(queue)).len() > 0 {
            Some(queue_items(*old(queue))[0])
        } else {
            None
        },
        queue_items(*final(queue)) == if queue_items(*old(queue)).len() > 0 {
            queue_items(*old(queue)).drop_first()
        } else {
            queue_items(*old(queue))
        },
{
    queue.dequeue()
}

/// `Queue::peek`: the item at the front, which stays in the ring; nothing
/// for an empty ring.
#[verifier::external_body]
pub(crate) fn queue_peek(queue: &Queue<Obstacle, SLOTS>) -> (front: Option<&Obstacle>)
    ensures
        front == if queue_items(*queue).len() > 0 {
            Some(&queue_items(*queue)[0])
        } else {
            None
        },
{
    queue.peek()
}

/// `Queue::iter`, which walks the ring from the front to the back: the item
/// that it yields after `index` others.
#[verifier::external_body]
pub(crate) fn queue_get(queue: &Queue<Obstacle, SLOTS>, index: usize) -> (item: Obstacle)
    requires
        index < queue_items(*queue).len(),
    ensures
        item == queue_items(*queue)[index as int],
{
    *queue.iter().nth(index).unwrap()
}

/// `Queue::iter_mut`, which walks the ring from the front to the back and
/// lets each item be overwritten in place: the item that it yields after
/// `index` others becomes `item`, the rest stay.
#[verifier::external_body]
pub(crate) fn queue_set(queue: &mut Queue<Obstacle, SLOTS>, index: usize, item: Obstacle)
    requires
        index < queue_items(*old(queue)).len(),
    ensures
        queue_items(*final(queue)) == queue_items(*old(queue)).update(index as int, item),
{
    *queue.iter_mut().nth(index).unwrap() = item;
}

} // verus!
