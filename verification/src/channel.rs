//! The bounded first-in first-out channel between the control side and the
//! render side.
//!
//! The channel never holds more than its capacity. Sending into a full
//! channel displaces the oldest item, so the render side always finds the
//! newest traffic and the sender never waits. Receiving never waits either:
//! an empty channel simply yields nothing.
use std::collections::VecDeque;
use vstd::prelude::*;

verus! {

/// The queue after `item` is sent into a channel of the given capacity.
pub open spec fn after_send<T>(queue: Seq<T>, capacity: nat, item: T) -> Seq<T> {
    if capacity == 0 {
        queue
    } else if queue.len() >= capacity {
        queue.drop_first().push(item)
    } else {
        queue.push(item)
    }
}

/// The item that sending `item` pushes out of the channel, if any.
pub open spec fn displaced_by<T>(queue: Seq<T>, capacity: nat, item: T) -> Option<T> {
    if capacity == 0 {
        Some(item)
    } else if queue.len() >= capacity {
        Some(queue[0])
    } else {
        None
    }
}

/// The queue after every item of `items` is sent, first to last.
pub open spec fn after_sends<T>(queue: Seq<T>, capacity: nat, items: Seq<T>) -> Seq<T>
    decreases items.len(),
{
    if items.len() == 0 {
        queue
    } else {
        after_sends(after_send(queue, capacity, items[0]), capacity, items.drop_first())
    }
}

/// How many items are pushed out of the channel while every item of
/// `items` is sent, first to last.
pub open spec fn displaced_count<T>(queue: Seq<T>, capacity: nat, items: Seq<T>) -> nat
    decreases items.len(),
{
    if items.len() == 0 {
        0
    } else {
        let now: nat = if displaced_by(queue, capacity, items[0]).is_some() {
            1
        } else {
            0
        };
        now + displaced_count(after_send(queue, capacity, items[0]), capacity, items.drop_first())
    }
}

/// The newest `count` items of `items`, or all of them if there are fewer.
pub open spec fn newest<T>(items: Seq<T>, count: nat) -> Seq<T> {
    if items.len() <= count {
        items
    } else {
        items.subrange(items.len() - count, items.len() as int)
    }
}

/// A bounded first-in first-out queue with one sending and one receiving
/// end.
pub struct ControlChannel<T> {
    queue: VecDeque<T>,
    capacity: usize,
}

impl<T> View for ControlChannel<T> {
    type V = Seq<T>;

    closed spec fn view(&self) -> Seq<T> {
        self.queue@
    }
}

impl<T> ControlChannel<T> {
    /// The number of items the channel can hold.
    pub closed spec fn spec_capacity(&self) -> usize {
        self.capacity
    }

    /// The channel holds no more than its capacity.
    pub closed spec fn wf(&self) -> bool {
        self.queue@.len() <= self.capacity
    }

    /// An empty channel that holds at most `capacity` items.
    pub fn new(capacity: usize) -> (channel: Self)
        ensures
            channel.wf(),
            channel@ == Seq::<T>::empty(),
            channel.capacity() == capacity,
    {
        ControlChannel { queue: VecDeque::new(), capacity }
    }

    /// The number of items the channel can hold.
    #[verifier::when_used_as_spec(spec_capacity)]
    pub fn capacity(&self) -> (capacity: usize)
        ensures
            capacity == self.spec_capacity(),
    {
        self.capacity
    }

    /// The number of items waiting in the channel.
    pub fn len(&self) -> (len: usize)
        ensures
            len == self@.len(),
    {
        self.queue.len()
    }

    /// Whether nothing is waiting in the channel.
    pub fn is_empty(&self) -> (empty: bool)
        ensures
            empty == (self@.len() == 0),
    {
        self.queue.len() == 0
    }

    /// Puts `item` behind everything that is waiting.
    ///
    /// If the channel is full, the oldest waiting item is taken out to make
    /// room and handed back; a channel of capacity zero hands `item` itself
    /// back.
    pub fn send(&mut self, item: T) -> (displaced: Option<T>)
        requires
            old(self).wf(),
        ensures
            final(self).wf(),
            final(self).capacity() == old(self).capacity(),
            final(self)@ == after_send(old(self)@, old(self).capacity() as nat, item),
            displaced == displaced_by(old(self)@, old(self).capacity() as nat, item),
    {
        if self.capacity == 0 {
            return Some(item);
        }
        let displaced = if self.queue.len() >= self.capacity {
            self.queue.pop_front()
        } else {
            None
        };
        self.queue.push_back(item);
        displaced
    }

    /// Takes the oldest waiting item, if there is one.
    pub fn try_receive(&mut self) -> (item: Option<T>)
        requires
            old(self).wf(),
        ensures
            final(self).wf(),
            final(self).capacity() == old(self).capacity(),
            match item {
                Some(first) => {
                    &&& old(self)@.len() > 0
                    &&& first == old(self)@[0]
                    &&& final(self)@ == old(self)@.drop_first()
                },
                None => old(self)@.len() == 0 && final(self)@ == old(self)@,
            },
    {
        self.queue.pop_front()
    }

    /// Takes everything that is waiting, oldest first.
    pub fn receive_all(&mut self) -> (items: Vec<T>)
        requires
            old(self).wf(),
        ensures
            final(self).wf(),
            final(self).capacity() == old(self).capacity(),
            items@ == old(self)@,
            final(self)@ == Seq::<T>::empty(),
    {
        let mut items: Vec<T> = Vec::new();
        loop
            invariant
                self.wf(),
                self.capacity() == old(self).capacity(),
                items@ + self@ == old(self)@,
            ensures
                self@.len() == 0,
            decreases self@.len(),
        {
            match self.try_receive() {
                Some(item) => {
                    proof {
                        assert(items@.push(item) + self@ =~= old(self)@);
                    }
                    items.push(item);
                },
                None => {
                    break;
                },
            }
        }
        assert(items@ =~= old(self)@);
        assert(self@ =~= Seq::<T>::empty());
        items
    }
}

/// First in, first out, newest kept: after any run of sends the channel
/// holds, in the order they were sent, the newest items of what waited
/// before followed by what was sent, as many as its capacity allows. The
/// items pushed out are the oldest ones, and their number is the excess
/// over the capacity.
pub proof fn sends_keep_newest<T>(queue: Seq<T>, capacity: nat, items: Seq<T>)
    requires
        queue.len() <= capacity,
    ensures
        after_sends(queue, capacity, items) == newest(queue + items, capacity),
        after_sends(queue, capacity, items).len() <= capacity,
        displaced_count(queue, capacity, items) == (if queue.len() + items.len() > capacity {
            queue.len() + items.len() - capacity
        } else {
            0
        }),
    decreases items.len(),
{
    if items.len() == 0 {
        assert(queue + items =~= queue);
    } else {
        let first = items[0];
        let rest = items.drop_first();
        let next = after_send(queue, capacity, first);
        sends_keep_newest(next, capacity, rest);
        assert(newest(next + rest, capacity) =~= newest(queue + items, capacity));
    }
}

/// Nothing is lost under capacity: where what waits and what is sent fit
/// the channel together, the channel then holds all of it in order.
pub proof fn sends_within_capacity_keep_all<T>(queue: Seq<T>, capacity: nat, items: Seq<T>)
    requires
        queue.len() + items.len() <= capacity,
    ensures
        after_sends(queue, capacity, items) == queue + items,
        displaced_count(queue, capacity, items) == 0,
{
    sends_keep_newest(queue, capacity, items);
}

} // verus!
