//! A bounded queue that gives up its oldest item for the newest.

use crate::time::Duration;
use std::collections::VecDeque;
use vstd::prelude::*;

verus! {

#[derive(Debug)]
pub struct MediaQueue<T> {
    capacity: usize,
    items: VecDeque<T>,
    closed: bool,
    dropped: u64,
}

/// The contents of a [`MediaQueue`], oldest item first.
#[verifier::ext_equal]
pub struct MediaQueueModel<T> {
    pub capacity: usize,
    pub items: Seq<T>,
    pub closed: bool,
    pub dropped: u64,
}

impl<T> View for MediaQueue<T> {
    type V = MediaQueueModel<T>;

    closed spec fn view(&self) -> MediaQueueModel<T> {
        MediaQueueModel {
            capacity: self.capacity,
            items: self.items@,
            closed: self.closed,
            dropped: self.dropped,
        }
    }
}

impl<T> MediaQueueModel<T> {
    pub open spec fn initial(capacity: usize) -> MediaQueueModel<T> {
        MediaQueueModel { capacity, items: Seq::empty(), closed: false, dropped: 0 }
    }

    pub open spec fn well_formed(self) -> bool {
        0 < self.capacity && self.items.len() <= self.capacity
    }

    /// The queue after `value`, and what fell out of it: the value itself where
    /// the queue is closed, the oldest item where it is full.
    pub open spec fn pushed(self, value: T) -> (MediaQueueModel<T>, Option<T>) {
        if self.closed {
            (self, Some(value))
        } else if self.items.len() == self.capacity {
            (
                MediaQueueModel {
                    items: self.items.skip(1).push(value),
                    dropped: self.dropped.saturating_add(1),
                    ..self
                },
                Some(self.items[0]),
            )
        } else {
            (MediaQueueModel { items: self.items.push(value), ..self }, None)
        }
    }

    pub open spec fn popped(self) -> (MediaQueueModel<T>, Option<T>) {
        if self.items.len() == 0 {
            (self, None)
        } else {
            (MediaQueueModel { items: self.items.skip(1), ..self }, Some(self.items[0]))
        }
    }
}

impl<T> MediaQueue<T> {
    pub fn new(capacity: usize) -> (queue: Self)
        requires
            capacity > 0,
        ensures
            queue@ == MediaQueueModel::<T>::initial(capacity),
            queue@.well_formed(),
    {
        let queue = MediaQueue { capacity, items: VecDeque::new(), closed: false, dropped: 0 };
        assert(queue.items@ =~= Seq::<T>::empty());
        queue
    }

    /// Adds an item: what fell out of the queue, if something did.
    pub fn push(&mut self, value: T) -> (fallen: Option<T>)
        requires
            old(self)@.well_formed(),
        ensures
            (final(self)@, fallen) == old(self)@.pushed(value),
            final(self)@.well_formed(),
    {
        if self.closed {
            return Some(value);
        }
        let ghost before = self.items@;
        let fallen = if self.items.len() == self.capacity {
            self.dropped = self.dropped.saturating_add(1);
            self.items.pop_front()
        } else {
            None
        };
        self.items.push_back(value);
        proof {
            if before.len() == self.capacity {
                assert(self.items@ =~= before.skip(1).push(value));
            } else {
                assert(self.items@ =~= before.push(value));
            }
            assert(self@ =~= old(self)@.pushed(value).0);
        }
        fallen
    }

    /// Whether the queue has nothing to give and may still get something: a
    /// holder that shares the queue waits while this holds, up to its timeout.
    pub fn must_wait(&self) -> (result: bool)
        ensures
            result == (self@.items.len() == 0 && !self@.closed),
    {
        self.items.len() == 0 && !self.closed
    }

    /// Takes the oldest item. A holder that has the queue to itself can see
    /// nothing come while it waits, so the timeout is not spent here.
    pub fn pop_timeout(&mut self, _timeout: Duration) -> (item: Option<T>)
        requires
            old(self)@.well_formed(),
        ensures
            (final(self)@, item) == old(self)@.popped(),
            final(self)@.well_formed(),
    {
        let ghost before = self.items@;
        let item = self.items.pop_front();
        proof {
            if before.len() > 0 {
                assert(self.items@ =~= before.skip(1));
            } else {
                assert(self.items@ =~= before);
            }
            assert(self@ =~= old(self)@.popped().0);
        }
        item
    }

    /// Takes every item that is there, oldest first.
    pub fn take_all(&mut self) -> (taken: Vec<T>)
        requires
            old(self)@.well_formed(),
        ensures
            taken@ == old(self)@.items,
            final(self)@ == (MediaQueueModel { items: Seq::<T>::empty(), ..old(self)@ }),
            final(self)@.well_formed(),
    {
        let mut taken: Vec<T> = Vec::new();
        let ghost all = self@;
        loop
            invariant
                self@ == (MediaQueueModel { items: self@.items, ..all }),
                self@.well_formed(),
                taken@ + self@.items == all.items,
            ensures
                self@.items.len() == 0,
            decreases self@.items.len(),
        {
            let ghost before = self@.items;
            match self.pop_timeout(Duration::from_nanos(0)) {
                Some(item) => {
                    let ghost so_far = taken@;
                    taken.push(item);
                    assert(taken@ + self@.items =~= so_far + before);
                },
                None => {
                    break;
                },
            }
        }
        assert(taken@ =~= all.items);
        assert(self@ =~= (MediaQueueModel { items: Seq::<T>::empty(), ..all }));
        taken
    }

    pub fn close(&mut self)
        ensures
            final(self)@ == (MediaQueueModel { closed: true, ..old(self)@ }),
    {
        self.closed = true;
    }

    pub fn is_closed(&self) -> (closed: bool)
        ensures
            closed == self@.closed,
    {
        self.closed
    }

    /// The number of items.
    pub fn depth(&self) -> (depth: usize)
        ensures
            depth == self@.items.len(),
    {
        self.items.len()
    }

    /// How many items fell out because the queue was full.
    pub fn dropped(&self) -> (dropped: u64)
        ensures
            dropped == self@.dropped,
    {
        self.dropped
    }
}

/// What is kept is the newest of what was pushed, in the order it was pushed:
/// after a push the queue ends in the new item, whatever fell out came before
/// everything that stays, and nothing else changes.
pub proof fn law_queue_keeps_the_newest<T>(queue: MediaQueueModel<T>, value: T)
    requires
        queue.well_formed(),
        !queue.closed,
    ensures
        ({
            let (after, fallen) = queue.pushed(value);
            &&& after.items.len() <= queue.capacity
            &&& after.items.last() == value
            &&& match fallen {
                Some(oldest) => seq![oldest] + after.items == queue.items.push(value),
                None => after.items == queue.items.push(value),
            }
        }),
{
    let (after, fallen) = queue.pushed(value);
    match fallen {
        Some(oldest) => {
            assert(seq![oldest] + after.items =~= queue.items.push(value));
        },
        None => {},
    }
}

/// A closed queue takes nothing more and still gives what it holds.
pub proof fn law_closed_queue_drains<T>(queue: MediaQueueModel<T>, value: T)
    requires
        queue.well_formed(),
        queue.closed,
    ensures
        queue.pushed(value) == (queue, Some(value)),
        queue.items.len() > 0 ==> queue.popped().1 == Some(queue.items[0]),
        queue.popped().0.closed,
{
}

/// A call that changes a queue.
pub ghost enum QueueCall<T> {
    Push { value: T },
    Pop,
    Close,
}

/// What a history of calls has done: what went into the queue, what was taken
/// out of it, and what left it, be it taken or fallen out.
#[verifier::ext_equal]
pub ghost struct QueueHistory<T> {
    pub queue: MediaQueueModel<T>,
    pub entered: Seq<T>,
    pub taken: Seq<T>,
    pub left: Seq<T>,
}

/// The history of a fresh queue.
pub open spec fn queue_history<T>(capacity: usize, calls: Seq<QueueCall<T>>) -> QueueHistory<T>
    decreases calls.len(),
{
    if calls.len() == 0 {
        QueueHistory {
            queue: MediaQueueModel::initial(capacity),
            entered: Seq::empty(),
            taken: Seq::empty(),
            left: Seq::empty(),
        }
    } else {
        let before = queue_history(capacity, calls.drop_last());
        match calls.last() {
            QueueCall::Push { value } => {
                let (queue, fallen) = before.queue.pushed(value);
                if before.queue.closed {
                    QueueHistory { queue, ..before }
                } else {
                    QueueHistory {
                        queue,
                        entered: before.entered.push(value),
                        left: match fallen {
                            Some(oldest) => before.left.push(oldest),
                            None => before.left,
                        },
                        ..before
                    }
                }
            },
            QueueCall::Pop => {
                let (queue, item) = before.queue.popped();
                match item {
                    Some(item) => QueueHistory {
                        queue,
                        taken: before.taken.push(item),
                        left: before.left.push(item),
                        ..before
                    },
                    None => QueueHistory { queue, ..before },
                }
            },
            QueueCall::Close => QueueHistory {
                queue: MediaQueueModel { closed: true, ..before.queue },
                ..before
            },
        }
    }
}

/// Nothing is lost or made up in a queue, whatever is asked of it: what went in
/// is what has left and what is there, in the order in which it went in, and of
/// what has left what was not taken is counted as dropped.
pub proof fn law_queue_loses_nothing<T>(capacity: usize, calls: Seq<QueueCall<T>>)
    requires
        0 < capacity,
    ensures
        ({
            let history = queue_history(capacity, calls);
            &&& history.queue.well_formed()
            &&& history.queue.capacity == capacity
            &&& history.left + history.queue.items == history.entered
            &&& history.taken.len() <= history.left.len()
            &&& history.queue.dropped == if history.left.len() - history.taken.len() <= u64::MAX {
                history.left.len() - history.taken.len()
            } else {
                u64::MAX as int
            }
        }),
    decreases calls.len(),
{
    if calls.len() > 0 {
        law_queue_loses_nothing(capacity, calls.drop_last());
        let before = queue_history(capacity, calls.drop_last());
        let after = queue_history(capacity, calls);
        assert(after.left + after.queue.items =~= after.entered) by {
            match calls.last() {
                QueueCall::Push { value } => {
                    assert((before.left + before.queue.items).push(value) =~= before.left
                        + before.queue.items.push(value));
                },
                _ => {},
            }
        }
    } else {
        let history = queue_history(capacity, calls);
        assert(history.left + history.queue.items =~= history.entered);
    }
}

} // verus!
