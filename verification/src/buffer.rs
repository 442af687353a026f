//! The bounded first-in first-out buffer between one extractor and one
//! sinker, and the decisions of the task's lifecycle around it.

use vstd::prelude::*;
use concurrent_queue::ConcurrentQueue;
use crate::dt_data::{DtData, DtDataView, DtItem, DtItemView, Position};
use crate::error::Error;
use crate::router::RdbRouter;
use crate::row_data::{RowData, RowPairs};

verus! {

/// The largest capacity a buffer can be created with.
pub const MAX_BUFFER_SIZE: usize = 1048576;

/// The longest pause, in milliseconds, between two looks at the buffer while
/// a task waits to finish.
pub const POLL_MILLIS: u64 = 100;

/// Makes `concurrent_queue::ConcurrentQueue` known as an opaque type.
#[verifier::external_type_specification]
#[verifier::external_body]
#[verifier::reject_recursive_types(T)]
pub struct ExConcurrentQueue<T>(ConcurrentQueue<T>);

/// The items that a queue holds, oldest first.
pub uninterp spec fn queue_items(q: ConcurrentQueue<DtItem>) -> Seq<DtItemView>;

/// The number of items that a queue was created to hold.
pub uninterp spec fn queue_capacity(q: ConcurrentQueue<DtItem>) -> nat;

/// Whether a queue has been closed for further pushes.
pub uninterp spec fn queue_closed(q: ConcurrentQueue<DtItem>) -> bool;

/// Creates a queue for `cap` items.
///
/// Trusted: calls `ConcurrentQueue::bounded`, which panics on a capacity of
/// zero and otherwise returns an open, empty queue that holds up to `cap`
/// items. It allocates room for all of them at once, hence the upper
/// bound.
#[verifier::external_body]
fn queue_bounded(cap: usize) -> (q: ConcurrentQueue<DtItem>)
    requires
        0 < cap <= MAX_BUFFER_SIZE,
    ensures
        queue_items(q) == Seq::<DtItemView>::empty(),
        queue_capacity(q) == cap,
        !queue_closed(q),
{
    ConcurrentQueue::bounded(cap)
}

/// Offers one item to a queue.
///
/// Trusted: calls `ConcurrentQueue::push`. On a queue that no other party
/// touches meanwhile, the item is appended behind the others if the queue is
/// open and holds fewer items than its capacity; otherwise the queue stays
/// as it is and the item comes back.
#[verifier::external_body]
fn queue_push(q: &mut ConcurrentQueue<DtItem>, item: DtItem) -> (r: Result<(), DtItem>)
    ensures
        queue_capacity(*final(q)) == queue_capacity(*old(q)),
        queue_closed(*final(q)) == queue_closed(*old(q)),
        match r {
            Ok(()) => !queue_closed(*old(q)) && queue_items(*old(q)).len() < queue_capacity(
                *old(q),
            ) && queue_items(*final(q)) == queue_items(*old(q)).push(item@),
            Err(back) => (queue_closed(*old(q)) || queue_items(*old(q)).len() >= queue_capacity(
                *old(q),
            )) && back == item && queue_items(*final(q)) == queue_items(*old(q)),
        },
{
    match q.push(item) {
        Ok(()) => Ok(()),
        Err(e) => Err(e.into_inner()),
    }
}

/// Takes the oldest item from a queue.
///
/// Trusted: calls `ConcurrentQueue::pop`. On a queue that no other party
/// touches meanwhile, the oldest item leaves and is returned; an empty queue
/// stays empty and nothing is returned.
#[verifier::external_body]
fn queue_pop(q: &mut ConcurrentQueue<DtItem>) -> (r: Option<DtItem>)
    ensures
        queue_capacity(*final(q)) == queue_capacity(*old(q)),
        queue_closed(*final(q)) == queue_closed(*old(q)),
        match r {
            Some(item) => queue_items(*old(q)).len() > 0 && item@ == queue_items(*old(q))[0]
                && queue_items(*final(q)) == queue_items(*old(q)).skip(1),
            None => queue_items(*old(q)).len() == 0 && queue_items(*final(q)) == queue_items(
                *old(q),
            ),
        },
{
    q.pop().ok()
}

/// The number of items in a queue.
///
/// Trusted: calls `ConcurrentQueue::len`.
#[verifier::external_body]
fn queue_len(q: &ConcurrentQueue<DtItem>) -> (n: usize)
    ensures
        n == queue_items(*q).len(),
{
    q.len()
}

/// A bounded first-in first-out buffer of `DtItem`.
pub struct Buffer {
    queue: ConcurrentQueue<DtItem>,
    capacity: usize,
}

impl View for Buffer {
    type V = Seq<DtItemView>;

    closed spec fn view(&self) -> Seq<DtItemView> {
        queue_items(self.queue)
    }
}

impl Buffer {
    /// The number of items the buffer can hold.
    pub closed spec fn cap(&self) -> nat {
        self.capacity as nat
    }

    /// The buffer is open, and holds no more than its capacity.
    pub closed spec fn wf(&self) -> bool {
        &&& !queue_closed(self.queue)
        &&& queue_capacity(self.queue) == self.capacity
        &&& 0 < self.capacity
        &&& queue_items(self.queue).len() <= self.capacity
    }

    /// A well-formed buffer never holds more than its capacity, which is
    /// positive.
    pub proof fn lemma_bounded(&self)
        requires
            self.wf(),
        ensures
            0 < self.cap(),
            self@.len() <= self.cap(),
    {
    }

    /// An empty buffer for up to `buffer_size` items.
    pub fn new(buffer_size: usize) -> (r: Buffer)
        requires
            0 < buffer_size <= MAX_BUFFER_SIZE,
        ensures
            r.wf(),
            r@ == Seq::<DtItemView>::empty(),
            r.cap() == buffer_size,
    {
        Buffer { queue: queue_bounded(buffer_size), capacity: buffer_size }
    }

    /// An empty buffer for up to `buffer_size` items, or `Error::Config`
    /// where `buffer_size` is zero or above `MAX_BUFFER_SIZE`.
    pub fn with_size(buffer_size: usize) -> (r: Result<Buffer, Error>)
        ensures
            match r {
                Ok(b) => 0 < buffer_size <= MAX_BUFFER_SIZE && b.wf() && b@ == Seq::<
                    DtItemView,
                >::empty() && b.cap() == buffer_size,
                Err(e) => e == Error::Config && !(0 < buffer_size <= MAX_BUFFER_SIZE),
            },
    {
        if 0 < buffer_size && buffer_size <= MAX_BUFFER_SIZE {
            Ok(Buffer::new(buffer_size))
        } else {
            Err(Error::Config)
        }
    }

    /// The number of items the buffer can hold.
    pub fn capacity(&self) -> (r: usize)
        ensures
            r == self.cap(),
    {
        self.capacity
    }

    /// The number of items in the buffer.
    pub fn len(&self) -> (r: usize)
        ensures
            r == self@.len(),
    {
        queue_len(&self.queue)
    }

    /// Whether the buffer holds nothing.
    pub fn is_empty(&self) -> (r: bool)
        ensures
            r == (self@.len() == 0),
    {
        queue_len(&self.queue) == 0
    }

    /// Whether the buffer holds as many items as it can.
    pub fn is_full(&self) -> (r: bool)
        requires
            self.wf(),
        ensures
            r == (self@.len() == self.cap()),
    {
        queue_len(&self.queue) >= self.capacity
    }

    /// Appends `item` behind the others if there is room; hands it back
    /// and leaves the buffer as it is if there is none.
    pub fn push(&mut self, item: DtItem) -> (r: Result<(), DtItem>)
        requires
            old(self).wf(),
        ensures
            final(self).wf(),
            final(self).cap() == old(self).cap(),
            match r {
                Ok(()) => old(self)@.len() < old(self).cap() && final(self)@ == old(self)@.push(
                    item@,
                ),
                Err(back) => old(self)@.len() == old(self).cap() && back == item && final(self)@
                    == old(self)@,
            },
    {
        queue_push(&mut self.queue, item)
    }

    /// Takes the oldest item, if there is one.
    pub fn pop(&mut self) -> (r: Option<DtItem>)
        requires
            old(self).wf(),
        ensures
            final(self).wf(),
            final(self).cap() == old(self).cap(),
            match r {
                Some(item) => old(self)@.len() > 0 && item@ == old(self)@[0] && final(self)@
                    == old(self)@.skip(1),
                None => old(self)@.len() == 0 && final(self)@ == old(self)@,
            },
    {
        queue_pop(&mut self.queue)
    }
}

/// Items leave the buffer in the order in which they entered: of two items
/// pushed one after the other, the first is the one that is popped once
/// everything in front of them is gone, and the second is popped right
/// after it.
pub proof fn lemma_first_in_first_out(before: Seq<DtItemView>, first: DtItemView, second: DtItemView)
    ensures
        before.push(first).push(second).skip(before.len() as int)[0] == first,
        before.push(first).push(second).skip(before.len() as int).skip(1)[0] == second,
        before.push(first).push(second).skip(before.len() as int).skip(1).skip(1).len() == 0,
{
}

/// What a task that waits to finish does next.
#[derive(Clone, Copy, Debug, PartialEq, Eq, Structural)]
pub enum WaitStep {
    /// The buffer is drained and shutdown is raised: the task is over.
    Finished,
    /// Pause for this many milliseconds, then look again.
    Sleep { millis: u64 },
}

/// Decides whether a task is over: it is when the buffer is empty and
/// shutdown is raised, and not before. The buffer is only looked at.
pub fn wait_task_finish(buffer: &Buffer, shut_down: bool) -> (r: WaitStep)
    ensures
        r == WaitStep::Finished <==> (buffer@.len() == 0 && shut_down),
        r != WaitStep::Finished ==> r == (WaitStep::Sleep { millis: POLL_MILLIS }),
{
    if buffer.is_empty() && shut_down {
        WaitStep::Finished
    } else {
        WaitStep::Sleep { millis: POLL_MILLIS }
    }
}

/// What became of an item offered to the buffer.
#[derive(Debug, PartialEq, Eq)]
pub enum PushStep {
    /// The item is in the buffer.
    Accepted,
    /// The buffer is full: yield, then offer the item again.
    Retry { item: DtItem },
}

/// The outcome that `push_dt_data` owes for a buffer with `len` of `cap`
/// places taken.
pub open spec fn push_outcome(len: nat, cap: nat, shut_down: bool) -> Result<bool, Error> {
    if len < cap {
        Ok(true)
    } else if shut_down {
        Err(Error::Shutdown)
    } else {
        Ok(false)
    }
}

/// Offers `dt_data`, read at `position`, to the buffer.
///
/// With room in the buffer the item is appended. With a full buffer nothing
/// changes: under shutdown the item is dropped and `Error::Shutdown`
/// returned, otherwise the item comes back to be offered again.
pub fn push_dt_data(buffer: &mut Buffer, dt_data: DtData, position: Position, shut_down: bool) -> (r:
    Result<PushStep, Error>)
    requires
        old(buffer).wf(),
    ensures
        final(buffer).wf(),
        final(buffer).cap() == old(buffer).cap(),
        match push_outcome(old(buffer)@.len(), old(buffer).cap(), shut_down) {
            Ok(true) => r == Ok::<PushStep, Error>(PushStep::Accepted) && final(buffer)@ == old(
                buffer,
            )@.push(DtItemView { dt_data: dt_data@, position: position@ }),
            Ok(false) => r == Ok::<PushStep, Error>(
                PushStep::Retry { item: DtItem { dt_data, position } },
            ) && final(buffer)@ == old(buffer)@,
            Err(e) => r == Err::<PushStep, Error>(e) && final(buffer)@ == old(buffer)@,
        },
{
    let item = DtItem { dt_data, position };
    match buffer.push(item) {
        Ok(()) => Ok(PushStep::Accepted),
        Err(back) => {
            if shut_down {
                Err(Error::Shutdown)
            } else {
                Ok(PushStep::Retry { item: back })
            }
        },
    }
}

/// The buffer element that carries `row`, read at `position`, after it went
/// through the router, if there is one.
pub open spec fn row_item(router: Option<RdbRouter>, row: RowPairs, position: Option<Seq<char>>) -> DtItemView {
    DtItemView {
        dt_data: DtDataView::Dml {
            row_data: match router {
                Some(r) => r.routed(row).to_view(),
                None => row.to_view(),
            },
        },
        position,
    }
}

/// Routes `row_data`, if there is a router, and offers it, read at
/// `position`, to the buffer.
///
/// With room in the buffer the routed row is appended. With a full buffer
/// nothing changes: under shutdown the row is dropped and
/// `Error::Shutdown` returned, otherwise the routed row comes back as an
/// item to be offered again as it is.
pub fn push_row(
    buffer: &mut Buffer,
    row_data: RowData,
    position: Position,
    router: Option<&RdbRouter>,
    shut_down: bool,
) -> (r: Result<PushStep, Error>)
    requires
        old(buffer).wf(),
    ensures
        final(buffer).wf(),
        final(buffer).cap() == old(buffer).cap(),
        ({
            let item = row_item(
                match router {
                    Some(r) => Some(*r),
                    None => None,
                },
                row_data.deep(),
                position@,
            );
            match push_outcome(old(buffer)@.len(), old(buffer).cap(), shut_down) {
                Ok(true) => r == Ok::<PushStep, Error>(PushStep::Accepted) && final(buffer)@ == old(buffer)@.push(
                    item,
                ),
                Ok(false) => final(buffer)@ == old(buffer)@ && match r {
                    Ok(PushStep::Retry { item: back }) => back@ == item,
                    _ => false,
                },
                Err(e) => r == Err::<PushStep, Error>(e) && final(buffer)@ == old(buffer)@,
            }
        }),
{
    let routed = match router {
        Some(r) => r.route_row(row_data),
        None => {
            proof {
                row_data.lemma_deep_view();
            }
            row_data
        },
    };
    push_dt_data(buffer, DtData::Dml { row_data: routed }, position, shut_down)
}

} // verus!
