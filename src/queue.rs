//! A bounded, non-blocking sample queue and the discipline around it:
//! producers drop what does not fit, consumers substitute silence.
use vstd::prelude::*;
use ringbuf::RingBuffer;

verus! {

/// A fixed-capacity first-in first-out queue of samples, over a lock-free
/// single-producer single-consumer ring buffer whose two ends it holds.
#[verifier::external_body]
pub struct SampleQueue {
    producer: ringbuf::Producer<i32>,
    consumer: ringbuf::Consumer<i32>,
}

/// The samples a queue holds, oldest first.
pub uninterp spec fn queue_items(q: SampleQueue) -> Seq<i32>;

/// The number of samples a queue can hold, fixed when it is made.
pub uninterp spec fn queue_capacity(q: SampleQueue) -> nat;

/// What a push leaves in a queue holding `items` with room for `cap`.
pub open spec fn after_push(items: Seq<i32>, cap: nat, v: i32) -> Seq<i32> {
    if items.len() < cap {
        items.push(v)
    } else {
        items
    }
}

/// What a pop leaves in a queue holding `items`.
pub open spec fn after_pop(items: Seq<i32>) -> Seq<i32> {
    if items.len() > 0 {
        items.drop_first()
    } else {
        items
    }
}

impl SampleQueue {
    /// Relies on ringbuf::RingBuffer::new and split: an empty ring buffer
    /// with room for `capacity` items, split into its two ends.
    #[verifier::external_body]
    fn with_ring_buffer(capacity: usize) -> (r: SampleQueue)
        requires
            capacity < usize::MAX,
        ensures
            queue_items(r) == Seq::<i32>::empty(),
            queue_capacity(r) == capacity,
    {
        let (producer, consumer) = RingBuffer::new(capacity).split();
        SampleQueue { producer, consumer }
    }

    /// Relies on ringbuf::Producer::push: the item is appended when there is
    /// room, and handed back otherwise.
    #[verifier::external_body]
    fn producer_push(&mut self, v: i32) -> (r: Result<(), i32>)
        ensures
            queue_capacity(*final(self)) == queue_capacity(*old(self)),
            queue_items(*final(self)) == after_push(
                queue_items(*old(self)),
                queue_capacity(*old(self)),
                v,
            ),
            r == if queue_items(*old(self)).len() < queue_capacity(*old(self)) {
                Ok::<(), i32>(())
            } else {
                Err::<(), i32>(v)
            },
    {
        self.producer.push(v)
    }

    /// Relies on ringbuf::Consumer::pop: the oldest item is removed and
    /// returned, or `None` when the queue is empty.
    #[verifier::external_body]
    fn consumer_pop(&mut self) -> (r: Option<i32>)
        ensures
            queue_capacity(*final(self)) == queue_capacity(*old(self)),
            queue_items(*final(self)) == after_pop(queue_items(*old(self))),
            queue_items(*old(self)).len() == 0 ==> r.is_none(),
            queue_items(*old(self)).len() > 0 ==> r == Some(queue_items(*old(self))[0]),
    {
        self.consumer.pop()
    }

    /// Relies on ringbuf::Consumer::len: the number of items held.
    #[verifier::external_body]
    fn consumer_len(&self) -> (r: usize)
        ensures
            r == queue_items(*self).len(),
    {
        self.consumer.len()
    }

    /// Relies on ringbuf::Producer::capacity: the capacity fixed at
    /// construction.
    #[verifier::external_body]
    fn producer_capacity(&self) -> (r: usize)
        ensures
            r == queue_capacity(*self),
    {
        self.producer.capacity()
    }

    /// An empty queue with room for `capacity` samples.
    pub fn new(capacity: usize) -> (r: SampleQueue)
        requires
            capacity < usize::MAX,
        ensures
            queue_items(r) == Seq::<i32>::empty(),
            queue_capacity(r) == capacity,
    {
        SampleQueue::with_ring_buffer(capacity)
    }

    /// Appends `v` when there is room and reports whether it did; a full
    /// queue drops the sample and does not wait.
    pub fn try_push(&mut self, v: i32) -> (r: bool)
        ensures
            queue_capacity(*final(self)) == queue_capacity(*old(self)),
            queue_items(*final(self)) == after_push(
                queue_items(*old(self)),
                queue_capacity(*old(self)),
                v,
            ),
            r == (queue_items(*old(self)).len() < queue_capacity(*old(self))),
    {
        self.producer_push(v).is_ok()
    }

    /// Removes and returns the oldest sample; `None` when the queue is empty.
    pub fn try_pop(&mut self) -> (r: Option<i32>)
        ensures
            queue_capacity(*final(self)) == queue_capacity(*old(self)),
            queue_items(*final(self)) == after_pop(queue_items(*old(self))),
            queue_items(*old(self)).len() == 0 ==> r.is_none(),
            queue_items(*old(self)).len() > 0 ==> r == Some(queue_items(*old(self))[0]),
    {
        self.consumer_pop()
    }

    /// The number of samples held.
    pub fn len(&self) -> (r: usize)
        ensures
            r == queue_items(*self).len(),
    {
        self.consumer_len()
    }

    /// The number of samples the queue can hold.
    pub fn capacity(&self) -> (r: usize)
        ensures
            r == queue_capacity(*self),
    {
        self.producer_capacity()
    }
}

/// Fills `block` from the queue, oldest sample first, with silence (0) for
/// each slot the queue cannot supply.
pub fn fill(queue: &mut SampleQueue, block: &mut Vec<i32>)
    ensures
        final(block)@.len() == old(block)@.len(),
        queue_capacity(*final(queue)) == queue_capacity(*old(queue)),
        ({
            let items = queue_items(*old(queue));
            let k = if old(block)@.len() < items.len() {
                old(block)@.len() as int
            } else {
                items.len() as int
            };
            &&& queue_items(*final(queue)) == items.subrange(k, items.len() as int)
            &&& forall|i: int| 0 <= i < k ==> final(block)@[i] == items[i]
            &&& forall|i: int| k <= i < old(block)@.len() ==> final(block)@[i] == 0
        }),
{
    let ghost items = queue_items(*queue);
    let ghost n = block@.len();
    let mut i: usize = 0;
    while i < block.len()
        invariant
            block@.len() == n,
            i <= n,
            queue_capacity(*queue) == queue_capacity(*old(queue)),
            items == queue_items(*old(queue)),
            i <= items.len() ==> queue_items(*queue) == items.subrange(i as int, items.len() as int),
            i > items.len() ==> queue_items(*queue).len() == 0,
            forall|j: int| 0 <= j < i && j < items.len() ==> block@[j] == items[j],
            forall|j: int| items.len() <= j < i ==> block@[j] == 0,
        decreases n - i,
    {
        let sample = match queue.try_pop() {
            Some(s) => s,
            None => 0,
        };
        block.set(i, sample);
        i = i + 1;
    }
}

/// Pops everything the queue holds, in order.
pub fn drain(queue: &mut SampleQueue) -> (r: Vec<i32>)
    ensures
        r@ == queue_items(*old(queue)),
        queue_items(*final(queue)) == Seq::<i32>::empty(),
        queue_capacity(*final(queue)) == queue_capacity(*old(queue)),
{
    let ghost items = queue_items(*queue);
    let count = queue.len();
    let mut r: Vec<i32> = Vec::new();
    let mut i: usize = 0;
    while i < count
        invariant
            count == items.len(),
            i <= count,
            items == queue_items(*old(queue)),
            queue_capacity(*queue) == queue_capacity(*old(queue)),
            queue_items(*queue) == items.subrange(i as int, items.len() as int),
            r@ == items.subrange(0, i as int),
        decreases count - i,
    {
        let sample = match queue.try_pop() {
            Some(s) => s,
            None => 0,
        };
        r.push(sample);
        i = i + 1;
        proof {
            assert(items.subrange(0, i as int) == items.subrange(0, i - 1).push(items[i - 1]));
        }
    }
    proof {
        assert(items.subrange(0, items.len() as int) == items);
    }
    r
}

/// Hands one produced sample to the output queue and, where it has room, to
/// the visualization tap. Returns whether each accepted it; a full queue
/// drops the sample and never blocks.
pub fn push_sample(output: &mut SampleQueue, tap: &mut SampleQueue, sample: i32) -> (r: (
    bool,
    bool,
))
    ensures
        queue_capacity(*final(output)) == queue_capacity(*old(output)),
        queue_capacity(*final(tap)) == queue_capacity(*old(tap)),
        queue_items(*final(output)) == after_push(
            queue_items(*old(output)),
            queue_capacity(*old(output)),
            sample,
        ),
        queue_items(*final(tap)) == after_push(
            queue_items(*old(tap)),
            queue_capacity(*old(tap)),
            sample,
        ),
        r.0 == (queue_items(*old(output)).len() < queue_capacity(*old(output))),
        r.1 == (queue_items(*old(tap)).len() < queue_capacity(*old(tap))),
{
    let sent = output.try_push(sample);
    let tapped = tap.try_push(sample);
    (sent, tapped)
}

/// One operation on a queue.
pub enum QueueOp {
    Push(i32),
    Pop,
}

/// Runs `ops` on an empty queue of capacity `cap`: what it holds at the end,
/// what the pops returned, and the values of the pushes that were accepted.
pub open spec fn run_ops(cap: nat, ops: Seq<QueueOp>) -> (Seq<i32>, Seq<i32>, Seq<i32>)
    decreases ops.len(),
{
    if ops.len() == 0 {
        (Seq::empty(), Seq::empty(), Seq::empty())
    } else {
        let (items, popped, accepted) = run_ops(cap, ops.drop_last());
        match ops.last() {
            QueueOp::Push(v) => if items.len() < cap {
                (after_push(items, cap, v), popped, accepted.push(v))
            } else {
                (after_push(items, cap, v), popped, accepted)
            },
            QueueOp::Pop => if items.len() > 0 {
                (after_pop(items), popped.push(items[0]), accepted)
            } else {
                (after_pop(items), popped, accepted)
            },
        }
    }
}

/// Whatever the pushes and pops, the queue never holds more than its
/// capacity, and the values popped followed by those still held are exactly
/// the accepted pushes in push order: dropped pushes reorder nothing.
pub proof fn lemma_queue_fifo(cap: nat, ops: Seq<QueueOp>)
    ensures
        run_ops(cap, ops).0.len() <= cap,
        run_ops(cap, ops).1 + run_ops(cap, ops).0 == run_ops(cap, ops).2,
    decreases ops.len(),
{
    if ops.len() > 0 {
        lemma_queue_fifo(cap, ops.drop_last());
        let (items, popped, accepted) = run_ops(cap, ops.drop_last());
        match ops.last() {
            QueueOp::Push(v) => {
                if items.len() < cap {
                    assert(popped + items.push(v) == (popped + items).push(v));
                }
            },
            QueueOp::Pop => {
                if items.len() > 0 {
                    assert(popped.push(items[0]) + items.drop_first() == popped + items);
                }
            },
        }
    }
}

} // verus!
