use crossbeam_queue::ArrayQueue;
use vstd::prelude::*;

verus! {

#[verifier::external_type_specification]
#[verifier::external_body]
#[verifier::reject_recursive_types(T)]
pub struct ExArrayQueue<T>(ArrayQueue<T>);

/// The bytes that a scancode queue holds, oldest first.
pub uninterp spec fn scancode_queue_items(q: ArrayQueue<u8>) -> Seq<u8>;

/// The capacity that a scancode queue was made with.
pub uninterp spec fn scancode_queue_capacity(q: ArrayQueue<u8>) -> nat;

/// The commands that a command queue holds, oldest first, each as the
/// command name and its arguments.
pub uninterp spec fn command_queue_items(q: ArrayQueue<(String, Vec<String>)>) -> Seq<
    (Seq<char>, Seq<Seq<char>>),
>;

/// The capacity that a command queue was made with.
pub uninterp spec fn command_queue_capacity(q: ArrayQueue<(String, Vec<String>)>) -> nat;

/// The abstract state of a bounded FIFO that may not have been set up yet.
pub struct QueueView<T> {
    pub initialized: bool,
    pub items: Seq<T>,
    pub capacity: nat,
}

impl<T> QueueView<T> {
    pub open spec fn wf(self) -> bool {
        self.initialized ==> self.items.len() <= self.capacity
    }

    /// A freshly set up, empty queue of the given capacity.
    pub open spec fn fresh(capacity: nat) -> Self {
        QueueView { initialized: true, items: Seq::empty(), capacity }
    }
}

/// How an attempt to enqueue from interrupt context ended.
#[derive(Debug, Clone, Copy, PartialEq, Eq, Structural)]
pub enum QueueOutcome {
    /// The item was appended; the consumer task should be woken.
    Queued,
    /// The queue was full and the item was dropped.
    QueueFull,
    /// The queue had not been set up and the item was dropped.
    Uninitialized,
}

/// The outcome of enqueueing into a queue in the given state.
pub open spec fn queue_outcome<T>(q: QueueView<T>) -> QueueOutcome {
    if !q.initialized {
        QueueOutcome::Uninitialized
    } else if q.items.len() >= q.capacity {
        QueueOutcome::QueueFull
    } else {
        QueueOutcome::Queued
    }
}

/// The queue after enqueueing `item`: appended when there is room.
pub open spec fn queue_after_push<T>(q: QueueView<T>, item: T) -> QueueView<T> {
    if queue_outcome(q) == QueueOutcome::Queued {
        QueueView { items: q.items.push(item), ..q }
    } else {
        q
    }
}

/// Taking from a set-up queue: the oldest item and the rest, or nothing
/// from an empty queue.
pub open spec fn queue_after_pop<T>(q: QueueView<T>) -> (Option<T>, QueueView<T>) {
    if q.items.len() == 0 {
        (None, q)
    } else {
        (Some(q.items[0]), QueueView { items: q.items.drop_first(), ..q })
    }
}

/// First in, first out: on a set-up queue with room, enqueueing and then
/// taking gives what taking first would give, and the new item waits behind
/// the rest; in particular an item put into an empty queue is the next one
/// taken.
pub proof fn lemma_queue_fifo<T>(q: QueueView<T>, item: T)
    requires
        q.wf(),
        q.initialized,
        q.items.len() < q.capacity,
    ensures
        queue_after_pop(queue_after_push(q, item)).0 == if q.items.len() == 0 {
            Some(item)
        } else {
            queue_after_pop(q).0
        },
        queue_after_pop(queue_after_push(q, item)).1.items == queue_after_pop(q).1.items.push(
            item,
        ) || q.items.len() == 0,
        q.items.len() == 0 ==> queue_after_pop(queue_after_push(q, item)).1 == q,
        queue_after_push(q, item).wf(),
{
    let pushed = q.items.push(item);
    if q.items.len() > 0 {
        assert(pushed.drop_first() =~= q.items.drop_first().push(item));
    } else {
        assert(pushed.drop_first() =~= q.items);
    }
}

/// A set-up queue stays set up, with its capacity, through any enqueue and
/// any take; so a second set-up of a queue (which the streams refuse) can
/// never find it unset again.
pub proof fn lemma_queue_stays_set_up<T>(q: QueueView<T>, item: T)
    requires
        q.initialized,
    ensures
        queue_after_push(q, item).initialized,
        queue_after_push(q, item).capacity == q.capacity,
        queue_after_pop(q).1.initialized,
        queue_after_pop(q).1.capacity == q.capacity,
{
}

/// The warning line printed for an outcome (nothing when queued).
pub open spec fn queue_warning(outcome: QueueOutcome) -> Seq<char> {
    match outcome {
        QueueOutcome::Queued => Seq::empty(),
        QueueOutcome::QueueFull => "WARNING: scancode queue full; dropping keyboard input\n"@,
        QueueOutcome::Uninitialized => "WARNING: scancode queue uninitialized\n"@,
    }
}

/// The warning line printed for an outcome, as text.
pub fn queue_warning_text(outcome: QueueOutcome) -> (text: &'static str)
    ensures
        text@ == queue_warning(outcome),
{
    match outcome {
        QueueOutcome::Queued => {
            proof {
                reveal_strlit("");
            }
            ""
        },
        QueueOutcome::QueueFull => "WARNING: scancode queue full; dropping keyboard input\n",
        QueueOutcome::Uninitialized => "WARNING: scancode queue uninitialized\n",
    }
}

/// `ArrayQueue::new` for bytes: an empty queue of capacity `cap`; the crate
/// asserts that the capacity is not zero.
#[verifier::external_body]
pub(crate) fn scancode_queue_new(cap: usize) -> (q: ArrayQueue<u8>)
    requires
        cap > 0,
    ensures
        scancode_queue_items(q) == Seq::<u8>::empty(),
        scancode_queue_capacity(q) == cap,
{
    ArrayQueue::new(cap)
}

/// `ArrayQueue::push` for bytes: appends at the tail unless the queue holds
/// `capacity` items, in which case it fails and the queue is unchanged.
#[verifier::external_body]
pub(crate) fn scancode_queue_push(q: &mut ArrayQueue<u8>, value: u8) -> (pushed: bool)
    ensures
        scancode_queue_capacity(*final(q)) == scancode_queue_capacity(*old(q)),
        pushed == (scancode_queue_items(*old(q)).len() < scancode_queue_capacity(*old(q))),
        pushed ==> scancode_queue_items(*final(q)) == scancode_queue_items(*old(q)).push(value),
        !pushed ==> scancode_queue_items(*final(q)) == scancode_queue_items(*old(q)),
{
    q.push(value).is_ok()
}

/// `ArrayQueue::pop` for bytes: removes and returns the head, or fails on
/// an empty queue.
#[verifier::external_body]
pub(crate) fn scancode_queue_pop(q: &mut ArrayQueue<u8>) -> (r: Option<u8>)
    ensures
        scancode_queue_capacity(*final(q)) == scancode_queue_capacity(*old(q)),
        scancode_queue_items(*old(q)).len() == 0 ==> r == None::<u8> && scancode_queue_items(
            *final(q),
        ) == scancode_queue_items(*old(q)),
        scancode_queue_items(*old(q)).len() > 0 ==> r == Some(scancode_queue_items(*old(q))[0])
            && scancode_queue_items(*final(q)) == scancode_queue_items(*old(q)).drop_first(),
{
    q.pop().ok()
}

/// `ArrayQueue::is_full` for bytes: whether the queue holds `capacity`
/// items.
#[verifier::external_body]
pub(crate) fn scancode_queue_is_full(q: &ArrayQueue<u8>) -> (full: bool)
    ensures
        full == (scancode_queue_items(*q).len() == scancode_queue_capacity(*q)),
{
    q.is_full()
}

/// `ArrayQueue::new` for commands: an empty queue of capacity `cap`; the
/// crate asserts that the capacity is not zero.
#[verifier::external_body]
pub(crate) fn command_queue_new(cap: usize) -> (q: ArrayQueue<(String, Vec<String>)>)
    requires
        cap > 0,
    ensures
        command_queue_items(q) == Seq::<(Seq<char>, Seq<Seq<char>>)>::empty(),
        command_queue_capacity(q) == cap,
{
    ArrayQueue::new(cap)
}

/// `ArrayQueue::push` for commands: appends at the tail unless the queue
/// holds `capacity` items, in which case it fails and the queue is
/// unchanged.
#[verifier::external_body]
pub(crate) fn command_queue_push(
    q: &mut ArrayQueue<(String, Vec<String>)>,
    value: (String, Vec<String>),
) -> (pushed: bool)
    ensures
        command_queue_capacity(*final(q)) == command_queue_capacity(*old(q)),
        pushed == (command_queue_items(*old(q)).len() < command_queue_capacity(*old(q))),
        pushed ==> command_queue_items(*final(q)) == command_queue_items(*old(q)).push(
            (value.0@, value.1.deep_view()),
        ),
        !pushed ==> command_queue_items(*final(q)) == command_queue_items(*old(q)),
{
    q.push(value).is_ok()
}

/// `ArrayQueue::pop` for commands: removes and returns the head, or fails
/// on an empty queue.
#[verifier::external_body]
pub(crate) fn command_queue_pop(q: &mut ArrayQueue<(String, Vec<String>)>) -> (r: Option<
    (String, Vec<String>),
>)
    ensures
        command_queue_capacity(*final(q)) == command_queue_capacity(*old(q)),
        command_queue_items(*old(q)).len() == 0 ==> r.is_none() && command_queue_items(*final(q))
            == command_queue_items(*old(q)),
        command_queue_items(*old(q)).len() > 0 ==> r.is_some() && (r.unwrap().0@, r.unwrap().1.deep_view())
            == command_queue_items(*old(q))[0] && command_queue_items(*final(q))
            == command_queue_items(*old(q)).drop_first(),
{
    q.pop().ok()
}

/// `ArrayQueue::is_full` for commands: whether the queue holds `capacity`
/// items.
#[verifier::external_body]
pub(crate) fn command_queue_is_full(q: &ArrayQueue<(String, Vec<String>)>) -> (full: bool)
    ensures
        full == (command_queue_items(*q).len() == command_queue_capacity(*q)),
{
    q.is_full()
}

} // verus!
