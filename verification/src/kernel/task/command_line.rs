use crossbeam_queue::ArrayQueue;
use vstd::prelude::*;
use vstd::utf8::encode_utf8;
use crate::kernel::task::queue::{
    command_queue_capacity, command_queue_is_full, command_queue_items, command_queue_new, command_queue_pop,
    command_queue_push, queue_after_pop, queue_after_push, queue_outcome, queue_warning, QueueOutcome, QueueView,
};
use crate::kernel::vga::{can_print, print_spec, Writer};

verus! {

/// Capacity of the command queue.
pub const COMMAND_QUEUE_CAPACITY: usize = 100;

/// The queue of command lines (name and arguments) waiting to run; it stays
/// unset until the command line stream is created.
pub struct CommandQueue {
    queue: Option<ArrayQueue<(String, Vec<String>)>>,
}

impl View for CommandQueue {
    type V = QueueView<(Seq<char>, Seq<Seq<char>>)>;

    closed spec fn view(&self) -> QueueView<(Seq<char>, Seq<Seq<char>>)> {
        match self.queue {
            Some(q) => QueueView {
                initialized: true,
                items: command_queue_items(q),
                capacity: command_queue_capacity(q),
            },
            None => QueueView { initialized: false, items: Seq::empty(), capacity: 0 },
        }
    }
}

impl CommandQueue {
    /// A queue that has not been set up.
    pub fn uninit() -> (q: CommandQueue)
        ensures
            !q@.initialized,
            q@.wf(),
    {
        CommandQueue { queue: None }
    }

    /// Whether the queue has been set up.
    pub fn is_initialized(&self) -> (r: bool)
        ensures
            r == self@.initialized,
    {
        self.queue.is_some()
    }

    /// What enqueueing a command now would come to.
    pub fn outcome(&self) -> (r: QueueOutcome)
        requires
            self@.wf(),
        ensures
            r == queue_outcome(self@),
    {
        match &self.queue {
            Some(q) => if command_queue_is_full(q) {
                QueueOutcome::QueueFull
            } else {
                QueueOutcome::Queued
            },
            None => QueueOutcome::Uninitialized,
        }
    }

    /// Takes the oldest command; `None` when the queue is empty.
    pub fn pop(&mut self) -> (r: Option<(String, Vec<String>)>)
        requires
            old(self)@.initialized,
            old(self)@.wf(),
        ensures
            final(self)@.wf(),
            final(self)@.initialized,
            final(self)@.capacity == old(self)@.capacity,
            final(self)@ == queue_after_pop(old(self)@).1,
            r.is_some() == queue_after_pop(old(self)@).0.is_some(),
            r.is_some() ==> Some((r.unwrap().0@, r.unwrap().1.deep_view())) == queue_after_pop(
                old(self)@,
            ).0,
    {
        match &mut self.queue {
            Some(q) => command_queue_pop(q),
            None => None,
        }
    }
}

/// Called when a line has been read: appends the command when the queue
/// is set up and has room, otherwise prints a warning and drops it. On
/// `Queued` the caller wakes the command task. The command name is copied
/// into a new string.
pub fn push_command(
    queue: &mut CommandQueue,
    writer: &mut Writer,
    command: &str,
    args: Vec<String>,
) -> (outcome: QueueOutcome)
    requires
        old(queue)@.wf(),
        old(writer)@.wf(),
        can_print(old(writer)@, queue_warning(queue_outcome(old(queue)@))),
    ensures
        outcome == queue_outcome(old(queue)@),
        final(queue)@ == queue_after_push(old(queue)@, (command@, args.deep_view())),
        final(queue)@.wf(),
        final(writer)@ == print_spec(old(writer)@, queue_warning(outcome)),
        final(writer)@.wf(),
{
    match &mut queue.queue {
        Some(q) => {
            if !command_queue_push(q, (command.to_owned(), args)) {
                writer.write_string("WARNING: scancode queue full; dropping keyboard input\n");
                QueueOutcome::QueueFull
            } else {
                proof {
                    assert(encode_utf8(Seq::<char>::empty()) =~= Seq::<u8>::empty());
                }
                QueueOutcome::Queued
            }
        },
        None => {
            writer.write_string("WARNING: scancode queue uninitialized\n");
            QueueOutcome::Uninitialized
        },
    }
}

/// The consumer side of the command queue.
pub struct CommandLineStream {
    _private: (),
}

impl CommandLineStream {
    /// Sets up the command queue with room for 100 commands. It may be
    /// created only once.
    pub fn new(queue: &mut CommandQueue) -> (stream: CommandLineStream)
        requires
            !old(queue)@.initialized,
        ensures
            final(queue)@ == QueueView::<(Seq<char>, Seq<Seq<char>>)>::fresh(
                COMMAND_QUEUE_CAPACITY as nat,
            ),
            final(queue)@.wf(),
    {
        queue.queue = Some(command_queue_new(COMMAND_QUEUE_CAPACITY));
        CommandLineStream { _private: () }
    }
}

} // verus!
