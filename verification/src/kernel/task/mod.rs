//! Queues that carry input from interrupt context to the kernel tasks.
pub mod command_line;
pub mod keyboard;
pub mod queue;
