//! Kernel services of a small x86_64 hobby operating system: the VGA text
//! writer, the line-editing console and its command interpreter, the task
//! queues fed by interrupt handlers, timekeeping and frame allocation.
pub mod interrupts;
pub mod kernel;
