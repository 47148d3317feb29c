pub mod basic_console;
pub mod console;
pub mod interrupts;
pub mod memory;
pub mod task;
pub mod time;
pub mod vga;
