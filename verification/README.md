# oskernel

The services of a small x86_64 hobby kernel, written in Verus and proved
against their contracts:

- `kernel::vga` — the VGA text writer: a 25 x 80 model of the screen, text
  written on the bottom row with a cursor cell, newline scrolling, erasing.
- `kernel::console` — the line-editing console with input history, and
  `kernel::console::command_line`, the command interpreter.
- `kernel::basic_console` — a history-free console that accepts input only
  while input is switched on.
- `kernel::task` — the bounded queues (crossbeam's `ArrayQueue`) that carry
  scancodes and command lines from interrupt context to the kernel tasks,
  and the keypress step that feeds scancodes to the `pc_keyboard` decoder.
  The decoder's tables are `pc_keyboard`'s own: the key press owed after
  a run of scancodes is named as a function of that run, and the step
  hands exactly that press, and no other, to the console.
- `kernel::time`, `kernel::memory`, `kernel::interrupts`, `interrupts` —
  tick counters, PIT programming, the frame allocator over the
  bootloader's memory map, interrupt vector numbers.

`app/` holds what the verifier does not take: the boot entry, the globals
behind spin locks, video memory, I/O ports, page tables, floating-point time
and the async task loop.
