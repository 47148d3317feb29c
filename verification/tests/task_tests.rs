use oskernel::kernel::console::{Console, KeyInput, RawKey};
use oskernel::kernel::task::command_line::{CommandLineStream, CommandQueue};
use oskernel::kernel::task::keyboard::{
    add_scancode, handle_scancode, KeyDecoder, ScancodeOutcome, ScancodeQueue, ScancodeStream,
};
use oskernel::kernel::task::queue::QueueOutcome;
use oskernel::kernel::vga::{Buffer, ColorCode, ScreenChar, Writer};

fn blank_writer() -> Writer {
    let blank = ScreenChar { ascii_character: b' ', color_code: ColorCode(0x0e) };
    Writer::new(Buffer::filled(blank))
}

#[test]
fn scancodes_leave_in_arrival_order() {
    let mut w = blank_writer();
    let mut q = ScancodeQueue::uninit();
    assert!(!q.is_initialized());
    let _s = ScancodeStream::new(&mut q);
    assert!(q.is_initialized());
    assert_eq!(add_scancode(&mut q, &mut w, 1), QueueOutcome::Queued);
    assert_eq!(add_scancode(&mut q, &mut w, 2), QueueOutcome::Queued);
    assert_eq!(q.pop(), Some(1));
    assert_eq!(q.pop(), Some(2));
    assert_eq!(q.pop(), None);
}

#[test]
fn scancode_queue_holds_one_hundred() {
    let mut w = blank_writer();
    let mut q = ScancodeQueue::uninit();
    let _s = ScancodeStream::new(&mut q);
    for i in 0..100u8 {
        assert_eq!(add_scancode(&mut q, &mut w, i), QueueOutcome::Queued);
    }
    assert_eq!(add_scancode(&mut q, &mut w, 200), QueueOutcome::QueueFull);
    assert_eq!(w.column_position(), 0);
    assert_eq!(q.pop(), Some(0));
}

#[test]
fn scancode_without_queue_is_dropped_with_warning() {
    let mut w = blank_writer();
    let mut q = ScancodeQueue::uninit();
    assert_eq!(add_scancode(&mut q, &mut w, 7), QueueOutcome::Uninitialized);
    let text: Vec<u8> = (0..37).map(|c| w.char_at(23, c).ascii_character).collect();
    assert_eq!(text, b"WARNING: scancode queue uninitialized".to_vec());
}

#[test]
fn scancodes_are_decoded_and_handled() {
    let mut kb = KeyDecoder::new();
    let mut c = Console::new();
    let mut w = blank_writer();
    let mut q = CommandQueue::uninit();
    let _s = CommandLineStream::new(&mut q);
    // 'A' key pressed, then released
    match handle_scancode(&mut kb, &mut c, &mut w, &mut q, 0x1E) {
        ScancodeOutcome::Handled(KeyInput::Unicode('a'), None) => {}
        _ => panic!("expected the letter a"),
    }
    assert!(matches!(handle_scancode(&mut kb, &mut c, &mut w, &mut q, 0x9E), ScancodeOutcome::NoKey));
    assert_eq!(c.stdin(), &vec!['a']);
    // Enter
    match handle_scancode(&mut kb, &mut c, &mut w, &mut q, 0x1C) {
        ScancodeOutcome::Handled(KeyInput::Unicode('\n'), Some(QueueOutcome::Queued)) => {}
        _ => panic!("expected enter"),
    }
    let (cmd, args) = q.pop().unwrap();
    assert_eq!(cmd, "a");
    assert!(args.is_empty());
    // extended arrow up: previous line comes back
    assert!(matches!(handle_scancode(&mut kb, &mut c, &mut w, &mut q, 0xE0), ScancodeOutcome::NoKey));
    match handle_scancode(&mut kb, &mut c, &mut w, &mut q, 0x48) {
        ScancodeOutcome::Handled(KeyInput::Raw(RawKey::ArrowUp), None) => {}
        _ => panic!("expected arrow up"),
    }
    assert_eq!(c.stdin(), &vec!['a']);
    // F1 has its name printed
    match handle_scancode(&mut kb, &mut c, &mut w, &mut q, 0x3B) {
        ScancodeOutcome::Handled(KeyInput::Raw(RawKey::Other(name)), None) => assert_eq!(name, "F1"),
        _ => panic!("expected F1"),
    }
}

#[test]
fn key_that_would_overflow_the_row_is_refused() {
    let mut kb = KeyDecoder::new();
    let mut c = Console::new();
    let mut w = blank_writer();
    let mut q = CommandQueue::uninit();
    let _s = CommandLineStream::new(&mut q);
    w.write_string(&"x".repeat(79));
    match handle_scancode(&mut kb, &mut c, &mut w, &mut q, 0x1E) {
        ScancodeOutcome::Overflow(KeyInput::Unicode('a')) => {}
        _ => panic!("expected overflow"),
    }
    assert!(c.stdin().is_empty());
    assert_eq!(w.column_position(), 79);
}

#[test]
fn shift_and_arrow_down_are_decoded() {
    let mut kb = KeyDecoder::new();
    let mut c = Console::new();
    let mut w = blank_writer();
    let mut q = CommandQueue::uninit();
    let _s = CommandLineStream::new(&mut q);
    // left shift held: no key of its own, and the next letter is upper case
    assert!(matches!(handle_scancode(&mut kb, &mut c, &mut w, &mut q, 0x2A), ScancodeOutcome::NoKey));
    match handle_scancode(&mut kb, &mut c, &mut w, &mut q, 0x1E) {
        ScancodeOutcome::Handled(KeyInput::Unicode('A'), None) => {}
        _ => panic!("expected the letter A"),
    }
    // shift released: lower case again
    assert!(matches!(handle_scancode(&mut kb, &mut c, &mut w, &mut q, 0xAA), ScancodeOutcome::NoKey));
    match handle_scancode(&mut kb, &mut c, &mut w, &mut q, 0x30) {
        ScancodeOutcome::Handled(KeyInput::Unicode('b'), None) => {}
        _ => panic!("expected the letter b"),
    }
    assert_eq!(c.stdin(), &vec!['A', 'b']);
    // extended arrow down
    assert!(matches!(handle_scancode(&mut kb, &mut c, &mut w, &mut q, 0xE0), ScancodeOutcome::NoKey));
    match handle_scancode(&mut kb, &mut c, &mut w, &mut q, 0x50) {
        ScancodeOutcome::Handled(KeyInput::Raw(RawKey::ArrowDown), None) => {}
        _ => panic!("expected arrow down"),
    }
}
