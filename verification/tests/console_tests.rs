use oskernel::kernel::console::command_line::{run_command, str_eq, CommandOutcome};
use oskernel::kernel::console::{
    handle_raw_press, handle_unicode_press, init, is_waiting_input, on_read_line,
    print_input_prefix, set_history_input, set_waiting_input, split_spaces_exec, Console, RawKey,
    SetHistoryDirection,
};
use oskernel::kernel::task::command_line::{push_command, CommandLineStream, CommandQueue};
use oskernel::kernel::task::queue::QueueOutcome;
use oskernel::kernel::vga::{Buffer, ColorCode, ScreenChar, Writer};

fn blank_writer() -> Writer {
    let blank = ScreenChar { ascii_character: b' ', color_code: ColorCode(0x0e) };
    Writer::new(Buffer::filled(blank))
}

fn row_string(w: &Writer, row: usize) -> String {
    let bytes: Vec<u8> = (0..80).map(|c| w.char_at(row, c).ascii_character).collect();
    String::from_utf8_lossy(&bytes).trim_end().to_string()
}

fn ready_queue() -> CommandQueue {
    let mut q = CommandQueue::uninit();
    let _stream = CommandLineStream::new(&mut q);
    q
}

fn type_str(c: &mut Console, w: &mut Writer, q: &mut CommandQueue, s: &str) -> Option<QueueOutcome> {
    let mut last = None;
    for ch in s.chars() {
        last = handle_unicode_press(c, w, q, ch);
    }
    last
}

fn chars(s: &str) -> Vec<char> {
    s.chars().collect()
}

#[test]
fn init_prints_banner_and_prompt() {
    let mut c = Console::new();
    let mut w = blank_writer();
    init(&mut c, &mut w, true);
    assert!(is_waiting_input(&c));
    assert_eq!(row_string(&w, 23), "[ CONSOLE ] Starting to load console...");
    assert_eq!(row_string(&w, 24), ">");
    assert_eq!(w.column_position(), 2);
}

#[test]
fn init_without_input_prints_banner_only() {
    let mut c = Console::new();
    let mut w = blank_writer();
    init(&mut c, &mut w, false);
    assert!(!is_waiting_input(&c));
    assert_eq!(w.column_position(), 0);
}

#[test]
fn set_waiting_input_returns_previous_and_prompts_once() {
    let mut c = Console::new();
    let mut w = blank_writer();
    assert_eq!(set_waiting_input(&mut c, &mut w, true), false);
    assert_eq!(w.column_position(), 2);
    assert_eq!(set_waiting_input(&mut c, &mut w, true), true);
    assert_eq!(w.column_position(), 2);
    assert_eq!(set_waiting_input(&mut c, &mut w, false), true);
    assert!(!is_waiting_input(&c));
    // switching back restores the setting
    assert_eq!(set_waiting_input(&mut c, &mut w, true), false);
    assert!(is_waiting_input(&c));
}

#[test]
fn print_input_prefix_prints_prompt() {
    let mut w = blank_writer();
    print_input_prefix(&mut w);
    assert_eq!(row_string(&w, 24), ">");
    assert_eq!(w.column_position(), 2);
}

#[test]
fn typed_characters_are_collected_and_echoed() {
    let mut c = Console::new();
    let mut w = blank_writer();
    let mut q = ready_queue();
    assert_eq!(type_str(&mut c, &mut w, &mut q, "ls"), None);
    assert_eq!(c.stdin(), &chars("ls"));
    assert_eq!(row_string(&w, 24), "ls");
}

#[test]
fn backspace_undoes_the_last_character() {
    let mut c = Console::new();
    let mut w = blank_writer();
    let mut q = ready_queue();
    type_str(&mut c, &mut w, &mut q, "ab");
    handle_unicode_press(&mut c, &mut w, &mut q, '\x08');
    assert_eq!(c.stdin(), &chars("a"));
    assert_eq!(w.column_position(), 1);
    handle_unicode_press(&mut c, &mut w, &mut q, '\x7F');
    assert_eq!(c.stdin(), &chars(""));
    assert_eq!(w.column_position(), 0);
    // nothing to erase: nothing changes
    handle_unicode_press(&mut c, &mut w, &mut q, '\x08');
    assert_eq!(w.column_position(), 0);
}

#[test]
fn enter_records_line_and_queues_command() {
    let mut c = Console::new();
    let mut w = blank_writer();
    let mut q = ready_queue();
    type_str(&mut c, &mut w, &mut q, "echo hi there");
    let out = handle_unicode_press(&mut c, &mut w, &mut q, '\n');
    assert_eq!(out, Some(QueueOutcome::Queued));
    assert_eq!(c.stdin().len(), 0);
    assert_eq!(c.history_len(), 1);
    assert_eq!(c.history_entry(0), &chars("echo hi there"));
    assert_eq!(row_string(&w, 22), "echo hi there");
    assert_eq!(row_string(&w, 23), "Command: echo / Arguments: [\"hi\", \"there\"]");
    assert_eq!(row_string(&w, 24), "");
    let (cmd, args) = q.pop().unwrap();
    assert_eq!(cmd, "echo");
    assert_eq!(args, vec!["hi".to_string(), "there".to_string()]);
    assert!(q.pop().is_none());
}

#[test]
fn empty_command_is_reported_and_still_queued() {
    let mut c = Console::new();
    let mut w = blank_writer();
    let mut q = ready_queue();
    handle_unicode_press(&mut c, &mut w, &mut q, '\n');
    assert_eq!(row_string(&w, 22), "Empty command is not allowed.");
    assert_eq!(row_string(&w, 23), "> Command:  / Arguments: []");
    assert_eq!(row_string(&w, 24), "");
    let mut w2 = blank_writer();
    let mut c2 = Console::new();
    let mut q2 = ready_queue();
    on_read_line(&mut c2, &mut w2, &mut q2, &chars(" x"));
    assert_eq!(row_string(&w2, 22), "Empty command is not allowed.");
    assert_eq!(row_string(&w2, 23), "> Command:  / Arguments: [\"x\"]");
    assert_eq!(w2.column_position(), 0);
    let (cmd, args) = q2.pop().unwrap();
    assert_eq!(cmd, "");
    assert_eq!(args, vec!["x".to_string()]);
    assert_eq!(c2.history_entry(0), &chars(" x"));
}

#[test]
fn read_line_without_queue_warns() {
    let mut c = Console::new();
    let mut w = blank_writer();
    let mut q = CommandQueue::uninit();
    let out = on_read_line(&mut c, &mut w, &mut q, &chars("ls"));
    assert_eq!(out, QueueOutcome::Uninitialized);
    assert_eq!(row_string(&w, 23), "WARNING: scancode queue uninitialized");
    assert_eq!(row_string(&w, 22), "Command: ls / Arguments: []");
}

#[test]
fn push_command_reports_full_queue() {
    let mut w = blank_writer();
    let mut q = ready_queue();
    for _ in 0..100 {
        assert_eq!(push_command(&mut q, &mut w, "x", vec![]), QueueOutcome::Queued);
    }
    assert_eq!(push_command(&mut q, &mut w, "y", vec![]), QueueOutcome::QueueFull);
    assert_eq!(row_string(&w, 23), "WARNING: scancode queue full; dropping keyboard input");
    let mut n = 0;
    while let Some((cmd, _)) = q.pop() {
        assert_eq!(cmd, "x");
        n += 1;
    }
    assert_eq!(n, 100);
}

#[test]
fn history_walks_up_and_down() {
    let mut c = Console::new();
    let mut w = blank_writer();
    let mut q = ready_queue();
    type_str(&mut c, &mut w, &mut q, "one\n");
    type_str(&mut c, &mut w, &mut q, "two\n");
    type_str(&mut c, &mut w, &mut q, "xy");
    set_history_input(&mut c, &mut w, SetHistoryDirection::UP);
    assert_eq!(c.stdin(), &chars("two"));
    assert_eq!(c.history_index(), 1);
    assert_eq!(row_string(&w, 24), "two");
    handle_raw_press(&mut c, &mut w, &RawKey::ArrowUp);
    assert_eq!(c.stdin(), &chars("one"));
    assert_eq!(c.history_index(), 2);
    // already at the oldest line
    handle_raw_press(&mut c, &mut w, &RawKey::ArrowUp);
    assert_eq!(c.history_index(), 2);
    handle_raw_press(&mut c, &mut w, &RawKey::ArrowDown);
    assert_eq!(c.stdin(), &chars("two"));
    assert_eq!(c.history_index(), 1);
    // down stops at the newest line
    handle_raw_press(&mut c, &mut w, &RawKey::ArrowDown);
    assert_eq!(c.history_index(), 1);
    assert_eq!(c.stdin(), &chars("two"));
}

#[test]
fn history_step_with_empty_history_does_nothing() {
    let mut c = Console::new();
    let mut w = blank_writer();
    set_history_input(&mut c, &mut w, SetHistoryDirection::UP);
    assert_eq!(c.history_index(), 0);
    assert_eq!(w.column_position(), 0);
}

#[test]
fn other_raw_keys_print_their_name() {
    let mut c = Console::new();
    let mut w = blank_writer();
    handle_raw_press(&mut c, &mut w, &RawKey::Other("F1".to_string()));
    assert_eq!(row_string(&w, 24), "F1");
}

#[test]
fn split_keeps_empty_pieces() {
    let pieces = split_spaces_exec(&chars("a  b"));
    assert_eq!(pieces, vec![chars("a"), chars(""), chars("b")]);
    assert_eq!(split_spaces_exec(&chars("")), vec![chars("")]);
    let joined: Vec<String> = split_spaces_exec(&chars("echo a b")).iter().map(|p| p.iter().collect()).collect();
    assert_eq!(joined.join(" "), "echo a b");
}

#[test]
fn str_eq_compares_characters() {
    assert!(str_eq("echo", "echo"));
    assert!(!str_eq("echo", "exec"));
    assert!(!str_eq("echo", "echo "));
}

#[test]
fn echo_prints_arguments_and_prompt() {
    let mut w = blank_writer();
    let mut q = ready_queue();
    let out = run_command(&mut q, &mut w, "echo", vec!["a".to_string(), "b".to_string()]);
    assert_eq!(out, CommandOutcome::Done(None));
    assert_eq!(row_string(&w, 23), "a b");
    assert_eq!(row_string(&w, 24), ">");
    let mut w = blank_writer();
    run_command(&mut q, &mut w, "echo", vec![]);
    assert_eq!(row_string(&w, 23), "");
    assert_eq!(row_string(&w, 24), ">");
}

#[test]
fn unknown_command_is_reported() {
    let mut w = blank_writer();
    let mut q = ready_queue();
    let out = run_command(&mut q, &mut w, "foo", vec![]);
    assert_eq!(out, CommandOutcome::Done(None));
    assert_eq!(row_string(&w, 23), "ERROR: Invalid command: foo");
    assert_eq!(row_string(&w, 24), ">");
}

#[test]
fn exec_queues_nested_command() {
    let mut w = blank_writer();
    let mut q = ready_queue();
    let out = run_command(&mut q, &mut w, "exec", vec!["echo".to_string(), "x".to_string()]);
    assert_eq!(out, CommandOutcome::Done(Some(QueueOutcome::Queued)));
    let (cmd, args) = q.pop().unwrap();
    assert_eq!(cmd, "echo");
    assert_eq!(args, vec!["x".to_string()]);
    assert_eq!(row_string(&w, 24), ">");
}

#[test]
fn clock_and_sleep_are_left_to_the_caller() {
    let mut w = blank_writer();
    let mut q = ready_queue();
    assert_eq!(run_command(&mut q, &mut w, "curtime", vec![]), CommandOutcome::ReadClock);
    assert_eq!(
        run_command(&mut q, &mut w, "sleep", vec!["1.5".to_string()]),
        CommandOutcome::Sleep("1.5".to_string())
    );
    assert_eq!(w.column_position(), 0);
}
