use oskernel::kernel::basic_console::{
    basic_unicode_press_fits, handle_unicode_press, init, is_waiting_input, on_read_line,
    set_waiting_input, try_handle_unicode_press, BasicConsole,
};
use oskernel::kernel::vga::{Buffer, ColorCode, ScreenChar, Writer};

fn blank_writer() -> Writer {
    let blank = ScreenChar { ascii_character: b' ', color_code: ColorCode(0x0e) };
    Writer::new(Buffer::filled(blank))
}

fn row_string(w: &Writer, row: usize) -> String {
    let bytes: Vec<u8> = (0..80).map(|c| w.char_at(row, c).ascii_character).collect();
    String::from_utf8_lossy(&bytes).trim_end().to_string()
}

#[test]
fn basic_console_ignores_keys_until_input_is_on() {
    let mut c = BasicConsole::new();
    let mut w = blank_writer();
    handle_unicode_press(&mut c, &mut w, 'a');
    assert!(c.stdin().is_empty());
    assert_eq!(w.column_position(), 0);
    init(&mut c, &mut w);
    assert!(is_waiting_input(&c));
    assert_eq!(row_string(&w, 23), "[ CONSOLE ] Starting to load console...");
    handle_unicode_press(&mut c, &mut w, 'a');
    assert_eq!(c.stdin(), &vec!['a']);
    assert_eq!(row_string(&w, 24), "> a");
}

#[test]
fn basic_console_reads_line_and_prompts_again() {
    let mut c = BasicConsole::new();
    let mut w = blank_writer();
    set_waiting_input(&mut c, &mut w, true);
    for ch in "ls -l".chars() {
        handle_unicode_press(&mut c, &mut w, ch);
    }
    handle_unicode_press(&mut c, &mut w, '\x08');
    assert_eq!(c.stdin(), &vec!['l', 's', ' ', '-']);
    handle_unicode_press(&mut c, &mut w, 'l');
    assert!(basic_unicode_press_fits(&c, &w, '\n'));
    handle_unicode_press(&mut c, &mut w, '\n');
    assert!(c.stdin().is_empty());
    assert!(is_waiting_input(&c));
    assert_eq!(row_string(&w, 23), "Command: ls / Arguments: [\"-l\"]");
    assert_eq!(row_string(&w, 24), ">");
}

#[test]
fn basic_console_rejects_empty_command() {
    let mut w = blank_writer();
    on_read_line(&mut w, &vec![]);
    assert_eq!(row_string(&w, 23), "Empty command is not allowed.");
    assert_eq!(w.column_position(), 0);
}

#[test]
fn basic_console_refuses_a_key_past_the_last_column() {
    let mut c = BasicConsole::new();
    let mut w = blank_writer();
    set_waiting_input(&mut c, &mut w, true);
    w.write_string(&"x".repeat(77));
    assert_eq!(w.column_position(), 79);
    assert!(!try_handle_unicode_press(&mut c, &mut w, 'a'));
    assert!(c.stdin().is_empty());
    assert!(try_handle_unicode_press(&mut c, &mut w, '\x08'));
}
