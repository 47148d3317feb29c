//! A console without history that reads one line at a time: characters
//! are accepted only while input is enabled, and a line read is echoed with
//! its command and arguments but not handed on to any queue.
use vstd::prelude::*;
use vstd::utf8::encode_utf8;
use crate::kernel::console::{
    char_to_string, column_back, debug_list_text, format_debug_list, input_prefix, init_banner, is_erase_char,
    lemma_split_spaces_nonempty, line_args, line_command, split_spaces_exec, string_from_chars,
    strings_from, waiting_input_text,
};
use crate::kernel::vga::{
    blank_char, cursor_char, lemma_print_printable, printable_ascii, LAST_ROW_START, BUFFER_WIDTH,
    can_print, erase_last_char_spec, fits_then, fits_then_exec, lemma_fits_then_concat,
    lemma_print_concat, opt_col, print_spec, Writer, WriterView,
};

verus! {

/// The state of the console: the line being typed and whether input is
/// accepted.
pub struct BasicConsole {
    stdin: Vec<char>,
    waiting_input: bool,
}

/// The abstract state of the console.
pub struct BasicConsoleView {
    pub stdin: Seq<char>,
    pub waiting_input: bool,
}

impl View for BasicConsole {
    type V = BasicConsoleView;

    closed spec fn view(&self) -> BasicConsoleView {
        BasicConsoleView { stdin: self.stdin@, waiting_input: self.waiting_input }
    }
}

impl BasicConsole {
    /// No input typed, input not accepted.
    pub fn new() -> (c: BasicConsole)
        ensures
            c@ == (BasicConsoleView { stdin: Seq::empty(), waiting_input: false }),
    {
        BasicConsole { stdin: Vec::new(), waiting_input: false }
    }

    /// The line typed so far.
    pub fn stdin(&self) -> (s: &Vec<char>)
        ensures
            s@ == self@.stdin,
    {
        &self.stdin
    }
}

/// Prints the banner and starts accepting input.
pub fn init(console: &mut BasicConsole, writer: &mut Writer)
    requires
        old(writer)@.wf(),
        can_print(old(writer)@, init_banner() + waiting_input_text(old(console)@.waiting_input, true)),
    ensures
        final(console)@ == (BasicConsoleView { waiting_input: true, ..old(console)@ }),
        final(writer)@ == print_spec(
            old(writer)@,
            init_banner() + waiting_input_text(old(console)@.waiting_input, true),
        ),
        final(writer)@.wf(),
{
    proof {
        lemma_print_concat(
            old(writer)@,
            init_banner(),
            waiting_input_text(old(console)@.waiting_input, true),
        );
    }
    writer.write_string("[ CONSOLE ] Starting to load console...\n");
    set_waiting_input(console, writer, true);
}

/// Whether typed characters are accepted.
pub fn is_waiting_input(console: &BasicConsole) -> (r: bool)
    ensures
        r == console@.waiting_input,
{
    console.waiting_input
}

/// Switches input on or off and returns the previous setting; switching it
/// on prints the prompt.
pub fn set_waiting_input(console: &mut BasicConsole, writer: &mut Writer, value: bool) -> (was:
    bool)
    requires
        old(writer)@.wf(),
        can_print(old(writer)@, waiting_input_text(old(console)@.waiting_input, value)),
    ensures
        was == old(console)@.waiting_input,
        final(console)@ == (BasicConsoleView { waiting_input: value, ..old(console)@ }),
        final(writer)@ == print_spec(old(writer)@, waiting_input_text(was, value)),
        final(writer)@.wf(),
{
    let was_enabled = console.waiting_input;
    console.waiting_input = value;
    if value == true && was_enabled == false {
        // Start a new command line
        writer.write_string("> ");
    } else {
        assert(encode_utf8(Seq::<char>::empty()) =~= Seq::<u8>::empty());
    }
    was_enabled
}

/// What reading a line prints: a newline, then the complaint about an
/// empty command name or the echo of the command and its arguments.
pub open spec fn basic_read_line_text(line: Seq<char>) -> Seq<char> {
    "\n"@ + if line_command(line).len() == 0 {
        "Empty command is not allowed.\n"@
    } else {
        "Command: "@ + (line_command(line) + (" / Arguments: "@ + (debug_list_text(
            line_args(line),
        ) + "\n"@)))
    }
}

/// Reads a finished line: prints the newline and either the complaint
/// about an empty command name or the command with its arguments.
pub fn on_read_line(writer: &mut Writer, line: &Vec<char>)
    requires
        old(writer)@.wf(),
        can_print(old(writer)@, basic_read_line_text(line@)),
    ensures
        final(writer)@ == print_spec(old(writer)@, basic_read_line_text(line@)),
        final(writer)@.wf(),
{
    let ghost w0 = writer@;
    let ghost cmd = line_command(line@);
    let ghost rest: Seq<char> = if cmd.len() == 0 {
        "Empty command is not allowed.\n"@
    } else {
        "Command: "@ + (cmd + (" / Arguments: "@ + (debug_list_text(line_args(line@)) + "\n"@)))
    };
    proof {
        lemma_print_concat(w0, "\n"@, rest);
    }
    writer.write_string("\n");
    let pieces = split_spaces_exec(line);
    proof {
        lemma_split_spaces_nonempty(line@);
        assert(pieces@[0].deep_view() =~= pieces@[0]@);
    }
    let command = string_from_chars(&pieces[0]);
    if command.as_str().is_empty() {
        writer.write_string("Empty command is not allowed.\n");
        return ;
    }
    let args = strings_from(&pieces, 1);
    assert(args.deep_view() =~= line_args(line@));
    let args_text = format_debug_list(&args);
    proof {
        lemma_print_concat(writer@, "Command: "@, cmd + (" / Arguments: "@ + (args_text@ + "\n"@)));
    }
    writer.write_string("Command: ");
    proof {
        lemma_print_concat(writer@, cmd, " / Arguments: "@ + (args_text@ + "\n"@));
    }
    writer.write_string(command.as_str());
    proof {
        lemma_print_concat(writer@, " / Arguments: "@, args_text@ + "\n"@);
    }
    writer.write_string(" / Arguments: ");
    proof {
        lemma_print_concat(writer@, args_text@, "\n"@);
    }
    writer.write_string(args_text.as_str());
    writer.write_string("\n");
}

/// The console after a typed character.
pub open spec fn basic_unicode_console(c: BasicConsoleView, ch: char) -> BasicConsoleView {
    if !c.waiting_input {
        c
    } else if ch == '\n' {
        BasicConsoleView { stdin: Seq::empty(), ..c }
    } else if is_erase_char(ch) {
        if c.stdin.len() > 0 {
            BasicConsoleView { stdin: c.stdin.drop_last(), ..c }
        } else {
            c
        }
    } else {
        BasicConsoleView { stdin: c.stdin.push(ch), ..c }
    }
}

/// The screen after a typed character: Enter prints what reading the line
/// prints and then a new prompt.
pub open spec fn basic_unicode_writer(c: BasicConsoleView, w: WriterView, ch: char) -> WriterView {
    if !c.waiting_input {
        w
    } else if ch == '\n' {
        print_spec(w, basic_read_line_text(c.stdin) + input_prefix())
    } else if is_erase_char(ch) {
        if c.stdin.len() > 0 {
            erase_last_char_spec(w, 1)
        } else {
            w
        }
    } else {
        print_spec(w, seq![ch])
    }
}

pub open spec fn basic_unicode_fits(c: BasicConsoleView, w: WriterView, ch: char) -> bool {
    if !c.waiting_input {
        true
    } else if ch == '\n' {
        can_print(w, basic_read_line_text(c.stdin) + input_prefix())
    } else if is_erase_char(ch) {
        true
    } else {
        can_print(w, seq![ch])
    }
}

/// Handles a typed character while input is accepted: Enter reads the line
/// with input switched off and then prompts again, delete and backspace
/// remove the last character (erasing one column), any other character is
/// added to the line and echoed. Without input accepted nothing happens.
pub fn handle_unicode_press(console: &mut BasicConsole, writer: &mut Writer, c: char)
    requires
        old(writer)@.wf(),
        basic_unicode_fits(old(console)@, old(writer)@, c),
    ensures
        final(console)@ == basic_unicode_console(old(console)@, c),
        final(writer)@ == basic_unicode_writer(old(console)@, old(writer)@, c),
        final(writer)@.wf(),
{
    if is_waiting_input(console) {
        if c == '\n' {
            // ENTER: the line is read with input switched off
            assert(encode_utf8(Seq::<char>::empty()) =~= Seq::<u8>::empty());
            let was_enabled = set_waiting_input(console, writer, false);
            set_waiting_input(console, writer, false);
            let mut line: Vec<char> = Vec::new();
            std::mem::swap(&mut line, &mut console.stdin);
            proof {
                lemma_print_concat(writer@, basic_read_line_text(line@), input_prefix());
            }
            on_read_line(writer, &line);
            if was_enabled {
                set_waiting_input(console, writer, true);
            }
        } else if c == '\x7F' || c == '\x08' {
            // BACKSPACE: erase last character
            if console.stdin.len() > 0 {
                console.stdin.pop();
                writer.erase_last_char(1);
            }
        } else {
            console.stdin.push(c);
            let shown = char_to_string(c);
            writer.write_string(shown.as_str());
        }
    }
}

/// Whether handling the typed character now would print only inside the
/// row.
pub fn basic_unicode_press_fits(console: &BasicConsole, writer: &Writer, c: char) -> (r: bool)
    requires
        writer@.wf(),
    ensures
        r == basic_unicode_fits(console@, writer@, c),
{
    if !console.waiting_input {
        return true;
    }
    if c == '\x7F' || c == '\x08' {
        return true;
    }
    if c != '\n' {
        let shown = char_to_string(c);
        return writer.fits(shown.as_str());
    }
    let ghost line = console@.stdin;
    let ghost cmd = line_command(line);
    let ghost dbg = debug_list_text(line_args(line));
    let ghost c0 = Some(writer@.column);
    let pieces = split_spaces_exec(&console.stdin);
    proof {
        lemma_split_spaces_nonempty(line);
        assert(pieces@[0].deep_view() =~= pieces@[0]@);
    }
    let command = string_from_chars(&pieces[0]);
    let mut col = fits_then_exec(Some(writer.column_position()), "\n");
    let ghost a0 = col;
    if command.as_str().is_empty() {
        col = fits_then_exec(col, "Empty command is not allowed.\n");
    } else {
        let args = strings_from(&pieces, 1);
        assert(args.deep_view() =~= line_args(line));
        let args_text = format_debug_list(&args);
        col = fits_then_exec(col, "Command: ");
        let ghost a1 = col;
        col = fits_then_exec(col, command.as_str());
        let ghost a2 = col;
        col = fits_then_exec(col, " / Arguments: ");
        let ghost a3 = col;
        col = fits_then_exec(col, args_text.as_str());
        col = fits_then_exec(col, "\n");
        proof {
            lemma_fits_then_concat(opt_col(a3), dbg, "\n"@);
            lemma_fits_then_concat(opt_col(a2), " / Arguments: "@, dbg + "\n"@);
            lemma_fits_then_concat(opt_col(a1), cmd, " / Arguments: "@ + (dbg + "\n"@));
            lemma_fits_then_concat(opt_col(a0), "Command: "@, cmd + (" / Arguments: "@ + (dbg + "\n"@)));
        }
    }
    col = fits_then_exec(col, "> ");
    proof {
        let rest: Seq<char> = if cmd.len() == 0 {
            "Empty command is not allowed.\n"@
        } else {
            "Command: "@ + (cmd + (" / Arguments: "@ + (dbg + "\n"@)))
        };
        lemma_fits_then_concat(c0, "\n"@, rest);
        lemma_fits_then_concat(c0, basic_read_line_text(line), input_prefix());
    }
    col.is_some()
}

/// Handles a typed character when that prints only inside the row and
/// returns `true`; otherwise (where the screen would overflow) changes
/// nothing and returns `false`.
pub fn try_handle_unicode_press(console: &mut BasicConsole, writer: &mut Writer, c: char) -> (done:
    bool)
    requires
        old(writer)@.wf(),
    ensures
        done == basic_unicode_fits(old(console)@, old(writer)@, c),
        done ==> final(console)@ == basic_unicode_console(old(console)@, c) && final(writer)@
            == basic_unicode_writer(old(console)@, old(writer)@, c),
        !done ==> final(console)@ == old(console)@ && final(writer)@ == old(writer)@,
        final(writer)@.wf(),
{
    if !basic_unicode_press_fits(console, writer, c) {
        return false;
    }
    handle_unicode_press(console, writer, c);
    true
}

/// The console after a run of typed characters, in order.
pub open spec fn basic_presses(c: BasicConsoleView, chars: Seq<char>) -> BasicConsoleView
    decreases chars.len(),
{
    if chars.len() == 0 {
        c
    } else {
        basic_unicode_console(basic_presses(c, chars.drop_last()), chars.last())
    }
}

/// Once input is switched on (as `init` does), it stays on over any run of
/// typed characters: Enter, delete, backspace and other characters all keep
/// the switch.
pub proof fn lemma_input_stays_on(c: BasicConsoleView, chars: Seq<char>)
    requires
        c.waiting_input,
    ensures
        basic_presses(c, chars).waiting_input,
    decreases chars.len(),
{
    if chars.len() > 0 {
        lemma_input_stays_on(c, chars.drop_last());
    }
}


/// While input is on, delete or backspace on a line that is not empty
/// moves the cursor back by exactly one column (none at column 0): the old
/// cursor cell is blanked, the cursor is drawn one column to the left, and
/// the line loses its last character, so the screen keeps step with it.
pub proof fn lemma_basic_erase_moves_back_one(c: BasicConsoleView, w: WriterView, ch: char)
    requires
        w.wf(),
        c.waiting_input,
        is_erase_char(ch),
        c.stdin.len() > 0,
    ensures
        basic_unicode_console(c, ch).stdin == c.stdin.drop_last(),
        basic_unicode_writer(c, w, ch).column == column_back(w.column, 1),
        basic_unicode_writer(c, w, ch).cells[LAST_ROW_START + column_back(w.column, 1)]
            == cursor_char(),
        w.column > 0 ==> basic_unicode_writer(c, w, ch).cells[LAST_ROW_START + w.column]
            == blank_char(w.color),
        basic_unicode_writer(c, w, ch).wf(),
{
}

/// While input is on, typing a printable character and then erasing it
/// gives back the line and the cursor column it started from, and the
/// cell where the character was shown is blank again.
pub proof fn lemma_basic_type_then_erase(c: BasicConsoleView, w: WriterView, ch: char, erase: char)
    requires
        w.wf(),
        c.waiting_input,
        ' ' <= ch <= '~',
        w.column + 1 < BUFFER_WIDTH,
        is_erase_char(erase),
    ensures
        basic_unicode_console(basic_unicode_console(c, ch), erase) == c,
        basic_unicode_writer(
            basic_unicode_console(c, ch),
            basic_unicode_writer(c, w, ch),
            erase,
        ).column == w.column,
        basic_unicode_writer(
            basic_unicode_console(c, ch),
            basic_unicode_writer(c, w, ch),
            erase,
        ).cells[LAST_ROW_START + w.column] == cursor_char(),
        basic_unicode_writer(
            basic_unicode_console(c, ch),
            basic_unicode_writer(c, w, ch),
            erase,
        ).cells[LAST_ROW_START + w.column + 1] == blank_char(w.color),
{
    assert(c.stdin.push(ch).drop_last() =~= c.stdin);
    let text = seq![ch];
    assert(printable_ascii(text)) by {
        assert forall|i: int| 0 <= i < text.len() implies ' ' <= #[trigger] text[i] <= '~' by {
            assert(text[i] == ch);
        }
    }
    lemma_print_printable(w, text);
}

} // verus!
