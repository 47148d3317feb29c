//! The line-editing console: typed characters are echoed and collected,
//! Enter hands the line to the command queue, the arrow keys walk the input
//! history.
use vstd::prelude::*;
use vstd::utf8::encode_utf8;
use crate::kernel::task::command_line::{push_command, CommandQueue};
use crate::kernel::task::queue::{
    queue_after_push, queue_outcome, queue_warning, QueueOutcome, QueueView,
};
use crate::kernel::vga::{
    blank_char, can_print, column_after, cursor_char, erase_last_char_spec, fits_then,
    fits_then_exec, lemma_fits_then_concat, lemma_print_concat, lemma_print_printable,
    lemma_write_bytes_column, opt_col, print_spec, printable_ascii, ScreenChar, Writer, WriterView,
    BUFFER_WIDTH, LAST_ROW_START,
};

pub mod command_line;

verus! {

/// The console's state: the line being typed, whether input is accepted,
/// the lines read so far and how far back the history has been walked.
pub struct Console {
    stdin: Vec<char>,
    waiting_input: bool,
    input_history: Vec<Vec<char>>,
    input_history_index: usize,
}

/// The abstract state of the console.
pub struct ConsoleView {
    pub stdin: Seq<char>,
    pub waiting_input: bool,
    pub history: Seq<Seq<char>>,
    pub history_index: int,
}

impl ConsoleView {
    pub open spec fn wf(self) -> bool {
        0 <= self.history_index <= self.history.len()
    }
}

impl View for Console {
    type V = ConsoleView;

    closed spec fn view(&self) -> ConsoleView {
        ConsoleView {
            stdin: self.stdin@,
            waiting_input: self.waiting_input,
            history: self.input_history.deep_view(),
            history_index: self.input_history_index as int,
        }
    }
}

/// The prompt printed before each command line.
pub open spec fn input_prefix() -> Seq<char> {
    "> "@
}

/// The line printed when the console starts.
pub open spec fn init_banner() -> Seq<char> {
    "[ CONSOLE ] Starting to load console...\n"@
}

/// What `set_waiting_input` prints: the prompt when input is switched on.
pub open spec fn waiting_input_text(was: bool, value: bool) -> Seq<char> {
    if value && !was {
        input_prefix()
    } else {
        Seq::empty()
    }
}

impl Console {
    /// A console with no input, not accepting input, with an empty history.
    pub fn new() -> (console: Console)
        ensures
            console@ == (ConsoleView {
                stdin: Seq::empty(),
                waiting_input: false,
                history: Seq::empty(),
                history_index: 0,
            }),
            console@.wf(),
    {
        let c = Console {
            stdin: Vec::new(),
            waiting_input: false,
            input_history: Vec::new(),
            input_history_index: 0,
        };
        assert(c.input_history.deep_view() =~= Seq::<Seq<char>>::empty());
        c
    }

    /// The line typed so far.
    pub fn stdin(&self) -> (s: &Vec<char>)
        ensures
            s@ == self@.stdin,
    {
        &self.stdin
    }

    /// Number of lines in the history.
    pub fn history_len(&self) -> (n: usize)
        ensures
            n == self@.history.len(),
    {
        self.input_history.len()
    }

    /// The `i`-th line read (oldest first).
    pub fn history_entry(&self, i: usize) -> (line: &Vec<char>)
        requires
            i < self@.history.len(),
        ensures
            line@ == self@.history[i as int],
    {
        &self.input_history[i]
    }

    /// How many steps back the history has been walked.
    pub fn history_index(&self) -> (i: usize)
        ensures
            i == self@.history_index,
    {
        self.input_history_index
    }
}

/// `String::from(char)`: a string holding just that character.
#[verifier::external_body]
pub(crate) fn char_to_string(c: char) -> (s: String)
    ensures
        s@ == seq![c],
{
    String::from(c)
}

/// `String::from_iter` over characters: a string holding them in order.
#[verifier::external_body]
pub(crate) fn string_from_chars(chars: &Vec<char>) -> (s: String)
    ensures
        s@ == chars@,
{
    String::from_iter(chars.iter())
}

/// Prints the banner and, when asked to, starts accepting input.
pub fn init(console: &mut Console, writer: &mut Writer, enable_input: bool)
    requires
        old(console)@.wf(),
        old(writer)@.wf(),
        can_print(
            old(writer)@,
            init_banner() + if enable_input {
                waiting_input_text(old(console)@.waiting_input, true)
            } else {
                Seq::empty()
            },
        ),
    ensures
        final(console)@ == (ConsoleView {
            waiting_input: old(console)@.waiting_input || enable_input,
            ..old(console)@
        }),
        final(writer)@ == print_spec(
            old(writer)@,
            init_banner() + if enable_input {
                waiting_input_text(old(console)@.waiting_input, true)
            } else {
                Seq::empty()
            },
        ),
        final(writer)@.wf(),
{
    let ghost rest = if enable_input {
        waiting_input_text(old(console)@.waiting_input, true)
    } else {
        Seq::empty()
    };
    proof {
        lemma_print_concat(old(writer)@, init_banner(), rest);
    }
    writer.write_string("[ CONSOLE ] Starting to load console...\n");
    if enable_input {
        set_waiting_input(console, writer, true);
    } else {
        assert(encode_utf8(Seq::<char>::empty()) =~= Seq::<u8>::empty());
    }
}

/// Whether `init` would print only inside the row.
pub fn init_fits(console: &Console, writer: &Writer, enable_input: bool) -> (r: bool)
    requires
        writer@.wf(),
    ensures
        r == can_print(
            writer@,
            init_banner() + if enable_input {
                waiting_input_text(console@.waiting_input, true)
            } else {
                Seq::empty()
            },
        ),
{
    let ghost rest = if enable_input {
        waiting_input_text(console@.waiting_input, true)
    } else {
        Seq::empty()
    };
    let mut col = fits_then_exec(Some(writer.column_position()), "[ CONSOLE ] Starting to load console...\n");
    if enable_input && !console.waiting_input {
        col = fits_then_exec(col, "> ");
    } else {
        assert(encode_utf8(Seq::<char>::empty()) =~= Seq::<u8>::empty());
        assert(fits_then(opt_col(col), rest) == opt_col(col));
    }
    proof {
        lemma_fits_then_concat(Some(writer@.column), init_banner(), rest);
    }
    col.is_some()
}

/// Whether typed characters are accepted.
pub fn is_waiting_input(console: &Console) -> (r: bool)
    ensures
        r == console@.waiting_input,
{
    console.waiting_input
}

/// Switches input on or off and returns the previous setting; switching it
/// on prints the prompt.
pub fn set_waiting_input(console: &mut Console, writer: &mut Writer, value: bool) -> (was: bool)
    requires
        old(writer)@.wf(),
        can_print(old(writer)@, waiting_input_text(old(console)@.waiting_input, value)),
    ensures
        was == old(console)@.waiting_input,
        final(console)@ == (ConsoleView { waiting_input: value, ..old(console)@ }),
        final(writer)@ == print_spec(old(writer)@, waiting_input_text(was, value)),
        final(writer)@.wf(),
{
    let was_enabled = console.waiting_input;
    console.waiting_input = value;
    if value == true && was_enabled == false {
        // Start a new command line
        print_input_prefix(writer);
    } else {
        assert(encode_utf8(Seq::<char>::empty()) =~= Seq::<u8>::empty());
    }
    was_enabled
}

/// Prints the prompt.
pub fn print_input_prefix(writer: &mut Writer)
    requires
        old(writer)@.wf(),
        can_print(old(writer)@, input_prefix()),
    ensures
        final(writer)@ == print_spec(old(writer)@, input_prefix()),
        final(writer)@.wf(),
{
    writer.write_string("> ");
}

/// The pieces of a line between single spaces, as `str::split(" ")` gives
/// them: there is always at least one piece, and neighbouring spaces give
/// empty pieces.
pub open spec fn split_spaces(line: Seq<char>) -> Seq<Seq<char>>
    decreases line.len(),
{
    if line.len() == 0 {
        seq![Seq::empty()]
    } else {
        let init = split_spaces(line.drop_last());
        if line.last() == ' ' {
            init.push(Seq::empty())
        } else {
            init.update(init.len() - 1, init.last().push(line.last()))
        }
    }
}

pub proof fn lemma_split_spaces_nonempty(line: Seq<char>)
    ensures
        split_spaces(line).len() >= 1,
    decreases line.len(),
{
    if line.len() > 0 {
        lemma_split_spaces_nonempty(line.drop_last());
    }
}

/// The command name of a line: its first piece.
pub open spec fn line_command(line: Seq<char>) -> Seq<char> {
    split_spaces(line)[0]
}

/// The arguments of a line: the pieces after the first.
pub open spec fn line_args(line: Seq<char>) -> Seq<Seq<char>> {
    split_spaces(line).drop_first()
}

/// What `{:?}` prints for a list of strings.
pub uninterp spec fn debug_list_text(items: Seq<Seq<char>>) -> Seq<char>;

/// `format!("{:?}", ..)` on a vector of strings (std's `Debug` for `Vec`
/// and `String`): the text is named by `debug_list_text` of the strings;
/// the escaping rules it follows are not written out here.
#[verifier::external_body]
pub(crate) fn format_debug_list(items: &Vec<String>) -> (text: String)
    ensures
        text@ == debug_list_text(items.deep_view()),
{
    format!("{:?}", items)
}

/// The line printed for a command read: name and arguments.
pub open spec fn command_echo(command: Seq<char>, args_text: Seq<char>) -> Seq<char> {
    "Command: "@ + (command + (" / Arguments: "@ + (args_text + "\n"@)))
}

/// Everything printed when a line is read: a newline, the complaint and a
/// new prompt when the command name is empty, the echo of the command and
/// the warning of the command queue, if any.
pub open spec fn read_line_text(line: Seq<char>, commands: QueueView<(Seq<char>, Seq<Seq<char>>)>) -> Seq<char> {
    "\n"@ + ((if line_command(line).len() == 0 {
        "Empty command is not allowed.\n"@ + input_prefix()
    } else {
        Seq::empty()
    }) + (command_echo(line_command(line), debug_list_text(line_args(line))) + queue_warning(
        queue_outcome(commands),
    )))
}

/// Splits a line at single spaces.
pub fn split_spaces_exec(line: &Vec<char>) -> (pieces: Vec<Vec<char>>)
    ensures
        pieces.deep_view() == split_spaces(line@),
{
    let mut pieces: Vec<Vec<char>> = Vec::new();
    let mut current: Vec<char> = Vec::new();
    let mut i: usize = 0;
    while i < line.len()
        invariant
            i <= line.len(),
            pieces.deep_view().push(current@) == split_spaces(line@.take(i as int)),
        decreases line.len() - i,
    {
        let c = line[i];
        proof {
            let pre = line@.take(i as int + 1);
            assert(pre.drop_last() =~= line@.take(i as int));
            assert(pre.last() == c);
        }
        let ghost before = pieces.deep_view();
        let ghost cur = current@;
        if c == ' ' {
            assert(current.deep_view() =~= current@);
            pieces.push(current);
            current = Vec::new();
            assert(pieces.deep_view() =~= before.push(cur));
            assert(pieces.deep_view().push(current@) =~= before.push(cur).push(Seq::empty()));
        } else {
            current.push(c);
            assert(before.push(cur).update(before.len() as int, cur.push(c)) =~= before.push(
                current@,
            ));
        }
        i = i + 1;
    }
    assert(line@.take(line@.len() as int) =~= line@);
    assert(current.deep_view() =~= current@);
    let ghost before = pieces.deep_view();
    pieces.push(current);
    assert(pieces.deep_view() =~= before.push(current@));
    pieces
}

/// The strings of pieces `from..` of a split line.
pub(crate) fn strings_from(pieces: &Vec<Vec<char>>, from: usize) -> (args: Vec<String>)
    requires
        from <= pieces.len(),
    ensures
        args.deep_view() == pieces.deep_view().subrange(from as int, pieces.len() as int),
{
    let mut args: Vec<String> = Vec::new();
    let mut i: usize = from;
    while i < pieces.len()
        invariant
            from <= i <= pieces.len(),
            args.deep_view() == pieces.deep_view().subrange(from as int, i as int),
        decreases pieces.len() - i,
    {
        let s = string_from_chars(&pieces[i]);
        let ghost before = args.deep_view();
        proof {
            assert(pieces@[i as int].deep_view() =~= pieces@[i as int]@);
        }
        args.push(s);
        assert(args.deep_view() =~= before.push(s@));
        assert(pieces.deep_view().subrange(from as int, i + 1) =~= before.push(s@));
        i = i + 1;
    }
    args
}

/// Reads a finished line: records it in the history, prints the newline,
/// complains (and prompts again) when the command name is empty, echoes the
/// command and its arguments and hands them to the command queue.
pub fn on_read_line(
    console: &mut Console,
    writer: &mut Writer,
    commands: &mut CommandQueue,
    line: &Vec<char>,
) -> (outcome: QueueOutcome)
    requires
        old(console)@.wf(),
        old(writer)@.wf(),
        old(commands)@.wf(),
        can_print(old(writer)@, read_line_text(line@, old(commands)@)),
    ensures
        final(console)@ == (ConsoleView {
            history: old(console)@.history.push(line@),
            ..old(console)@
        }),
        final(console)@.wf(),
        final(writer)@ == print_spec(old(writer)@, read_line_text(line@, old(commands)@)),
        final(writer)@.wf(),
        final(commands)@ == queue_after_push(
            old(commands)@,
            (line_command(line@), line_args(line@)),
        ),
        final(commands)@.wf(),
        outcome == queue_outcome(old(commands)@),
{
    let ghost w0 = writer@;
    let ghost cmd = line_command(line@);
    let ghost args_v = line_args(line@);
    let ghost empty_part: Seq<char> = if cmd.len() == 0 {
        "Empty command is not allowed.\n"@ + input_prefix()
    } else {
        Seq::empty()
    };
    let ghost echo = command_echo(cmd, debug_list_text(args_v));
    let ghost warn = queue_warning(queue_outcome(commands@));
    let ghost hist = console.input_history.deep_view();
    console.input_history.push(line.clone());
    proof {
        assert(console.input_history@[hist.len() as int].deep_view() =~= line@);
        assert(console.input_history.deep_view() =~= hist.push(line@));
        lemma_print_concat(w0, "\n"@, empty_part + (echo + warn));
    }
    writer.write_string("\n");
    let ghost w1 = writer@;
    proof {
        lemma_print_concat(w1, empty_part, echo + warn);
    }
    let pieces = split_spaces_exec(line);
    proof {
        lemma_split_spaces_nonempty(line@);
        assert(pieces@[0].deep_view() =~= pieces@[0]@);
    }
    let command = string_from_chars(&pieces[0]);
    if command.as_str().is_empty() {
        proof {
            lemma_print_concat(w1, "Empty command is not allowed.\n"@, input_prefix());
        }
        writer.write_string("Empty command is not allowed.\n");
        print_input_prefix(writer);
    } else {
        assert(encode_utf8(Seq::<char>::empty()) =~= Seq::<u8>::empty());
    }
    let ghost w2 = writer@;
    assert(w2 == print_spec(w1, empty_part));
    let args = strings_from(&pieces, 1);
    assert(args.deep_view() =~= args_v);
    let args_text = format_debug_list(&args);
    proof {
        lemma_print_concat(w2, echo, warn);
        lemma_print_concat(w2, "Command: "@, cmd + (" / Arguments: "@ + (args_text@ + "\n"@)));
    }
    writer.write_string("Command: ");
    proof {
        lemma_print_concat(writer@, cmd, " / Arguments: "@ + (args_text@ + "\n"@));
    }
    writer.write_string(command.as_str());
    proof {
        lemma_print_concat(writer@, " / Arguments: "@, args_text@ + "\n"@);
    }
    writer.write_string(" / Arguments: ");
    proof {
        lemma_print_concat(writer@, args_text@, "\n"@);
    }
    writer.write_string(args_text.as_str());
    writer.write_string("\n");
    push_command(commands, writer, command.as_str(), args)
}

/// Which way to walk the input history.
#[derive(Debug, Clone, Copy, PartialEq, Eq, Structural)]
pub enum SetHistoryDirection {
    /// Towards older lines.
    UP,
    /// Towards newer lines.
    DOWN,
}

/// The history position reached by a step, or `None` when the step is
/// refused: the history is empty, `UP` is already at the oldest line or
/// `DOWN` is already at the newest line (or has not started).
pub open spec fn history_target(c: ConsoleView, direction: SetHistoryDirection) -> Option<int> {
    if c.history.len() == 0 {
        None
    } else {
        match direction {
            SetHistoryDirection::DOWN => if c.history_index <= 1 {
                None
            } else {
                Some(c.history_index - 1)
            },
            SetHistoryDirection::UP => if c.history_index == c.history.len() {
                None
            } else {
                Some(c.history_index + 1)
            },
        }
    }
}

/// The line shown at history position `n`: the `n`-th newest line.
pub open spec fn history_line(c: ConsoleView, n: int) -> Seq<char> {
    c.history[c.history.len() - n]
}

/// The console after a history step.
pub open spec fn history_console(c: ConsoleView, direction: SetHistoryDirection) -> ConsoleView {
    match history_target(c, direction) {
        Some(n) => ConsoleView { stdin: history_line(c, n), history_index: n, ..c },
        None => c,
    }
}

/// The length in bytes of the UTF-8 form of the typed line, as `str::len`
/// reports it.
pub open spec fn typed_width(stdin: Seq<char>) -> int {
    (encode_utf8(stdin).len() as usize) as int
}

/// The screen after a history step: the typed line is erased (one column
/// per byte of its UTF-8 form) and the history line is printed.
pub open spec fn history_writer(
    c: ConsoleView,
    w: WriterView,
    direction: SetHistoryDirection,
) -> WriterView {
    match history_target(c, direction) {
        Some(n) => print_spec(
            erase_last_char_spec(w, typed_width(c.stdin)),
            history_line(c, n),
        ),
        None => w,
    }
}

/// The history step does not write past the last column.
pub open spec fn history_fits(
    c: ConsoleView,
    w: WriterView,
    direction: SetHistoryDirection,
) -> bool {
    match history_target(c, direction) {
        Some(n) => can_print(
            erase_last_char_spec(w, typed_width(c.stdin)),
            history_line(c, n),
        ),
        None => true,
    }
}

/// Replaces the typed line with the previous or next line of the history.
pub fn set_history_input(console: &mut Console, writer: &mut Writer, direction: SetHistoryDirection)
    requires
        old(console)@.wf(),
        old(writer)@.wf(),
        history_fits(old(console)@, old(writer)@, direction),
    ensures
        final(console)@ == history_console(old(console)@, direction),
        final(console)@.wf(),
        final(writer)@ == history_writer(old(console)@, old(writer)@, direction),
        final(writer)@.wf(),
{
    let len = console.input_history.len();
    if len == 0 {
        return ;
    }
    let mut index = console.input_history_index;
    match direction {
        SetHistoryDirection::DOWN => {
            if console.input_history_index <= 1 {
                return ;
            }
            index = index - 1;
        },
        SetHistoryDirection::UP => {
            if console.input_history_index == len {
                return ;
            }
            index = index + 1;
        },
    }
    let item = console.input_history[len - index].clone();
    proof {
        assert(console.input_history@[len - index].deep_view() =~= console.input_history@[len
            - index]@);
        assert(item@ =~= console.input_history@[len - index]@);
    }
    let ghost n = index as int;
    assert(history_target(old(console)@, direction) == Some(n));
    let typed = string_from_chars(&console.stdin);
    let typed_len = typed.as_str().len();
    writer.erase_last_char(typed_len);
    assert(item@ == history_line(old(console)@, n));
    console.stdin.clear();
    console.stdin = item;
    console.input_history_index = index;
    let shown = string_from_chars(&console.stdin);
    writer.write_string(shown.as_str());
}

/// A key without a character, as the console sees it: the two arrows that
/// walk the history, or any other key by its printed name.
pub enum RawKey {
    ArrowUp,
    ArrowDown,
    Other(String),
}

/// The console after a key without a character.
pub open spec fn raw_key_console(c: ConsoleView, key: RawKey) -> ConsoleView {
    match key {
        RawKey::ArrowUp => history_console(c, SetHistoryDirection::UP),
        RawKey::ArrowDown => history_console(c, SetHistoryDirection::DOWN),
        RawKey::Other(_) => c,
    }
}

/// The screen after a key without a character: other keys print their
/// name.
pub open spec fn raw_key_writer(c: ConsoleView, w: WriterView, key: RawKey) -> WriterView {
    match key {
        RawKey::ArrowUp => history_writer(c, w, SetHistoryDirection::UP),
        RawKey::ArrowDown => history_writer(c, w, SetHistoryDirection::DOWN),
        RawKey::Other(name) => print_spec(w, name@),
    }
}

pub open spec fn raw_key_fits(c: ConsoleView, w: WriterView, key: RawKey) -> bool {
    match key {
        RawKey::ArrowUp => history_fits(c, w, SetHistoryDirection::UP),
        RawKey::ArrowDown => history_fits(c, w, SetHistoryDirection::DOWN),
        RawKey::Other(name) => can_print(w, name@),
    }
}

/// Handles a key without a character: the up and down arrows walk the
/// history, any other key has its name printed.
pub fn handle_raw_press(console: &mut Console, writer: &mut Writer, key: &RawKey)
    requires
        old(console)@.wf(),
        old(writer)@.wf(),
        raw_key_fits(old(console)@, old(writer)@, *key),
    ensures
        final(console)@ == raw_key_console(old(console)@, *key),
        final(console)@.wf(),
        final(writer)@ == raw_key_writer(old(console)@, old(writer)@, *key),
        final(writer)@.wf(),
{
    match key {
        RawKey::ArrowUp => set_history_input(console, writer, SetHistoryDirection::UP),
        RawKey::ArrowDown => set_history_input(console, writer, SetHistoryDirection::DOWN),
        RawKey::Other(name) => writer.write_string(name.as_str()),
    }
}

/// Delete and backspace.
pub open spec fn is_erase_char(c: char) -> bool {
    c == '\x7F' || c == '\x08'
}

/// The console after a typed character.
pub open spec fn unicode_console(c: ConsoleView, ch: char) -> ConsoleView {
    if ch == '\n' {
        ConsoleView { stdin: Seq::empty(), history: c.history.push(c.stdin), ..c }
    } else if is_erase_char(ch) {
        if c.stdin.len() > 0 {
            ConsoleView { stdin: c.stdin.drop_last(), ..c }
        } else {
            c
        }
    } else {
        ConsoleView { stdin: c.stdin.push(ch), ..c }
    }
}

/// The screen after a typed character.
pub open spec fn unicode_writer(
    c: ConsoleView,
    w: WriterView,
    q: QueueView<(Seq<char>, Seq<Seq<char>>)>,
    ch: char,
) -> WriterView {
    if ch == '\n' {
        print_spec(w, read_line_text(c.stdin, q))
    } else if is_erase_char(ch) {
        if c.stdin.len() > 0 {
            erase_last_char_spec(w, 1)
        } else {
            w
        }
    } else {
        print_spec(w, seq![ch])
    }
}

/// The command queue after a typed character.
pub open spec fn unicode_commands(
    c: ConsoleView,
    q: QueueView<(Seq<char>, Seq<Seq<char>>)>,
    ch: char,
) -> QueueView<(Seq<char>, Seq<Seq<char>>)> {
    if ch == '\n' {
        queue_after_push(q, (line_command(c.stdin), line_args(c.stdin)))
    } else {
        q
    }
}

pub open spec fn unicode_fits(
    c: ConsoleView,
    w: WriterView,
    q: QueueView<(Seq<char>, Seq<Seq<char>>)>,
    ch: char,
) -> bool {
    if ch == '\n' {
        can_print(w, read_line_text(c.stdin, q))
    } else if is_erase_char(ch) {
        true
    } else {
        can_print(w, seq![ch])
    }
}

/// Handles a typed character: Enter reads the line and starts a new one,
/// delete and backspace remove the last character (erasing one column),
/// any other character is added to the line and echoed.
pub fn handle_unicode_press(
    console: &mut Console,
    writer: &mut Writer,
    commands: &mut CommandQueue,
    c: char,
) -> (outcome: Option<QueueOutcome>)
    requires
        old(console)@.wf(),
        old(writer)@.wf(),
        old(commands)@.wf(),
        unicode_fits(old(console)@, old(writer)@, old(commands)@, c),
    ensures
        final(console)@ == unicode_console(old(console)@, c),
        final(console)@.wf(),
        final(writer)@ == unicode_writer(old(console)@, old(writer)@, old(commands)@, c),
        final(writer)@.wf(),
        final(commands)@ == unicode_commands(old(console)@, old(commands)@, c),
        final(commands)@.wf(),
        outcome == if c == '\n' {
            Some(queue_outcome(old(commands)@))
        } else {
            None
        },
{
    match c {
        '\n' => {
            // ENTER
            let mut line: Vec<char> = Vec::new();
            std::mem::swap(&mut line, &mut console.stdin);
            Some(on_read_line(console, writer, commands, &line))
        },
        '\x7F' | '\x08' => {
            // BACKSPACE: erase last character
            if console.stdin.len() > 0 {
                console.stdin.pop();
                writer.erase_last_char(1);
            }
            None
        },
        _ => {
            console.stdin.push(c);
            let shown = char_to_string(c);
            writer.write_string(shown.as_str());
            None
        },
    }
}

/// Whether reading the typed line now would print only inside the row.
pub fn read_line_fits(console: &Console, writer: &Writer, commands: &CommandQueue) -> (r: bool)
    requires
        console@.wf(),
        writer@.wf(),
        commands@.wf(),
    ensures
        r == can_print(writer@, read_line_text(console@.stdin, commands@)),
{
    let ghost line = console@.stdin;
    let ghost cmd = line_command(line);
    let ghost dbg = debug_list_text(line_args(line));
    let ghost warn = queue_warning(queue_outcome(commands@));
    let pieces = split_spaces_exec(&console.stdin);
    proof {
        lemma_split_spaces_nonempty(line);
        assert(pieces@[0].deep_view() =~= pieces@[0]@);
    }
    let command = string_from_chars(&pieces[0]);
    let args = strings_from(&pieces, 1);
    assert(args.deep_view() =~= line_args(line));
    let args_text = format_debug_list(&args);
    let outcome = commands.outcome();
    let ghost c0 = Some(writer@.column);
    let ghost empty_part: Seq<char> = if cmd.len() == 0 {
        "Empty command is not allowed.\n"@ + input_prefix()
    } else {
        Seq::empty()
    };
    let mut col = fits_then_exec(Some(writer.column_position()), "\n");
    let ghost after_newline = col;
    if command.as_str().is_empty() {
        col = fits_then_exec(col, "Empty command is not allowed.\n");
        col = fits_then_exec(col, "> ");
        proof {
            lemma_fits_then_concat(opt_col(after_newline), "Empty command is not allowed.\n"@, input_prefix());
        }
    } else {
        assert(encode_utf8(Seq::<char>::empty()) =~= Seq::<u8>::empty());
        assert(fits_then(opt_col(col), empty_part) == opt_col(col));
    }
    let ghost after_empty = col;
    col = fits_then_exec(col, "Command: ");
    let ghost a1 = col;
    col = fits_then_exec(col, command.as_str());
    let ghost a2 = col;
    col = fits_then_exec(col, " / Arguments: ");
    let ghost a3 = col;
    col = fits_then_exec(col, args_text.as_str());
    col = fits_then_exec(col, "\n");
    match outcome {
        QueueOutcome::Queued => {
            assert(encode_utf8(Seq::<char>::empty()) =~= Seq::<u8>::empty());
            assert(fits_then(opt_col(col), warn) == opt_col(col));
        },
        QueueOutcome::QueueFull => {
            col = fits_then_exec(col, "WARNING: scancode queue full; dropping keyboard input\n");
        },
        QueueOutcome::Uninitialized => {
            col = fits_then_exec(col, "WARNING: scancode queue uninitialized\n");
        },
    }
    proof {
        let echo = command_echo(cmd, dbg);
        lemma_fits_then_concat(opt_col(a3), dbg, "\n"@);
        lemma_fits_then_concat(opt_col(a2), " / Arguments: "@, dbg + "\n"@);
        lemma_fits_then_concat(opt_col(a1), cmd, " / Arguments: "@ + (dbg + "\n"@));
        lemma_fits_then_concat(opt_col(after_empty), "Command: "@, cmd + (" / Arguments: "@ + (dbg + "\n"@)));
        lemma_fits_then_concat(opt_col(after_empty), echo, warn);
        lemma_fits_then_concat(opt_col(after_newline), empty_part, echo + warn);
        lemma_fits_then_concat(c0, "\n"@, empty_part + (echo + warn));
    }
    col.is_some()
}

/// Whether handling the typed character now would print only inside the
/// row.
pub fn unicode_press_fits(
    console: &Console,
    writer: &Writer,
    commands: &CommandQueue,
    c: char,
) -> (r: bool)
    requires
        console@.wf(),
        writer@.wf(),
        commands@.wf(),
    ensures
        r == unicode_fits(console@, writer@, commands@, c),
{
    match c {
        '\n' => read_line_fits(console, writer, commands),
        '\x7F' | '\x08' => true,
        _ => {
            let shown = char_to_string(c);
            writer.fits(shown.as_str())
        },
    }
}

/// Whether the history step now would print only inside the row.
pub fn history_input_fits(console: &Console, writer: &Writer, direction: SetHistoryDirection) -> (r:
    bool)
    requires
        console@.wf(),
        writer@.wf(),
    ensures
        r == history_fits(console@, writer@, direction),
{
    let len = console.input_history.len();
    if len == 0 {
        return true;
    }
    let mut index = console.input_history_index;
    match direction {
        SetHistoryDirection::DOWN => {
            if console.input_history_index <= 1 {
                return true;
            }
            index = index - 1;
        },
        SetHistoryDirection::UP => {
            if console.input_history_index == len {
                return true;
            }
            index = index + 1;
        },
    }
    proof {
        assert(console.input_history@[len - index].deep_view() =~= console.input_history@[len
            - index]@);
    }
    let item = string_from_chars(&console.input_history[len - index]);
    let typed = string_from_chars(&console.stdin);
    let width = typed.as_str().len();
    let col = writer.column_position();
    let erased = if width > col {
        col
    } else {
        width
    };
    fits_then_exec(Some(col - erased), item.as_str()).is_some()
}

/// Whether handling the key now would print only inside the row.
pub fn raw_press_fits(console: &Console, writer: &Writer, key: &RawKey) -> (r: bool)
    requires
        console@.wf(),
        writer@.wf(),
    ensures
        r == raw_key_fits(console@, writer@, *key),
{
    match key {
        RawKey::ArrowUp => history_input_fits(console, writer, SetHistoryDirection::UP),
        RawKey::ArrowDown => history_input_fits(console, writer, SetHistoryDirection::DOWN),
        RawKey::Other(name) => writer.fits(name.as_str()),
    }
}

/// A decoded key press: a character, or a key without one.
pub enum KeyInput {
    Unicode(char),
    Raw(RawKey),
}

/// The console after a key press.
pub open spec fn key_console(c: ConsoleView, key: KeyInput) -> ConsoleView {
    match key {
        KeyInput::Unicode(ch) => unicode_console(c, ch),
        KeyInput::Raw(k) => raw_key_console(c, k),
    }
}

/// The screen after a key press.
pub open spec fn key_writer(
    c: ConsoleView,
    w: WriterView,
    q: QueueView<(Seq<char>, Seq<Seq<char>>)>,
    key: KeyInput,
) -> WriterView {
    match key {
        KeyInput::Unicode(ch) => unicode_writer(c, w, q, ch),
        KeyInput::Raw(k) => raw_key_writer(c, w, k),
    }
}

/// The command queue after a key press.
pub open spec fn key_commands(
    c: ConsoleView,
    q: QueueView<(Seq<char>, Seq<Seq<char>>)>,
    key: KeyInput,
) -> QueueView<(Seq<char>, Seq<Seq<char>>)> {
    match key {
        KeyInput::Unicode(ch) => unicode_commands(c, q, ch),
        KeyInput::Raw(_) => q,
    }
}

/// Handling the key press prints only inside the row.
pub open spec fn key_fits(
    c: ConsoleView,
    w: WriterView,
    q: QueueView<(Seq<char>, Seq<Seq<char>>)>,
    key: KeyInput,
) -> bool {
    match key {
        KeyInput::Unicode(ch) => unicode_fits(c, w, q, ch),
        KeyInput::Raw(k) => raw_key_fits(c, w, k),
    }
}

/// The outcome of enqueueing a command that a key press produced: only
/// Enter produces one.
pub open spec fn key_queue_outcome(
    q: QueueView<(Seq<char>, Seq<Seq<char>>)>,
    key: KeyInput,
) -> Option<QueueOutcome> {
    match key {
        KeyInput::Unicode(ch) => if ch == '\n' {
            Some(queue_outcome(q))
        } else {
            None
        },
        KeyInput::Raw(_) => None,
    }
}

/// Whether handling the key press now would print only inside the row.
pub fn key_press_fits(
    console: &Console,
    writer: &Writer,
    commands: &CommandQueue,
    key: &KeyInput,
) -> (r: bool)
    requires
        console@.wf(),
        writer@.wf(),
        commands@.wf(),
    ensures
        r == key_fits(console@, writer@, commands@, *key),
{
    match key {
        KeyInput::Unicode(c) => unicode_press_fits(console, writer, commands, *c),
        KeyInput::Raw(k) => raw_press_fits(console, writer, k),
    }
}

/// Handles a key press: characters go to `handle_unicode_press`, other keys
/// to `handle_raw_press`. Returns how enqueueing a read line went.
pub fn handle_key_press(
    console: &mut Console,
    writer: &mut Writer,
    commands: &mut CommandQueue,
    key: &KeyInput,
) -> (outcome: Option<QueueOutcome>)
    requires
        old(console)@.wf(),
        old(writer)@.wf(),
        old(commands)@.wf(),
        key_fits(old(console)@, old(writer)@, old(commands)@, *key),
    ensures
        final(console)@ == key_console(old(console)@, *key),
        final(console)@.wf(),
        final(writer)@ == key_writer(old(console)@, old(writer)@, old(commands)@, *key),
        final(writer)@.wf(),
        final(commands)@ == key_commands(old(console)@, old(commands)@, *key),
        final(commands)@.wf(),
        outcome == key_queue_outcome(old(commands)@, *key),
{
    match key {
        KeyInput::Unicode(c) => handle_unicode_press(console, writer, commands, *c),
        KeyInput::Raw(k) => {
            handle_raw_press(console, writer, k);
            None
        },
    }
}

/// Delete or backspace right after typing a character (other than Enter,
/// delete or backspace) gives back the console as it was.
pub proof fn lemma_erase_undoes_typing(c: ConsoleView, ch: char, erase: char)
    requires
        ch != '\n',
        !is_erase_char(ch),
        is_erase_char(erase),
    ensures
        unicode_console(unicode_console(c, ch), erase) == c,
{
    assert(c.stdin.push(ch).drop_last() =~= c.stdin);
}

/// Enter records the typed line at the end of the history and starts an
/// empty line; the history position is kept.
pub proof fn lemma_enter_records_line(c: ConsoleView)
    ensures
        unicode_console(c, '\n').history.last() == c.stdin,
        unicode_console(c, '\n').history.drop_last() == c.history,
        unicode_console(c, '\n').stdin.len() == 0,
        unicode_console(c, '\n').history_index == c.history_index,
        c.wf() ==> unicode_console(c, '\n').wf(),
{
    assert(c.history.push(c.stdin).drop_last() =~= c.history);
}

/// Walking the history up and then down comes back to the same position
/// and shows the line kept there, unless the walk had not started.
pub proof fn lemma_history_up_down(c: ConsoleView)
    requires
        c.wf(),
        1 <= c.history_index < c.history.len(),
    ensures
        history_console(history_console(c, SetHistoryDirection::UP), SetHistoryDirection::DOWN)
            == (ConsoleView { stdin: history_line(c, c.history_index), ..c }),
{
}

/// Every history step keeps the position between 0 and the number of lines
/// read, and shows a line that was read.
pub proof fn lemma_history_step_in_range(c: ConsoleView, direction: SetHistoryDirection)
    requires
        c.wf(),
    ensures
        history_console(c, direction).wf(),
        history_console(c, direction).history == c.history,
        history_target(c, direction) is Some ==> c.history.contains(
            history_console(c, direction).stdin,
        ),
{
    if let Some(n) = history_target(c, direction) {
        assert(c.history[c.history.len() - n] == history_console(c, direction).stdin);
    }
}

/// Switching input back to its previous setting restores the console.
pub proof fn lemma_waiting_input_restore(c: ConsoleView, value: bool)
    ensures
        (ConsoleView {
            waiting_input: c.waiting_input,
            ..(ConsoleView { waiting_input: value, ..c })
        }) == c,
{
}


/// The column left after moving back over `size` columns from `col`,
/// stopping at column 0.
pub open spec fn column_back(col: int, size: int) -> int {
    if size > col {
        0
    } else {
        col - size
    }
}

/// A history step that is taken erases exactly the typed line (one column
/// per byte of it, stopping at column 0), whatever line is recalled, and
/// prints the recalled line from there: the cursor ends where printing the
/// recalled line from that column leaves it. A short printable ASCII line
/// is shown cell by cell from that column, with the cursor right after it.
pub proof fn lemma_history_step_replaces_typed_line(
    c: ConsoleView,
    w: WriterView,
    direction: SetHistoryDirection,
)
    requires
        c.wf(),
        w.wf(),
        history_target(c, direction) is Some,
    ensures
        history_writer(c, w, direction).column == column_after(
            column_back(w.column, typed_width(c.stdin)),
            encode_utf8(history_console(c, direction).stdin),
        ),
        printable_ascii(history_console(c, direction).stdin) && column_back(
            w.column,
            typed_width(c.stdin),
        ) + history_console(c, direction).stdin.len() < BUFFER_WIDTH ==> {
            let start = column_back(w.column, typed_width(c.stdin));
            let line = history_console(c, direction).stdin;
            &&& history_writer(c, w, direction).column == start + line.len()
            &&& forall|i: int|
                0 <= i < line.len() ==> #[trigger] history_writer(c, w, direction).cells[LAST_ROW_START
                    + start + i] == (ScreenChar { ascii_character: line[i] as u8, color_code: w.color })
            &&& history_writer(c, w, direction).cells[LAST_ROW_START + start + line.len()]
                == cursor_char()
        },
{
    let n = history_target(c, direction)->Some_0;
    let e = erase_last_char_spec(w, typed_width(c.stdin));
    let line = history_line(c, n);
    assert(e.column == column_back(w.column, typed_width(c.stdin)));
    lemma_write_bytes_column(e, encode_utf8(line));
    if printable_ascii(line) && e.column + line.len() < BUFFER_WIDTH {
        lemma_print_printable(e, line);
    }
}

/// Delete or backspace on a line that is not empty moves the cursor back
/// by exactly one column (none at column 0): the old cursor cell is
/// blanked, the cursor is drawn one column to the left, and the line loses
/// its last character, so the screen keeps step with the line.
pub proof fn lemma_erase_moves_back_one(
    c: ConsoleView,
    w: WriterView,
    q: QueueView<(Seq<char>, Seq<Seq<char>>)>,
    ch: char,
)
    requires
        w.wf(),
        is_erase_char(ch),
        c.stdin.len() > 0,
    ensures
        unicode_console(c, ch).stdin == c.stdin.drop_last(),
        unicode_writer(c, w, q, ch).column == column_back(w.column, 1),
        unicode_writer(c, w, q, ch).cells[LAST_ROW_START + column_back(w.column, 1)]
            == cursor_char(),
        w.column > 0 ==> unicode_writer(c, w, q, ch).cells[LAST_ROW_START + w.column] == blank_char(
            w.color,
        ),
        unicode_writer(c, w, q, ch).wf(),
{
}


/// Typing a printable character and then erasing it gives back the cursor
/// column it started from, with the cursor drawn there and the cell where
/// the character was shown blank again.
pub proof fn lemma_type_then_erase_screen(
    c: ConsoleView,
    w: WriterView,
    q: QueueView<(Seq<char>, Seq<Seq<char>>)>,
    ch: char,
    erase: char,
)
    requires
        w.wf(),
        ' ' <= ch <= '~',
        w.column + 1 < BUFFER_WIDTH,
        is_erase_char(erase),
    ensures
        unicode_writer(unicode_console(c, ch), unicode_writer(c, w, q, ch), q, erase).column
            == w.column,
        unicode_writer(unicode_console(c, ch), unicode_writer(c, w, q, ch), q, erase).cells[LAST_ROW_START
            + w.column] == cursor_char(),
        unicode_writer(unicode_console(c, ch), unicode_writer(c, w, q, ch), q, erase).cells[LAST_ROW_START
            + w.column + 1] == blank_char(w.color),
{
    let text = seq![ch];
    assert(printable_ascii(text)) by {
        assert forall|i: int| 0 <= i < text.len() implies ' ' <= #[trigger] text[i] <= '~' by {
            assert(text[i] == ch);
        }
    }
    lemma_print_printable(w, text);
}

} // verus!
