use vstd::prelude::*;
use vstd::utf8::{encode_utf8, encode_utf8_decode_utf8};
use crate::kernel::console::{input_prefix, line_args, line_command, print_input_prefix, split_spaces};
use crate::kernel::task::command_line::{push_command, CommandQueue};
use crate::kernel::task::queue::{
    queue_after_push, queue_outcome, queue_warning, QueueOutcome, QueueView,
};
use crate::kernel::vga::{
    can_print, fits_then, fits_then_exec, lemma_fits_then_concat, lemma_print_concat, opt_col,
    print_spec, Writer, WriterView,
};

verus! {

/// Whether two strings hold the same characters.
pub fn str_eq(a: &str, b: &str) -> (r: bool)
    ensures
        r == (a@ == b@),
{
    let x = a.as_bytes();
    let y = b.as_bytes();
    proof {
        encode_utf8_decode_utf8(a@);
        encode_utf8_decode_utf8(b@);
    }
    if x.len() != y.len() {
        return false;
    }
    let mut i: usize = 0;
    while i < x.len()
        invariant
            x@ == encode_utf8(a@),
            y@ == encode_utf8(b@),
            x@.len() == y@.len(),
            i <= x@.len(),
            forall|j: int| 0 <= j < i ==> x@[j] == y@[j],
        decreases x@.len() - i,
    {
        if x[i] != y[i] {
            return false;
        }
        i = i + 1;
    }
    assert(x@ =~= y@);
    true
}

/// The arguments after the first, each preceded by a space.
pub open spec fn spaced(args: Seq<Seq<char>>) -> Seq<char>
    decreases args.len(),
{
    if args.len() == 0 {
        Seq::empty()
    } else {
        " "@ + (args[0] + spaced(args.drop_first()))
    }
}

/// `args.join(" ")`.
pub open spec fn join_spaces(args: Seq<Seq<char>>) -> Seq<char> {
    if args.len() == 0 {
        Seq::empty()
    } else {
        args[0] + spaced(args.drop_first())
    }
}

/// What a command leaves for the caller to do.
#[derive(Debug, PartialEq, Eq)]
pub enum CommandOutcome {
    /// The command ran and the prompt was printed; for `exec`, how
    /// enqueueing the nested command went.
    Done(Option<QueueOutcome>),
    /// `curtime`: the caller prints the real-time clock, then the prompt.
    ReadClock,
    /// `sleep`: the caller parses the seconds, sleeps, then prints the
    /// prompt.
    Sleep(String),
}

/// Everything `run_command` prints itself.
pub open spec fn command_text(
    command: Seq<char>,
    args: Seq<Seq<char>>,
    q: QueueView<(Seq<char>, Seq<Seq<char>>)>,
) -> Seq<char> {
    if command == "echo"@ {
        join_spaces(args) + ("\n"@ + input_prefix())
    } else if command == "curtime"@ || command == "sleep"@ {
        Seq::empty()
    } else if command == "exec"@ {
        queue_warning(queue_outcome(q)) + input_prefix()
    } else {
        "ERROR: Invalid command: "@ + (command + ("\n"@ + input_prefix()))
    }
}

/// The command queue after `run_command`: `exec` enqueues its first
/// argument as a command with the remaining arguments.
pub open spec fn command_queue_after(
    command: Seq<char>,
    args: Seq<Seq<char>>,
    q: QueueView<(Seq<char>, Seq<Seq<char>>)>,
) -> QueueView<(Seq<char>, Seq<Seq<char>>)> {
    if command == "exec"@ {
        queue_after_push(q, (args[0], args.drop_first()))
    } else {
        q
    }
}

/// The command needs an argument that is missing (`sleep` and `exec` stop
/// the kernel then).
pub open spec fn lacks_argument(command: Seq<char>, args: Seq<Seq<char>>) -> bool {
    (command == "sleep"@ || command == "exec"@) && args.len() == 0
}

fn print_spaced(writer: &mut Writer, args: &Vec<String>, from: usize, Ghost(tail): Ghost<Seq<char>>)
    requires
        old(writer)@.wf(),
        from <= args.len(),
        can_print(old(writer)@, spaced(args.deep_view().skip(from as int)) + tail),
    ensures
        final(writer)@.wf(),
        final(writer)@ == print_spec(old(writer)@, spaced(args.deep_view().skip(from as int))),
        can_print(final(writer)@, tail),
{
    let mut i = from;
    while i < args.len()
        invariant
            from <= i <= args.len(),
            writer@.wf(),
            can_print(writer@, spaced(args.deep_view().skip(i as int)) + tail),
            print_spec(writer@, spaced(args.deep_view().skip(i as int))) == print_spec(
                old(writer)@,
                spaced(args.deep_view().skip(from as int)),
            ),
        decreases args.len() - i,
    {
        let ghost rest = args.deep_view().skip(i as int);
        let ghost next = args.deep_view().skip(i as int + 1);
        proof {
            assert(rest.drop_first() =~= next);
            assert(rest[0] == args@[i as int]@);
            let item = rest[0];
            assert(spaced(rest) == " "@ + (item + spaced(next)));
            assert(spaced(rest) + tail =~= " "@ + (item + (spaced(next) + tail)));
            lemma_print_concat(writer@, " "@, item + (spaced(next) + tail));
            lemma_print_concat(writer@, " "@, item + spaced(next));
        }
        writer.write_string(" ");
        proof {
            let item = rest[0];
            lemma_print_concat(writer@, item, spaced(next) + tail);
            lemma_print_concat(writer@, item, spaced(next));
        }
        writer.write_string(args[i].as_str());
        i = i + 1;
    }
    proof {
        let rest = args.deep_view().skip(i as int);
        assert(rest =~= Seq::<Seq<char>>::empty());
        assert(spaced(rest) + tail =~= tail);
        assert(encode_utf8(Seq::<char>::empty()) =~= Seq::<u8>::empty());
    }
}

/// Whether what `run_command` would print now stays inside the row.
pub fn run_command_fits(
    commands: &CommandQueue,
    writer: &Writer,
    command: &str,
    args: &Vec<String>,
) -> (r: bool)
    requires
        writer@.wf(),
        commands@.wf(),
    ensures
        r == can_print(writer@, command_text(command@, args.deep_view(), commands@)),
{
    let ghost argv = args.deep_view();
    let ghost c0 = Some(writer@.column);
    let start = Some(writer.column_position());
    proof {
        reveal_strlit("echo");
        reveal_strlit("curtime");
        reveal_strlit("sleep");
        reveal_strlit("exec");
        assert("echo"@.len() == 4 && "exec"@.len() == 4 && "sleep"@.len() == 5 && "curtime"@.len() == 7);
        assert("echo"@[1] != "exec"@[1]);
    }
    if str_eq(command, "echo") {
        let ghost tail = "\n"@ + input_prefix();
        let mut col = start;
        if args.len() > 0 {
            col = fits_then_exec(col, args[0].as_str());
            let ghost first = col;
            let mut i: usize = 1;
            proof {
                assert(argv[0] == args@[0]@);
                assert(argv.drop_first() =~= argv.skip(1));
            }
            while i < args.len()
                invariant
                    1 <= i <= args.len(),
                    argv == args.deep_view(),
                    col.is_some() ==> col.unwrap() < 80,
                    fits_then(opt_col(col), spaced(argv.skip(i as int))) == fits_then(
                        opt_col(first),
                        spaced(argv.skip(1)),
                    ),
                decreases args.len() - i,
            {
                let ghost before = col;
                let ghost rest = argv.skip(i as int);
                let ghost next = argv.skip(i as int + 1);
                col = fits_then_exec(col, " ");
                let ghost mid = col;
                col = fits_then_exec(col, args[i].as_str());
                proof {
                    assert(rest.drop_first() =~= next);
                    assert(rest[0] == args@[i as int]@);
                    lemma_fits_then_concat(opt_col(mid), rest[0], spaced(next));
                    lemma_fits_then_concat(opt_col(before), " "@, rest[0] + spaced(next));
                }
                i = i + 1;
            }
            proof {
                assert(argv.skip(i as int) =~= Seq::<Seq<char>>::empty());
                assert(encode_utf8(Seq::<char>::empty()) =~= Seq::<u8>::empty());
                assert(fits_then(opt_col(col), Seq::<char>::empty()) == opt_col(col));
                lemma_fits_then_concat(c0, argv[0], spaced(argv.skip(1)));
                assert(join_spaces(argv) == argv[0] + spaced(argv.drop_first()));
            }
        } else {
            assert(encode_utf8(Seq::<char>::empty()) =~= Seq::<u8>::empty());
            assert(join_spaces(argv) =~= Seq::<char>::empty());
        }
        let ghost joined = col;
        col = fits_then_exec(col, "\n");
        col = fits_then_exec(col, "> ");
        proof {
            lemma_fits_then_concat(opt_col(joined), "\n"@, input_prefix());
            lemma_fits_then_concat(c0, join_spaces(argv), tail);
        }
        col.is_some()
    } else if str_eq(command, "curtime") || str_eq(command, "sleep") {
        assert(encode_utf8(Seq::<char>::empty()) =~= Seq::<u8>::empty());
        true
    } else if str_eq(command, "exec") {
        let ghost warn = queue_warning(queue_outcome(commands@));
        let mut col = start;
        match commands.outcome() {
            QueueOutcome::Queued => {
                assert(encode_utf8(Seq::<char>::empty()) =~= Seq::<u8>::empty());
                assert(fits_then(opt_col(col), warn) == opt_col(col));
            },
            QueueOutcome::QueueFull => {
                col = fits_then_exec(col, "WARNING: scancode queue full; dropping keyboard input\n");
            },
            QueueOutcome::Uninitialized => {
                col = fits_then_exec(col, "WARNING: scancode queue uninitialized\n");
            },
        }
        col = fits_then_exec(col, "> ");
        proof {
            lemma_fits_then_concat(c0, warn, input_prefix());
        }
        col.is_some()
    } else {
        let mut col = fits_then_exec(start, "ERROR: Invalid command: ");
        let ghost a1 = col;
        col = fits_then_exec(col, command);
        let ghost a2 = col;
        col = fits_then_exec(col, "\n");
        col = fits_then_exec(col, "> ");
        proof {
            lemma_fits_then_concat(opt_col(a2), "\n"@, input_prefix());
            lemma_fits_then_concat(opt_col(a1), command@, "\n"@ + input_prefix());
            lemma_fits_then_concat(c0, "ERROR: Invalid command: "@, command@ + ("\n"@ + input_prefix()));
        }
        col.is_some()
    }
}

/// Runs a command line read by the console: `echo` prints its arguments,
/// `exec` enqueues its arguments as a command, an unknown name is
/// reported; these end with the prompt. `curtime` and `sleep` are left to
/// the caller, which prints the prompt when done.
pub fn run_command(
    commands: &mut CommandQueue,
    writer: &mut Writer,
    command: &str,
    args: Vec<String>,
) -> (outcome: CommandOutcome)
    requires
        old(writer)@.wf(),
        old(commands)@.wf(),
        !lacks_argument(command@, args.deep_view()),
        can_print(old(writer)@, command_text(command@, args.deep_view(), old(commands)@)),
    ensures
        final(writer)@.wf(),
        final(commands)@.wf(),
        final(writer)@ == print_spec(
            old(writer)@,
            command_text(command@, args.deep_view(), old(commands)@),
        ),
        final(commands)@ == command_queue_after(command@, args.deep_view(), old(commands)@),
        command@ == "echo"@ ==> outcome == CommandOutcome::Done(None),
        command@ == "curtime"@ ==> outcome == CommandOutcome::ReadClock,
        command@ == "sleep"@ ==> (outcome matches CommandOutcome::Sleep(s) && s@ == args.deep_view()[0]),
        command@ == "exec"@ ==> outcome == CommandOutcome::Done(Some(queue_outcome(old(commands)@))),
        command@ != "echo"@ && command@ != "curtime"@ && command@ != "sleep"@ && command@ != "exec"@
            ==> outcome == CommandOutcome::Done(None),
{
    let ghost w0 = writer@;
    let ghost argv = args.deep_view();
    proof {
        reveal_strlit("echo");
        reveal_strlit("curtime");
        reveal_strlit("sleep");
        reveal_strlit("exec");
        assert("echo"@.len() == 4 && "exec"@.len() == 4 && "sleep"@.len() == 5 && "curtime"@.len() == 7);
        assert("echo"@[1] != "exec"@[1]);
        assert("echo"@ != "exec"@ && "echo"@ != "sleep"@ && "echo"@ != "curtime"@);
        assert("exec"@ != "sleep"@ && "exec"@ != "curtime"@ && "sleep"@ != "curtime"@);
    }
    if str_eq(command, "echo") {
        proof {
            lemma_print_concat(w0, join_spaces(argv), "\n"@ + input_prefix());
        }
        if args.len() > 0 {
            proof {
                assert(argv[0] == args@[0]@);
                assert(argv.drop_first() =~= argv.skip(1));
                lemma_print_concat(w0, argv[0], spaced(argv.skip(1)) + ("\n"@ + input_prefix()));
                lemma_print_concat(w0, argv[0], spaced(argv.skip(1)));
                assert(join_spaces(argv) + ("\n"@ + input_prefix()) =~= argv[0] + (spaced(
                    argv.skip(1),
                ) + ("\n"@ + input_prefix())));
            }
            writer.write_string(args[0].as_str());
            print_spaced(writer, &args, 1, Ghost("\n"@ + input_prefix()));
        } else {
            assert(encode_utf8(Seq::<char>::empty()) =~= Seq::<u8>::empty());
            assert(join_spaces(argv) + ("\n"@ + input_prefix()) =~= "\n"@ + input_prefix());
        }
        proof {
            lemma_print_concat(writer@, "\n"@, input_prefix());
        }
        writer.write_string("\n");
        print_input_prefix(writer);
        CommandOutcome::Done(None)
    } else if str_eq(command, "curtime") {
        assert(encode_utf8(Seq::<char>::empty()) =~= Seq::<u8>::empty());
        CommandOutcome::ReadClock
    } else if str_eq(command, "sleep") {
        assert(encode_utf8(Seq::<char>::empty()) =~= Seq::<u8>::empty());
        let seconds = args[0].clone();
        assert(argv[0] == args@[0]@);
        CommandOutcome::Sleep(seconds)
    } else if str_eq(command, "exec") {
        let mut rest = args;
        let first = rest.remove(0);
        proof {
            lemma_print_concat(w0, queue_warning(queue_outcome(commands@)), input_prefix());
            assert(rest.deep_view() =~= argv.drop_first());
            assert(first@ == argv[0]);
        }
        let queued = push_command(commands, writer, first.as_str(), rest);
        print_input_prefix(writer);
        CommandOutcome::Done(Some(queued))
    } else {
        proof {
            lemma_print_concat(w0, "ERROR: Invalid command: "@, command@ + ("\n"@ + input_prefix()));
        }
        writer.write_string("ERROR: Invalid command: ");
        proof {
            lemma_print_concat(writer@, command@, "\n"@ + input_prefix());
        }
        writer.write_string(command);
        proof {
            lemma_print_concat(writer@, "\n"@, input_prefix());
        }
        writer.write_string("\n");
        print_input_prefix(writer);
        CommandOutcome::Done(None)
    }
}

proof fn lemma_spaced_push(t: Seq<Seq<char>>, x: Seq<char>)
    ensures
        spaced(t.push(x)) == spaced(t) + (" "@ + x),
    decreases t.len(),
{
    if t.len() == 0 {
        assert(t.push(x).drop_first() =~= Seq::<Seq<char>>::empty());
        assert(spaced(Seq::<Seq<char>>::empty()) == Seq::<char>::empty());
        assert(spaced(t.push(x)) == " "@ + (x + Seq::<char>::empty()));
        assert(x + Seq::<char>::empty() =~= x);
        assert(spaced(t.push(x)) =~= " "@ + x);
        assert(spaced(t) + (" "@ + x) =~= " "@ + x);
    } else {
        assert(t.push(x).drop_first() =~= t.drop_first().push(x));
        lemma_spaced_push(t.drop_first(), x);
        assert(spaced(t.push(x)) =~= spaced(t) + (" "@ + x));
    }
}

proof fn lemma_spaced_extend_last(t: Seq<Seq<char>>, c: char)
    requires
        t.len() > 0,
    ensures
        spaced(t.update(t.len() - 1, t.last().push(c))) == spaced(t).push(c),
    decreases t.len(),
{
    let u = t.update(t.len() - 1, t.last().push(c));
    if t.len() == 1 {
        assert(u.drop_first() =~= Seq::<Seq<char>>::empty());
        assert(t.drop_first() =~= Seq::<Seq<char>>::empty());
        assert(spaced(Seq::<Seq<char>>::empty()) == Seq::<char>::empty());
        assert(u[0] == t[0].push(c));
        assert(spaced(u) == " "@ + (t[0].push(c) + Seq::<char>::empty()));
        assert(spaced(t) == " "@ + (t[0] + Seq::<char>::empty()));
        assert(spaced(u) =~= spaced(t).push(c));
    } else {
        let d = t.drop_first();
        assert(u.drop_first() =~= d.update(d.len() - 1, d.last().push(c)));
        lemma_spaced_extend_last(d, c);
        assert(spaced(u) =~= spaced(t).push(c));
    }
}

/// Joining the pieces of a line with single spaces gives back the line:
/// the command name and the arguments that the console enqueues lose
/// nothing of what was typed.
pub proof fn lemma_join_split(line: Seq<char>)
    ensures
        join_spaces(split_spaces(line)) == line,
        split_spaces(line).len() >= 1,
        join_spaces(seq![line_command(line)] + line_args(line)) == line,
    decreases line.len(),
{
    reveal_strlit(" ");
    if line.len() == 0 {
        assert(split_spaces(line).drop_first() =~= Seq::<Seq<char>>::empty());
        assert(join_spaces(split_spaces(line)) =~= line);
    } else {
        let pre = line.drop_last();
        lemma_join_split(pre);
        let s = split_spaces(pre);
        if line.last() == ' ' {
            let e = Seq::<char>::empty();
            assert(split_spaces(line) == s.push(e));
            assert(s.push(e).drop_first() =~= s.drop_first().push(e));
            assert(s.push(e)[0] == s[0]);
            lemma_spaced_push(s.drop_first(), e);
            assert(join_spaces(s) == pre);
            assert(join_spaces(s.push(e)) == s[0] + (spaced(s.drop_first()) + (" "@ + e)));
            assert(" "@ + e =~= seq![' ']);
            assert(line =~= pre + seq![' ']);
            assert(join_spaces(split_spaces(line)) =~= line);
        } else {
            let u = s.update(s.len() - 1, s.last().push(line.last()));
            if s.len() == 1 {
                assert(u.drop_first() =~= Seq::<Seq<char>>::empty());
                assert(s.drop_first() =~= Seq::<Seq<char>>::empty());
            } else {
                let d = s.drop_first();
                assert(u.drop_first() =~= d.update(d.len() - 1, d.last().push(line.last())));
                lemma_spaced_extend_last(d, line.last());
            }
            assert(split_spaces(line) == u);
            assert(join_spaces(s) == pre);
            assert(line =~= pre.push(line.last()));
            assert(join_spaces(split_spaces(line)) =~= line);
        }
    }
    assert(seq![line_command(line)] + line_args(line) =~= split_spaces(line));
}


/// `exec` with arguments `a0 a1 .. an`, on a set-up queue with room,
/// enqueues exactly one command behind those already waiting: `a0` with the
/// argument list `a1 .. an` in full and in order, so that the nested
/// command and its arguments together are the arguments of `exec`. Every
/// other command leaves the queue as it was.
pub proof fn lemma_exec_enqueues_rest(
    command: Seq<char>,
    args: Seq<Seq<char>>,
    q: QueueView<(Seq<char>, Seq<Seq<char>>)>,
)
    requires
        q.wf(),
        q.initialized,
        q.items.len() < q.capacity,
        command == "exec"@ ==> args.len() >= 1,
    ensures
        command != "exec"@ ==> command_queue_after(command, args, q) == q,
        command == "exec"@ ==> {
            let items = command_queue_after(command, args, q).items;
            &&& items.len() == q.items.len() + 1
            &&& forall|i: int| 0 <= i < q.items.len() ==> #[trigger] items[i] == q.items[i]
            &&& items.last().0 == args[0]
            &&& items.last().1.len() == args.len() - 1
            &&& forall|i: int|
                0 <= i < args.len() - 1 ==> #[trigger] items.last().1[i] == args[i + 1]
            &&& seq![items.last().0] + items.last().1 == args
        },
{
    if command == "exec"@ {
        assert(seq![args[0]] + args.drop_first() =~= args);
    }
}

} // verus!
