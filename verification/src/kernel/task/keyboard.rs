use crossbeam_queue::ArrayQueue;
use pc_keyboard::layouts::Us104Key;
use pc_keyboard::{DecodedKey, HandleControl, KeyCode, KeyEvent, Keyboard, ScancodeSet1};
use vstd::prelude::*;
use vstd::utf8::encode_utf8;
use crate::kernel::task::queue::{
    queue_after_pop, queue_after_push, queue_outcome, queue_warning, scancode_queue_capacity, scancode_queue_items,
    scancode_queue_is_full, scancode_queue_new, scancode_queue_pop, scancode_queue_push, QueueOutcome, QueueView,
};
use crate::kernel::console::{
    handle_key_press, key_commands, key_console, key_fits, key_press_fits, key_queue_outcome,
    key_writer, Console, KeyInput, RawKey,
};
use crate::kernel::task::command_line::CommandQueue;
use crate::kernel::vga::{can_print, print_spec, Writer};

verus! {

/// Capacity of the scancode queue.
pub const SCANCODE_QUEUE_CAPACITY: usize = 100;

/// The queue of raw scancodes filled by the keyboard interrupt handler; it
/// stays unset until the scancode stream is created.
pub struct ScancodeQueue {
    queue: Option<ArrayQueue<u8>>,
}

impl View for ScancodeQueue {
    type V = QueueView<u8>;

    closed spec fn view(&self) -> QueueView<u8> {
        match self.queue {
            Some(q) => QueueView {
                initialized: true,
                items: scancode_queue_items(q),
                capacity: scancode_queue_capacity(q),
            },
            None => QueueView { initialized: false, items: Seq::empty(), capacity: 0 },
        }
    }
}

impl ScancodeQueue {
    /// A queue that has not been set up.
    pub fn uninit() -> (q: ScancodeQueue)
        ensures
            !q@.initialized,
            q@.wf(),
    {
        ScancodeQueue { queue: None }
    }

    /// Whether the queue has been set up.
    pub fn is_initialized(&self) -> (r: bool)
        ensures
            r == self@.initialized,
    {
        self.queue.is_some()
    }

    /// What enqueueing a scancode now would come to.
    pub fn outcome(&self) -> (r: QueueOutcome)
        requires
            self@.wf(),
        ensures
            r == queue_outcome(self@),
    {
        match &self.queue {
            Some(q) => if scancode_queue_is_full(q) {
                QueueOutcome::QueueFull
            } else {
                QueueOutcome::Queued
            },
            None => QueueOutcome::Uninitialized,
        }
    }

    /// Takes the oldest scancode; `None` when the queue is empty.
    pub fn pop(&mut self) -> (r: Option<u8>)
        requires
            old(self)@.initialized,
            old(self)@.wf(),
        ensures
            final(self)@.wf(),
            final(self)@.initialized,
            final(self)@.capacity == old(self)@.capacity,
            (r, final(self)@) == queue_after_pop(old(self)@),
    {
        match &mut self.queue {
            Some(q) => scancode_queue_pop(q),
            None => None,
        }
    }
}

/// Called by the keyboard interrupt handler: appends the scancode when the
/// queue is set up and has room, otherwise prints a warning and drops it.
/// On `Queued` the caller wakes the keypress task.
///
/// Must not block or allocate.
pub fn add_scancode(queue: &mut ScancodeQueue, writer: &mut Writer, scancode: u8) -> (outcome:
    QueueOutcome)
    requires
        old(queue)@.wf(),
        old(writer)@.wf(),
        can_print(old(writer)@, queue_warning(queue_outcome(old(queue)@))),
    ensures
        outcome == queue_outcome(old(queue)@),
        final(queue)@ == queue_after_push(old(queue)@, scancode),
        final(queue)@.wf(),
        final(writer)@ == print_spec(old(writer)@, queue_warning(outcome)),
        final(writer)@.wf(),
{
    match &mut queue.queue {
        Some(q) => {
            if !scancode_queue_push(q, scancode) {
                writer.write_string("WARNING: scancode queue full; dropping keyboard input\n");
                QueueOutcome::QueueFull
            } else {
                proof {
                    assert(encode_utf8(Seq::<char>::empty()) =~= Seq::<u8>::empty());
                }
                QueueOutcome::Queued
            }
        },
        None => {
            writer.write_string("WARNING: scancode queue uninitialized\n");
            QueueOutcome::Uninitialized
        },
    }
}

/// The consumer side of the scancode queue.
pub struct ScancodeStream {
    _private: (),
}

impl ScancodeStream {
    /// Sets up the scancode queue with room for 100 scancodes. It may be
    /// created only once.
    pub fn new(queue: &mut ScancodeQueue) -> (stream: ScancodeStream)
        requires
            !old(queue)@.initialized,
        ensures
            final(queue)@ == QueueView::<u8>::fresh(SCANCODE_QUEUE_CAPACITY as nat),
            final(queue)@.wf(),
    {
        queue.queue = Some(scancode_queue_new(SCANCODE_QUEUE_CAPACITY));
        ScancodeStream { _private: () }
    }
}


/// A `pc_keyboard::Keyboard` with the US 104-key layout and scancode set
/// 1, and the key event it last completed while that waits to be
/// processed. The decoder's type parameters are bounded by traits of
/// `pc_keyboard`, so it is held here as an opaque value.
#[verifier::external_body]
pub struct KernelKeyboard {
    inner: Keyboard<Us104Key, ScancodeSet1>,
    pending: Option<KeyEvent>,
}

/// `Keyboard::new(Us104Key, ScancodeSet1, HandleControl::Ignore)`: a
/// decoder in its start state with no modifier held and no event waiting.
/// Nothing is stated of the value, whose state the crate keeps private.
#[verifier::external_body]
fn new_keyboard() -> KernelKeyboard {
    KernelKeyboard {
        inner: Keyboard::new(Us104Key, ScancodeSet1, HandleControl::Ignore),
        pending: None,
    }
}

/// The kernel's keyboard decoder, with the log of the scancodes fed to it
/// since it was made and whether a completed key event waits to be
/// processed.
pub struct KeyDecoder {
    keyboard: KernelKeyboard,
    fed: Ghost<Seq<u8>>,
    pending: Ghost<bool>,
}

impl KeyDecoder {
    /// The scancodes fed to the decoder so far, oldest first.
    pub closed spec fn fed(&self) -> Seq<u8> {
        self.fed@
    }

    /// A completed key event waits to be processed.
    pub closed spec fn has_pending(&self) -> bool {
        self.pending@
    }

    /// Between scancodes no key event waits: every completed event has been
    /// processed, so the decoder's state is a function of the log.
    pub open spec fn wf(&self) -> bool {
        !self.has_pending()
    }

    /// A decoder in its start state (US 104-key layout, scancode set 1,
    /// Ctrl passed through) that has been fed nothing.
    pub fn new() -> (decoder: KeyDecoder)
        ensures
            decoder.fed() == Seq::<u8>::empty(),
            decoder.wf(),
    {
        KeyDecoder { keyboard: new_keyboard(), fed: Ghost(Seq::empty()), pending: Ghost(false) }
    }
}

/// Whether, when these scancodes are fed in order to a decoder in its start
/// state, the last one completes a key event (a press or release of a key).
/// The scancode set's decoding state is a function of the scancodes fed,
/// and nothing else changes it.
pub uninterp spec fn completes_key_event(fed: Seq<u8>) -> bool;

/// A decoded key press as plain values: a character, one of the two arrow
/// keys, or another key by the name its `Debug` prints.
pub enum KeyPressView {
    Unicode(char),
    ArrowUp,
    ArrowDown,
    Other(Seq<char>),
}

/// The key press that the key event completed by the last of these
/// scancodes decodes to, when they were fed in order to a decoder in its
/// start state and every key event completed on the way was processed in
/// turn (`None` for releases, modifiers and other events without a key).
/// The modifiers that decoding reads are a function of the events
/// processed, so of the scancodes fed.
pub uninterp spec fn decoded_key_press(fed: Seq<u8>) -> Option<KeyPressView>;

/// A key press as plain values.
pub open spec fn key_input_view(key: KeyInput) -> KeyPressView {
    match key {
        KeyInput::Unicode(c) => KeyPressView::Unicode(c),
        KeyInput::Raw(RawKey::ArrowUp) => KeyPressView::ArrowUp,
        KeyInput::Raw(RawKey::ArrowDown) => KeyPressView::ArrowDown,
        KeyInput::Raw(RawKey::Other(name)) => KeyPressView::Other(name@),
    }
}

/// The key press owed for the scancodes fed: the decoded press of the key
/// event the last scancode completes, or none when it completes no event.
pub open spec fn key_press_after(fed: Seq<u8>) -> Option<KeyPressView> {
    if completes_key_event(fed) {
        decoded_key_press(fed)
    } else {
        None
    }
}

/// `Keyboard::add_byte`: feeds one scancode to the decoder; a completed key
/// event is kept to be processed, decoding errors and incomplete sequences
/// give none. The scancode is recorded as fed, and whether an event was
/// completed is named by `completes_key_event` of the scancodes fed.
#[verifier::external_body]
fn keyboard_add_byte(decoder: &mut KeyDecoder, scancode: u8) -> (completed: bool)
    requires
        !old(decoder).has_pending(),
    ensures
        final(decoder).fed() == old(decoder).fed().push(scancode),
        completed == completes_key_event(final(decoder).fed()),
        final(decoder).has_pending() == completed,
{
    decoder.keyboard.pending = decoder.keyboard.inner.add_byte(scancode).ok().flatten();
    decoder.keyboard.pending.is_some()
}

/// `Keyboard::process_keyevent` on the waiting key event: updates the
/// modifiers and maps the event through the layout; the decoded key is
/// given as a character, an arrow key or the key code's `Debug` name. What
/// comes back is named by `decoded_key_press` of the scancodes fed.
#[verifier::external_body]
fn keyboard_process_keyevent(decoder: &mut KeyDecoder) -> (key: Option<KeyInput>)
    requires
        old(decoder).has_pending(),
    ensures
        final(decoder).fed() == old(decoder).fed(),
        !final(decoder).has_pending(),
        match key {
            Some(k) => decoded_key_press(old(decoder).fed()) == Some(key_input_view(k)),
            None => decoded_key_press(old(decoder).fed()) is None,
        },
{
    let event = decoder.keyboard.pending.take().unwrap();
    match decoder.keyboard.inner.process_keyevent(event) {
        Some(DecodedKey::Unicode(c)) => Some(KeyInput::Unicode(c)),
        Some(DecodedKey::RawKey(KeyCode::ArrowUp)) => Some(KeyInput::Raw(RawKey::ArrowUp)),
        Some(DecodedKey::RawKey(KeyCode::ArrowDown)) => Some(KeyInput::Raw(RawKey::ArrowDown)),
        Some(DecodedKey::RawKey(code)) => Some(KeyInput::Raw(RawKey::Other(format!("{:?}", code)))),
        None => None,
    }
}

/// What became of one scancode.
pub enum ScancodeOutcome {
    /// The decoder produced no key press (incomplete sequence, key release,
    /// modifier or decoding error).
    NoKey,
    /// The key press was handled; for Enter, how enqueueing the line went.
    Handled(KeyInput, Option<QueueOutcome>),
    /// Handling the key press would write past the last column of the
    /// screen, where the console cannot go on; nothing was changed.
    Overflow(KeyInput),
}

/// One step of the keypress task: feeds a scancode to the decoder and
/// hands the key press it decodes to, if any, to the console. `NoKey`
/// comes exactly when the scancodes fed so far owe no key press.
pub fn handle_scancode(
    decoder: &mut KeyDecoder,
    console: &mut Console,
    writer: &mut Writer,
    commands: &mut CommandQueue,
    scancode: u8,
) -> (outcome: ScancodeOutcome)
    requires
        old(decoder).wf(),
        old(console)@.wf(),
        old(writer)@.wf(),
        old(commands)@.wf(),
    ensures
        final(decoder).fed() == old(decoder).fed().push(scancode),
        final(decoder).wf(),
        (outcome is NoKey) == (key_press_after(final(decoder).fed()) is None),
        outcome matches ScancodeOutcome::Handled(key, _) ==> key_press_after(final(decoder).fed())
            == Some(key_input_view(key)),
        outcome matches ScancodeOutcome::Overflow(key) ==> key_press_after(final(decoder).fed())
            == Some(key_input_view(key)),
        final(console)@.wf(),
        final(writer)@.wf(),
        final(commands)@.wf(),
        match outcome {
            ScancodeOutcome::NoKey => final(console)@ == old(console)@ && final(writer)@ == old(
                writer,
            )@ && final(commands)@ == old(commands)@,
            ScancodeOutcome::Handled(key, queued) => {
                &&& key_fits(old(console)@, old(writer)@, old(commands)@, key)
                &&& final(console)@ == key_console(old(console)@, key)
                &&& final(writer)@ == key_writer(old(console)@, old(writer)@, old(commands)@, key)
                &&& final(commands)@ == key_commands(old(console)@, old(commands)@, key)
                &&& queued == key_queue_outcome(old(commands)@, key)
            },
            ScancodeOutcome::Overflow(key) => {
                &&& !key_fits(old(console)@, old(writer)@, old(commands)@, key)
                &&& final(console)@ == old(console)@
                &&& final(writer)@ == old(writer)@
                &&& final(commands)@ == old(commands)@
            },
        },
{
    if !keyboard_add_byte(decoder, scancode) {
        return ScancodeOutcome::NoKey;
    }
    let input = match keyboard_process_keyevent(decoder) {
        Some(input) => input,
        None => return ScancodeOutcome::NoKey,
    };
    if !key_press_fits(console, writer, commands, &input) {
        return ScancodeOutcome::Overflow(input);
    }
    let queued = handle_key_press(console, writer, commands, &input);
    ScancodeOutcome::Handled(input, queued)
}

} // verus!
