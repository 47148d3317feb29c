//! Timekeeping: the programmable interval timer's tick count, the tick of
//! the last real-time-clock update and busy waiting on the time-stamp
//! counter.
use vstd::prelude::*;
use x86_64::structures::idt::InterruptStackFrame;

verus! {

#[verifier::external_type_specification]
#[verifier::external_body]
pub struct ExInterruptStackFrame(InterruptStackFrame);

/// The PIT divider chosen at boot: about one millisecond between ticks.
pub const PIT_DIVIDER: usize = 1193;

pub const PIT_COMMAND_PORT: u16 = 0x43;

pub const PIT_DATA_PORT: u16 = 0x40;

/// Channel 0, low byte then high byte, mode 3 (square wave), binary.
pub const PIT_MODE_COMMAND: u8 = 0x36;

/// The counters kept by the timer and real-time-clock interrupts.
pub struct TimeState {
    pit_ticks: usize,
    last_rtc_update: usize,
    clocks_per_nanosecond: u64,
}

/// The abstract state of the counters.
pub struct TimeView {
    pub pit_ticks: usize,
    pub last_rtc_update: usize,
    pub clocks_per_nanosecond: u64,
}

impl View for TimeState {
    type V = TimeView;

    closed spec fn view(&self) -> TimeView {
        TimeView {
            pit_ticks: self.pit_ticks,
            last_rtc_update: self.last_rtc_update,
            clocks_per_nanosecond: self.clocks_per_nanosecond,
        }
    }
}

impl TimeState {
    /// All counters at zero, as at boot.
    pub fn new() -> (t: TimeState)
        ensures
            t@ == (TimeView { pit_ticks: 0, last_rtc_update: 0, clocks_per_nanosecond: 0 }),
    {
        TimeState { pit_ticks: 0, last_rtc_update: 0, clocks_per_nanosecond: 0 }
    }

    /// Time-stamp counter clocks per nanosecond.
    pub fn clocks_per_nanosecond(&self) -> (r: u64)
        ensures
            r == self@.clocks_per_nanosecond,
    {
        self.clocks_per_nanosecond
    }
}

/// Number of timer ticks since the timer was started.
pub fn ticks(time: &TimeState) -> (r: usize)
    ensures
        r == time@.pit_ticks,
{
    time.pit_ticks
}

/// The tick count at the last real-time-clock update.
pub fn last_rtc_update(time: &TimeState) -> (r: usize)
    ensures
        r == time@.last_rtc_update,
{
    time.last_rtc_update
}

/// The counters after a timer interrupt: one more tick, wrapping around
/// as an atomic add does.
pub open spec fn timer_step(t: TimeView) -> TimeView {
    TimeView {
        pit_ticks: if t.pit_ticks == usize::MAX {
            0
        } else {
            (t.pit_ticks + 1) as usize
        },
        ..t
    }
}

/// The counters after a real-time-clock interrupt: the current tick count
/// is remembered.
pub open spec fn rtc_step(t: TimeView) -> TimeView {
    TimeView { last_rtc_update: t.pit_ticks, ..t }
}

/// An interrupt that moves the counters.
pub enum TimeEvent {
    Timer,
    Rtc,
}

/// The counters after a run of interrupts, in order.
pub open spec fn time_run(t: TimeView, events: Seq<TimeEvent>) -> TimeView
    decreases events.len(),
{
    if events.len() == 0 {
        t
    } else {
        let before = time_run(t, events.drop_last());
        match events.last() {
            TimeEvent::Timer => timer_step(before),
            TimeEvent::Rtc => rtc_step(before),
        }
    }
}

/// `n` timer interrupts in a row.
pub open spec fn timer_run(n: nat) -> Seq<TimeEvent> {
    Seq::new(n, |i: int| TimeEvent::Timer)
}

/// Timer interrupt: one more tick (wrapping around, as an atomic add does).
pub fn on_timer_interrupt(time: &mut TimeState, _stack_frame: InterruptStackFrame)
    ensures
        final(time)@ == timer_step(old(time)@),
{
    time.pit_ticks = time.pit_ticks.wrapping_add(1);
}

/// Real-time-clock interrupt: remembers the current tick count.
pub fn on_rtc_interrupt(time: &mut TimeState, _stack_frame: InterruptStackFrame)
    ensures
        final(time)@ == rtc_step(old(time)@),
{
    time.last_rtc_update = ticks(time);
}

/// A busy wait on the time-stamp counter: done once `delta` clocks have
/// passed since `start`.
pub struct NanoWait {
    pub start: u64,
    pub delta: u64,
}

/// Starts waiting `nanosecs` nanoseconds from the time-stamp counter value
/// `start`: the wait lasts `nanosecs` times the clocks per nanosecond.
pub fn nanowait(time: &TimeState, nanosecs: u64, start: u64) -> (wait: NanoWait)
    requires
        nanosecs * time@.clocks_per_nanosecond <= u64::MAX,
    ensures
        wait.start == start,
        wait.delta == nanosecs * time@.clocks_per_nanosecond,
{
    let delta = nanosecs * time.clocks_per_nanosecond;
    NanoWait { start, delta }
}

impl NanoWait {
    /// Whether the wait is over at counter value `now` (not earlier than
    /// the start).
    pub fn is_done(&self, now: u64) -> (r: bool)
        requires
            now >= self.start,
        ensures
            r == (now - self.start >= self.delta),
    {
        !(now - self.start < self.delta)
    }
}

/// A byte written to an I/O port.
#[derive(Debug, Clone, Copy, PartialEq, Eq, Structural)]
pub struct PortWrite {
    pub port: u16,
    pub value: u8,
}

/// The port writes that set the PIT frequency divider: the mode command,
/// then the divider's low and high byte.
pub open spec fn pit_divider_writes(divider: u16) -> Seq<PortWrite> {
    seq![
        PortWrite { port: PIT_COMMAND_PORT, value: PIT_MODE_COMMAND },
        PortWrite { port: PIT_DATA_PORT, value: (divider % 256) as u8 },
        PortWrite { port: PIT_DATA_PORT, value: (divider / 256) as u8 },
    ]
}

/// The port writes that set the PIT frequency divider (to be done with
/// interrupts disabled).
pub fn set_pit_frequency_divider(divider: u16) -> (writes: Vec<PortWrite>)
    ensures
        writes@ == pit_divider_writes(divider),
{
    let low = (divider % 256) as u8;
    let high = (divider / 256) as u8;
    let mut writes: Vec<PortWrite> = Vec::new();
    writes.push(PortWrite { port: PIT_COMMAND_PORT, value: PIT_MODE_COMMAND });
    writes.push(PortWrite { port: PIT_DATA_PORT, value: low });
    writes.push(PortWrite { port: PIT_DATA_PORT, value: high });
    assert(writes@ =~= pit_divider_writes(divider));
    writes
}

/// Timer set-up: at boot the PIT divides by 65536 (divider 0); it is set
/// to 1193 for about one millisecond between ticks. Returns the port writes
/// to perform.
pub fn init() -> (writes: Vec<PortWrite>)
    ensures
        writes@ == pit_divider_writes(1193),
{
    let divider: usize = if PIT_DIVIDER < 65536 {
        PIT_DIVIDER
    } else {
        0
    };
    set_pit_frequency_divider(divider as u16)
}

/// After `n` timer interrupts that do not wrap the counter, the tick count
/// has grown by exactly `n`; the last clock-update tick is kept.
pub proof fn lemma_ticks_after_timer_run(t: TimeView, n: nat)
    requires
        t.pit_ticks + n <= usize::MAX,
    ensures
        time_run(t, timer_run(n)).pit_ticks == t.pit_ticks + n,
        time_run(t, timer_run(n)).last_rtc_update == t.last_rtc_update,
        time_run(t, timer_run(n)).pit_ticks >= t.pit_ticks,
    decreases n,
{
    if n > 0 {
        assert(timer_run(n).drop_last() =~= timer_run((n - 1) as nat));
        lemma_ticks_after_timer_run(t, (n - 1) as nat);
    }
}

/// Running two runs of interrupts one after the other is running them
/// together.
pub proof fn lemma_time_run_concat(t: TimeView, a: Seq<TimeEvent>, b: Seq<TimeEvent>)
    ensures
        time_run(t, a + b) == time_run(time_run(t, a), b),
    decreases b.len(),
{
    if b.len() == 0 {
        assert(a + b =~= a);
    } else {
        assert((a + b).drop_last() =~= a + b.drop_last());
        lemma_time_run_concat(t, a, b.drop_last());
    }
}

/// The last clock-update tick is the tick count at the last
/// real-time-clock interrupt, whatever timer interrupts came after it.
pub proof fn lemma_last_rtc_update(t: TimeView, before: Seq<TimeEvent>, n: nat)
    ensures
        time_run(t, before.push(TimeEvent::Rtc) + timer_run(n)).last_rtc_update == time_run(
            t,
            before,
        ).pit_ticks,
    decreases n,
{
    let with_rtc = before.push(TimeEvent::Rtc);
    assert(with_rtc.drop_last() =~= before);
    assert(time_run(t, with_rtc) == rtc_step(time_run(t, before)));
    lemma_time_run_concat(t, with_rtc, timer_run(n));
    lemma_timer_run_keeps_rtc(time_run(t, with_rtc), n);
}

/// Timer interrupts keep the last clock-update tick.
pub proof fn lemma_timer_run_keeps_rtc(t: TimeView, n: nat)
    ensures
        time_run(t, timer_run(n)).last_rtc_update == t.last_rtc_update,
    decreases n,
{
    if n > 0 {
        assert(timer_run(n).drop_last() =~= timer_run((n - 1) as nat));
        lemma_timer_run_keeps_rtc(t, (n - 1) as nat);
    }
}

} // verus!
