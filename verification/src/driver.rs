//! The shift register driver: what it puts on the wires, step by step.
//!
//! The register hangs on four output lines. The driver never touches a pin
//! itself: it writes each step on a [`Wires`] value, in order, and whoever owns
//! the pins carries the steps out in that order.

use crate::level::LED_COUNT;
use crate::line::State;
use vstd::prelude::*;

verus! {

/// One of the four lines between the controller and the shift register.
#[derive(Clone, Copy, Debug, PartialEq, Eq, Structural)]
pub enum Pin {
    /// Shift clock (SHCP): the register samples the data line when it rises.
    Clock,
    /// Storage clock (STCP): the register shows what it has shifted in when it rises.
    Latch,
    /// Serial data (DS).
    Data,
    /// Master reset (MR), active low.
    MasterReset,
}

/// One thing done to the lines.
#[derive(Clone, Copy, Debug, PartialEq, Eq, Structural)]
pub enum Step {
    /// Drive a line high.
    SetHigh(Pin),
    /// Drive a line low.
    SetLow(Pin),
    /// Leave the lines as they are for so many milliseconds.
    DelayMs(u16),
}

/// How long the master reset line is held low, in milliseconds.
pub const RESET_HOLD_MS: u16 = 1;

/// The step that puts a level on a line.
pub open spec fn drive(pin: Pin, level: State) -> Step {
    match level {
        State::High => Step::SetHigh(pin),
        State::Low => Step::SetLow(pin),
    }
}

/// The reset sequence: master reset low, held, then high again; after that latch
/// and clock low.
pub open spec fn reset_steps() -> Seq<Step> {
    seq![
        Step::SetLow(Pin::MasterReset),
        Step::DelayMs(RESET_HOLD_MS),
        Step::SetHigh(Pin::MasterReset),
        Step::SetLow(Pin::Latch),
        Step::SetLow(Pin::Clock),
    ]
}

/// The steps that send one state: its level on the data line, a pulse on the
/// clock, a pulse on the latch.
pub open spec fn bit_steps(item: State) -> Seq<Step> {
    seq![
        drive(Pin::Data, item),
        Step::SetHigh(Pin::Clock),
        Step::SetLow(Pin::Clock),
        Step::SetHigh(Pin::Latch),
        Step::SetLow(Pin::Latch),
    ]
}

/// The steps that send a whole line: the last position first, position 0 last.
pub open spec fn line_steps(line: Seq<State>) -> Seq<Step>
    decreases line.len(),
{
    if line.len() == 0 {
        Seq::empty()
    } else {
        bit_steps(line.last()) + line_steps(line.drop_last())
    }
}

/// The steps of several transmissions in a row, the first line first.
pub open spec fn transmissions(lines: Seq<Seq<State>>) -> Seq<Step>
    decreases lines.len(),
{
    if lines.len() == 0 {
        Seq::empty()
    } else {
        transmissions(lines.drop_last()) + line_steps(lines.last())
    }
}

/// The four lines as the driver sees them: a record of every step taken on them,
/// oldest first.
pub struct Wires {
    steps: Vec<Step>,
}

impl View for Wires {
    type V = Seq<Step>;

    closed spec fn view(&self) -> Seq<Step> {
        self.steps@
    }
}

impl Wires {
    /// Lines on which nothing has been done yet.
    pub fn new() -> (wires: Wires)
        ensures
            wires@ == Seq::<Step>::empty(),
    {
        Wires { steps: Vec::new() }
    }

    /// Drives `pin` high.
    pub fn set_high(&mut self, pin: Pin)
        ensures
            final(self)@ == old(self)@.push(Step::SetHigh(pin)),
    {
        self.steps.push(Step::SetHigh(pin));
    }

    /// Drives `pin` low.
    pub fn set_low(&mut self, pin: Pin)
        ensures
            final(self)@ == old(self)@.push(Step::SetLow(pin)),
    {
        self.steps.push(Step::SetLow(pin));
    }

    /// Leaves the lines alone for `ms` milliseconds.
    pub fn delay_ms(&mut self, ms: u16)
        ensures
            final(self)@ == old(self)@.push(Step::DelayMs(ms)),
    {
        self.steps.push(Step::DelayMs(ms));
    }

    /// The steps taken so far, oldest first.
    pub fn steps(&self) -> (steps: &Vec<Step>)
        ensures
            steps@ == self@,
    {
        &self.steps
    }
}

/// Resets the register and brings the lines to rest: master reset is pulled low
/// for [`RESET_HOLD_MS`] and released, then latch and clock are driven low.
///
/// What this does to the register, whatever state it was in, is stated by
/// [`crate::register::lemma_reset_brings_to_rest`].
pub fn reset_shift_register(wires: &mut Wires)
    ensures
        final(wires)@ == old(wires)@ + reset_steps(),
{
    wires.set_low(Pin::MasterReset);
    wires.delay_ms(RESET_HOLD_MS);
    wires.set_high(Pin::MasterReset);
    wires.set_low(Pin::Latch);
    wires.set_low(Pin::Clock);
}

/// Sends one state to the register: sets the data line, pulses the clock, pulses
/// the latch.
pub fn write_to_shift_register(wires: &mut Wires, item: &State)
    ensures
        final(wires)@ == old(wires)@ + bit_steps(*item),
{
    match item {
        State::High => wires.set_high(Pin::Data),
        State::Low => wires.set_low(Pin::Data),
    }
    wires.set_high(Pin::Clock);
    wires.set_low(Pin::Clock);
    wires.set_high(Pin::Latch);
    wires.set_low(Pin::Latch);
}

/// Sends a whole line to the register, the last position first, so that
/// position 0 ends up on the register's first output.
///
/// That the register then shows the line is stated by
/// [`crate::register::lemma_commit_shows_line`].
pub fn write_all_to_shift_register(wires: &mut Wires, line: [State; LED_COUNT])
    ensures
        final(wires)@ == old(wires)@ + line_steps(line@),
{
    let mut left: usize = LED_COUNT;
    assert(line@.take(left as int) =~= line@);
    while left > 0
        invariant
            left <= LED_COUNT,
            wires@ + line_steps(line@.take(left as int)) == old(wires)@ + line_steps(line@),
        decreases left,
    {
        let ghost ahead = line@.take(left as int);
        left -= 1;
        write_to_shift_register(wires, &line[left]);
        assert(ahead.drop_last() =~= line@.take(left as int));
    }
}

/// A line takes five steps for each of its positions.
pub proof fn lemma_line_steps_len(line: Seq<State>)
    ensures
        line_steps(line).len() == 5 * line.len(),
    decreases line.len(),
{
    if line.len() > 0 {
        lemma_line_steps_len(line.drop_last());
    }
}

/// The order on the wires: the `k`-th group of five steps sends position
/// `line.len() - 1 - k`, so the last position goes first and position 0 last.
pub proof fn lemma_line_steps_order(line: Seq<State>, k: int)
    requires
        0 <= k < line.len(),
    ensures
        line_steps(line).subrange(5 * k, 5 * k + 5) == bit_steps(line[line.len() - 1 - k]),
    decreases line.len(),
{
    let rest = line.drop_last();
    lemma_line_steps_len(rest);
    if k > 0 {
        lemma_line_steps_order(rest, k - 1);
    }
}

/// Sending the same line twice in a row puts the same steps on the wires both
/// times, whatever was on them before: nothing of the first transmission leaks
/// into the second.
///
/// Here `once` and `twice` are what the wires hold after the first and after the
/// second call of [`write_all_to_shift_register`], and `first` and `second` are
/// what each call added.
pub proof fn lemma_same_line_same_steps(before: Seq<Step>, line: Seq<State>)
    ensures
        ({
            let once = before + line_steps(line);
            let twice = once + line_steps(line);
            let first = twice.subrange(before.len() as int, once.len() as int);
            let second = twice.subrange(once.len() as int, twice.len() as int);
            &&& first == line_steps(line)
            &&& second == line_steps(line)
            &&& first == second
        }),
{
}

} // verus!
