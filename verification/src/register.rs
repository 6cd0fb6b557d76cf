//! A model of the shift register at the far end of the wires, and what the
//! driver's steps do to it.
//!
//! The register has one stage per position of the bar. While master reset is
//! high, a rising clock moves every stage one place on and takes the level of the
//! data line into stage 0. A rising latch copies the stages to the outputs. A low
//! master reset empties the stages and keeps them empty; the outputs keep what
//! they show until the next rising latch.

use crate::driver::{
    bit_steps, drive, line_steps, reset_steps, transmissions, Pin, Step, RESET_HOLD_MS,
};
use crate::level::LED_COUNT;
use crate::line::State;
use vstd::prelude::*;

verus! {

/// The register and its four lines at one moment.
#[verifier::ext_equal]
pub struct RegisterState {
    /// Level of the clock line.
    pub clock: State,
    /// Level of the latch line.
    pub latch: State,
    /// Level of the data line.
    pub data: State,
    /// Level of the master reset line.
    pub master_reset: State,
    /// The shift stages; stage 0 holds what was clocked in last.
    pub stages: Seq<State>,
    /// The outputs; output 0 is the first one of the chip.
    pub outputs: Seq<State>,
}

/// The stages after one more state has been clocked in.
pub open spec fn shifted_in(stages: Seq<State>, item: State) -> Seq<State> {
    Seq::new(
        stages.len(),
        |i: int|
            if i == 0 {
                item
            } else {
                stages[i - 1]
            },
    )
}

/// Stages that hold nothing.
pub open spec fn emptied(stages: Seq<State>) -> Seq<State> {
    Seq::new(stages.len(), |i: int| State::Low)
}

impl RegisterState {
    /// The register has as many stages and outputs as the bar has positions.
    pub open spec fn wf(self) -> bool {
        &&& self.stages.len() == LED_COUNT
        &&& self.outputs.len() == LED_COUNT
    }

    /// The lines are as the driver leaves them between transmissions: clock and
    /// latch low, master reset high.
    pub open spec fn at_rest(self) -> bool {
        &&& self.clock == State::Low
        &&& self.latch == State::Low
        &&& self.master_reset == State::High
    }

    /// The register after `pin` has been driven to `level`.
    pub open spec fn set(self, pin: Pin, level: State) -> RegisterState {
        match pin {
            Pin::Data => RegisterState { data: level, ..self },
            Pin::Clock => {
                let rising = self.clock == State::Low && level == State::High;
                if rising && self.master_reset == State::High {
                    RegisterState {
                        clock: level,
                        stages: shifted_in(self.stages, self.data),
                        ..self
                    }
                } else {
                    RegisterState { clock: level, ..self }
                }
            },
            Pin::Latch => {
                let rising = self.latch == State::Low && level == State::High;
                if rising {
                    RegisterState { latch: level, outputs: self.stages, ..self }
                } else {
                    RegisterState { latch: level, ..self }
                }
            },
            Pin::MasterReset => {
                if level == State::Low {
                    RegisterState { master_reset: level, stages: emptied(self.stages), ..self }
                } else {
                    RegisterState { master_reset: level, ..self }
                }
            },
        }
    }

    /// The register after one step. Waiting changes nothing.
    pub open spec fn apply(self, step: Step) -> RegisterState {
        match step {
            Step::SetHigh(pin) => self.set(pin, State::High),
            Step::SetLow(pin) => self.set(pin, State::Low),
            Step::DelayMs(_) => self,
        }
    }

    /// The register after a sequence of steps, taken in order.
    pub open spec fn run(self, steps: Seq<Step>) -> RegisterState
        decreases steps.len(),
    {
        if steps.len() == 0 {
            self
        } else {
            self.run(steps.drop_last()).apply(steps.last())
        }
    }
}

/// A shift register to try the driver on: it takes the steps that the driver
/// wrote on the wires and shows what the chip would show.
#[derive(Clone, Copy, Debug, PartialEq, Eq)]
pub struct ShiftRegister {
    /// Level of the clock line.
    pub clock: State,
    /// Level of the latch line.
    pub latch: State,
    /// Level of the data line.
    pub data: State,
    /// Level of the master reset line.
    pub master_reset: State,
    /// The shift stages; stage 0 holds what was clocked in last.
    pub stages: [State; LED_COUNT],
    /// The outputs; output 0 is the first one of the chip.
    pub outputs: [State; LED_COUNT],
}

impl View for ShiftRegister {
    type V = RegisterState;

    open spec fn view(&self) -> RegisterState {
        RegisterState {
            clock: self.clock,
            latch: self.latch,
            data: self.data,
            master_reset: self.master_reset,
            stages: self.stages@,
            outputs: self.outputs@,
        }
    }
}

impl ShiftRegister {
    /// The register has as many stages and outputs as the bar has positions.
    pub proof fn lemma_view_wf(self)
        ensures
            self@.wf(),
    {
    }

    /// Drives `pin` to `level`.
    pub fn set(&mut self, pin: Pin, level: State)
        ensures
            final(self)@ == old(self)@.set(pin, level),
    {
        match pin {
            Pin::Data => {
                self.data = level;
            },
            Pin::Clock => {
                if self.clock == State::Low && level == State::High && self.master_reset
                    == State::High {
                    let before = self.stages;
                    let mut stages = [self.data; LED_COUNT];
                    let mut i: usize = 1;
                    while i < LED_COUNT
                        invariant
                            1 <= i <= LED_COUNT,
                            stages@[0] == self.data,
                            forall|j: int| 1 <= j < i ==> stages@[j] == before@[j - 1],
                        decreases LED_COUNT - i,
                    {
                        stages[i] = before[i - 1];
                        i += 1;
                    }
                    self.stages = stages;
                }
                self.clock = level;
            },
            Pin::Latch => {
                if self.latch == State::Low && level == State::High {
                    self.outputs = self.stages;
                }
                self.latch = level;
            },
            Pin::MasterReset => {
                if level == State::Low {
                    self.stages = [State::Low; LED_COUNT];
                }
                self.master_reset = level;
            },
        }
    }

    /// Takes one step.
    pub fn apply(&mut self, step: Step)
        ensures
            final(self)@ == old(self)@.apply(step),
    {
        match step {
            Step::SetHigh(pin) => self.set(pin, State::High),
            Step::SetLow(pin) => self.set(pin, State::Low),
            Step::DelayMs(_) => {},
        }
    }

    /// Takes a sequence of steps in order.
    pub fn run(&mut self, steps: &Vec<Step>)
        ensures
            final(self)@ == old(self)@.run(steps@),
    {
        let mut i: usize = 0;
        while i < steps.len()
            invariant
                i <= steps.len(),
                self@ == old(self)@.run(steps@.take(i as int)),
            decreases steps.len() - i,
        {
            self.apply(steps[i]);
            proof {
                assert(steps@.take(i + 1).drop_last() =~= steps@.take(i as int));
            }
            i += 1;
        }
        assert(steps@.take(i as int) =~= steps@);
    }
}

/// Running one more step is running the steps before it and then applying it.
pub proof fn lemma_run_push(start: RegisterState, steps: Seq<Step>, step: Step)
    ensures
        start.run(steps.push(step)) == start.run(steps).apply(step),
{
    assert(steps.push(step).drop_last() =~= steps);
}

/// Running two sequences one after the other is running the first and, from
/// where it ends, the second.
pub proof fn lemma_run_concat(start: RegisterState, first: Seq<Step>, second: Seq<Step>)
    ensures
        start.run(first + second) == start.run(first).run(second),
    decreases second.len(),
{
    if second.len() > 0 {
        assert((first + second).drop_last() =~= first + second.drop_last());
        lemma_run_concat(start, first, second.drop_last());
    }
}

/// Steps never change how many stages and outputs the register has.
pub proof fn lemma_run_keeps_wf(start: RegisterState, steps: Seq<Step>)
    requires
        start.wf(),
    ensures
        start.run(steps).wf(),
    decreases steps.len(),
{
    if steps.len() > 0 {
        lemma_run_keeps_wf(start, steps.drop_last());
    }
}

/// The reset sequence, from whatever state: the lines come to rest and the
/// stages are empty.
pub proof fn lemma_reset_brings_to_rest(start: RegisterState)
    ensures
        start.run(reset_steps()).at_rest(),
        start.run(reset_steps()).stages == emptied(start.stages),
        start.run(reset_steps()).outputs == start.outputs,
        start.run(reset_steps()).data == start.data,
{
    let s0 = Seq::<Step>::empty();
    let s1 = s0.push(Step::SetLow(Pin::MasterReset));
    let s2 = s1.push(Step::DelayMs(RESET_HOLD_MS));
    let s3 = s2.push(Step::SetHigh(Pin::MasterReset));
    let s4 = s3.push(Step::SetLow(Pin::Latch));
    let s5 = s4.push(Step::SetLow(Pin::Clock));
    assert(reset_steps() =~= s5);
    lemma_run_push(start, s0, Step::SetLow(Pin::MasterReset));
    lemma_run_push(start, s1, Step::DelayMs(RESET_HOLD_MS));
    lemma_run_push(start, s2, Step::SetHigh(Pin::MasterReset));
    lemma_run_push(start, s3, Step::SetLow(Pin::Latch));
    lemma_run_push(start, s4, Step::SetLow(Pin::Clock));
}

/// Sending one state to a register whose clock is low and whose reset is
/// released: the state enters stage 0 and the lines come to rest. The outputs
/// follow the stages if the latch was low, so that its pulse had a rising edge.
pub proof fn lemma_bit_is_clocked_in(start: RegisterState, item: State)
    requires
        start.clock == State::Low,
        start.master_reset == State::High,
    ensures
        start.run(bit_steps(item)).at_rest(),
        start.run(bit_steps(item)).data == item,
        start.run(bit_steps(item)).stages == shifted_in(start.stages, item),
        start.run(bit_steps(item)).outputs == if start.latch == State::Low {
            shifted_in(start.stages, item)
        } else {
            start.outputs
        },
{
    let s0 = Seq::<Step>::empty();
    let s1 = s0.push(drive(Pin::Data, item));
    let s2 = s1.push(Step::SetHigh(Pin::Clock));
    let s3 = s2.push(Step::SetLow(Pin::Clock));
    let s4 = s3.push(Step::SetHigh(Pin::Latch));
    let s5 = s4.push(Step::SetLow(Pin::Latch));
    assert(bit_steps(item) =~= s5);
    lemma_run_push(start, s0, drive(Pin::Data, item));
    lemma_run_push(start, s1, Step::SetHigh(Pin::Clock));
    lemma_run_push(start, s2, Step::SetLow(Pin::Clock));
    lemma_run_push(start, s3, Step::SetHigh(Pin::Latch));
    lemma_run_push(start, s4, Step::SetLow(Pin::Latch));
}

/// Sending a line no longer than the register: the line fills the first
/// stages, position 0 in stage 0, and what the stages held before moves on behind
/// it. From the second state sent on, the outputs show the stages. The data line
/// is left at the state of position 0, which is sent last.
pub proof fn lemma_line_is_clocked_in(start: RegisterState, line: Seq<State>)
    requires
        start.clock == State::Low,
        start.master_reset == State::High,
        line.len() <= start.stages.len(),
    ensures
        start.run(line_steps(line)).clock == State::Low,
        start.run(line_steps(line)).master_reset == State::High,
        line.len() >= 1 ==> start.run(line_steps(line)).latch == State::Low,
        line.len() >= 1 ==> start.run(line_steps(line)).data == line[0],
        start.run(line_steps(line)).stages == line + start.stages.take(
            start.stages.len() - line.len(),
        ),
        line.len() >= 2 || (line.len() == 1 && start.latch == State::Low) ==> start.run(
            line_steps(line),
        ).outputs == start.run(line_steps(line)).stages,
    decreases line.len(),
{
    if line.len() > 0 {
        let first = bit_steps(line.last());
        let rest = line.drop_last();
        lemma_bit_is_clocked_in(start, line.last());
        lemma_run_concat(start, first, line_steps(rest));
        lemma_line_is_clocked_in(start.run(first), rest);
    }
}

/// A line sent by the driver comes out of the register as it went in: after
/// the last step each output shows the state of its own position, position 0 on
/// output 0, and the lines are at rest for the next transmission.
///
/// The register must be taking bits when the transmission starts: clock low and
/// master reset high, as the reset sequence and every transmission leave them.
pub proof fn lemma_commit_shows_line(start: RegisterState, line: Seq<State>)
    requires
        start.wf(),
        start.clock == State::Low,
        start.master_reset == State::High,
        line.len() == LED_COUNT,
    ensures
        start.run(line_steps(line)).outputs == line,
        start.run(line_steps(line)).stages == line,
        start.run(line_steps(line)).data == line[0],
        start.run(line_steps(line)).at_rest(),
        start.run(line_steps(line)).wf(),
{
    lemma_line_is_clocked_in(start, line);
    lemma_run_keeps_wf(start, line_steps(line));
}

/// Sending the same line twice in a row leaves the register and its lines
/// after the second transmission exactly as they were after the first.
pub proof fn lemma_commit_twice(start: RegisterState, line: Seq<State>)
    requires
        start.wf(),
        start.clock == State::Low,
        start.master_reset == State::High,
        line.len() == LED_COUNT,
    ensures
        start.run(line_steps(line) + line_steps(line)) == start.run(line_steps(line)),
{
    let sent = line_steps(line);
    lemma_commit_shows_line(start, line);
    lemma_run_concat(start, sent, sent);
    lemma_commit_shows_line(start.run(sent), line);
}

/// From power-up to the first picture: whatever state the register and the lines
/// are in, after the reset sequence and one transmission the outputs show the
/// line that was sent.
pub proof fn lemma_reset_then_commit(start: RegisterState, line: Seq<State>)
    requires
        start.wf(),
        line.len() == LED_COUNT,
    ensures
        start.run(reset_steps() + line_steps(line)).outputs == line,
        start.run(reset_steps() + line_steps(line)).at_rest(),
{
    lemma_reset_brings_to_rest(start);
    lemma_run_keeps_wf(start, reset_steps());
    lemma_run_concat(start, reset_steps(), line_steps(line));
    lemma_commit_shows_line(start.run(reset_steps()), line);
}

/// However many lines are sent one after another, the register shows the
/// latest: every transmission replaces the picture whole, and nothing of an
/// earlier line stays behind.
pub proof fn lemma_latest_line_is_shown(start: RegisterState, lines: Seq<Seq<State>>)
    requires
        start.wf(),
        start.clock == State::Low,
        start.master_reset == State::High,
        lines.len() >= 1,
        forall|k: int| 0 <= k < lines.len() ==> (#[trigger] lines[k]).len() == LED_COUNT,
    ensures
        start.run(transmissions(lines)).outputs == lines.last(),
        start.run(transmissions(lines)).at_rest(),
        start.run(transmissions(lines)).wf(),
    decreases lines.len(),
{
    let earlier = lines.drop_last();
    if earlier.len() > 0 {
        lemma_latest_line_is_shown(start, earlier);
    }
    lemma_run_concat(start, transmissions(earlier), line_steps(lines.last()));
    lemma_commit_shows_line(start.run(transmissions(earlier)), lines.last());
}

} // verus!
