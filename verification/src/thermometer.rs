//! One turn of the thermometer, from a raw reading to the picture on the bar,
//! and what a whole run of turns leaves on the bar.

use crate::driver::{
    line_steps, reset_steps, transmissions, write_all_to_shift_register, Step, Wires,
};
use crate::level::{clamp_reading, clamped, get_led_count, led_count, LED_COUNT};
use crate::line::{bar, display_line, State};
use crate::register::{
    lemma_latest_line_is_shown, lemma_reset_brings_to_rest, lemma_run_concat, lemma_run_keeps_wf,
    RegisterState,
};
use vstd::prelude::*;

verus! {

/// The line that shows a raw reading: the reading is held to the band, mapped to
/// a number of positions, and that many positions are lit from position 0 on.
pub open spec fn reading_line(raw: int) -> Seq<State> {
    bar(led_count(clamped(raw)))
}

/// Everything a run puts on the wires: the reset sequence once, then one
/// transmission for each reading, in the order in which the readings came.
pub open spec fn run_steps(readings: Seq<int>) -> Seq<Step> {
    reset_steps() + transmissions(readings.map_values(|raw: int| reading_line(raw)))
}

/// Puts a raw reading on the bar: holds it to the band, maps it to a number of
/// positions, builds the line and sends the line to the register. Returns the
/// reading as held to the band.
pub fn show_reading(wires: &mut Wires, raw: u16) -> (reading: u16)
    ensures
        reading == clamped(raw as int),
        final(wires)@ == old(wires)@ + line_steps(reading_line(raw as int)),
{
    let reading = clamp_reading(raw);
    let count = get_led_count(reading);
    let line = display_line(count);
    write_all_to_shift_register(wires, line);
    reading
}

/// A run grows turn by turn: it starts with the reset sequence alone, and every
/// reading adds the steps that [`show_reading`] writes for it.
pub proof fn lemma_run_steps_grow(readings: Seq<int>, raw: int)
    ensures
        run_steps(Seq::empty()) == reset_steps(),
        run_steps(readings.push(raw)) == run_steps(readings) + line_steps(reading_line(raw)),
{
    let lines = readings.map_values(|raw: int| reading_line(raw));
    let more = readings.push(raw).map_values(|raw: int| reading_line(raw));
    assert(more.drop_last() =~= lines);
}

/// After every turn the bar shows the latest reading: whatever state the
/// register and the lines are in at power-up, and whatever was read before, an
/// output is high exactly if its position is below the number of positions that
/// the latest reading maps to.
pub proof fn lemma_latest_reading_is_shown(start: RegisterState, readings: Seq<int>)
    requires
        start.wf(),
        readings.len() >= 1,
    ensures
        start.run(run_steps(readings)).outputs == reading_line(readings.last()),
        forall|i: int|
            0 <= i < LED_COUNT ==> (#[trigger] start.run(run_steps(readings)).outputs[i]
                == State::High <==> i < led_count(clamped(readings.last()))),
        start.run(run_steps(readings)).at_rest(),
{
    let lines = readings.map_values(|raw: int| reading_line(raw));
    lemma_reset_brings_to_rest(start);
    lemma_run_keeps_wf(start, reset_steps());
    lemma_run_concat(start, reset_steps(), transmissions(lines));
    lemma_latest_line_is_shown(start.run(reset_steps()), lines);
}

} // verus!
