//! The display line: one state per position of the bar.

use crate::level::LED_COUNT;
use vstd::prelude::*;

verus! {

/// The state of one position of the bar, and the level of one signal line.
#[derive(Clone, Copy, Debug, PartialEq, Eq, Structural)]
pub enum State {
    /// Unlit position; line driven low.
    Low,
    /// Lit position; line driven high.
    High,
}

/// The line that lights the first `count` positions and no other.
pub open spec fn bar(count: int) -> Seq<State> {
    Seq::new(
        LED_COUNT as nat,
        |i: int|
            if i < count {
                State::High
            } else {
                State::Low
            },
    )
}

/// Builds the display line for a number of lit positions: position 0 is lit first,
/// and the lit positions form one run from there.
pub fn display_line(count: u8) -> (line: [State; LED_COUNT])
    requires
        count <= LED_COUNT,
    ensures
        line@ == bar(count as int),
{
    let mut line = [State::Low; LED_COUNT];
    let lit: usize = count as usize;
    let mut i: usize = 0;
    while i < lit
        invariant
            i <= lit <= LED_COUNT,
            forall|j: int| 0 <= j < i ==> line@[j] == State::High,
            forall|j: int| i <= j < LED_COUNT ==> line@[j] == State::Low,
        decreases lit - i,
    {
        line[i] = State::High;
        i += 1;
    }
    line
}

} // verus!
