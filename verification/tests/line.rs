use led_thermometer::line::{display_line, State};

#[test]
fn no_position_lit() {
    assert_eq!(display_line(0), [State::Low; 8]);
}

#[test]
fn every_position_lit() {
    assert_eq!(display_line(8), [State::High; 8]);
}

#[test]
fn three_positions_lit_from_position_zero() {
    assert_eq!(
        display_line(3),
        [
            State::High,
            State::High,
            State::High,
            State::Low,
            State::Low,
            State::Low,
            State::Low,
            State::Low,
        ]
    );
}

#[test]
fn lit_positions_form_one_run() {
    for count in 0..=8u8 {
        let line = display_line(count);
        for (i, state) in line.iter().enumerate() {
            let want = if i < count as usize { State::High } else { State::Low };
            assert_eq!(*state, want, "count {} position {}", count, i);
        }
    }
}
