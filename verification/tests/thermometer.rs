use led_thermometer::driver::{reset_shift_register, write_all_to_shift_register, Wires};
use led_thermometer::level::{clamp_reading, get_led_count};
use led_thermometer::line::{display_line, State};
use led_thermometer::register::ShiftRegister;
use led_thermometer::thermometer::show_reading;

fn lit(register: &ShiftRegister) -> usize {
    register.outputs.iter().filter(|state| **state == State::High).count()
}

#[test]
fn show_reading_returns_the_clamped_reading() {
    assert_eq!(show_reading(&mut Wires::new(), 0), 568);
    assert_eq!(show_reading(&mut Wires::new(), 600), 600);
    assert_eq!(show_reading(&mut Wires::new(), 1023), 625);
}

#[test]
fn show_reading_sends_the_line_of_the_reading() {
    for raw in [0u16, 568, 575, 600, 625, 700] {
        let mut wires = Wires::new();
        show_reading(&mut wires, raw);
        let mut expected = Wires::new();
        write_all_to_shift_register(
            &mut expected,
            display_line(get_led_count(clamp_reading(raw))),
        );
        assert_eq!(wires.steps(), expected.steps());
    }
}

#[test]
fn from_power_up_to_the_first_picture() {
    for raw in 0..=1023u16 {
        let mut wires = Wires::new();
        reset_shift_register(&mut wires);
        let reading = show_reading(&mut wires, raw);
        let mut register = ShiftRegister {
            clock: State::High,
            latch: State::High,
            data: State::High,
            master_reset: State::Low,
            stages: [State::High; 8],
            outputs: [State::High; 8],
        };
        register.run(wires.steps());
        let count = get_led_count(reading) as usize;
        assert_eq!(lit(&register), count);
        for (i, state) in register.outputs.iter().enumerate() {
            assert_eq!(*state == State::High, i < count, "raw {} output {}", raw, i);
        }
    }
}

#[test]
fn cold_reading_lights_nothing_and_hot_reading_everything() {
    let mut register = ShiftRegister {
        clock: State::Low,
        latch: State::Low,
        data: State::Low,
        master_reset: State::High,
        stages: [State::Low; 8],
        outputs: [State::Low; 8],
    };
    let mut wires = Wires::new();
    show_reading(&mut wires, 1000);
    register.run(wires.steps());
    assert_eq!(register.outputs, [State::High; 8]);

    let mut wires = Wires::new();
    show_reading(&mut wires, 100);
    register.run(wires.steps());
    assert_eq!(register.outputs, [State::Low; 8]);
}

#[test]
fn bar_always_shows_the_latest_reading() {
    let mut register = ShiftRegister {
        clock: State::High,
        latch: State::Low,
        data: State::Low,
        master_reset: State::High,
        stages: [State::High; 8],
        outputs: [State::High; 8],
    };
    let mut wires = Wires::new();
    reset_shift_register(&mut wires);
    register.run(wires.steps());
    for raw in [600u16, 0, 1023, 575, 575, 620, 568, 625, 590] {
        let mut wires = Wires::new();
        let reading = show_reading(&mut wires, raw);
        register.run(wires.steps());
        assert_eq!(register.outputs, display_line(get_led_count(reading)), "raw {}", raw);
        assert_eq!(register.clock, State::Low);
        assert_eq!(register.latch, State::Low);
        assert_eq!(register.master_reset, State::High);
    }
}

#[test]
fn reading_of_the_middle_of_the_band_lights_half_the_bar() {
    // offset 28 is four whole buckets and nothing left over
    let mut wires = Wires::new();
    reset_shift_register(&mut wires);
    assert_eq!(show_reading(&mut wires, 596), 596);
    let mut register = ShiftRegister {
        clock: State::Low,
        latch: State::Low,
        data: State::Low,
        master_reset: State::Low,
        stages: [State::Low; 8],
        outputs: [State::Low; 8],
    };
    register.run(wires.steps());
    assert_eq!(
        register.outputs,
        [
            State::High,
            State::High,
            State::High,
            State::High,
            State::Low,
            State::Low,
            State::Low,
            State::Low,
        ]
    );
}
