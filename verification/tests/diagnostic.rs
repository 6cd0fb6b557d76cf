use led_thermometer::diagnostic::{clamped_line, input_line};

#[test]
fn input_line_of_a_reading() {
    assert_eq!(input_line(600), "V(input)  : 600\r\n");
}

#[test]
fn clamped_line_of_a_reading() {
    assert_eq!(clamped_line(600), "V(clamped): 600\r\n");
}

#[test]
fn lines_of_the_band_bounds() {
    assert_eq!(input_line(568), "V(input)  : 568\r\n");
    assert_eq!(clamped_line(568), "V(clamped): 568\r\n");
    assert_eq!(input_line(625), "V(input)  : 625\r\n");
    assert_eq!(clamped_line(625), "V(clamped): 625\r\n");
}

#[test]
fn zero_is_one_digit() {
    assert_eq!(input_line(0), "V(input)  : 0\r\n");
    assert_eq!(clamped_line(0), "V(clamped): 0\r\n");
}

#[test]
fn numbers_have_no_padding() {
    assert_eq!(input_line(7), "V(input)  : 7\r\n");
    assert_eq!(input_line(42), "V(input)  : 42\r\n");
    assert_eq!(input_line(1023), "V(input)  : 1023\r\n");
    assert_eq!(input_line(10000), "V(input)  : 10000\r\n");
    assert_eq!(input_line(u16::MAX), "V(input)  : 65535\r\n");
}

#[test]
fn number_is_the_decimal_of_the_value() {
    for value in [0u16, 9, 10, 99, 100, 101, 999, 1000, 9999, 10000, 65535] {
        let line = input_line(value);
        let digits = &line["V(input)  : ".len()..line.len() - 2];
        assert_eq!(digits.parse::<u16>().unwrap(), value);
        assert_eq!(digits, value.to_string());
    }
}
