//! The diagnostic text: for every reading one line with the raw value and one
//! with the value held to the band, each ended by carriage return and line feed.

use vstd::prelude::*;
use vstd::string::*;

verus! {

/// The character of a decimal digit.
pub open spec fn digit(d: int) -> char {
    seq!['0', '1', '2', '3', '4', '5', '6', '7', '8', '9'][d]
}

/// A number in decimal: most significant digit first, no sign, no padding, and
/// the single digit `0` for zero.
pub open spec fn decimal(n: nat) -> Seq<char>
    decreases n,
{
    if n < 10 {
        seq![digit(n as int)]
    } else {
        decimal(n / 10).push(digit((n % 10) as int))
    }
}

/// The line that reports a raw reading.
pub open spec fn input_text(raw: u16) -> Seq<char> {
    "V(input)  : "@ + decimal(raw as nat) + "\r\n"@
}

/// The line that reports a reading held to the band.
pub open spec fn clamped_text(reading: u16) -> Seq<char> {
    "V(clamped): "@ + decimal(reading as nat) + "\r\n"@
}

/// The decimal text of `value`, as ufmt writes it: calls `ufmt::uDisplay::fmt`
/// for `u16` with a `ufmt::Formatter` over an empty `String`.
///
/// Not proved, but taken from ufmt: that it writes the decimal digits of the
/// value and nothing else, most significant digit first, without sign or
/// padding, and the single digit `0` for zero. Writing to a `String` cannot
/// fail, so there is no error to hand on.
#[verifier::external_body]
fn format_u16(value: u16) -> (text: String)
    ensures
        text@ == decimal(value as nat),
{
    let mut text = String::new();
    let _ = ufmt::uDisplay::fmt(&value, &mut ufmt::Formatter::new(&mut text));
    text
}

/// The diagnostic line for a raw reading: `V(input)  : `, the reading in
/// decimal, carriage return, line feed.
pub fn input_line(raw: u16) -> (line: String)
    ensures
        line@ == input_text(raw),
{
    let mut line = String::from_str("V(input)  : ");
    let value = format_u16(raw);
    line.append(value.as_str());
    line.append("\r\n");
    line
}

/// The diagnostic line for a reading held to the band: `V(clamped): `, the
/// reading in decimal, carriage return, line feed.
pub fn clamped_line(reading: u16) -> (line: String)
    ensures
        line@ == clamped_text(reading),
{
    let mut line = String::from_str("V(clamped): ");
    let value = format_u16(reading);
    line.append(value.as_str());
    line.append("\r\n");
    line
}

} // verus!
