//! The level mapper: from a sensor reading to the number of lit positions of the bar.
//!
//! The sensed band `[MIN_TEMP, MAX_TEMP]` is cut into `LED_COUNT` buckets of equal
//! width. A reading lights one position per whole bucket below it, and one more
//! when what is left over is more than half a bucket.

use vstd::prelude::*;

verus! {

/// Lowest reading of the sensed band (roughly 40 degrees Fahrenheit).
pub const MIN_TEMP: u16 = 568;

/// Highest reading of the sensed band (roughly 90 degrees Fahrenheit).
pub const MAX_TEMP: u16 = 625;

/// Number of positions of the bar.
pub const LED_COUNT: usize = 8;

/// Width of one bucket: the span of the band divided by the number of positions,
/// the remainder dropped (see [`lemma_bucket_width`]).
pub const BUCKET_WIDTH: u16 = 7;

/// The reading held to the band: `MIN_TEMP` below it, `MAX_TEMP` above it, and the
/// reading itself inside it.
pub open spec fn clamped(raw: int) -> int {
    if raw < MIN_TEMP {
        MIN_TEMP as int
    } else if raw > MAX_TEMP {
        MAX_TEMP as int
    } else {
        raw
    }
}

/// Number of lit positions for a reading of the band: the whole buckets below the
/// reading, rounded to the nearest bucket. A remainder of exactly half a bucket
/// (halved with the remainder dropped) rounds down.
pub open spec fn led_count(reading: int) -> int {
    let offset = reading - MIN_TEMP;
    let whole = offset / (BUCKET_WIDTH as int);
    let rest = offset % (BUCKET_WIDTH as int);
    if rest > BUCKET_WIDTH / 2 {
        whole + 1
    } else {
        whole
    }
}

/// Holds a raw reading to the sensed band.
pub fn clamp_reading(raw: u16) -> (reading: u16)
    ensures
        reading == clamped(raw as int),
        MIN_TEMP <= reading <= MAX_TEMP,
{
    if raw < MIN_TEMP {
        MIN_TEMP
    } else if raw > MAX_TEMP {
        MAX_TEMP
    } else {
        raw
    }
}

/// Maps a reading of the band onto the number of positions to light.
///
/// The reading must lie in the band: hold a raw reading to it with
/// [`clamp_reading`] first.
pub fn get_led_count(reading: u16) -> (count: u8)
    requires
        MIN_TEMP <= reading <= MAX_TEMP,
    ensures
        count == led_count(reading as int),
        count <= LED_COUNT,
{
    let mut count: u8 = 0;
    let mut rest: u16 = reading - MIN_TEMP;
    let led_range: u16 = (MAX_TEMP - MIN_TEMP) / (LED_COUNT as u16);

    loop
        invariant_except_break
            count * led_range + rest == reading - MIN_TEMP,
        invariant
            led_range == BUCKET_WIDTH,
            MIN_TEMP <= reading <= MAX_TEMP,
        ensures
            count == led_count(reading as int),
            count <= LED_COUNT,
        decreases rest,
    {
        if rest < led_range {
            if rest > led_range / 2 {
                count += 1;
            }
            break ;
        }
        rest -= led_range;
        count += 1;
    }

    count
}

/// The bucket width is the span of the band divided by the number of positions.
pub proof fn lemma_bucket_width()
    ensures
        BUCKET_WIDTH == (MAX_TEMP - MIN_TEMP) / (LED_COUNT as int),
{
}

/// Every reading of the band lights between none and all of the positions.
pub proof fn lemma_led_count_in_range(reading: int)
    requires
        MIN_TEMP <= reading <= MAX_TEMP,
    ensures
        0 <= led_count(reading) <= LED_COUNT,
{
}

/// The mapping preserves order: a higher reading never lights fewer positions.
pub proof fn lemma_led_count_monotonic(lower: int, higher: int)
    requires
        MIN_TEMP <= lower <= higher <= MAX_TEMP,
    ensures
        led_count(lower) <= led_count(higher),
{
}

/// The bottom of the band lights nothing and the top lights every position, though
/// the span of the band is no multiple of the number of positions.
pub proof fn lemma_led_count_at_bounds()
    ensures
        led_count(MIN_TEMP as int) == 0,
        led_count(MAX_TEMP as int) == LED_COUNT,
{
}

} // verus!
