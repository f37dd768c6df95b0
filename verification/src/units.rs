//! The units of the Hue bridge: mired for colour temperatures, one byte for
//! brightness, and colours by their red, green and blue parts.

use crate::error::{ConfigError, Problem};
use crate::text::{folded, same_but_for_case, trim, trimmed, trimmed_end, trimmed_start};
use vstd::prelude::*;
use vstd::string::*;

verus! {

/// The colour temperature of so many kelvin in mired, where a light can show it.
pub open spec fn mired_of(name: Seq<char>, kelvin: u64) -> Result<u16, Problem> {
    if kelvin == 0 {
        Err(Problem::ZeroTemperature(name))
    } else if 2000 <= kelvin <= 6535 {
        Ok((1_000_000u64 / kelvin) as u16)
    } else {
        Err(Problem::TemperatureOutOfRange(name))
    }
}

/// The brightness of so many percent on the scale of the bridge, rounded to the
/// nearest step.
pub open spec fn brightness_of(name: Seq<char>, percent: u64) -> Result<u8, Problem> {
    if 1 <= percent <= 100 {
        Ok(((percent * 254 + 50) / 100) as u8)
    } else {
        Err(Problem::BrightnessOutOfRange(name))
    }
}

/// A result with its error as mathematics.
pub open spec fn outcome<T>(result: Result<T, ConfigError>) -> Result<T, Problem> {
    match result {
        Ok(value) => Ok(value),
        Err(error) => Err(error@),
    }
}

/// The colour temperature of a pulse in mired.
pub fn kelvin_to_mired(kelvin: u64) -> (mired: Result<u16, ConfigError>)
    ensures
        outcome(mired) == mired_of("PULSE_TEMPERATURE_K"@, kelvin),
{
    kelvin_to_mired_named("PULSE_TEMPERATURE_K", kelvin)
}

/// The colour temperature that a setting gives, in mired.
pub fn kelvin_to_mired_named(name: &str, kelvin: u64) -> (mired: Result<u16, ConfigError>)
    ensures
        outcome(mired) == mired_of(name@, kelvin),
{
    if kelvin == 0 {
        return Err(ConfigError::ZeroTemperature { name: name.to_owned() });
    }
    if kelvin < 2000 || 6535 < kelvin {
        return Err(ConfigError::TemperatureOutOfRange { name: name.to_owned() });
    }
    assert(153 <= 1_000_000u64 / kelvin <= 500) by (nonlinear_arith)
        requires
            2000 <= kelvin <= 6535,
    ;
    Ok((1_000_000 / kelvin) as u16)
}

/// The brightness of a pulse on the scale of the bridge.
pub fn hue_brightness(percent: u64) -> (bri: Result<u8, ConfigError>)
    ensures
        outcome(bri) == brightness_of("PULSE_MAX_BRIGHTNESS"@, percent),
{
    hue_brightness_value("PULSE_MAX_BRIGHTNESS", percent)
}

/// The brightness that a setting gives, on the scale of the bridge.
pub fn hue_brightness_value(name: &str, percent: u64) -> (bri: Result<u8, ConfigError>)
    ensures
        outcome(bri) == brightness_of(name@, percent),
{
    if percent < 1 || 100 < percent {
        return Err(ConfigError::BrightnessOutOfRange { name: name.to_owned() });
    }
    Ok(((percent * 254 + 50) / 100) as u8)
}

/// A colour by its red, green and blue parts.
#[derive(Debug, Clone, Copy, PartialEq, Eq)]
pub struct Rgb {
    pub red: u8,
    pub green: u8,
    pub blue: u8,
}

/// The value of a hexadecimal digit.
pub open spec fn hex_digit(c: char) -> Option<u8> {
    if '0' <= c && c <= '9' {
        Some((c as int - '0' as int) as u8)
    } else if 'a' <= c && c <= 'f' {
        Some((c as int - 'a' as int + 10) as u8)
    } else if 'A' <= c && c <= 'F' {
        Some((c as int - 'A' as int + 10) as u8)
    } else {
        None
    }
}

/// The digits of a colour: the text without the white space around it and
/// without a leading `#`.
pub open spec fn colour_digits(value: Seq<char>) -> Seq<char> {
    let text = trimmed(value);
    if text.len() > 0 && text[0] == '#' {
        text.subrange(1, text.len() as int)
    } else {
        text
    }
}

/// Whether the digits write a colour.
pub open spec fn is_colour(digits: Seq<char>) -> bool {
    digits.len() == 6 && forall|i: int| 0 <= i < 6 ==> hex_digit(#[trigger] digits[i]) is Some
}

/// The part of a colour that two digits write.
pub open spec fn hex_byte(high: char, low: char) -> u8 {
    (hex_digit(high)->0 * 16 + hex_digit(low)->0) as u8
}

/// The colour that a setting writes.
pub open spec fn colour_of(value: Seq<char>) -> Result<Rgb, Problem> {
    let digits = colour_digits(value);
    if !is_colour(digits) {
        Err(Problem::NotAColour)
    } else {
        let rgb = Rgb {
            red: hex_byte(digits[0], digits[1]),
            green: hex_byte(digits[2], digits[3]),
            blue: hex_byte(digits[4], digits[5]),
        };
        if rgb.red == 0 && rgb.green == 0 && rgb.blue == 0 {
            Err(Problem::BlackColour)
        } else {
            Ok(rgb)
        }
    }
}

fn read_hex_digit(c: char) -> (digit: Option<u8>)
    ensures
        digit == hex_digit(c),
        digit is Some ==> digit->0 < 16,
{
    if '0' <= c && c <= '9' {
        Some(c as u8 - '0' as u8)
    } else if 'a' <= c && c <= 'f' {
        Some(c as u8 - 'a' as u8 + 10)
    } else if 'A' <= c && c <= 'F' {
        Some(c as u8 - 'A' as u8 + 10)
    } else {
        None
    }
}

fn read_hex_byte(digits: &str, at: usize) -> (part: Option<u8>)
    requires
        at < 6,
        at + 1 < digits@.len(),
    ensures
        part is Some <==> hex_digit(digits@[at as int]) is Some && hex_digit(digits@[at + 1]) is Some,
        part is Some ==> part->0 == hex_byte(digits@[at as int], digits@[at + 1]),
{
    match (read_hex_digit(digits.get_char(at)), read_hex_digit(digits.get_char(at + 1))) {
        (Some(high), Some(low)) => Some(high * 16 + low),
        _ => None,
    }
}

/// Reads a colour: six hexadecimal digits, with or without a leading `#`.
/// Black is refused, for it has no place in the chromaticity diagram.
pub fn parse_rgb_hex(value: &str) -> (rgb: Result<Rgb, ConfigError>)
    ensures
        outcome(rgb) == colour_of(value@),
{
    let text = trim(value);
    let len: usize = text.unicode_len();
    let digits = if len > 0 && text.get_char(0) == '#' {
        text.substring_char(1, len)
    } else {
        text
    };
    assert(digits@ =~= colour_digits(value@));
    if digits.unicode_len() != 6 {
        return Err(ConfigError::NotAColour);
    }
    match (read_hex_byte(digits, 0), read_hex_byte(digits, 2), read_hex_byte(digits, 4)) {
        (Some(red), Some(green), Some(blue)) => {
            assert(is_colour(digits@));
            if red == 0 && green == 0 && blue == 0 {
                Err(ConfigError::BlackColour)
            } else {
                Ok(Rgb { red, green, blue })
            }
        },
        _ => Err(ConfigError::NotAColour),
    }
}

/// Every brightness that is accepted is one that the bridge takes, a higher
/// percentage is never darker, and the full percentage is the full brightness.
pub proof fn brightness_grows_with_the_percentage(name: Seq<char>, lower: u64, higher: u64)
    requires
        1 <= lower <= higher <= 100,
    ensures
        brightness_of(name, lower) is Ok,
        brightness_of(name, higher) is Ok,
        1 <= brightness_of(name, lower)->Ok_0 <= brightness_of(name, higher)->Ok_0 <= 254,
        brightness_of(name, 100) == (Ok::<u8, Problem>(254)),
{
}

/// Every colour temperature that is accepted is one that the bridge takes, and
/// a higher one is never warmer.
pub proof fn mired_falls_as_kelvin_rises(name: Seq<char>, lower: u64, higher: u64)
    requires
        2000 <= lower <= higher <= 6535,
    ensures
        mired_of(name, lower) is Ok,
        mired_of(name, higher) is Ok,
        500 >= mired_of(name, lower)->Ok_0 >= mired_of(name, higher)->Ok_0 >= 153,
{
    assert(153 <= 1_000_000u64 / higher && 1_000_000u64 / higher <= 1_000_000u64 / lower && 1_000_000u64 / lower <= 500)
        by (nonlinear_arith)
        requires
            2000 <= lower <= higher <= 6535,
    ;
}

proof fn case_leaves_white_space(a: Seq<char>, b: Seq<char>)
    requires
        same_but_for_case(a, b),
    ensures
        same_but_for_case(trimmed_start(a), trimmed_start(b)),
        same_but_for_case(trimmed_end(a), trimmed_end(b)),
    decreases a.len(),
{
    if a.len() > 0 {
        let last = a.len() - 1;
        assert(folded(a[0]) == folded(b[0]));
        assert(folded(a[last]) == folded(b[last]));
        case_leaves_white_space(a.subrange(1, a.len() as int), b.subrange(1, b.len() as int));
        case_leaves_white_space(a.subrange(0, last), b.subrange(0, last));
    }
}

/// A colour reads alike in capital and in small letters.
pub proof fn the_case_of_a_colour_does_not_matter(a: Seq<char>, b: Seq<char>)
    requires
        same_but_for_case(a, b),
    ensures
        colour_of(a) == colour_of(b),
{
    case_leaves_white_space(a, b);
    case_leaves_white_space(trimmed_start(a), trimmed_start(b));
    let x = trimmed(a);
    let y = trimmed(b);
    if x.len() > 0 {
        assert(folded(x[0]) == folded(y[0]));
    }
    let p = colour_digits(a);
    let q = colour_digits(b);
    assert(same_but_for_case(p, q));
    assert forall|i: int| 0 <= i < p.len() implies hex_digit(#[trigger] p[i]) == hex_digit(q[i]) by {
        assert(folded(p[i]) == folded(q[i]));
    }
    if p.len() == 6 {
        assert(forall|i: int| 0 <= i < 6 ==> hex_digit(#[trigger] q[i]) == hex_digit(p[i]));
    }
}

/// A result and its model succeed alike, with the same value, and fail alike.
pub proof fn an_outcome_is_kept<T>(value: T, error: ConfigError)
    ensures
        outcome(Ok::<T, ConfigError>(value)) == Ok::<T, Problem>(value),
        outcome(Err::<T, ConfigError>(error)) == Err::<T, Problem>(error@),
{
}

/// The temperatures from 2000 K to 6535 K are accepted, and no others. The mired
/// value is the largest whole number of which the kelvin give no more than a
/// million; what is refused is told by the name of its setting.
pub proof fn mired_and_kelvin_make_a_million(name: Seq<char>, kelvin: u64)
    ensures
        mired_of(name, kelvin) is Ok <==> 2000 <= kelvin && kelvin <= 6535,
        mired_of(name, kelvin) matches Ok(mired) ==> mired * kelvin <= 1_000_000 < (mired + 1) * kelvin,
        kelvin == 0 ==> mired_of(name, kelvin) == Err::<u16, Problem>(Problem::ZeroTemperature(name)),
        0 < kelvin < 2000 || 6535 < kelvin ==> mired_of(name, kelvin) == Err::<u16, Problem>(
            Problem::TemperatureOutOfRange(name),
        ),
{
    if 2000 <= kelvin <= 6535 {
        assert(1_000_000u64 / kelvin <= 500 && (1_000_000u64 / kelvin) * kelvin <= 1_000_000 < (1_000_000u64 / kelvin
            + 1) * kelvin) by (nonlinear_arith)
            requires
                2000 <= kelvin <= 6535,
        ;
    }
}

/// The percentages from 1 to 100 are accepted, and no others. The brightness is
/// the step that lies nearest to that part of the full brightness; what is
/// refused is told by the name of its setting.
pub proof fn brightness_is_the_nearest_step(name: Seq<char>, percent: u64)
    ensures
        brightness_of(name, percent) is Ok <==> 1 <= percent && percent <= 100,
        brightness_of(name, percent) matches Ok(bri) ==> -50 <= bri * 100 - percent * 254 <= 50,
        brightness_of(name, percent) matches Ok(bri) ==> bri * 100 - percent * 254 != -50,
        percent < 1 || 100 < percent ==> brightness_of(name, percent) == Err::<u8, Problem>(
            Problem::BrightnessOutOfRange(name),
        ),
{
}

proof fn hexadecimal_digits_by_value(c: char, value: int)
    requires
        0 <= value < 16,
    ensures
        hex_digit(c) == Some(value as u8) <==> (c == "0123456789abcdef"@[value] || c == "0123456789ABCDEF"@[value]),
{
    reveal_strlit("0123456789abcdef");
    reveal_strlit("0123456789ABCDEF");
    let small = "0123456789abcdef"@;
    let large = "0123456789ABCDEF"@;
    assert(small[0] == '0' && small[1] == '1' && small[2] == '2' && small[3] == '3' && small[4] == '4');
    assert(small[5] == '5' && small[6] == '6' && small[7] == '7' && small[8] == '8' && small[9] == '9');
    assert(small[10] == 'a' && small[11] == 'b' && small[12] == 'c' && small[13] == 'd' && small[14] == 'e');
    assert(small[15] == 'f');
    assert(large[0] == '0' && large[1] == '1' && large[2] == '2' && large[3] == '3' && large[4] == '4');
    assert(large[5] == '5' && large[6] == '6' && large[7] == '7' && large[8] == '8' && large[9] == '9');
    assert(large[10] == 'A' && large[11] == 'B' && large[12] == 'C' && large[13] == 'D' && large[14] == 'E');
    assert(large[15] == 'F');
}

/// Six hexadecimal digits, with or without a `#` before them and with any white
/// space around that, are the colour whose parts they write two by two, and
/// refused only where all of them are zero.
pub proof fn six_digits_write_a_colour(value: Seq<char>, hash: bool, digits: Seq<char>, values: Seq<int>)
    requires
        trimmed(value) == (if hash {
            seq!['#'] + digits
        } else {
            digits
        }),
        digits.len() == 6,
        values.len() == 6,
        forall|i: int|
            #![trigger values[i]]
            0 <= i < 6 ==> 0 <= values[i] < 16 && (digits[i] == "0123456789abcdef"@[values[i]] || digits[i]
                == "0123456789ABCDEF"@[values[i]]),
    ensures
        colour_of(value) == (if values == seq![0int, 0, 0, 0, 0, 0] {
            Err::<Rgb, Problem>(Problem::BlackColour)
        } else {
            Ok(
                Rgb {
                    red: (values[0] * 16 + values[1]) as u8,
                    green: (values[2] * 16 + values[3]) as u8,
                    blue: (values[4] * 16 + values[5]) as u8,
                },
            )
        }),
{
    assert forall|i: int| 0 <= i < 6 implies hex_digit(#[trigger] digits[i]) == Some(values[i] as u8) by {
        hexadecimal_digits_by_value(digits[i], values[i]);
    }
    assert(hex_digit('#') is None);
    assert(digits[0] != '#');
    assert(hash ==> (seq!['#'] + digits).subrange(1, 7) =~= digits);
    assert(colour_digits(value) =~= digits);
    assert(is_colour(digits));
    assert(hex_digit(digits[1]) is Some && hex_digit(digits[2]) is Some && hex_digit(digits[3]) is Some);
    assert(hex_digit(digits[4]) is Some && hex_digit(digits[5]) is Some);
    assert(values[0] >= 0 && values[1] >= 0 && values[2] >= 0 && values[3] >= 0 && values[4] >= 0 && values[5] >= 0);
    if values[0] == 0 && values[1] == 0 && values[2] == 0 && values[3] == 0 && values[4] == 0 && values[5] == 0 {
        assert(values =~= seq![0int, 0, 0, 0, 0, 0]);
    }
}

/// Nothing but six hexadecimal digits, with or without a `#` before them and
/// with any white space around that, is taken for a colour.
pub proof fn nothing_else_writes_a_colour(value: Seq<char>) -> (written: (bool, Seq<char>, Seq<int>))
    requires
        colour_of(value) != Err::<Rgb, Problem>(Problem::NotAColour),
    ensures
        trimmed(value) == (if written.0 {
            seq!['#'] + written.1
        } else {
            written.1
        }),
        written.1.len() == 6,
        written.2.len() == 6,
        forall|i: int|
            #![trigger written.2[i]]
            0 <= i < 6 ==> 0 <= written.2[i] < 16 && (written.1[i] == "0123456789abcdef"@[written.2[i]]
                || written.1[i] == "0123456789ABCDEF"@[written.2[i]]),
{
    let text = trimmed(value);
    let hash = text.len() > 0 && text[0] == '#';
    let digits = colour_digits(value);
    assert(hash ==> text =~= seq!['#'] + digits);
    assert(is_colour(digits));
    let values = Seq::new(6, |i: int| hex_digit(digits[i])->0 as int);
    assert forall|i: int| #![trigger values[i]] 0 <= i < 6 implies 0 <= values[i] < 16 && (digits[i]
        == "0123456789abcdef"@[values[i]] || digits[i] == "0123456789ABCDEF"@[values[i]]) by {
        assert(hex_digit(digits[i]) is Some);
        hexadecimal_digits_by_value(digits[i], values[i]);
    }
    (hash, digits, values)
}

} // verus!
