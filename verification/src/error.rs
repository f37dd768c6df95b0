//! What can be wrong with the settings.

use crate::text::{number_error_text, text_of, NumberError};
use vstd::prelude::*;
use vstd::string::*;

verus! {

/// Why the settings are refused.
#[derive(Debug, PartialEq)]
pub enum ConfigError {
    /// A setting that must be there is missing or blank.
    Missing { name: String },
    /// A setting is no unsigned integer.
    NotAnInteger { name: String, reason: NumberError },
    /// A temperature and a colour are both set for the pulse.
    PulseStyleConflict,
    /// An address and the current holder are both set as the target.
    HolderTargetConflict,
    /// A colour temperature is zero.
    ZeroTemperature { name: String },
    /// A colour temperature is one that no light can show.
    TemperatureOutOfRange { name: String },
    /// A brightness is no percentage.
    BrightnessOutOfRange { name: String },
    /// A colour is not written as six hexadecimal digits.
    NotAColour,
    /// A colour is black.
    BlackColour,
    /// The device type that the bridge is to know the service by is malformed.
    BadDeviceType,
}

/// Why the settings are refused, as mathematics.
pub enum Problem {
    Missing(Seq<char>),
    NotAnInteger(Seq<char>, NumberError),
    PulseStyleConflict,
    HolderTargetConflict,
    ZeroTemperature(Seq<char>),
    TemperatureOutOfRange(Seq<char>),
    BrightnessOutOfRange(Seq<char>),
    NotAColour,
    BlackColour,
    BadDeviceType,
}

impl View for ConfigError {
    type V = Problem;

    open spec fn view(&self) -> Problem {
        match *self {
            ConfigError::Missing { name } => Problem::Missing(name@),
            ConfigError::NotAnInteger { name, reason } => Problem::NotAnInteger(name@, reason),
            ConfigError::PulseStyleConflict => Problem::PulseStyleConflict,
            ConfigError::HolderTargetConflict => Problem::HolderTargetConflict,
            ConfigError::ZeroTemperature { name } => Problem::ZeroTemperature(name@),
            ConfigError::TemperatureOutOfRange { name } => Problem::TemperatureOutOfRange(name@),
            ConfigError::BrightnessOutOfRange { name } => Problem::BrightnessOutOfRange(name@),
            ConfigError::NotAColour => Problem::NotAColour,
            ConfigError::BlackColour => Problem::BlackColour,
            ConfigError::BadDeviceType => Problem::BadDeviceType,
        }
    }
}

/// The sentence that tells the user of a problem.
pub open spec fn problem_text(problem: Problem) -> Seq<char> {
    match problem {
        Problem::Missing(name) => name + " is required; see .env.example"@,
        Problem::NotAnInteger(name, reason) => name + " must be a positive integer"@,
        Problem::PulseStyleConflict => "set only one of PULSE_TEMPERATURE_K and PULSE_COLOR"@,
        Problem::HolderTargetConflict => "set only one of WATCHED_ADDRESS and FOLLOW_CURRENT_HOLDER"@,
        Problem::ZeroTemperature(name) => name + " must be greater than zero"@,
        Problem::TemperatureOutOfRange(name) => name
            + " must be between 2000K and 6535K for a Hue colour-temperature light"@,
        Problem::BrightnessOutOfRange(name) => name + " must be a percentage from 1 to 100"@,
        Problem::NotAColour => "PULSE_COLOR must be a six-digit RGB value, for example #FF9A20"@,
        Problem::BlackColour => "PULSE_COLOR cannot be black; use PULSE_MAX_BRIGHTNESS to choose pulse brightness"@,
        Problem::BadDeviceType =>
            "HUE_DEVICE_TYPE must look like app-name#device-name and be at most 40 characters"@,
    }
}

/// What lies beneath a problem, where there is more to tell.
pub open spec fn problem_reason(problem: Problem) -> Option<Seq<char>> {
    match problem {
        Problem::NotAnInteger(name, reason) => Some(number_error_text(reason)),
        _ => None,
    }
}

impl ConfigError {
    /// The sentence that tells the user of the problem.
    pub fn message(&self) -> (text: String)
        ensures
            text@ == problem_text(self@),
    {
        match self {
            ConfigError::Missing { name } => name.clone().concat(" is required; see .env.example"),
            ConfigError::NotAnInteger { name, .. } => name.clone().concat(" must be a positive integer"),
            ConfigError::PulseStyleConflict => "set only one of PULSE_TEMPERATURE_K and PULSE_COLOR".to_owned(),
            ConfigError::HolderTargetConflict =>
                "set only one of WATCHED_ADDRESS and FOLLOW_CURRENT_HOLDER".to_owned(),
            ConfigError::ZeroTemperature { name } => name.clone().concat(" must be greater than zero"),
            ConfigError::TemperatureOutOfRange { name } => name.clone().concat(
                " must be between 2000K and 6535K for a Hue colour-temperature light",
            ),
            ConfigError::BrightnessOutOfRange { name } => name.clone().concat(" must be a percentage from 1 to 100"),
            ConfigError::NotAColour => "PULSE_COLOR must be a six-digit RGB value, for example #FF9A20".to_owned(),
            ConfigError::BlackColour =>
                "PULSE_COLOR cannot be black; use PULSE_MAX_BRIGHTNESS to choose pulse brightness".to_owned(),
            ConfigError::BadDeviceType =>
                "HUE_DEVICE_TYPE must look like app-name#device-name and be at most 40 characters".to_owned(),
        }
    }

    /// What lies beneath the problem, where there is more to tell.
    pub fn reason(&self) -> (text: Option<String>)
        ensures
            text_of(text) == problem_reason(self@),
    {
        match self {
            ConfigError::NotAnInteger { reason: NumberError::Empty, .. } => Some(
                "cannot parse integer from empty string".to_owned(),
            ),
            ConfigError::NotAnInteger { reason: NumberError::InvalidDigit, .. } => Some(
                "invalid digit found in string".to_owned(),
            ),
            ConfigError::NotAnInteger { reason: NumberError::TooLarge, .. } => Some(
                "number too large to fit in target type".to_owned(),
            ),
            _ => None,
        }
    }
}

/// A problem is seen as it is, with the name of its setting.
pub proof fn a_problem_is_seen_as_it_is(name: String, reason: NumberError)
    ensures
        (ConfigError::Missing { name })@ == Problem::Missing(name@),
        (ConfigError::NotAnInteger { name, reason })@ == Problem::NotAnInteger(name@, reason),
        (ConfigError::ZeroTemperature { name })@ == Problem::ZeroTemperature(name@),
        (ConfigError::TemperatureOutOfRange { name })@ == Problem::TemperatureOutOfRange(name@),
        (ConfigError::BrightnessOutOfRange { name })@ == Problem::BrightnessOutOfRange(name@),
        ConfigError::PulseStyleConflict@ == Problem::PulseStyleConflict,
        ConfigError::HolderTargetConflict@ == Problem::HolderTargetConflict,
        ConfigError::NotAColour@ == Problem::NotAColour,
        ConfigError::BlackColour@ == Problem::BlackColour,
        ConfigError::BadDeviceType@ == Problem::BadDeviceType,
{
}

/// A problem with one setting is told by the name of the setting, whole and
/// first, and by the same words whichever setting it is.
pub proof fn a_problem_is_told_by_its_setting(name: Seq<char>, other: Seq<char>, reason: NumberError, another: NumberError)
    ensures
        told_alike(problem_text(Problem::Missing(name)), name, problem_text(Problem::Missing(other)), other),
        told_alike(
            problem_text(Problem::NotAnInteger(name, reason)),
            name,
            problem_text(Problem::NotAnInteger(other, another)),
            other,
        ),
        told_alike(
            problem_text(Problem::ZeroTemperature(name)),
            name,
            problem_text(Problem::ZeroTemperature(other)),
            other,
        ),
        told_alike(
            problem_text(Problem::TemperatureOutOfRange(name)),
            name,
            problem_text(Problem::TemperatureOutOfRange(other)),
            other,
        ),
        told_alike(
            problem_text(Problem::BrightnessOutOfRange(name)),
            name,
            problem_text(Problem::BrightnessOutOfRange(other)),
            other,
        ),
{
    behind_a_prefix(name, " is required; see .env.example"@);
    behind_a_prefix(other, " is required; see .env.example"@);
    behind_a_prefix(name, " must be a positive integer"@);
    behind_a_prefix(other, " must be a positive integer"@);
    behind_a_prefix(name, " must be greater than zero"@);
    behind_a_prefix(other, " must be greater than zero"@);
    behind_a_prefix(name, " must be between 2000K and 6535K for a Hue colour-temperature light"@);
    behind_a_prefix(other, " must be between 2000K and 6535K for a Hue colour-temperature light"@);
    behind_a_prefix(name, " must be a percentage from 1 to 100"@);
    behind_a_prefix(other, " must be a percentage from 1 to 100"@);
}

/// Whether two texts begin with a name each and go on alike.
pub open spec fn told_alike(text: Seq<char>, name: Seq<char>, other_text: Seq<char>, other: Seq<char>) -> bool {
    &&& name.len() <= text.len() && text.subrange(0, name.len() as int) == name
    &&& other.len() <= other_text.len() && other_text.subrange(0, other.len() as int) == other
    &&& text.subrange(name.len() as int, text.len() as int) == other_text.subrange(
        other.len() as int,
        other_text.len() as int,
    )
}

proof fn behind_a_prefix(name: Seq<char>, rest: Seq<char>)
    ensures
        (name + rest).subrange(0, name.len() as int) == name,
        (name + rest).subrange(name.len() as int, (name + rest).len() as int) == rest,
{
    assert((name + rest).subrange(0, name.len() as int) =~= name);
    assert((name + rest).subrange(name.len() as int, (name + rest).len() as int) =~= rest);
}

/// There is more to tell of a text that is no integer, and it rests on what was
/// wrong with the text alone; of any other problem there is not.
pub proof fn the_reason_rests_on_what_was_wrong(problem: Problem, name: Seq<char>, other: Seq<char>, reason: NumberError)
    ensures
        problem_reason(problem) is Some <==> problem is NotAnInteger,
        problem_reason(Problem::NotAnInteger(name, reason)) == problem_reason(Problem::NotAnInteger(other, reason)),
{
}

} // verus!
