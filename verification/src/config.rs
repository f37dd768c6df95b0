//! The settings of the service, read from environment variables.

use crate::error::{ConfigError, Problem};
use crate::text::{blank, is_blank, parse_u64, same, text_of, trim, trimmed, unsigned, NumberError};
use crate::units::{
    brightness_grows_with_the_percentage, brightness_of, colour_of, hue_brightness, hue_brightness_value,
    kelvin_to_mired, kelvin_to_mired_named, mired_falls_as_kelvin_rises, mired_of, outcome, parse_rgb_hex, Rgb,
};
use vstd::prelude::*;
use vstd::string::*;

verus! {

/// The environment variables that are set to text.
#[derive(Debug)]
pub struct Environment {
    vars: Vec<(String, String)>,
}

/// The values by name, of which the later ones count.
pub open spec fn by_name(vars: Seq<(String, String)>) -> Map<Seq<char>, Seq<char>>
    decreases vars.len(),
{
    if vars.len() == 0 {
        Map::empty()
    } else {
        by_name(vars.subrange(0, vars.len() - 1)).insert(vars[vars.len() - 1].0@, vars[vars.len() - 1].1@)
    }
}

impl View for Environment {
    type V = Map<Seq<char>, Seq<char>>;

    closed spec fn view(&self) -> Map<Seq<char>, Seq<char>> {
        by_name(self.vars@)
    }
}

/// The value of a variable, where it is set.
pub open spec fn lookup(env: Map<Seq<char>, Seq<char>>, name: Seq<char>) -> Option<Seq<char>> {
    if env.contains_key(name) {
        Some(env[name])
    } else {
        None
    }
}

impl Environment {
    /// The environment without variables.
    pub fn new() -> (env: Environment)
        ensures
            env@ == (Map::<Seq<char>, Seq<char>>::empty()),
    {
        Environment { vars: Vec::new() }
    }

    /// Sets a variable.
    pub fn set(&mut self, name: String, value: String)
        ensures
            final(self)@ == old(self)@.insert(name@, value@),
    {
        self.vars.push((name, value));
        assert(self.vars@.subrange(0, self.vars@.len() - 1) =~= old(self).vars@);
    }

    /// The value of a variable, where it is set.
    pub fn var(&self, name: &str) -> (value: Option<String>)
        ensures
            text_of(value) == lookup(self@, name@),
    {
        let mut i: usize = self.vars.len();
        assert(self.vars@.subrange(0, i as int) =~= self.vars@);
        while i > 0
            invariant
                i <= self.vars@.len(),
                lookup(by_name(self.vars@.subrange(0, i as int)), name@) == lookup(self@, name@),
            decreases i,
        {
            let ghost rest = self.vars@.subrange(0, i as int);
            assert(rest.subrange(0, rest.len() - 1) =~= self.vars@.subrange(0, i - 1));
            i = i - 1;
            if same(&self.vars[i].0, name) {
                return Some(self.vars[i].1.clone());
            }
        }
        None
    }
}

/// The value of a variable, where it is set and not blank.
pub open spec fn present(env: Map<Seq<char>, Seq<char>>, name: Seq<char>) -> Option<Seq<char>> {
    match lookup(env, name) {
        Some(value) => if is_blank(value) {
            None
        } else {
            Some(value)
        },
        None => None,
    }
}

/// The value of a variable that must be there.
pub open spec fn required(env: Map<Seq<char>, Seq<char>>, name: Seq<char>) -> Result<Seq<char>, Problem> {
    match present(env, name) {
        Some(value) => Ok(value),
        None => Err(Problem::Missing(name)),
    }
}

/// The number that a variable writes, or the default where it is not set.
pub open spec fn number_or(env: Map<Seq<char>, Seq<char>>, name: Seq<char>, default: u64) -> Result<u64, Problem> {
    match lookup(env, name) {
        Some(value) => match unsigned(value) {
            Ok(number) => Ok(number),
            Err(reason) => Err(Problem::NotAnInteger(name, reason)),
        },
        None => Ok(default),
    }
}

/// The number that a variable writes, where it is set and not blank.
pub open spec fn optional_number(env: Map<Seq<char>, Seq<char>>, name: Seq<char>) -> Result<Option<u64>, Problem> {
    match present(env, name) {
        Some(value) => match unsigned(value) {
            Ok(number) => Ok(Some(number)),
            Err(reason) => Err(Problem::NotAnInteger(name, reason)),
        },
        None => Ok(None),
    }
}

/// The brightness that a variable gives in percent, or the default.
pub open spec fn brightness_named(env: Map<Seq<char>, Seq<char>>, name: Seq<char>, default: u64) -> Result<
    u8,
    Problem,
> {
    match number_or(env, name, default) {
        Ok(percent) => brightness_of(name, percent),
        Err(problem) => Err(problem),
    }
}

/// The colour temperature that a variable gives in kelvin, or the default.
pub open spec fn temperature_named(env: Map<Seq<char>, Seq<char>>, name: Seq<char>, default: u64) -> Result<
    u16,
    Problem,
> {
    match optional_number(env, name) {
        Ok(Some(kelvin)) => mired_of(name, kelvin),
        Ok(None) => mired_of(name, default),
        Err(problem) => Err(problem),
    }
}

/// The colour that a variable gives, or the default.
pub open spec fn colour_named(env: Map<Seq<char>, Seq<char>>, name: Seq<char>, default: Seq<char>) -> Result<
    Rgb,
    Problem,
> {
    match present(env, name) {
        Some(value) => colour_of(value),
        None => colour_of(default),
    }
}

/// A result that is text, as mathematics.
pub open spec fn text_outcome(result: Result<String, ConfigError>) -> Result<Seq<char>, Problem> {
    match result {
        Ok(text) => Ok(text@),
        Err(error) => Err(error@),
    }
}

/// The value of a variable, where it is set and not blank.
pub fn optional_env(env: &Environment, name: &str) -> (value: Option<String>)
    ensures
        text_of(value) == present(env@, name@),
{
    match env.var(name) {
        Some(value) => if blank(&value) {
            None
        } else {
            Some(value)
        },
        None => None,
    }
}

/// The value of a variable that must be there.
pub fn required_env(env: &Environment, name: &str) -> (value: Result<String, ConfigError>)
    ensures
        text_outcome(value) == required(env@, name@),
{
    match optional_env(env, name) {
        Some(value) => Ok(value),
        None => Err(ConfigError::Missing { name: name.to_owned() }),
    }
}

/// The number that a variable writes, or the default where it is not set.
pub fn env_u64(env: &Environment, name: &str, default: u64) -> (number: Result<u64, ConfigError>)
    ensures
        outcome(number) == number_or(env@, name@, default),
{
    match env.var(name) {
        Some(value) => match parse_u64(&value) {
            Ok(number) => Ok(number),
            Err(reason) => Err(ConfigError::NotAnInteger { name: name.to_owned(), reason }),
        },
        None => Ok(default),
    }
}

/// The number that a variable writes, where it is set and not blank.
pub fn optional_env_u64(env: &Environment, name: &str) -> (number: Result<Option<u64>, ConfigError>)
    ensures
        outcome(number) == optional_number(env@, name@),
{
    match optional_env(env, name) {
        Some(value) => match parse_u64(&value) {
            Ok(number) => Ok(Some(number)),
            Err(reason) => Err(ConfigError::NotAnInteger { name: name.to_owned(), reason }),
        },
        None => Ok(None),
    }
}

/// The brightness that a variable gives in percent, on the scale of the bridge.
pub fn hue_brightness_named(env: &Environment, name: &str, default: u64) -> (bri: Result<u8, ConfigError>)
    ensures
        outcome(bri) == brightness_named(env@, name@, default),
{
    match env_u64(env, name, default) {
        Ok(percent) => hue_brightness_value(name, percent),
        Err(error) => Err(error),
    }
}

fn temperature(env: &Environment, name: &str, default: u64) -> (mired: Result<u16, ConfigError>)
    ensures
        outcome(mired) == temperature_named(env@, name@, default),
{
    match optional_env_u64(env, name) {
        Ok(Some(kelvin)) => kelvin_to_mired_named(name, kelvin),
        Ok(None) => kelvin_to_mired_named(name, default),
        Err(error) => Err(error),
    }
}

fn colour(env: &Environment, name: &str, default: &str) -> (rgb: Result<Rgb, ConfigError>)
    ensures
        outcome(rgb) == colour_named(env@, name@, default@),
{
    match optional_env(env, name) {
        Some(value) => parse_rgb_hex(&value),
        None => parse_rgb_hex(default),
    }
}

/// How a pulse is coloured.
#[derive(Debug, Clone, Copy, PartialEq)]
pub enum PulseStyle {
    /// As the light was.
    Preserve,
    /// At a colour temperature, in mired.
    Temperature(u16),
    /// In a colour.
    Colour(Rgb),
}

/// Whose hold the light shows.
#[derive(Debug, PartialEq)]
pub enum HolderTarget {
    /// That of one address.
    Address(String),
    /// That of whoever holds the potato.
    CurrentHolder,
}

/// Whose hold the light shows, as mathematics.
pub enum TargetView {
    Address(Seq<char>),
    CurrentHolder,
}

impl View for HolderTarget {
    type V = TargetView;

    open spec fn view(&self) -> TargetView {
        match *self {
            HolderTarget::Address(address) => TargetView::Address(address@),
            HolderTarget::CurrentHolder => TargetView::CurrentHolder,
        }
    }
}

/// How the light shows a hold, from its start to its deadline.
#[derive(Debug, PartialEq)]
pub struct HolderConfig {
    pub target: HolderTarget,
    pub start_bri: u8,
    pub end_bri: u8,
    pub start_colour: Rgb,
    pub end_colour: Rgb,
    pub start_ct: u16,
    pub end_ct: u16,
}

/// How the light shows a hold, as mathematics.
pub struct HolderView {
    pub target: TargetView,
    pub start_bri: u8,
    pub end_bri: u8,
    pub start_colour: Rgb,
    pub end_colour: Rgb,
    pub start_ct: u16,
    pub end_ct: u16,
}

impl View for HolderConfig {
    type V = HolderView;

    open spec fn view(&self) -> HolderView {
        HolderView {
            target: self.target@,
            start_bri: self.start_bri,
            end_bri: self.end_bri,
            start_colour: self.start_colour,
            end_colour: self.end_colour,
            start_ct: self.start_ct,
            end_ct: self.end_ct,
        }
    }
}

/// The settings of the service.
#[derive(Debug, PartialEq)]
pub struct Config {
    pub bridge_ip: String,
    pub app_key: String,
    pub light_id: String,
    pub poll_seconds: u64,
    pub pulse_on_ms: u64,
    pub pulse_gap_ms: u64,
    pub pulse_bri: u8,
    pub pulse_style: PulseStyle,
    pub holder: Option<HolderConfig>,
    pub state_file: String,
}

/// The settings of the service, as mathematics.
pub struct ConfigView {
    pub bridge_ip: Seq<char>,
    pub app_key: Seq<char>,
    pub light_id: Seq<char>,
    pub poll_seconds: u64,
    pub pulse_on_ms: u64,
    pub pulse_gap_ms: u64,
    pub pulse_bri: u8,
    pub pulse_style: PulseStyle,
    pub holder: Option<HolderView>,
    pub state_file: Seq<char>,
}

impl View for Config {
    type V = ConfigView;

    open spec fn view(&self) -> ConfigView {
        ConfigView {
            bridge_ip: self.bridge_ip@,
            app_key: self.app_key@,
            light_id: self.light_id@,
            poll_seconds: self.poll_seconds,
            pulse_on_ms: self.pulse_on_ms,
            pulse_gap_ms: self.pulse_gap_ms,
            pulse_bri: self.pulse_bri,
            pulse_style: self.pulse_style,
            holder: holder_view(self.holder),
            state_file: self.state_file@,
        }
    }
}

/// An optional holder mode as mathematics.
pub open spec fn holder_view(holder: Option<HolderConfig>) -> Option<HolderView> {
    match holder {
        Some(holder) => Some(holder@),
        None => None,
    }
}

/// How the settings colour a pulse.
pub open spec fn pulse_style_of(env: Map<Seq<char>, Seq<char>>) -> Result<PulseStyle, Problem> {
    match (optional_number(env, "PULSE_TEMPERATURE_K"@), present(env, "PULSE_COLOR"@)) {
        (Err(problem), _) => Err(problem),
        (Ok(Some(_)), Some(_)) => Err(Problem::PulseStyleConflict),
        (Ok(Some(kelvin)), None) => match mired_of("PULSE_TEMPERATURE_K"@, kelvin) {
            Ok(mired) => Ok(PulseStyle::Temperature(mired)),
            Err(problem) => Err(problem),
        },
        (Ok(None), Some(value)) => match colour_of(value) {
            Ok(rgb) => Ok(PulseStyle::Colour(rgb)),
            Err(problem) => Err(problem),
        },
        (Ok(None), None) => Ok(PulseStyle::Preserve),
    }
}

/// Whose hold the settings make the light show, if any.
pub open spec fn target_of(env: Map<Seq<char>, Seq<char>>) -> Result<Option<TargetView>, Problem> {
    let follow = match present(env, "FOLLOW_CURRENT_HOLDER"@) {
        Some(value) => trimmed(value) == "true"@,
        None => false,
    };
    match present(env, "WATCHED_ADDRESS"@) {
        Some(address) => if follow {
            Err(Problem::HolderTargetConflict)
        } else {
            Ok(Some(TargetView::Address(trimmed(address))))
        },
        None => if follow {
            Ok(Some(TargetView::CurrentHolder))
        } else {
            Ok(None)
        },
    }
}

/// How the settings make the light show the holds of a target. The first
/// problem among them is the one that is told.
pub open spec fn holder_style_of(env: Map<Seq<char>, Seq<char>>, target: TargetView) -> Result<HolderView, Problem> {
    let start_bri = brightness_named(env, "HOLDER_START_BRIGHTNESS"@, 10);
    let end_bri = brightness_named(env, "HOLDER_END_BRIGHTNESS"@, 100);
    let start_colour = colour_named(env, "HOLDER_START_COLOR"@, "#8B4513"@);
    let end_colour = colour_named(env, "HOLDER_END_COLOR"@, "#FF0000"@);
    let start_ct = temperature_named(env, "HOLDER_START_TEMPERATURE_K"@, 2_200);
    let end_ct = temperature_named(env, "HOLDER_END_TEMPERATURE_K"@, 6_500);
    if start_bri is Err {
        Err(start_bri->Err_0)
    } else if end_bri is Err {
        Err(end_bri->Err_0)
    } else if start_colour is Err {
        Err(start_colour->Err_0)
    } else if end_colour is Err {
        Err(end_colour->Err_0)
    } else if start_ct is Err {
        Err(start_ct->Err_0)
    } else if end_ct is Err {
        Err(end_ct->Err_0)
    } else {
        Ok(
            HolderView {
                target,
                start_bri: start_bri->Ok_0,
                end_bri: end_bri->Ok_0,
                start_colour: start_colour->Ok_0,
                end_colour: end_colour->Ok_0,
                start_ct: start_ct->Ok_0,
                end_ct: end_ct->Ok_0,
            },
        )
    }
}

/// The holder mode that the settings ask for, if any.
pub open spec fn holder_of(env: Map<Seq<char>, Seq<char>>) -> Result<Option<HolderView>, Problem> {
    match target_of(env) {
        Err(problem) => Err(problem),
        Ok(None) => Ok(None),
        Ok(Some(target)) => match holder_style_of(env, target) {
            Err(problem) => Err(problem),
            Ok(holder) => Ok(Some(holder)),
        },
    }
}

/// The light that the settings choose.
pub open spec fn light_id_of(env: Map<Seq<char>, Seq<char>>, require_light_id: bool) -> Result<Seq<char>, Problem> {
    if require_light_id {
        required(env, "HUE_LIGHT_ID"@)
    } else {
        match lookup(env, "HUE_LIGHT_ID"@) {
            Some(value) => Ok(value),
            None => Ok(Seq::empty()),
        }
    }
}

/// The file that the settings keep the state in.
pub open spec fn state_file_of(env: Map<Seq<char>, Seq<char>>) -> Seq<char> {
    match lookup(env, "POTATO_STATE_FILE"@) {
        Some(value) => value,
        None => "potato-hue-state.json"@,
    }
}

/// What the environment sets. The first problem in it is the one that is told.
pub open spec fn config_of(env: Map<Seq<char>, Seq<char>>, require_light_id: bool) -> Result<ConfigView, Problem> {
    let pulse_style = pulse_style_of(env);
    let holder = holder_of(env);
    let bridge_ip = required(env, "HUE_BRIDGE_IP"@);
    let app_key = required(env, "HUE_APP_KEY"@);
    let light_id = light_id_of(env, require_light_id);
    let poll_seconds = number_or(env, "POTATO_POLL_SECONDS"@, 60);
    let pulse_on_ms = number_or(env, "PULSE_ON_MS"@, 450);
    let pulse_gap_ms = number_or(env, "PULSE_GAP_MS"@, 180);
    let pulse_bri = brightness_named(env, "PULSE_MAX_BRIGHTNESS"@, 100);
    if pulse_style is Err {
        Err(pulse_style->Err_0)
    } else if holder is Err {
        Err(holder->Err_0)
    } else if bridge_ip is Err {
        Err(bridge_ip->Err_0)
    } else if app_key is Err {
        Err(app_key->Err_0)
    } else if light_id is Err {
        Err(light_id->Err_0)
    } else if poll_seconds is Err {
        Err(poll_seconds->Err_0)
    } else if pulse_on_ms is Err {
        Err(pulse_on_ms->Err_0)
    } else if pulse_gap_ms is Err {
        Err(pulse_gap_ms->Err_0)
    } else if pulse_bri is Err {
        Err(pulse_bri->Err_0)
    } else {
        Ok(
            ConfigView {
                bridge_ip: bridge_ip->Ok_0,
                app_key: app_key->Ok_0,
                light_id: light_id->Ok_0,
                poll_seconds: poll_seconds->Ok_0,
                pulse_on_ms: pulse_on_ms->Ok_0,
                pulse_gap_ms: pulse_gap_ms->Ok_0,
                pulse_bri: pulse_bri->Ok_0,
                pulse_style: pulse_style->Ok_0,
                holder: holder->Ok_0,
                state_file: state_file_of(env),
            },
        )
    }
}

/// The address of a resource of the bridge.
pub open spec fn api_address(config: ConfigView, path: Seq<char>) -> Seq<char> {
    "http://"@ + config.bridge_ip + "/api/"@ + config.app_key + path
}

/// The address of the light that the settings choose.
pub open spec fn light_address(config: ConfigView) -> Seq<char> {
    api_address(config, "/lights/"@ + config.light_id)
}

/// The address where the state of that light is set.
pub open spec fn light_state_address(config: ConfigView) -> Seq<char> {
    api_address(config, "/lights/"@ + config.light_id + "/state"@)
}

fn pulse_style(env: &Environment) -> (style: Result<PulseStyle, ConfigError>)
    ensures
        outcome(style) == pulse_style_of(env@),
{
    let kelvin = match optional_env_u64(env, "PULSE_TEMPERATURE_K") {
        Ok(kelvin) => kelvin,
        Err(error) => return Err(error),
    };
    match (kelvin, optional_env(env, "PULSE_COLOR")) {
        (Some(_), Some(_)) => Err(ConfigError::PulseStyleConflict),
        (Some(kelvin), None) => match kelvin_to_mired(kelvin) {
            Ok(mired) => Ok(PulseStyle::Temperature(mired)),
            Err(error) => Err(error),
        },
        (None, Some(value)) => match parse_rgb_hex(&value) {
            Ok(rgb) => Ok(PulseStyle::Colour(rgb)),
            Err(error) => Err(error),
        },
        (None, None) => Ok(PulseStyle::Preserve),
    }
}

/// An optional target, or a problem, as mathematics.
pub open spec fn target_outcome(result: Result<Option<HolderTarget>, ConfigError>) -> Result<
    Option<TargetView>,
    Problem,
> {
    match result {
        Ok(Some(target)) => Ok(Some(target@)),
        Ok(None) => Ok(None),
        Err(error) => Err(error@),
    }
}

fn holder_target(env: &Environment) -> (target: Result<Option<HolderTarget>, ConfigError>)
    ensures
        target_outcome(target) == target_of(env@),
{
    let follow: bool = match optional_env(env, "FOLLOW_CURRENT_HOLDER") {
        Some(value) => same(trim(&value), "true"),
        None => false,
    };
    match optional_env(env, "WATCHED_ADDRESS") {
        Some(address) => if follow {
            Err(ConfigError::HolderTargetConflict)
        } else {
            Ok(Some(HolderTarget::Address(trim(&address).to_owned())))
        },
        None => if follow {
            Ok(Some(HolderTarget::CurrentHolder))
        } else {
            Ok(None)
        },
    }
}

/// A holder mode, or a problem, as mathematics.
pub open spec fn holder_outcome(result: Result<HolderConfig, ConfigError>) -> Result<HolderView, Problem> {
    match result {
        Ok(holder) => Ok(holder@),
        Err(error) => Err(error@),
    }
}

impl HolderConfig {
    /// How the environment makes the light show the holds of a target.
    pub fn from_env(env: &Environment, target: HolderTarget) -> (holder: Result<HolderConfig, ConfigError>)
        ensures
            holder_outcome(holder) == holder_style_of(env@, target@),
    {
        let start_bri = match hue_brightness_named(env, "HOLDER_START_BRIGHTNESS", 10) {
            Ok(value) => value,
            Err(error) => return Err(error),
        };
        let end_bri = match hue_brightness_named(env, "HOLDER_END_BRIGHTNESS", 100) {
            Ok(value) => value,
            Err(error) => return Err(error),
        };
        let start_colour = match colour(env, "HOLDER_START_COLOR", "#8B4513") {
            Ok(value) => value,
            Err(error) => return Err(error),
        };
        let end_colour = match colour(env, "HOLDER_END_COLOR", "#FF0000") {
            Ok(value) => value,
            Err(error) => return Err(error),
        };
        let start_ct = match temperature(env, "HOLDER_START_TEMPERATURE_K", 2_200) {
            Ok(value) => value,
            Err(error) => return Err(error),
        };
        let end_ct = match temperature(env, "HOLDER_END_TEMPERATURE_K", 6_500) {
            Ok(value) => value,
            Err(error) => return Err(error),
        };
        Ok(HolderConfig { target, start_bri, end_bri, start_colour, end_colour, start_ct, end_ct })
    }
}

/// The settings, or a problem, as mathematics.
pub open spec fn config_outcome(result: Result<Config, ConfigError>) -> Result<ConfigView, Problem> {
    match result {
        Ok(config) => Ok(config@),
        Err(error) => Err(error@),
    }
}

impl Config {
    /// The settings for watching and pulsing.
    pub fn from_env(env: &Environment) -> (config: Result<Config, ConfigError>)
        ensures
            config_outcome(config) == config_of(env@, true),
    {
        Config::from_env_with_light_id(env, true)
    }

    /// The settings for listing the lights, which need no chosen light.
    pub fn for_listing(env: &Environment) -> (config: Result<Config, ConfigError>)
        ensures
            config_outcome(config) == config_of(env@, false),
    {
        Config::from_env_with_light_id(env, false)
    }

    /// The settings of the environment.
    pub fn from_env_with_light_id(env: &Environment, require_light_id: bool) -> (config: Result<Config, ConfigError>)
        ensures
            config_outcome(config) == config_of(env@, require_light_id),
    {
        let pulse_style = match pulse_style(env) {
            Ok(value) => value,
            Err(error) => return Err(error),
        };
        let holder = match holder_target(env) {
            Ok(Some(target)) => match HolderConfig::from_env(env, target) {
                Ok(holder) => Some(holder),
                Err(error) => return Err(error),
            },
            Ok(None) => None,
            Err(error) => return Err(error),
        };
        let bridge_ip = match required_env(env, "HUE_BRIDGE_IP") {
            Ok(value) => value,
            Err(error) => return Err(error),
        };
        let app_key = match required_env(env, "HUE_APP_KEY") {
            Ok(value) => value,
            Err(error) => return Err(error),
        };
        let light_id = if require_light_id {
            match required_env(env, "HUE_LIGHT_ID") {
                Ok(value) => value,
                Err(error) => return Err(error),
            }
        } else {
            match env.var("HUE_LIGHT_ID") {
                Some(value) => value,
                None => String::new(),
            }
        };
        let poll_seconds = match env_u64(env, "POTATO_POLL_SECONDS", 60) {
            Ok(value) => value,
            Err(error) => return Err(error),
        };
        let pulse_on_ms = match env_u64(env, "PULSE_ON_MS", 450) {
            Ok(value) => value,
            Err(error) => return Err(error),
        };
        let pulse_gap_ms = match env_u64(env, "PULSE_GAP_MS", 180) {
            Ok(value) => value,
            Err(error) => return Err(error),
        };
        let percent = match env_u64(env, "PULSE_MAX_BRIGHTNESS", 100) {
            Ok(value) => value,
            Err(error) => return Err(error),
        };
        let pulse_bri = match hue_brightness(percent) {
            Ok(value) => value,
            Err(error) => return Err(error),
        };
        let state_file = match env.var("POTATO_STATE_FILE") {
            Some(value) => value,
            None => "potato-hue-state.json".to_owned(),
        };
        Ok(
            Config {
                bridge_ip,
                app_key,
                light_id,
                poll_seconds,
                pulse_on_ms,
                pulse_gap_ms,
                pulse_bri,
                pulse_style,
                holder,
                state_file,
            },
        )
    }

    /// The address of a resource of the bridge.
    pub fn api_url(&self, path: &str) -> (url: String)
        ensures
            url@ == api_address(self@, path@),
    {
        "http://".to_owned().concat(&self.bridge_ip).concat("/api/").concat(&self.app_key).concat(path)
    }

    /// The address of the light that the settings choose.
    pub fn light_url(&self) -> (url: String)
        ensures
            url@ == api_address(self@, "/lights/"@ + self@.light_id),
            url@ == light_address(self@),
    {
        self.api_url(&"/lights/".to_owned().concat(&self.light_id))
    }

    /// The address where the state of that light is set.
    pub fn light_state_url(&self) -> (url: String)
        ensures
            url@ == api_address(self@, "/lights/"@ + self@.light_id + "/state"@),
            url@ == light_state_address(self@),
    {
        self.api_url(&"/lights/".to_owned().concat(&self.light_id).concat("/state"))
    }
}

/// A temperature and a colour for the pulse exclude each other.
pub proof fn one_pulse_style_at_most(env: Map<Seq<char>, Seq<char>>, require_light_id: bool)
    requires
        present(env, "PULSE_TEMPERATURE_K"@) is Some,
        present(env, "PULSE_COLOR"@) is Some,
    ensures
        config_of(env, require_light_id) is Err,
{
}

/// An address to watch and following whoever holds the potato exclude each
/// other.
pub proof fn one_holder_target_at_most(env: Map<Seq<char>, Seq<char>>, require_light_id: bool)
    requires
        present(env, "WATCHED_ADDRESS"@) is Some,
        present(env, "FOLLOW_CURRENT_HOLDER"@) matches Some(value) && trimmed(value) == "true"@,
    ensures
        config_of(env, require_light_id) is Err,
{
}

/// Holder mode is on where one of its targets is set, and only there.
pub proof fn holder_mode_needs_a_target(env: Map<Seq<char>, Seq<char>>, require_light_id: bool)
    requires
        config_of(env, require_light_id) is Ok,
    ensures
        config_of(env, require_light_id)->Ok_0.holder is Some <==> (present(env, "WATCHED_ADDRESS"@) is Some || (
        present(env, "FOLLOW_CURRENT_HOLDER"@) matches Some(value) && trimmed(value) == "true"@)),
{
}

/// Settings that are good for watching are as good for listing the lights.
pub proof fn listing_needs_no_more_than_watching(env: Map<Seq<char>, Seq<char>>)
    requires
        config_of(env, true) is Ok,
    ensures
        config_of(env, false) == config_of(env, true),
{
}

/// Whether a light can take a brightness.
pub open spec fn bri_in_range(bri: u8) -> bool {
    1 <= bri <= 254
}

/// Whether a light can take a colour temperature.
pub open spec fn ct_in_range(ct: u16) -> bool {
    153 <= ct <= 500
}

/// Settings that are accepted hold nothing that a light cannot take.
pub proof fn accepted_settings_are_in_range(env: Map<Seq<char>, Seq<char>>, require_light_id: bool)
    requires
        config_of(env, require_light_id) is Ok,
    ensures
        ({
            let config = config_of(env, require_light_id)->Ok_0;
            &&& bri_in_range(config.pulse_bri)
            &&& config.pulse_style matches PulseStyle::Temperature(ct) ==> ct_in_range(ct)
            &&& config.holder matches Some(holder) ==> {
                &&& bri_in_range(holder.start_bri)
                &&& bri_in_range(holder.end_bri)
                &&& ct_in_range(holder.start_ct)
                &&& ct_in_range(holder.end_ct)
            }
        }),
{
    assert forall|name: Seq<char>, percent: u64| #[trigger] brightness_of(name, percent) is Ok implies bri_in_range(
        brightness_of(name, percent)->Ok_0,
    ) by {
        brightness_grows_with_the_percentage(name, percent, percent);
    }
    assert forall|name: Seq<char>, kelvin: u64| #[trigger] mired_of(name, kelvin) is Ok implies ct_in_range(
        mired_of(name, kelvin)->Ok_0,
    ) by {
        mired_falls_as_kelvin_rises(name, kelvin, kelvin);
    }
}

/// A variable has the value that it was set to last, whatever is set besides.
pub proof fn a_variable_has_the_value_it_was_set_to(
    env: Map<Seq<char>, Seq<char>>,
    name: Seq<char>,
    value: Seq<char>,
    other: Seq<char>,
)
    ensures
        lookup(env.insert(name, value), name) == Some(value),
        other != name ==> lookup(env.insert(name, value), other) == lookup(env, other),
        lookup(Map::empty(), name) is None,
        env.contains_key(name) ==> lookup(env, name) == Some(env[name]),
        !env.contains_key(name) ==> lookup(env, name) is None,
{
}

/// A variable counts where it is set and not blank, with its whole value, and one
/// that must be there is missing in any other case.
pub proof fn a_blank_variable_is_as_good_as_none(env: Map<Seq<char>, Seq<char>>, name: Seq<char>)
    ensures
        env.contains_key(name) && !is_blank(env[name]) ==> {
            &&& present(env, name) == Some(env[name])
            &&& required(env, name) == (Ok::<Seq<char>, Problem>(env[name]))
        },
        !env.contains_key(name) || is_blank(env[name]) ==> {
            &&& present(env, name) is None
            &&& required(env, name) == (Err::<Seq<char>, Problem>(Problem::Missing(name)))
        },
{
}

/// A number is the one that its variable writes, and the default only where the
/// variable is not set, or, for an optional one, blank; a text that is no number
/// is told by the name of the variable and by what is wrong with it.
pub proof fn a_number_is_the_one_its_variable_writes(env: Map<Seq<char>, Seq<char>>, name: Seq<char>, default: u64)
    ensures
        !env.contains_key(name) ==> number_or(env, name, default) == (Ok::<u64, Problem>(default)),
        env.contains_key(name) ==> match unsigned(env[name]) {
            Ok(number) => number_or(env, name, default) == (Ok::<u64, Problem>(number)),
            Err(reason) => number_or(env, name, default) == (Err::<u64, Problem>(
                Problem::NotAnInteger(name, reason),
            )),
        },
        !env.contains_key(name) || is_blank(env[name]) ==> optional_number(env, name) == (Ok::<Option<u64>, Problem>(
            None,
        )),
        env.contains_key(name) && !is_blank(env[name]) ==> match unsigned(env[name]) {
            Ok(number) => optional_number(env, name) == (Ok::<Option<u64>, Problem>(Some(number))),
            Err(reason) => optional_number(env, name) == (Err::<Option<u64>, Problem>(
                Problem::NotAnInteger(name, reason),
            )),
        },
{
}

/// A brightness is that of the percentage that its variable writes, or of the
/// default.
pub proof fn a_brightness_is_that_of_its_variable(env: Map<Seq<char>, Seq<char>>, name: Seq<char>, default: u64)
    ensures
        ({
            let bri = brightness_named(env, name, default);
            &&& !env.contains_key(name) ==> bri == brightness_of(name, default)
            &&& env.contains_key(name) ==> match unsigned(env[name]) {
                Ok(percent) => bri == brightness_of(name, percent),
                Err(reason) => bri == (Err::<u8, Problem>(Problem::NotAnInteger(name, reason))),
            }
        }),
{
}

/// A temperature is that of the kelvin that its variable writes, or of the default
/// where the variable is not set or blank.
pub proof fn a_temperature_is_that_of_its_variable(env: Map<Seq<char>, Seq<char>>, name: Seq<char>, default: u64)
    ensures
        ({
            let mired = temperature_named(env, name, default);
            let set = env.contains_key(name) && !is_blank(env[name]);
            &&& !set ==> mired == mired_of(name, default)
            &&& set ==> match unsigned(env[name]) {
                Ok(kelvin) => mired == mired_of(name, kelvin),
                Err(reason) => mired == (Err::<u16, Problem>(Problem::NotAnInteger(name, reason))),
            }
        }),
{
}

/// A colour is the one that its variable writes, or the default where the variable
/// is not set or blank.
pub proof fn a_colour_is_that_of_its_variable(env: Map<Seq<char>, Seq<char>>, name: Seq<char>, default: Seq<char>)
    ensures
        env.contains_key(name) && !is_blank(env[name]) ==> colour_named(env, name, default) == colour_of(env[name]),
        !env.contains_key(name) || is_blank(env[name]) ==> colour_named(env, name, default) == colour_of(default),
{
}

/// A pulse has the temperature or the colour that is set, and keeps that of the
/// light where neither is. A temperature that is no number is told first, and then
/// that both are set.
pub proof fn a_pulse_has_the_style_that_is_set(env: Map<Seq<char>, Seq<char>>)
    ensures
        ({
            let warm = env.contains_key("PULSE_TEMPERATURE_K"@) && !is_blank(env["PULSE_TEMPERATURE_K"@]);
            let coloured = env.contains_key("PULSE_COLOR"@) && !is_blank(env["PULSE_COLOR"@]);
            let kelvin = unsigned(env["PULSE_TEMPERATURE_K"@]);
            let style = pulse_style_of(env);
            &&& !warm && !coloured ==> style == (Ok::<PulseStyle, Problem>(PulseStyle::Preserve))
            &&& !warm && coloured ==> match colour_of(env["PULSE_COLOR"@]) {
                Ok(rgb) => style == (Ok::<PulseStyle, Problem>(PulseStyle::Colour(rgb))),
                Err(problem) => style == (Err::<PulseStyle, Problem>(problem)),
            }
            &&& warm && kelvin is Err ==> style == (Err::<PulseStyle, Problem>(
                Problem::NotAnInteger("PULSE_TEMPERATURE_K"@, kelvin->Err_0),
            ))
            &&& warm && kelvin is Ok && coloured ==> style == (Err::<PulseStyle, Problem>(Problem::PulseStyleConflict))
            &&& warm && kelvin is Ok && !coloured ==> match mired_of("PULSE_TEMPERATURE_K"@, kelvin->Ok_0) {
                Ok(mired) => style == (Ok::<PulseStyle, Problem>(PulseStyle::Temperature(mired))),
                Err(problem) => style == (Err::<PulseStyle, Problem>(problem)),
            }
        }),
{
}

/// Holder mode watches the address that is set, without the white space around
/// it, or whoever holds the potato where that is set to true, and not both.
pub proof fn holder_mode_watches_whom_it_is_set_to(env: Map<Seq<char>, Seq<char>>)
    ensures
        ({
            let address = env.contains_key("WATCHED_ADDRESS"@) && !is_blank(env["WATCHED_ADDRESS"@]);
            let follow = env.contains_key("FOLLOW_CURRENT_HOLDER"@) && !is_blank(env["FOLLOW_CURRENT_HOLDER"@])
                && trimmed(env["FOLLOW_CURRENT_HOLDER"@]) == "true"@;
            let target = target_of(env);
            &&& address && follow ==> target == (Err::<Option<TargetView>, Problem>(Problem::HolderTargetConflict))
            &&& address && !follow ==> target == (Ok::<Option<TargetView>, Problem>(
                Some(TargetView::Address(trimmed(env["WATCHED_ADDRESS"@]))),
            ))
            &&& !address && follow ==> target == (Ok::<Option<TargetView>, Problem>(Some(TargetView::CurrentHolder)))
            &&& !address && !follow ==> target == (Ok::<Option<TargetView>, Problem>(None))
        }),
{
}

/// A hold is styled by six settings, each of its own variable and with its own
/// default. The first of them that is wrong is the one that is told.
pub proof fn a_hold_is_styled_as_it_is_set(env: Map<Seq<char>, Seq<char>>, target: TargetView)
    ensures
        ({
            let start_bri = brightness_named(env, "HOLDER_START_BRIGHTNESS"@, 10);
            let end_bri = brightness_named(env, "HOLDER_END_BRIGHTNESS"@, 100);
            let start_colour = colour_named(env, "HOLDER_START_COLOR"@, "#8B4513"@);
            let end_colour = colour_named(env, "HOLDER_END_COLOR"@, "#FF0000"@);
            let start_ct = temperature_named(env, "HOLDER_START_TEMPERATURE_K"@, 2200);
            let end_ct = temperature_named(env, "HOLDER_END_TEMPERATURE_K"@, 6500);
            match holder_style_of(env, target) {
                Ok(holder) => {
                    &&& holder.target == target
                    &&& start_bri == (Ok::<u8, Problem>(holder.start_bri))
                    &&& end_bri == (Ok::<u8, Problem>(holder.end_bri))
                    &&& start_colour == (Ok::<Rgb, Problem>(holder.start_colour))
                    &&& end_colour == (Ok::<Rgb, Problem>(holder.end_colour))
                    &&& start_ct == (Ok::<u16, Problem>(holder.start_ct))
                    &&& end_ct == (Ok::<u16, Problem>(holder.end_ct))
                },
                Err(problem) => {
                    ||| start_bri == (Err::<u8, Problem>(problem))
                    ||| start_bri is Ok && end_bri == (Err::<u8, Problem>(problem))
                    ||| start_bri is Ok && end_bri is Ok && start_colour == (Err::<Rgb, Problem>(problem))
                    ||| start_bri is Ok && end_bri is Ok && start_colour is Ok && end_colour == (Err::<Rgb, Problem>(
                        problem,
                    ))
                    ||| start_bri is Ok && end_bri is Ok && start_colour is Ok && end_colour is Ok && start_ct == (Err::<
                        u16,
                        Problem,
                    >(problem))
                    ||| start_bri is Ok && end_bri is Ok && start_colour is Ok && end_colour is Ok && start_ct is Ok
                        && end_ct == (Err::<u16, Problem>(problem))
                },
            }
        }),
{
}

/// Settings that are accepted are those of the environment: each text is the value
/// of its own variable, whole, and each number the one that its own variable
/// writes, or the default where that is not set.
pub proof fn accepted_settings_are_those_of_the_environment(env: Map<Seq<char>, Seq<char>>, require_light_id: bool)
    requires
        config_of(env, require_light_id) is Ok,
    ensures
        ({
            let config = config_of(env, require_light_id)->Ok_0;
            let number = |name: Seq<char>, default: u64, found: u64|
                if env.contains_key(name) {
                    unsigned(env[name]) == (Ok::<u64, NumberError>(found))
                } else {
                    found == default
                };
            &&& env.contains_key("HUE_BRIDGE_IP"@) && !is_blank(env["HUE_BRIDGE_IP"@])
            &&& config.bridge_ip == env["HUE_BRIDGE_IP"@]
            &&& env.contains_key("HUE_APP_KEY"@) && !is_blank(env["HUE_APP_KEY"@])
            &&& config.app_key == env["HUE_APP_KEY"@]
            &&& env.contains_key("HUE_LIGHT_ID"@) ==> config.light_id == env["HUE_LIGHT_ID"@]
            &&& !env.contains_key("HUE_LIGHT_ID"@) ==> config.light_id.len() == 0
            &&& require_light_id ==> env.contains_key("HUE_LIGHT_ID"@) && !is_blank(env["HUE_LIGHT_ID"@])
            &&& env.contains_key("POTATO_STATE_FILE"@) ==> config.state_file == env["POTATO_STATE_FILE"@]
            &&& !env.contains_key("POTATO_STATE_FILE"@) ==> config.state_file == "potato-hue-state.json"@
            &&& number("POTATO_POLL_SECONDS"@, 60, config.poll_seconds)
            &&& number("PULSE_ON_MS"@, 450, config.pulse_on_ms)
            &&& number("PULSE_GAP_MS"@, 180, config.pulse_gap_ms)
            &&& pulse_style_of(env) == (Ok::<PulseStyle, Problem>(config.pulse_style))
        }),
{
}

/// The brightness of a pulse is the step that lies nearest to the percentage that
/// is set, which is the full one by default.
pub proof fn a_pulse_is_as_bright_as_it_is_set(env: Map<Seq<char>, Seq<char>>, require_light_id: bool, percent: u64)
    requires
        config_of(env, require_light_id) is Ok,
        env.contains_key("PULSE_MAX_BRIGHTNESS"@) ==> unsigned(env["PULSE_MAX_BRIGHTNESS"@]) == (Ok::<
            u64,
            NumberError,
        >(percent)),
        !env.contains_key("PULSE_MAX_BRIGHTNESS"@) ==> percent == 100,
    ensures
        1 <= percent && percent <= 100,
        -50 < config_of(env, require_light_id)->Ok_0.pulse_bri * 100 - percent * 254 <= 50,
{
}

/// Holder mode is set as the environment says whom to watch and how to show it.
pub proof fn holder_mode_is_what_the_environment_sets(env: Map<Seq<char>, Seq<char>>, require_light_id: bool)
    requires
        config_of(env, require_light_id) is Ok,
    ensures
        ({
            let holder = config_of(env, require_light_id)->Ok_0.holder;
            &&& target_of(env) is Ok
            &&& holder is None <==> target_of(env)->Ok_0 is None
            &&& holder is Some ==> holder_style_of(env, target_of(env)->Ok_0->0) == (Ok::<HolderView, Problem>(holder->0))
        }),
{
}

/// Settings are refused only for a problem in one of them, and of several the
/// first is told: the style of the pulse, whom to watch, how to show it, the
/// bridge, its key, the light where one is needed, the times in their order, and
/// the brightness.
pub proof fn the_first_problem_is_the_one_that_is_told(env: Map<Seq<char>, Seq<char>>, require_light_id: bool)
    ensures
        ({
            let set = |name: Seq<char>| env.contains_key(name) && !is_blank(env[name]);
            let counted = |name: Seq<char>| !env.contains_key(name) || unsigned(env[name]) is Ok;
            let refused = |problem: Problem| config_of(env, require_light_id) == (Err::<ConfigView, Problem>(problem));
            let no_number = |name: Seq<char>| Problem::NotAnInteger(name, unsigned(env[name])->Err_0);
            let bright = brightness_named(env, "PULSE_MAX_BRIGHTNESS"@, 100);
            if pulse_style_of(env) is Err {
                refused(pulse_style_of(env)->Err_0)
            } else if target_of(env) is Err {
                refused(target_of(env)->Err_0)
            } else if target_of(env)->Ok_0 is Some && holder_style_of(env, target_of(env)->Ok_0->0) is Err {
                refused(holder_style_of(env, target_of(env)->Ok_0->0)->Err_0)
            } else if !set("HUE_BRIDGE_IP"@) {
                refused(Problem::Missing("HUE_BRIDGE_IP"@))
            } else if !set("HUE_APP_KEY"@) {
                refused(Problem::Missing("HUE_APP_KEY"@))
            } else if require_light_id && !set("HUE_LIGHT_ID"@) {
                refused(Problem::Missing("HUE_LIGHT_ID"@))
            } else if !counted("POTATO_POLL_SECONDS"@) {
                refused(no_number("POTATO_POLL_SECONDS"@))
            } else if !counted("PULSE_ON_MS"@) {
                refused(no_number("PULSE_ON_MS"@))
            } else if !counted("PULSE_GAP_MS"@) {
                refused(no_number("PULSE_GAP_MS"@))
            } else if bright is Err {
                refused(bright->Err_0)
            } else {
                config_of(env, require_light_id) is Ok
            }
        }),
{
}

/// Settings are seen whole.
pub proof fn settings_are_seen_as_they_are(config: Config)
    ensures
        config@.bridge_ip == config.bridge_ip@,
        config@.app_key == config.app_key@,
        config@.light_id == config.light_id@,
        config@.poll_seconds == config.poll_seconds,
        config@.pulse_on_ms == config.pulse_on_ms,
        config@.pulse_gap_ms == config.pulse_gap_ms,
        config@.pulse_bri == config.pulse_bri,
        config@.pulse_style == config.pulse_style,
        config@.state_file == config.state_file@,
        config@.holder is Some <==> config.holder is Some,
        config.holder matches Some(holder) ==> config@.holder == Some(holder@),
{
}

/// Holder mode is seen whole.
pub proof fn holder_mode_is_seen_as_it_is(holder: HolderConfig)
    ensures
        holder@.start_bri == holder.start_bri,
        holder@.end_bri == holder.end_bri,
        holder@.start_colour == holder.start_colour,
        holder@.end_colour == holder.end_colour,
        holder@.start_ct == holder.start_ct,
        holder@.end_ct == holder.end_ct,
        holder.target is CurrentHolder <==> holder@.target is CurrentHolder,
        holder.target matches HolderTarget::Address(address) ==> holder@.target == TargetView::Address(address@),
{
}

/// A result and its model succeed alike, with the same value, and fail alike.
pub proof fn results_are_seen_as_they_are(
    text: String,
    target: HolderTarget,
    holder: HolderConfig,
    config: Config,
    error: ConfigError,
)
    ensures
        text_outcome(Ok(text)) == (Ok::<Seq<char>, Problem>(text@)),
        text_outcome(Err(error)) == (Err::<Seq<char>, Problem>(error@)),
        target_outcome(Ok(Some(target))) == (Ok::<Option<TargetView>, Problem>(Some(target@))),
        target_outcome(Ok(None)) == (Ok::<Option<TargetView>, Problem>(None)),
        target_outcome(Err(error)) == (Err::<Option<TargetView>, Problem>(error@)),
        holder_outcome(Ok(holder)) == (Ok::<HolderView, Problem>(holder@)),
        holder_outcome(Err(error)) == (Err::<HolderView, Problem>(error@)),
        config_outcome(Ok(config)) == (Ok::<ConfigView, Problem>(config@)),
        config_outcome(Err(error)) == (Err::<ConfigView, Problem>(error@)),
{
}

/// An address of the bridge has the address of the bridge, the key and the path
/// in it, each whole and in its place.
pub proof fn an_address_has_its_parts_in_place(config: Config, path: Seq<char>)
    ensures
        ({
            let url = api_address(config@, path);
            let ip_end = 7 + config.bridge_ip@.len() as int;
            let key_end = ip_end + 5 + config.app_key@.len();
            &&& url.len() == key_end + path.len()
            &&& url.subrange(0, 7) == "http://"@
            &&& url.subrange(7, ip_end) == config.bridge_ip@
            &&& url.subrange(ip_end, ip_end + 5) == "/api/"@
            &&& url.subrange(ip_end + 5, key_end) == config.app_key@
            &&& url.subrange(key_end, url.len() as int) == path
        }),
{
    reveal_strlit("http://");
    reveal_strlit("/api/");
    let url = api_address(config@, path);
    let ip_end = 7 + config.bridge_ip@.len() as int;
    let key_end = ip_end + 5 + config.app_key@.len();
    assert(url.subrange(0, 7) =~= "http://"@);
    assert(url.subrange(7, ip_end) =~= config.bridge_ip@);
    assert(url.subrange(ip_end, ip_end + 5) =~= "/api/"@);
    assert(url.subrange(ip_end + 5, key_end) =~= config.app_key@);
    assert(url.subrange(key_end, url.len() as int) =~= path);
}

/// A light has its address below that of the bridge, by its whole id, and its
/// state has an address below that.
pub proof fn a_light_has_its_address(config: Config)
    ensures
        ({
            let base = api_address(config@, Seq::empty());
            let light = light_address(config@);
            let state = light_state_address(config@);
            let at = base.len() as int;
            &&& light.len() == at + 8 + config.light_id@.len()
            &&& light.subrange(0, at) == base
            &&& light.subrange(at, at + 8) == "/lights/"@
            &&& light.subrange(at + 8, light.len() as int) == config.light_id@
            &&& state == light + "/state"@
        }),
{
    reveal_strlit("/lights/");
    let base = api_address(config@, Seq::empty());
    let light = light_address(config@);
    let at = base.len() as int;
    assert(light =~= base + "/lights/"@ + config.light_id@);
    assert(light.subrange(0, at) =~= base);
    assert(light.subrange(at, at + 8) =~= "/lights/"@);
    assert(light.subrange(at + 8, light.len() as int) =~= config.light_id@);
    assert(light_state_address(config@) =~= light + "/state"@);
}

} // verus!
