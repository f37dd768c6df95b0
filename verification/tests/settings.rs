use potato_hue::command::Command;
use potato_hue::config::{
    env_u64, hue_brightness_named, optional_env, optional_env_u64, required_env, Config, Environment, HolderTarget,
    PulseStyle,
};
use potato_hue::error::ConfigError;
use potato_hue::text::{
    before, blank, contains, eq_ignore_ascii_case, parse_u64, same, trim, white_space, NumberError,
};
use potato_hue::units::{
    hue_brightness, hue_brightness_value, kelvin_to_mired, kelvin_to_mired_named, parse_rgb_hex, Rgb,
};

#[test]
fn converts_warm_white_temperature_to_mired() {
    assert_eq!(kelvin_to_mired(2_700).unwrap(), 370);
}

#[test]
fn converts_a_brightness_percentage_to_hue_scale() {
    assert_eq!(hue_brightness(100).unwrap(), 254);
    assert_eq!(hue_brightness(50).unwrap(), 127);
    assert!(hue_brightness(0).is_err());
}

#[test]
fn temperatures_lie_between_2000_and_6535_kelvin() {
    assert_eq!(kelvin_to_mired(2_000).unwrap(), 500);
    assert_eq!(kelvin_to_mired(6_535).unwrap(), 153);
    let out_of_range = |name: &str| ConfigError::TemperatureOutOfRange { name: name.to_owned() };
    assert_eq!(kelvin_to_mired(1_999), Err(out_of_range("PULSE_TEMPERATURE_K")));
    assert_eq!(kelvin_to_mired(6_536), Err(out_of_range("PULSE_TEMPERATURE_K")));
    assert_eq!(kelvin_to_mired(u64::MAX), Err(out_of_range("PULSE_TEMPERATURE_K")));
    assert_eq!(kelvin_to_mired_named("X", 1_000_001), Err(out_of_range("X")));
    assert_eq!(
        kelvin_to_mired_named("X", 0),
        Err(ConfigError::ZeroTemperature { name: "X".to_owned() })
    );
    assert_eq!(
        kelvin_to_mired(0).unwrap_err().message(),
        "PULSE_TEMPERATURE_K must be greater than zero"
    );
    assert_eq!(
        kelvin_to_mired(7_000).unwrap_err().message(),
        "PULSE_TEMPERATURE_K must be between 2000K and 6535K for a Hue colour-temperature light"
    );
}

#[test]
fn brightness_rounds_to_the_nearest_step() {
    assert_eq!(hue_brightness(1).unwrap(), 3);
    assert_eq!(hue_brightness(10).unwrap(), 25);
    assert_eq!(hue_brightness(99).unwrap(), 251);
    assert_eq!(
        hue_brightness_value("B", 101).unwrap_err().message(),
        "B must be a percentage from 1 to 100"
    );
    assert_eq!(
        hue_brightness(u64::MAX),
        Err(ConfigError::BrightnessOutOfRange { name: "PULSE_MAX_BRIGHTNESS".to_owned() })
    );
}

#[test]
fn brighter_settings_are_never_darker_and_cooler_ones_never_warmer() {
    for percent in 1..=99 {
        let (lower, higher) = (hue_brightness(percent).unwrap(), hue_brightness(percent + 1).unwrap());
        assert!(1 <= lower && lower <= higher && higher <= 254);
    }
    for kelvin in 2_000..=6_534 {
        let (lower, higher) = (kelvin_to_mired(kelvin).unwrap(), kelvin_to_mired(kelvin + 1).unwrap());
        assert!(500 >= lower && lower >= higher && higher >= 153);
    }
}

#[test]
fn colours_are_six_hexadecimal_digits() {
    let amber = Rgb { red: 255, green: 0x9a, blue: 0x20 };
    assert_eq!(parse_rgb_hex("#FF9A20"), Ok(amber));
    assert_eq!(parse_rgb_hex("ff9a20"), Ok(amber));
    assert_eq!(parse_rgb_hex(" \t#Ff9a20\n"), Ok(amber));
    assert_eq!(parse_rgb_hex("000001"), Ok(Rgb { red: 0, green: 0, blue: 1 }));
    for bad in ["", "#", "#FF9A2", "#FF9A200", "##FF9A20", "# FF9A20", "#FF9A2G", "#FF9A+1", "éé9", "#fffffé"] {
        assert_eq!(parse_rgb_hex(bad), Err(ConfigError::NotAColour), "{bad}");
    }
    assert_eq!(parse_rgb_hex("#000000"), Err(ConfigError::BlackColour));
    assert_eq!(
        ConfigError::NotAColour.message(),
        "PULSE_COLOR must be a six-digit RGB value, for example #FF9A20"
    );
    assert_eq!(
        ConfigError::BlackColour.message(),
        "PULSE_COLOR cannot be black; use PULSE_MAX_BRIGHTNESS to choose pulse brightness"
    );
}

#[test]
fn white_space_is_what_the_standard_library_takes_it_for() {
    for code in 0..=0x10ffff_u32 {
        if let Some(c) = char::from_u32(code) {
            assert_eq!(white_space(c), c.is_whitespace(), "{code:x}");
        }
    }
}

#[test]
fn text_is_handled_as_by_the_standard_library() {
    let samples = [
        "", " ", "\u{3000}a b\u{a0}", "a", "A", "aB", "ab", "Ab ", "é", "É", "ab#", "#", "+5", "5", "05", "-5", "+",
        "5 ", "18446744073709551615", "18446744073709551616", "00000000000000000000000000007", "99999999999999999999",
        "1_000", "٣", "K", "\u{212a}", "k", "z\u{10ffff}", "z\u{e000}", "[", "{",
    ];
    for a in samples {
        assert_eq!(trim(a), a.trim());
        assert_eq!(blank(a), a.trim().is_empty());
        assert_eq!(contains(a, '#'), a.contains('#'));
        assert_eq!(parse_u64(a).ok(), a.parse::<u64>().ok(), "{a}");
        for b in samples {
            assert_eq!(same(a, b), a == b);
            assert_eq!(eq_ignore_ascii_case(a, b), a.eq_ignore_ascii_case(b));
            assert_eq!(before(a, b), a < b);
        }
    }
}

fn environment(vars: &[(&str, &str)]) -> Environment {
    let mut env = Environment::new();
    for (name, value) in vars {
        env.set((*name).to_owned(), (*value).to_owned());
    }
    env
}

const BRIDGE: [(&str, &str); 3] =
    [("HUE_BRIDGE_IP", "192.168.1.50"), ("HUE_APP_KEY", "key"), ("HUE_LIGHT_ID", "3")];

fn with(more: &[(&str, &str)]) -> Environment {
    let mut vars = BRIDGE.to_vec();
    vars.extend_from_slice(more);
    environment(&vars)
}

fn missing(name: &str) -> ConfigError {
    ConfigError::Missing { name: name.to_owned() }
}

fn no_integer(name: &str) -> ConfigError {
    ConfigError::NotAnInteger { name: name.to_owned(), reason: NumberError::InvalidDigit }
}

#[test]
fn variables_are_looked_up_by_name() {
    let mut env = environment(&[("A", "1"), ("B", " "), ("C", "x"), ("A", "2")]);
    assert_eq!(env.var("A"), Some("2".to_owned()));
    assert_eq!(env.var("a"), None);
    env.set("A".to_owned(), "3".to_owned());
    assert_eq!(env_u64(&env, "A", 9), Ok(3));
    assert_eq!(env_u64(&env, "D", 9), Ok(9));
    assert_eq!(env_u64(&env, "B", 9), Err(no_integer("B")));
    assert_eq!(optional_env(&env, "B"), None);
    assert_eq!(optional_env(&env, "C"), Some("x".to_owned()));
    assert_eq!(optional_env_u64(&env, "B"), Ok(None));
    assert_eq!(optional_env_u64(&env, "A"), Ok(Some(3)));
    assert_eq!(optional_env_u64(&env, "C"), Err(no_integer("C")));
    assert_eq!(required_env(&env, "C"), Ok("x".to_owned()));
    assert_eq!(required_env(&env, "B"), Err(missing("B")));
    assert_eq!(required_env(&env, "D").unwrap_err().message(), "D is required; see .env.example");
    assert_eq!(no_integer("C").message(), "C must be a positive integer");
    assert_eq!(hue_brightness_named(&env, "D", 50), Ok(127));
    assert_eq!(hue_brightness_named(&env, "A", 50), Ok(8));
    assert_eq!(hue_brightness_named(&env, "C", 50), Err(no_integer("C")));
}

#[test]
fn a_number_is_refused_for_the_reason_that_the_standard_library_gives() {
    let refused = [
        ("", NumberError::Empty),
        ("+", NumberError::InvalidDigit),
        ("-", NumberError::InvalidDigit),
        ("-0", NumberError::InvalidDigit),
        ("++1", NumberError::InvalidDigit),
        ("5 ", NumberError::InvalidDigit),
        ("1_000", NumberError::InvalidDigit),
        ("٣", NumberError::InvalidDigit),
        ("18446744073709551616", NumberError::TooLarge),
        ("+99999999999999999999", NumberError::TooLarge),
        ("18446744073709551616x", NumberError::TooLarge),
        ("1844674407370955161x", NumberError::InvalidDigit),
        ("1844674407370955162x", NumberError::InvalidDigit),
        ("x18446744073709551616", NumberError::InvalidDigit),
        ("9999999999999999999999é", NumberError::TooLarge),
    ];
    for (text, reason) in refused {
        assert_eq!(parse_u64(text), Err(reason), "{text}");
        let error = env_u64(&environment(&[("N", text)]), "N", 1).unwrap_err();
        assert_eq!(error, ConfigError::NotAnInteger { name: "N".to_owned(), reason });
        assert_eq!(error.message(), "N must be a positive integer");
        assert_eq!(error.reason(), Some(text.parse::<u64>().unwrap_err().to_string()));
    }
    assert_eq!(missing("N").reason(), None);
    assert_eq!(ConfigError::BlackColour.reason(), None);
}

#[test]
fn settings_have_defaults() {
    let config = Config::from_env(&with(&[])).unwrap();
    assert_eq!(config.bridge_ip, "192.168.1.50");
    assert_eq!(config.app_key, "key");
    assert_eq!(config.light_id, "3");
    assert_eq!(config.poll_seconds, 60);
    assert_eq!(config.pulse_on_ms, 450);
    assert_eq!(config.pulse_gap_ms, 180);
    assert_eq!(config.pulse_bri, 254);
    assert_eq!(config.pulse_style, PulseStyle::Preserve);
    assert_eq!(config.holder, None);
    assert_eq!(config.state_file, "potato-hue-state.json");
    assert_eq!(config.api_url("/lights"), "http://192.168.1.50/api/key/lights");
    assert_eq!(config.light_url(), "http://192.168.1.50/api/key/lights/3");
    assert_eq!(config.light_state_url(), "http://192.168.1.50/api/key/lights/3/state");
}

#[test]
fn settings_are_taken_from_the_environment() {
    let config = Config::from_env(&with(&[
        ("POTATO_POLL_SECONDS", "5"),
        ("PULSE_ON_MS", "100"),
        ("PULSE_GAP_MS", "0"),
        ("PULSE_MAX_BRIGHTNESS", "50"),
        ("PULSE_TEMPERATURE_K", "2700"),
        ("PULSE_COLOR", "  "),
        ("POTATO_STATE_FILE", "/var/lib/potato-hue/watch-state.json"),
    ]))
    .unwrap();
    assert_eq!(config.poll_seconds, 5);
    assert_eq!(config.pulse_on_ms, 100);
    assert_eq!(config.pulse_gap_ms, 0);
    assert_eq!(config.pulse_bri, 127);
    assert_eq!(config.pulse_style, PulseStyle::Temperature(370));
    assert_eq!(config.state_file, "/var/lib/potato-hue/watch-state.json");
    let config = Config::from_env(&with(&[("PULSE_COLOR", "#FF9A20")])).unwrap();
    assert_eq!(
        config.pulse_style,
        PulseStyle::Colour(Rgb { red: 0xff, green: 0x9a, blue: 0x20 })
    );
}

#[test]
fn a_temperature_and_a_colour_exclude_each_other() {
    let both = [("PULSE_TEMPERATURE_K", "2700"), ("PULSE_COLOR", "#FF9A20")];
    assert_eq!(Config::from_env(&with(&both)), Err(ConfigError::PulseStyleConflict));
    assert_eq!(
        ConfigError::PulseStyleConflict.message(),
        "set only one of PULSE_TEMPERATURE_K and PULSE_COLOR"
    );
}

#[test]
fn holder_mode_has_one_target() {
    let holder = Config::from_env(&with(&[("WATCHED_ADDRESS", " xch1test ")])).unwrap().holder.unwrap();
    assert_eq!(holder.target, HolderTarget::Address("xch1test".to_owned()));
    assert_eq!(holder.start_bri, 25);
    assert_eq!(holder.end_bri, 254);
    assert_eq!(holder.start_colour, Rgb { red: 0x8b, green: 0x45, blue: 0x13 });
    assert_eq!(holder.end_colour, Rgb { red: 0xff, green: 0, blue: 0 });
    assert_eq!(holder.start_ct, 454);
    assert_eq!(holder.end_ct, 153);
    let holder = Config::from_env(&with(&[("FOLLOW_CURRENT_HOLDER", "true")])).unwrap().holder.unwrap();
    assert_eq!(holder.target, HolderTarget::CurrentHolder);
    let both = [("FOLLOW_CURRENT_HOLDER", "true"), ("WATCHED_ADDRESS", "xch1test")];
    assert_eq!(Config::from_env(&with(&both)), Err(ConfigError::HolderTargetConflict));
    assert_eq!(
        ConfigError::HolderTargetConflict.message(),
        "set only one of WATCHED_ADDRESS and FOLLOW_CURRENT_HOLDER"
    );
    let neither = [("FOLLOW_CURRENT_HOLDER", "false"), ("WATCHED_ADDRESS", "")];
    assert_eq!(Config::from_env(&with(&neither)).unwrap().holder, None);
}

#[test]
fn holder_styles_are_settings() {
    let holder = Config::from_env(&with(&[
        ("WATCHED_ADDRESS", "xch1test"),
        ("HOLDER_START_BRIGHTNESS", "1"),
        ("HOLDER_END_BRIGHTNESS", "50"),
        ("HOLDER_START_COLOR", "#010203"),
        ("HOLDER_END_COLOR", "040506"),
        ("HOLDER_START_TEMPERATURE_K", "2000"),
        ("HOLDER_END_TEMPERATURE_K", "4000"),
    ]))
    .unwrap()
    .holder
    .unwrap();
    assert_eq!((holder.start_bri, holder.end_bri), (3, 127));
    assert_eq!(holder.start_colour, Rgb { red: 1, green: 2, blue: 3 });
    assert_eq!(holder.end_colour, Rgb { red: 4, green: 5, blue: 6 });
    assert_eq!((holder.start_ct, holder.end_ct), (500, 250));
}

#[test]
fn the_first_problem_is_told() {
    let mut vars = vec![
        ("PULSE_TEMPERATURE_K", "warm"),
        ("PULSE_COLOR", "red"),
        ("WATCHED_ADDRESS", "xch1test"),
        ("HOLDER_START_BRIGHTNESS", "0"),
        ("HOLDER_END_BRIGHTNESS", ""),
        ("HOLDER_START_COLOR", "#000000"),
        ("HOLDER_END_COLOR", "blue"),
        ("HOLDER_START_TEMPERATURE_K", "0"),
        ("HOLDER_END_TEMPERATURE_K", "9000"),
        ("POTATO_POLL_SECONDS", "-1"),
        ("PULSE_ON_MS", "x"),
        ("PULSE_GAP_MS", "y"),
        ("PULSE_MAX_BRIGHTNESS", "101"),
    ];
    let mut problems = vec![];
    let mut fix = |vars: &mut Vec<(&'static str, &'static str)>, name: &'static str, value: &'static str| {
        problems.push(Config::from_env(&environment(vars)).unwrap_err());
        vars.push((name, value));
    };
    fix(&mut vars, "PULSE_TEMPERATURE_K", "");
    fix(&mut vars, "PULSE_COLOR", "");
    fix(&mut vars, "HOLDER_START_BRIGHTNESS", "1");
    fix(&mut vars, "HOLDER_END_BRIGHTNESS", "1");
    fix(&mut vars, "HOLDER_START_COLOR", "");
    fix(&mut vars, "HOLDER_END_COLOR", "");
    fix(&mut vars, "HOLDER_START_TEMPERATURE_K", "");
    fix(&mut vars, "HOLDER_END_TEMPERATURE_K", "");
    fix(&mut vars, "HUE_BRIDGE_IP", "bridge");
    fix(&mut vars, "HUE_APP_KEY", "key");
    fix(&mut vars, "HUE_LIGHT_ID", "1");
    fix(&mut vars, "POTATO_POLL_SECONDS", "1");
    fix(&mut vars, "PULSE_ON_MS", "1");
    fix(&mut vars, "PULSE_GAP_MS", "1");
    fix(&mut vars, "PULSE_MAX_BRIGHTNESS", "1");
    assert!(Config::from_env(&environment(&vars)).is_ok());
    assert_eq!(
        problems,
        vec![
            no_integer("PULSE_TEMPERATURE_K"),
            ConfigError::NotAColour,
            ConfigError::BrightnessOutOfRange { name: "HOLDER_START_BRIGHTNESS".to_owned() },
            ConfigError::NotAnInteger { name: "HOLDER_END_BRIGHTNESS".to_owned(), reason: NumberError::Empty },
            ConfigError::BlackColour,
            ConfigError::NotAColour,
            ConfigError::ZeroTemperature { name: "HOLDER_START_TEMPERATURE_K".to_owned() },
            ConfigError::TemperatureOutOfRange { name: "HOLDER_END_TEMPERATURE_K".to_owned() },
            missing("HUE_BRIDGE_IP"),
            missing("HUE_APP_KEY"),
            missing("HUE_LIGHT_ID"),
            no_integer("POTATO_POLL_SECONDS"),
            no_integer("PULSE_ON_MS"),
            no_integer("PULSE_GAP_MS"),
            ConfigError::BrightnessOutOfRange { name: "PULSE_MAX_BRIGHTNESS".to_owned() },
        ]
    );
}

#[test]
fn listing_needs_no_light() {
    let env = environment(&BRIDGE[..2]);
    assert_eq!(Config::from_env(&env), Err(missing("HUE_LIGHT_ID")));
    assert_eq!(Config::for_listing(&env).unwrap().light_id, "");
    assert_eq!(Config::for_listing(&with(&[])), Config::from_env(&with(&[])));
}

#[test]
fn commands_are_named_by_the_first_argument() {
    assert_eq!(Command::parse(None), Ok(Command::Watch));
    assert_eq!(Command::parse(Some("watch")), Ok(Command::Watch));
    assert_eq!(Command::parse(Some("authorize")), Ok(Command::Authorize));
    assert_eq!(Command::parse(Some("list-lights")), Ok(Command::ListLights));
    assert_eq!(Command::parse(Some("test-pulse")), Ok(Command::TestPulse));
    for help in ["help", "--help", "-h"] {
        assert_eq!(Command::parse(Some(help)), Ok(Command::Help));
    }
    assert_eq!(Command::parse(Some("dance")), Err("unknown command: dance".to_owned()));
    assert_eq!(Command::parse(Some("")), Err("unknown command: ".to_owned()));
}
