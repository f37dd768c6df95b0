use potato_hue::config::{Config, Environment, HolderConfig, HolderTarget, PulseStyle};
use potato_hue::holder::{hold_shade, holder_command, holder_transition_time, show_command, Shade};
use potato_hue::light::{
    dark_command, restore_command, HueCapabilities, HueControl, HueLight, HueState, HueTemperatureRange, Xy,
};
use potato_hue::listing::{light_line, light_lines, sort_lights};
use potato_hue::potato::{hold_progress, PotatoState, Progress};
use potato_hue::pulse::pulse_command;
use potato_hue::units::{parse_rgb_hex, Rgb};
use serde_json::Value;

fn object(fields: Vec<(&str, Value)>) -> Value {
    let mut map = serde_json::Map::new();
    for (key, value) in fields {
        map.insert(key.to_owned(), value);
    }
    Value::Object(map)
}

fn xy(x: f64, y: f64) -> Xy {
    Xy { x: Value::from(x), y: Value::from(y) }
}

fn pair(x: f64, y: f64) -> Value {
    Value::Array(vec![Value::from(x), Value::from(y)])
}

fn state(on: bool, colormode: Option<&str>) -> HueState {
    HueState {
        on,
        bri: Some(77),
        hue: Some(40_000),
        sat: Some(99),
        xy: Some(xy(0.25, 0.75)),
        ct: Some(300),
        colormode: colormode.map(|mode| mode.to_owned()),
    }
}

#[test]
fn restores_an_on_xy_light() {
    let state = HueState {
        on: true,
        bri: Some(100),
        hue: None,
        sat: None,
        xy: Some(xy(0.5, 0.4)),
        ct: None,
        colormode: Some("xy".to_owned()),
    };
    assert_eq!(
        restore_command(&state),
        object(vec![
            ("on", Value::Bool(true)),
            ("transitiontime", Value::from(0)),
            ("bri", Value::from(100)),
            ("xy", pair(0.5, 0.4)),
        ])
    );
}

#[test]
fn restores_an_off_light_without_changing_its_colour() {
    let state = HueState {
        on: false,
        bri: Some(150),
        hue: Some(2_000),
        sat: Some(200),
        xy: None,
        ct: None,
        colormode: Some("hs".to_owned()),
    };
    assert_eq!(
        restore_command(&state),
        object(vec![("on", Value::Bool(false)), ("transitiontime", Value::from(0))])
    );
}

#[test]
fn restores_each_colour_mode_by_its_own_fields() {
    let on = |more: Vec<(&'static str, Value)>| {
        let mut fields = vec![
            ("on", Value::Bool(true)),
            ("transitiontime", Value::from(0)),
            ("bri", Value::from(77)),
        ];
        fields.extend(more);
        object(fields)
    };
    assert_eq!(restore_command(&state(true, Some("xy"))), on(vec![("xy", pair(0.25, 0.75))]));
    assert_eq!(restore_command(&state(true, Some("ct"))), on(vec![("ct", Value::from(300))]));
    assert_eq!(
        restore_command(&state(true, Some("hs"))),
        on(vec![("hue", Value::from(40_000)), ("sat", Value::from(99))])
    );
    assert_eq!(restore_command(&state(true, Some("effect"))), on(vec![]));
    assert_eq!(restore_command(&state(true, None)), on(vec![]));
}

#[test]
fn restores_nothing_that_the_light_did_not_report() {
    let mut bare = state(true, Some("hs"));
    bare.bri = None;
    bare.hue = None;
    assert_eq!(
        restore_command(&bare),
        object(vec![
            ("on", Value::Bool(true)),
            ("transitiontime", Value::from(0)),
            ("sat", Value::from(99)),
        ])
    );
}

#[test]
fn a_clone_of_a_state_is_restored_alike() {
    let original = state(true, Some("xy"));
    assert_eq!(original.clone(), original);
    assert_eq!(restore_command(&original.clone()), restore_command(&original));
}

#[test]
fn goes_dark_at_once() {
    assert_eq!(
        dark_command(),
        object(vec![("on", Value::Bool(false)), ("transitiontime", Value::from(0))])
    );
}

/// Where a colour lies in the chromaticity diagram.
fn chromaticity(rgb: Rgb) -> [f64; 2] {
    let linear = |channel: u8| {
        let value = f64::from(channel) / 255.0;
        if value > 0.04045 {
            ((value + 0.055) / 1.055).powf(2.4)
        } else {
            value / 12.92
        }
    };
    let (red, green, blue) = (linear(rgb.red), linear(rgb.green), linear(rgb.blue));
    let x = red * 0.664_511 + green * 0.154_324 + blue * 0.162_028;
    let y = red * 0.283_881 + green * 0.668_433 + blue * 0.047_685;
    let z = red * 0.000_088 + green * 0.072_310 + blue * 0.986_039;
    let total = x + y + z;
    [x / total, y / total]
}

#[test]
fn parses_rgb_colour_for_hue() {
    let [x, y] = chromaticity(parse_rgb_hex("#FF0000").unwrap());
    assert!((x - 0.700_606).abs() < 0.000_001);
    assert!((y - 0.299_301).abs() < 0.000_001);
}

/// How a hold looks that goes from one style to another.
struct Gradient {
    start_bri: u8,
    end_bri: u8,
    start_xy: [f64; 2],
    end_xy: [f64; 2],
    start_ct: u16,
    end_ct: u16,
}

fn holder() -> Gradient {
    Gradient {
        start_bri: 25,
        end_bri: 254,
        start_xy: [0.5, 0.4],
        end_xy: [0.7, 0.3],
        start_ct: 454,
        end_ct: 153,
    }
}

fn shade(holder: &Gradient, progress: f64) -> Shade {
    let blend = |start: f64, end: f64| start + (end - start) * progress;
    Shade {
        bri: blend(f64::from(holder.start_bri), f64::from(holder.end_bri)).round() as u8,
        xy: xy(
            blend(holder.start_xy[0], holder.end_xy[0]),
            blend(holder.start_xy[1], holder.end_xy[1]),
        ),
        ct: blend(f64::from(holder.start_ct), f64::from(holder.end_ct)).round() as u16,
    }
}

fn test_light(control: HueControl) -> HueLight {
    HueLight {
        name: "Test light".to_owned(),
        productname: None,
        state: HueState {
            on: false,
            bri: Some(100),
            hue: None,
            sat: None,
            xy: None,
            ct: None,
            colormode: None,
        },
        capabilities: HueCapabilities { control },
    }
}

#[test]
fn holder_mode_uses_rgb_gradient_for_rgb_lights() {
    let light = test_light(HueControl {
        colorgamut: Some(vec![xy(0.1, 0.1)]),
        ct: Some(HueTemperatureRange { min: 153, max: 500 }),
    });
    assert_eq!(
        holder_command(&light, &shade(&holder(), 0.5), 10),
        object(vec![
            ("on", Value::Bool(true)),
            ("bri", Value::from(140)),
            ("transitiontime", Value::from(10)),
            ("xy", pair(0.6, 0.35)),
        ])
    );
}

#[test]
fn holder_mode_uses_and_clamps_temperature_for_white_lights() {
    let light = test_light(HueControl {
        colorgamut: None,
        ct: Some(HueTemperatureRange { min: 200, max: 400 }),
    });
    let command = holder_command(&light, &shade(&holder(), 1.0), 10);
    assert_eq!(command["bri"], 254);
    assert_eq!(command["ct"], 200);
    assert!(command.get("xy").is_none());
}

#[test]
fn holder_mode_clamps_to_the_warm_end_and_keeps_what_lies_within() {
    let light = test_light(HueControl {
        colorgamut: None,
        ct: Some(HueTemperatureRange { min: 200, max: 400 }),
    });
    assert_eq!(holder_command(&light, &shade(&holder(), 0.0), 10)["ct"], 400);
    assert_eq!(holder_command(&light, &Shade { ct: 321, ..shade(&holder(), 0.0) }, 10)["ct"], 321);
}

#[test]
fn holder_mode_uses_brightness_alone_where_there_is_no_colour() {
    let light = test_light(HueControl { colorgamut: None, ct: None });
    assert_eq!(
        holder_command(&light, &shade(&holder(), 0.0), 50),
        object(vec![
            ("on", Value::Bool(true)),
            ("bri", Value::from(25)),
            ("transitiontime", Value::from(50)),
        ])
    );
}

fn potato(purchased_at: Option<i64>, deadline: Option<i64>) -> PotatoState {
    PotatoState {
        holder_count: 1,
        current_owner: Some("xch1test".to_owned()),
        purchased_at,
        deadline,
    }
}

#[test]
fn holder_progress_tracks_the_purchase_window() {
    let potato = PotatoState {
        holder_count: 1,
        current_owner: Some("xch1test".to_owned()),
        purchased_at: Some(1_000),
        deadline: Some(5_000),
    };
    let fraction = |now_ms: i64| {
        let progress = hold_progress(&potato, now_ms);
        progress.elapsed as f64 / progress.window as f64
    };
    assert_eq!(fraction(3_000), 0.5);
    assert_eq!(fraction(10_000), 1.0);
}

#[test]
fn a_hold_has_no_progress_before_it_starts_or_without_a_window() {
    assert_eq!(hold_progress(&potato(Some(1_000), Some(5_000)), 500).elapsed, 0);
    assert_eq!(hold_progress(&potato(Some(1_000), Some(5_000)), 500).window, 4_000);
    assert_eq!(hold_progress(&potato(None, Some(5_000)), 9_000).elapsed, 0);
    assert_eq!(hold_progress(&potato(Some(1_000), None), 9_000).elapsed, 0);
    assert_eq!(hold_progress(&potato(Some(5_000), Some(5_000)), 9_000).elapsed, 0);
    assert_eq!(hold_progress(&potato(Some(i64::MAX), Some(i64::MIN)), 9_000).elapsed, 0);
}

fn config(style: PulseStyle, poll_seconds: u64) -> Config {
    let mut env = Environment::new();
    for name in ["HUE_BRIDGE_IP", "HUE_APP_KEY", "HUE_LIGHT_ID"] {
        env.set(name.to_owned(), "x".to_owned());
    }
    let mut config = Config::from_env(&env).unwrap();
    config.pulse_style = style;
    config.poll_seconds = poll_seconds;
    config
}

#[test]
fn transitions_last_from_a_tenth_of_a_second_to_five() {
    assert_eq!(holder_transition_time(&config(PulseStyle::Preserve, 0)), 1);
    assert_eq!(holder_transition_time(&config(PulseStyle::Preserve, 1)), 10);
    assert_eq!(holder_transition_time(&config(PulseStyle::Preserve, 4)), 40);
    assert_eq!(holder_transition_time(&config(PulseStyle::Preserve, 5)), 50);
    assert_eq!(holder_transition_time(&config(PulseStyle::Preserve, 60)), 50);
    assert_eq!(holder_transition_time(&config(PulseStyle::Preserve, u64::MAX)), 50);
}

#[test]
fn a_hold_is_followed_until_the_next_update() {
    let light = test_light(HueControl { colorgamut: None, ct: None });
    for (poll_seconds, tenths) in [(0, 1), (1, 10), (3, 30), (60, 50)] {
        assert_eq!(
            show_command(&config(PulseStyle::Preserve, poll_seconds), &light, &shade(&holder(), 0.5)),
            object(vec![
                ("on", Value::Bool(true)),
                ("bri", Value::from(140)),
                ("transitiontime", Value::from(tenths)),
            ])
        );
    }
    let coloured = test_light(HueControl { colorgamut: Some(vec![xy(0.6, 0.3)]), ct: None });
    assert_eq!(
        show_command(&config(PulseStyle::Preserve, 2), &coloured, &shade(&holder(), 0.5)),
        holder_command(&coloured, &shade(&holder(), 0.5), 20)
    );
}

fn style(start_bri: u8, end_bri: u8, start_ct: u16, end_ct: u16) -> HolderConfig {
    HolderConfig {
        target: HolderTarget::CurrentHolder,
        start_bri,
        end_bri,
        start_colour: Rgb { red: 255, green: 0, blue: 0 },
        end_colour: Rgb { red: 0, green: 255, blue: 0 },
        start_ct,
        end_ct,
    }
}

#[test]
fn a_hold_keeps_between_its_styles() {
    let blend = |bri: u8, ct: u16| Shade { bri, xy: xy(0.4, 0.3), ct };
    let rising = style(25, 254, 500, 153);
    let at = |elapsed: i64| Progress { elapsed, window: 100 };
    assert_eq!(hold_shade(&rising, at(0), blend(99, 99)), blend(25, 500));
    assert_eq!(hold_shade(&rising, at(100), blend(99, 99)), blend(254, 153));
    assert_eq!(hold_shade(&rising, at(50), blend(140, 327)), blend(140, 327));
    assert_eq!(hold_shade(&rising, at(50), blend(24, 501)), blend(25, 500));
    assert_eq!(hold_shade(&rising, at(50), blend(255, 152)), blend(254, 153));
    let falling = style(200, 100, 200, 300);
    assert_eq!(hold_shade(&falling, at(1), blend(99, 301)), blend(100, 300));
    assert_eq!(hold_shade(&falling, at(1), blend(201, 199)), blend(200, 200));
}

#[test]
fn a_blend_lies_between_the_styles_as_it_is() {
    let gradient = holder();
    let style = style(gradient.start_bri, gradient.end_bri, gradient.start_ct, gradient.end_ct);
    for window in [1_i64, 3, 7, 1000, i64::MAX] {
        for part in 0..=16 {
            let elapsed = (i128::from(window) * part / 16) as i64;
            let progress = elapsed as f64 / window as f64;
            assert_eq!(
                hold_shade(&style, Progress { elapsed, window }, shade(&gradient, progress)),
                shade(&gradient, progress)
            );
        }
    }
}

#[test]
fn pulses_in_the_configured_style() {
    let lit = |more: Vec<(&'static str, Value)>| {
        let mut fields = vec![
            ("on", Value::Bool(true)),
            ("bri", Value::from(254)),
            ("transitiontime", Value::from(0)),
        ];
        fields.extend(more);
        object(fields)
    };
    let at = xy(0.3, 0.6);
    assert_eq!(pulse_command(&config(PulseStyle::Preserve, 60), &at), lit(vec![]));
    assert_eq!(
        pulse_command(&config(PulseStyle::Temperature(370), 60), &at),
        lit(vec![("ct", Value::from(370))])
    );
    let amber = parse_rgb_hex("#FF9A20").unwrap();
    assert_eq!(
        pulse_command(&config(PulseStyle::Colour(amber), 60), &at),
        lit(vec![("xy", pair(0.3, 0.6))])
    );
}

#[test]
fn lists_a_light_in_columns() {
    let mut light = test_light(HueControl { colorgamut: None, ct: None });
    assert_eq!(
        light_line("7", &light),
        format!("  {:>3}  {:<28} Hue light; brightness only (off)", "7", "Test light")
    );
    light.productname = Some("Hue white lamp".to_owned());
    light.capabilities.control.ct = Some(HueTemperatureRange { min: 153, max: 454 });
    light.state.on = true;
    light.name = "Küche".to_owned();
    assert_eq!(
        light_line("12", &light),
        format!("  {:>3}  {:<28} Hue white lamp; white temperature (on)", "12", "Küche")
    );
    light.capabilities.control.colorgamut = Some(vec![]);
    light.name = "A name that is longer than its column".to_owned();
    assert_eq!(
        light_line("1234", &light),
        "  1234  A name that is longer than its column Hue white lamp; RGB (on)"
    );
}

#[test]
fn lists_lights_by_id_whatever_order_they_come_in() {
    let lights = |ids: Vec<&str>| {
        ids.into_iter()
            .map(|id| {
                let mut light = test_light(HueControl { colorgamut: None, ct: None });
                light.name = format!("light {id}");
                (id.to_owned(), light)
            })
            .collect::<Vec<_>>()
    };
    let ids: Vec<String> =
        sort_lights(lights(vec!["3", "10", "2", "1", "é", "a", "20", ""])).into_iter().map(|(id, _)| id).collect();
    assert_eq!(ids, vec!["", "1", "10", "2", "20", "3", "a", "é"]);
    let lines = light_lines(lights(vec!["2", "10", "1"]));
    assert_eq!(lines, light_lines(lights(vec!["1", "2", "10"])));
    assert_eq!(lines.len(), 3);
    assert!(lines[1].contains("light 10"));
    assert!(light_lines(vec![]).is_empty());
}
