use potato_hue::config::{Config, Environment, HolderTarget};
use potato_hue::holder::{
    continue_holder_mode, holder_command, is_watched_holder, show_hold, update_holder_mode, Blend, HolderAction, HolderEvent,
    HolderPhase, Shade,
};
use potato_hue::light::{
    dark_command, restore_command, HueCapabilities, HueControl, HueLight, HueState, Xy,
};
use potato_hue::potato::{current_time_ms, read_clock, PotatoState};
use potato_hue::pulse::{both_failed_message, pulse_command, BatchOutcome, PulseAction, PulseBatch};
use potato_hue::watch::{
    continue_opening, open_watch, OpeningAction, OpeningEvent, OpeningPhase, WatchAction, WatchEvent, WatchState, Watcher,
};
use serde_json::Value;

fn config(vars: &[(&str, &str)]) -> Config {
    let mut env = Environment::new();
    for name in ["HUE_BRIDGE_IP", "HUE_APP_KEY", "HUE_LIGHT_ID"] {
        env.set(name.to_owned(), "x".to_owned());
    }
    for (name, value) in vars {
        env.set((*name).to_owned(), (*value).to_owned());
    }
    Config::from_env(&env).unwrap()
}

fn point() -> Xy {
    Xy { x: Value::from(0.3), y: Value::from(0.6) }
}

fn state(on: bool, bri: u8) -> HueState {
    HueState { on, bri: Some(bri), hue: None, sat: None, xy: None, ct: Some(200), colormode: Some("ct".to_owned()) }
}

/// All that a batch asks for where its steps go as `oks` says, and well after
/// that.
fn play(on: bool, count: u64, oks: &[bool]) -> Vec<PulseAction> {
    let config = config(&[]);
    let (mut batch, mut action) = PulseBatch::begin(state(on, 9), count, &config, &point());
    let mut actions = vec![];
    let mut answered = 0;
    while !matches!(action, PulseAction::Finish(_)) {
        actions.push(action);
        let ok = *oks.get(answered).unwrap_or(&true);
        answered += 1;
        let (next, then_do) = batch.advance(ok, &config, &point());
        batch = next;
        action = then_do;
    }
    actions.push(action);
    actions
}

fn dark() -> PulseAction {
    PulseAction::Put(dark_command())
}

fn lit() -> PulseAction {
    PulseAction::Put(pulse_command(&config(&[]), &point()))
}

fn back(on: bool) -> PulseAction {
    PulseAction::Put(restore_command(&state(on, 9)))
}

#[test]
fn a_light_that_is_on_goes_dark_and_pulses_for_each_snatch() {
    assert_eq!(
        play(true, 2, &[]),
        vec![
            dark(),
            lit(),
            PulseAction::Wait(450),
            dark(),
            PulseAction::Wait(180),
            lit(),
            PulseAction::Wait(450),
            dark(),
            back(true),
            PulseAction::Finish(BatchOutcome::Success),
        ]
    );
}

#[test]
fn a_light_that_is_off_stays_off_until_the_pulse() {
    assert_eq!(
        play(false, 1, &[]),
        vec![
            lit(),
            PulseAction::Wait(450),
            dark(),
            back(false),
            PulseAction::Finish(BatchOutcome::Success),
        ]
    );
    assert_eq!(
        play(false, 0, &[]),
        vec![back(false), PulseAction::Finish(BatchOutcome::Success)]
    );
}

#[test]
fn ten_snatches_are_ten_pulses() {
    for on in [false, true] {
        let actions = play(on, 10, &[]);
        assert_eq!(actions.iter().filter(|action| **action == lit()).count(), 10);
        assert_eq!(actions[actions.len() - 2], back(on));
    }
}

#[test]
fn a_light_is_brought_back_after_a_failure() {
    assert_eq!(
        play(true, 3, &[true, false]),
        vec![dark(), lit(), back(true), PulseAction::Finish(BatchOutcome::PulseFailed)]
    );
    assert_eq!(
        play(true, 3, &[false, false]),
        vec![dark(), back(true), PulseAction::Finish(BatchOutcome::BothFailed)]
    );
    assert_eq!(
        play(false, 1, &[true, true, true, false]).last(),
        Some(&PulseAction::Finish(BatchOutcome::RestoreFailed))
    );
    assert_eq!(
        both_failed_message("no route", "timed out"),
        "pulse error: no route; also could not restore the light: timed out"
    );
}

#[test]
fn a_batch_that_is_over_stays_over() {
    let config = config(&[]);
    let (batch, _) = PulseBatch::begin(state(false, 9), 0, &config, &point());
    let (batch, over) = batch.advance(false, &config, &point());
    assert_eq!(over, PulseAction::Finish(BatchOutcome::RestoreFailed));
    let (_, again) = batch.advance(true, &config, &point());
    assert_eq!(again, PulseAction::Finish(BatchOutcome::RestoreFailed));
}

fn potato(holder_count: u64, owner: Option<&str>) -> PotatoState {
    PotatoState {
        holder_count,
        current_owner: owner.map(|owner| owner.to_owned()),
        purchased_at: Some(1_000),
        deadline: Some(5_000),
    }
}

fn watch(last_holder_count: u64, pending_pulses: u64) -> WatchState {
    WatchState { last_holder_count, pending_pulses, holder_light_state: None }
}

#[test]
fn a_first_watch_starts_from_the_count_of_now() {
    assert_eq!(WatchState::default(), watch(0, 0));
    let (mut watcher, action) = Watcher::begin(WatchState::default(), false, potato(7, None));
    assert_eq!(action, WatchAction::Save);
    assert_eq!(watcher.state, watch(7, 0));
    assert_eq!(watcher.advance(WatchEvent::Done), WatchAction::UpdateHolder);
    assert_eq!(watcher.advance(WatchEvent::Done), WatchAction::Sleep);
    assert_eq!(watcher.advance(WatchEvent::Done), WatchAction::Fetch);
}

#[test]
fn snatches_are_saved_and_then_pulsed() {
    let (mut watcher, action) = Watcher::begin(watch(7, 0), true, potato(7, None));
    assert_eq!(action, WatchAction::UpdateHolder);
    assert_eq!(watcher.advance(WatchEvent::Failed), WatchAction::Sleep);
    assert_eq!(watcher.advance(WatchEvent::Done), WatchAction::Fetch);
    assert_eq!(watcher.advance(WatchEvent::Fetched(potato(17, Some("a")))), WatchAction::Save);
    assert_eq!(watcher.state, watch(17, 10));
    assert_eq!(watcher.potato, potato(17, Some("a")));
    assert_eq!(watcher.advance(WatchEvent::Done), WatchAction::UpdateHolder);
    assert_eq!(watcher.advance(WatchEvent::Done), WatchAction::Pulse(10));
    assert_eq!(watcher.advance(WatchEvent::Done), WatchAction::Save);
    assert_eq!(watcher.state, watch(17, 0));
    assert_eq!(watcher.advance(WatchEvent::Done), WatchAction::Sleep);
}

#[test]
fn pulses_that_fail_stay_queued() {
    let (mut watcher, _) = Watcher::begin(watch(7, 2), true, potato(7, None));
    assert_eq!(watcher.advance(WatchEvent::Done), WatchAction::Pulse(2));
    assert_eq!(watcher.advance(WatchEvent::Failed), WatchAction::Sleep);
    assert_eq!(watcher.advance(WatchEvent::Done), WatchAction::Fetch);
    assert_eq!(watcher.advance(WatchEvent::Fetched(potato(8, None))), WatchAction::Save);
    assert_eq!(watcher.advance(WatchEvent::Done), WatchAction::UpdateHolder);
    assert_eq!(watcher.advance(WatchEvent::Done), WatchAction::Pulse(3));
}

#[test]
fn a_new_game_is_not_replayed() {
    let (mut watcher, _) = Watcher::begin(watch(7, 0), true, potato(7, None));
    watcher.advance(WatchEvent::Done);
    watcher.advance(WatchEvent::Done);
    assert_eq!(watcher.advance(WatchEvent::Fetched(potato(2, None))), WatchAction::Save);
    assert_eq!(watcher.state, watch(2, 0));
}

#[test]
fn a_look_that_shows_nothing_new_or_fails_goes_on() {
    let (mut watcher, _) = Watcher::begin(watch(7, 0), true, potato(7, None));
    watcher.advance(WatchEvent::Done);
    watcher.advance(WatchEvent::Done);
    assert_eq!(watcher.advance(WatchEvent::Fetched(potato(7, Some("b")))), WatchAction::UpdateHolder);
    assert_eq!(watcher.potato, potato(7, Some("b")));
    watcher.advance(WatchEvent::Done);
    watcher.advance(WatchEvent::Done);
    assert_eq!(watcher.advance(WatchEvent::Failed), WatchAction::UpdateHolder);
    assert_eq!(watcher.potato, potato(7, Some("b")));
}

#[test]
fn a_watch_stops_where_it_cannot_save() {
    let (mut watcher, _) = Watcher::begin(WatchState::default(), false, potato(7, None));
    assert_eq!(watcher.advance(WatchEvent::Failed), WatchAction::Stop);
    let (mut watcher, _) = Watcher::begin(watch(7, 1), true, potato(7, None));
    watcher.advance(WatchEvent::Done);
    watcher.advance(WatchEvent::Done);
    assert_eq!(watcher.advance(WatchEvent::Failed), WatchAction::Stop);
    assert_eq!(watcher.advance(WatchEvent::Done), WatchAction::Stop);
}

fn light(bri: u8) -> HueLight {
    HueLight {
        name: "Lamp".to_owned(),
        productname: None,
        state: state(true, bri),
        capabilities: HueCapabilities { control: HueControl { colorgamut: None, ct: None } },
    }
}

fn watching(target: (&str, &str)) -> Config {
    config(&[target])
}

/// A blend at a time, with the colour of its start and its own.
fn blend(now_ms: i64, bri: u8, ct: u16) -> Blend {
    Blend { now_ms, start: point(), shade: Shade { bri, xy: Xy { x: Value::from(0.5), y: Value::from(0.4) }, ct } }
}

#[test]
fn an_address_is_watched_in_any_case() {
    let holder = watching(("WATCHED_ADDRESS", "xch1Test"));
    assert_eq!(
        holder.holder.as_ref().map(|holder| &holder.target),
        Some(&HolderTarget::Address("xch1Test".to_owned()))
    );
    assert!(is_watched_holder(&holder.holder, &potato(1, Some("XCH1tEST"))));
    assert!(!is_watched_holder(&holder.holder, &potato(1, Some("xch1test2"))));
    assert!(!is_watched_holder(&holder.holder, &potato(1, None)));
    assert!(!is_watched_holder(&None, &potato(1, Some("xch1test"))));
}

#[test]
fn following_holds_with_whoever_holds() {
    let holder = watching(("FOLLOW_CURRENT_HOLDER", "true"));
    assert!(is_watched_holder(&holder.holder, &potato(1, Some("a"))));
    assert!(is_watched_holder(&holder.holder, &potato(2, Some("b"))));
    assert!(!is_watched_holder(&holder.holder, &potato(2, None)));
}

fn shown(bri: u8, transitiontime: u16) -> HolderAction {
    let mut fields = serde_json::Map::new();
    fields.insert("on".to_owned(), Value::Bool(true));
    fields.insert("bri".to_owned(), Value::from(bri));
    fields.insert("transitiontime".to_owned(), Value::from(transitiontime));
    HolderAction::Put(Value::Object(fields))
}

#[test]
fn a_hold_takes_the_light_over_and_gives_it_back() {
    let config = config(&[
        ("WATCHED_ADDRESS", "me"),
        ("HOLDER_START_BRIGHTNESS", "10"),
        ("HOLDER_END_BRIGHTNESS", "100"),
        ("POTATO_POLL_SECONDS", "2"),
    ]);
    let mut remembered = watch(1, 3);
    let mine = potato(1, Some("me"));
    let (phase, action) = update_holder_mode(&config, &mine, &mut remembered);
    assert_eq!(action, HolderAction::ReadLight);
    let (phase, action) =
        continue_holder_mode(&config, &mine, phase, HolderEvent::LightRead(light(10)), &mut remembered);
    assert_eq!(action, HolderAction::Save);
    assert_eq!(remembered.holder_light_state, Some(state(true, 10)));
    let (phase, action) = continue_holder_mode(&config, &mine, phase, HolderEvent::Done, &mut remembered);
    assert_eq!((&phase, action), (&HolderPhase::Blending(light(10)), HolderAction::Blend));
    let (phase, action) =
        continue_holder_mode(&config, &mine, phase, HolderEvent::Blended(blend(3_000, 140, 300)), &mut remembered);
    assert_eq!((&phase, action), (&HolderPhase::Showing, shown(140, 20)));
    let (phase, action) = continue_holder_mode(&config, &mine, phase, HolderEvent::Done, &mut remembered);
    assert_eq!((phase, action), (HolderPhase::Over, HolderAction::Finish(true)));

    let again = potato(1, Some("ME"));
    let (phase, _) = update_holder_mode(&config, &again, &mut remembered);
    let (phase, action) =
        continue_holder_mode(&config, &again, phase, HolderEvent::LightRead(light(99)), &mut remembered);
    assert_eq!((&phase, action), (&HolderPhase::Blending(light(99)), HolderAction::Blend));
    let (_, action) =
        continue_holder_mode(&config, &again, phase, HolderEvent::Blended(blend(9_000, 140, 300)), &mut remembered);
    assert_eq!(action, shown(254, 20));
    assert_eq!(remembered.holder_light_state, Some(state(true, 10)));

    let yours = potato(2, Some("you"));
    let (phase, action) = update_holder_mode(&config, &yours, &mut remembered);
    assert_eq!(action, HolderAction::Put(restore_command(&state(true, 10))));
    assert_eq!(remembered, WatchState { holder_light_state: Some(state(true, 10)), ..watch(1, 3) });
    let (phase, action) = continue_holder_mode(&config, &yours, phase, HolderEvent::Done, &mut remembered);
    assert_eq!((&phase, action), (&HolderPhase::SavingRelease, HolderAction::Save));
    assert_eq!(remembered, watch(1, 3));
    let (_, action) = continue_holder_mode(&config, &yours, phase, HolderEvent::Done, &mut remembered);
    assert_eq!(action, HolderAction::Finish(true));

    let (_, action) = update_holder_mode(&config, &yours, &mut remembered);
    assert_eq!(action, HolderAction::Finish(true));
}

#[test]
fn following_shows_the_window_of_the_new_holder() {
    let config = config(&[
        ("FOLLOW_CURRENT_HOLDER", "true"),
        ("HOLDER_START_BRIGHTNESS", "10"),
        ("HOLDER_END_BRIGHTNESS", "100"),
        ("POTATO_POLL_SECONDS", "1"),
    ]);
    let mut remembered = WatchState { holder_light_state: Some(state(true, 10)), ..watch(1, 0) };
    for (purchased_at, deadline, bri) in [(1_000, 5_000, 254), (6_000, 10_000, 25), (5_000, 7_000, 140)] {
        let snatched = PotatoState {
            holder_count: 2,
            current_owner: Some("new".to_owned()),
            purchased_at: Some(purchased_at),
            deadline: Some(deadline),
        };
        let (phase, action) = update_holder_mode(&config, &snatched, &mut remembered);
        assert_eq!(action, HolderAction::ReadLight);
        let (phase, action) =
            continue_holder_mode(&config, &snatched, phase, HolderEvent::LightRead(light(50)), &mut remembered);
        assert_eq!(action, HolderAction::Blend);
        let event = HolderEvent::Blended(blend(6_000, 140, 300));
        let (_, action) = continue_holder_mode(&config, &snatched, phase, event, &mut remembered);
        assert_eq!(action, shown(bri, 10));
        assert_eq!(remembered.holder_light_state, Some(state(true, 10)));
    }
}

#[test]
fn a_hold_begins_in_the_colour_of_its_start() {
    let config = config(&[("FOLLOW_CURRENT_HOLDER", "true"), ("POTATO_POLL_SECONDS", "3")]);
    let holder = config.holder.as_ref().unwrap();
    let game = potato(1, Some("me"));
    let mut coloured = light(50);
    coloured.capabilities.control.colorgamut = Some(vec![]);
    let begun = show_hold(&config, holder, &game, &coloured, blend(1_000, 99, 99));
    let start = Shade { bri: holder.start_bri, xy: point(), ct: holder.start_ct };
    assert_eq!(begun, holder_command(&coloured, &start, 30));
    assert_eq!(begun["xy"], Value::Array(vec![Value::from(0.3), Value::from(0.6)]));
    assert_eq!(show_hold(&config, holder, &game, &coloured, blend(-5, 99, 99)), begun);
    let later = show_hold(&config, holder, &game, &coloured, blend(1_001, holder.start_bri, holder.start_ct));
    assert_eq!(later["xy"], Value::Array(vec![Value::from(0.5), Value::from(0.4)]));
    assert_eq!(later["bri"], holder.start_bri);
}

#[test]
fn an_update_that_fails_ends() {
    let me = watching(("WATCHED_ADDRESS", "me"));
    let game = potato(1, Some("me"));
    let mut remembered = watch(1, 0);
    let (phase, _) = update_holder_mode(&me, &game, &mut remembered);
    let (_, action) = continue_holder_mode(&me, &game, phase, HolderEvent::Failed, &mut remembered);
    assert_eq!(action, HolderAction::Finish(false));
    assert_eq!(remembered, watch(1, 0));
    remembered.holder_light_state = Some(state(true, 10));
    let nobody = config(&[]);
    let (phase, _) = update_holder_mode(&nobody, &game, &mut remembered);
    let (_, action) = continue_holder_mode(&nobody, &game, phase, HolderEvent::Failed, &mut remembered);
    assert_eq!(action, HolderAction::Finish(false));
    assert_eq!(remembered, WatchState { holder_light_state: Some(state(true, 10)), ..watch(1, 0) });
    let event = HolderEvent::Blended(blend(1_000, 1, 1));
    let (_, action) =
        continue_holder_mode(&nobody, &game, HolderPhase::Blending(light(1)), event, &mut remembered);
    assert_eq!(action, HolderAction::Finish(false));
}

#[test]
fn a_light_that_was_not_brought_back_is_brought_back_later() {
    let me = watching(("WATCHED_ADDRESS", "me"));
    let mut remembered = WatchState { holder_light_state: Some(state(false, 77)), ..watch(4, 2) };
    let yours = potato(5, Some("you"));
    for _ in 0..3 {
        let (phase, action) = update_holder_mode(&me, &yours, &mut remembered);
        assert_eq!(action, HolderAction::Put(restore_command(&state(false, 77))));
        let (phase, action) = continue_holder_mode(&me, &yours, phase, HolderEvent::Failed, &mut remembered);
        assert_eq!((phase, action), (HolderPhase::Over, HolderAction::Finish(false)));
        assert_eq!(remembered.holder_light_state, Some(state(false, 77)));
    }
    let free = potato(6, None);
    let (phase, action) = update_holder_mode(&me, &free, &mut remembered);
    assert_eq!(action, HolderAction::Put(restore_command(&state(false, 77))));
    let (phase, action) = continue_holder_mode(&me, &free, phase, HolderEvent::Done, &mut remembered);
    assert_eq!((&phase, action), (&HolderPhase::SavingRelease, HolderAction::Save));
    assert_eq!(remembered, watch(4, 2));
    let (_, action) = continue_holder_mode(&me, &free, phase, HolderEvent::Failed, &mut remembered);
    assert_eq!(action, HolderAction::Finish(false));
}

#[test]
fn a_hold_that_comes_back_before_the_restore_keeps_the_first_state() {
    let me = watching(("WATCHED_ADDRESS", "me"));
    let mut remembered = WatchState { holder_light_state: Some(state(true, 10)), ..watch(1, 0) };
    let yours = potato(2, Some("you"));
    let (phase, _) = update_holder_mode(&me, &yours, &mut remembered);
    continue_holder_mode(&me, &yours, phase, HolderEvent::Failed, &mut remembered);
    let mine = potato(3, Some("me"));
    let (phase, _) = update_holder_mode(&me, &mine, &mut remembered);
    let (_, action) = continue_holder_mode(&me, &mine, phase, HolderEvent::LightRead(light(200)), &mut remembered);
    assert_eq!(action, HolderAction::Blend);
    assert_eq!(remembered.holder_light_state, Some(state(true, 10)));
}

#[test]
fn a_watch_opens_with_what_was_remembered() {
    let (phase, action) = open_watch();
    assert!(matches!(action, OpeningAction::Load));
    let (phase, action) = continue_opening(phase, OpeningEvent::Loaded(Some(watch(7, 2))));
    assert!(matches!(action, OpeningAction::Fetch));
    assert_eq!(phase, OpeningPhase::Fetching(watch(7, 2)));
    match continue_opening(phase, OpeningEvent::Fetched(potato(9, None), true)) {
        (OpeningPhase::Over, OpeningAction::Watch(watcher, first)) => {
            assert_eq!(first, WatchAction::UpdateHolder);
            assert_eq!(watcher.state, watch(7, 2));
            assert_eq!(watcher.potato, potato(9, None));
        }
        other => panic!("{other:?}"),
    }

    let (phase, _) = continue_opening(open_watch().0, OpeningEvent::Loaded(None));
    match continue_opening(phase, OpeningEvent::Fetched(potato(9, None), false)) {
        (OpeningPhase::Over, OpeningAction::Watch(watcher, first)) => {
            assert_eq!(first, WatchAction::Save);
            assert_eq!(watcher.state, watch(9, 0));
        }
        other => panic!("{other:?}"),
    }
}

#[test]
fn a_watch_that_cannot_load_or_fetch_stops() {
    let (phase, action) = continue_opening(open_watch().0, OpeningEvent::Failed);
    assert!(matches!(action, OpeningAction::Stop));
    assert_eq!(phase, OpeningPhase::Over);
    let (phase, _) = continue_opening(open_watch().0, OpeningEvent::Loaded(Some(watch(7, 2))));
    let (phase, action) = continue_opening(phase, OpeningEvent::Failed);
    assert!(matches!(action, OpeningAction::Stop));
    let (_, action) = continue_opening(phase, OpeningEvent::Loaded(None));
    assert!(matches!(action, OpeningAction::Stop));
}

#[test]
fn a_watch_goes_on_whatever_fails_but_a_save() {
    let (mut watcher, _) = Watcher::begin(watch(7, 1), true, potato(7, None));
    for _ in 0..100 {
        assert_eq!(watcher.advance(WatchEvent::Failed), WatchAction::Pulse(1));
        assert_eq!(watcher.advance(WatchEvent::Failed), WatchAction::Sleep);
        assert_eq!(watcher.advance(WatchEvent::Done), WatchAction::Fetch);
        assert_eq!(watcher.advance(WatchEvent::Failed), WatchAction::UpdateHolder);
    }
    watcher.advance(WatchEvent::Done);
    watcher.advance(WatchEvent::Failed);
    watcher.advance(WatchEvent::Done);
    assert_eq!(watcher.advance(WatchEvent::Fetched(potato(8, None))), WatchAction::Save);
    assert_eq!(watcher.advance(WatchEvent::Failed), WatchAction::Stop);
}

#[test]
fn the_clock_is_read_in_milliseconds() {
    assert_eq!(read_clock(None), 0);
    assert_eq!(read_clock(Some(1_700_000_000_000)), 1_700_000_000_000);
    assert_eq!(read_clock(Some(i64::MAX as u128)), i64::MAX);
    assert_eq!(read_clock(Some(i64::MAX as u128 + 1)), i64::MAX);
    let before = current_time_ms();
    assert!(before > 1_600_000_000_000);
    assert!(current_time_ms() >= before);
}
