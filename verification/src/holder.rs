//! Holder mode: while the potato is held by the one that is watched, the light
//! shows how hot it is, and afterwards what it showed before.

use crate::config::{holder_view, Config, ConfigView, HolderConfig, HolderTarget, HolderView, TargetView};
use crate::json::{bool_value, insert, json, json_field, new_object, object_value, Json};
use crate::light::{
    field_names_differ, insert_integer, insert_point, point, restore_command, restore_fields, HueControl, HueLight,
    HueTemperatureRange, Xy,
};
use crate::potato::{hold_progress, progress_at, times_fit, PotatoState, PotatoView, Progress};
use crate::text::{eq_ignore_ascii_case, folded, only_the_case_of_letters_is_passed_over, same_but_for_case};
use crate::watch::{WatchState, WatchView};
use vstd::prelude::*;

verus! {

/// A number kept between two others.
pub open spec fn clamped(number: int, low: int, high: int) -> int {
    if number < low {
        low
    } else if number > high {
        high
    } else {
        number
    }
}

/// How long the light takes to follow an update, in tenths of a second: as long
/// as the service waits for the next one, from a tenth of a second to five
/// seconds.
pub fn holder_transition_time(config: &Config) -> (tenths: u16)
    ensures
        tenths == clamped(config@.poll_seconds * 10, 1, 50),
        1 <= tenths <= 50,
{
    if config.poll_seconds == 0 {
        1
    } else if config.poll_seconds > 5 {
        50
    } else {
        (config.poll_seconds * 10) as u16
    }
}

/// How a hold looks at some time.
#[derive(Debug, PartialEq)]
pub struct Shade {
    pub bri: u8,
    pub xy: Xy,
    pub ct: u16,
}

/// Where a number is on its way from a start to an end: at the start when
/// nothing of the hold has passed, at the end when all of it has, and in between
/// where it was blended, kept between the two.
pub open spec fn on_its_way(progress: Progress, start: int, end: int, blended: int) -> int {
    if progress.elapsed <= 0 {
        start
    } else if progress.elapsed >= progress.window {
        end
    } else if start <= end {
        clamped(blended, start, end)
    } else {
        clamped(blended, end, start)
    }
}

/// How a hold looks when so much of it has passed: its brightness and its
/// temperature are on their way from its start to its end style.
pub open spec fn styled(holder: HolderView, progress: Progress, blended: Shade) -> Shade {
    Shade {
        bri: on_its_way(progress, holder.start_bri as int, holder.end_bri as int, blended.bri as int) as u8,
        xy: blended.xy,
        ct: on_its_way(progress, holder.start_ct as int, holder.end_ct as int, blended.ct as int) as u16,
    }
}

fn along(progress: Progress, start: u16, end: u16, blended: u16) -> (number: u16)
    ensures
        number == on_its_way(progress, start as int, end as int, blended as int),
{
    let low: u16 = if start <= end {
        start
    } else {
        end
    };
    let high: u16 = if start <= end {
        end
    } else {
        start
    };
    if progress.elapsed <= 0 {
        start
    } else if progress.elapsed >= progress.window {
        end
    } else if blended < low {
        low
    } else if blended > high {
        high
    } else {
        blended
    }
}

/// How a hold looks when so much of it has passed, out of the blend of its start
/// and its end style.
pub fn hold_shade(holder: &HolderConfig, progress: Progress, blended: Shade) -> (shade: Shade)
    ensures
        shade == styled(holder@, progress, blended),
{
    Shade {
        bri: along(progress, holder.start_bri as u16, holder.end_bri as u16, blended.bri as u16) as u8,
        xy: blended.xy,
        ct: along(progress, holder.start_ct, holder.end_ct, blended.ct),
    }
}

/// The fields that show a hold on a light: its colour where the light has
/// colours, else its temperature, as far as the light goes, where it has
/// temperatures, else its brightness alone.
pub open spec fn holder_fields(control: HueControl, shade: Shade, transitiontime: u16) -> Map<Seq<char>, Json> {
    let lit = Map::<Seq<char>, Json>::empty().insert("on"@, Json::Bool(true)).insert(
        "bri"@,
        Json::Integer(shade.bri as int),
    ).insert("transitiontime"@, Json::Integer(transitiontime as int));
    if control.colorgamut is Some {
        lit.insert("xy"@, point(shade.xy@))
    } else {
        match control.ct {
            Some(range) => lit.insert(
                "ct"@,
                Json::Integer(clamped(shade.ct as int, range.min as int, range.max as int)),
            ),
            None => lit,
        }
    }
}

/// Whether the temperatures of a light that is set by temperature are a range.
pub open spec fn temperatures_are_a_range(control: HueControl) -> bool {
    control.colorgamut is None ==> (control.ct matches Some(range) ==> range.min <= range.max)
}

/// The command that shows a hold on a light.
pub fn holder_command(light: &HueLight, shade: &Shade, transitiontime: u16) -> (command: serde_json::Value)
    requires
        temperatures_are_a_range(light.capabilities.control),
    ensures
        json(command) == Json::Object(holder_fields(light.capabilities.control, *shade, transitiontime)),
{
    let mut fields = new_object();
    insert(&mut fields, "on", bool_value(true));
    insert_integer(&mut fields, "bri", shade.bri as u16);
    insert_integer(&mut fields, "transitiontime", transitiontime);
    if light.capabilities.control.colorgamut.is_some() {
        insert_point(&mut fields, "xy", &shade.xy);
    } else if let Some(range) = light.capabilities.control.ct {
        let ct: u16 = if shade.ct < range.min {
            range.min
        } else if shade.ct > range.max {
            range.max
        } else {
            shade.ct
        };
        insert_integer(&mut fields, "ct", ct);
    }
    object_value(fields)
}

/// The command that shows a hold on a light and has the light follow it until
/// the next update.
pub fn show_command(config: &Config, light: &HueLight, shade: &Shade) -> (command: serde_json::Value)
    requires
        temperatures_are_a_range(light.capabilities.control),
    ensures
        json(command) == Json::Object(
            holder_fields(
                light.capabilities.control,
                *shade,
                clamped(config@.poll_seconds * 10, 1, 50) as u16,
            ),
        ),
{
    holder_command(light, shade, holder_transition_time(config))
}

/// Whether the potato is held by the one that is watched: the address, in
/// whichever case its letters are written, or anyone.
pub open spec fn is_held(holder: Option<HolderView>, potato: PotatoView) -> bool {
    match (holder, potato.current_owner) {
        (Some(holder), Some(owner)) => match holder.target {
            TargetView::Address(address) => same_but_for_case(owner, address),
            TargetView::CurrentHolder => true,
        },
        _ => false,
    }
}

/// Whether the potato is held by the one that is watched.
pub fn is_watched_holder(holder: &Option<HolderConfig>, potato: &PotatoState) -> (held: bool)
    ensures
        held == is_held(holder_view(*holder), potato@),
{
    match (holder, &potato.current_owner) {
        (Some(holder), Some(owner)) => match &holder.target {
            HolderTarget::Address(address) => eq_ignore_ascii_case(owner, address),
            HolderTarget::CurrentHolder => true,
        },
        _ => false,
    }
}

/// The two styles of a hold, blended for a time.
#[derive(Debug, PartialEq)]
pub struct Blend {
    /// The time, in milliseconds since the Unix epoch.
    pub now_ms: i64,
    /// Where the colour of the start style lies.
    pub start: Xy,
    /// How far the hold has come from its start to its end style.
    pub shade: Shade,
}

/// How a hold looks at the time of a blend: as it is styled, in the colour that
/// it starts in where nothing of it has passed, and in the blended one after
/// that.
pub open spec fn look(holder: HolderView, potato: PotatoView, blend: Blend) -> Shade {
    let progress = progress_at(potato, blend.now_ms as int);
    let shade = styled(holder, progress, blend.shade);
    if progress.elapsed <= 0 {
        Shade { xy: blend.start, ..shade }
    } else {
        shade
    }
}

/// The fields that show the hold of a game on a light at the time of a blend.
pub open spec fn hold_fields(
    config: ConfigView,
    holder: HolderView,
    potato: PotatoView,
    control: HueControl,
    blend: Blend,
) -> Map<Seq<char>, Json> {
    holder_fields(control, look(holder, potato, blend), clamped(config.poll_seconds * 10, 1, 50) as u16)
}

/// The command that shows the hold of a game on a light at the time of a blend.
pub fn show_hold(
    config: &Config,
    holder: &HolderConfig,
    potato: &PotatoState,
    light: &HueLight,
    blend: Blend,
) -> (command: serde_json::Value)
    requires
        times_fit(potato@, blend.now_ms as int),
        temperatures_are_a_range(light.capabilities.control),
    ensures
        json(command) == Json::Object(hold_fields(config@, holder@, potato@, light.capabilities.control, blend)),
{
    let progress = hold_progress(potato, blend.now_ms);
    let shade = hold_shade(holder, progress, blend.shade);
    if progress.elapsed <= 0 {
        show_command(config, light, &Shade { bri: shade.bri, xy: blend.start, ct: shade.ct })
    } else {
        show_command(config, light, &shade)
    }
}

/// What an update of the light is waiting for.
#[derive(Debug, PartialEq)]
pub enum HolderPhase {
    /// The light is being brought back.
    Restoring,
    /// That the light was brought back is being saved.
    SavingRelease,
    /// The light is being read.
    ReadingLight,
    /// What the light showed is being saved.
    SavingCapture(HueLight),
    /// The styles of the hold are being blended.
    Blending(HueLight),
    /// The hold is being shown.
    Showing,
    /// The update is over.
    Over,
}

/// How what was asked for went.
#[derive(Debug, PartialEq)]
pub enum HolderEvent {
    Done,
    LightRead(HueLight),
    Blended(Blend),
    Failed,
}

/// What is to be done next in an update.
#[derive(Debug, PartialEq)]
pub enum HolderAction {
    /// Send a command to the light.
    Put(serde_json::Value),
    /// Save the state of the watch.
    Save,
    /// Read the light.
    ReadLight,
    /// Blend the styles of the hold for the time of now.
    Blend,
    /// The update is over; it went well, or it failed.
    Finish(bool),
}

/// What is to be done next in an update, as mathematics.
pub enum HolderStep {
    Put(Json),
    Save,
    ReadLight,
    Blend,
    Finish(bool),
}

impl View for HolderAction {
    type V = HolderStep;

    open spec fn view(&self) -> HolderStep {
        match *self {
            HolderAction::Put(command) => HolderStep::Put(json(command)),
            HolderAction::Save => HolderStep::Save,
            HolderAction::ReadLight => HolderStep::ReadLight,
            HolderAction::Blend => HolderStep::Blend,
            HolderAction::Finish(ok) => HolderStep::Finish(ok),
        }
    }
}

/// How an update begins: a hold is shown on the light, which is read first;
/// where there is none, a light that was taken over is brought back. What it
/// showed is kept until that has gone well.
pub open spec fn update_begin(config: ConfigView, potato: PotatoView, watch: WatchView) -> (
    HolderPhase,
    HolderStep,
    WatchView,
) {
    if is_held(config.holder, potato) {
        (HolderPhase::ReadingLight, HolderStep::ReadLight, watch)
    } else {
        match watch.holder_light_state {
            Some(saved) => (
                HolderPhase::Restoring,
                HolderStep::Put(Json::Object(restore_fields(saved))),
                watch,
            ),
            None => (HolderPhase::Over, HolderStep::Finish(true), watch),
        }
    }
}

/// How an update goes on. What the light showed is kept, and saved, when it is
/// taken over, and not again after that; it is forgotten, and that is saved,
/// when the light was brought back. The hold that is shown is that of the game
/// that the update is for, at the time of the blend. Anything but the answer
/// that is waited for ends the update as a failure and leaves what is remembered
/// as it is.
pub open spec fn update_step(
    config: ConfigView,
    potato: PotatoView,
    phase: HolderPhase,
    event: HolderEvent,
    watch: WatchView,
) -> (HolderPhase, HolderStep, WatchView) {
    let failed = (HolderPhase::Over, HolderStep::Finish(false), watch);
    match (phase, event) {
        (HolderPhase::Restoring, HolderEvent::Done) => (
            HolderPhase::SavingRelease,
            HolderStep::Save,
            WatchView { holder_light_state: None, ..watch },
        ),
        (HolderPhase::SavingRelease, HolderEvent::Done) => (HolderPhase::Over, HolderStep::Finish(true), watch),
        (HolderPhase::ReadingLight, HolderEvent::LightRead(light)) => if watch.holder_light_state is None {
            (
                HolderPhase::SavingCapture(light),
                HolderStep::Save,
                WatchView { holder_light_state: Some(light.state@), ..watch },
            )
        } else {
            (HolderPhase::Blending(light), HolderStep::Blend, watch)
        },
        (HolderPhase::SavingCapture(light), HolderEvent::Done) => (
            HolderPhase::Blending(light),
            HolderStep::Blend,
            watch,
        ),
        (HolderPhase::Blending(light), HolderEvent::Blended(blend)) => match config.holder {
            Some(holder) => (
                HolderPhase::Showing,
                HolderStep::Put(
                    Json::Object(hold_fields(config, holder, potato, light.capabilities.control, blend)),
                ),
                watch,
            ),
            None => failed,
        },
        (HolderPhase::Showing, HolderEvent::Done) => (HolderPhase::Over, HolderStep::Finish(true), watch),
        _ => failed,
    }
}

/// Whether the hold can be shown once the event is seen: its times lie near
/// enough to each other, and the temperatures of the light are a range.
pub open spec fn blend_fits(potato: PotatoView, phase: HolderPhase, event: HolderEvent) -> bool {
    match (phase, event) {
        (HolderPhase::Blending(light), HolderEvent::Blended(blend)) => {
            &&& times_fit(potato, blend.now_ms as int)
            &&& temperatures_are_a_range(light.capabilities.control)
        },
        _ => true,
    }
}

/// Begins to bring the light in line with the state of the game.
pub fn update_holder_mode(config: &Config, potato: &PotatoState, watch: &mut WatchState) -> (begun: (
    HolderPhase,
    HolderAction,
))
    ensures
        (begun.0, begun.1@, final(watch)@) == update_begin(config@, potato@, old(watch)@),
{
    if is_watched_holder(&config.holder, potato) {
        return (HolderPhase::ReadingLight, HolderAction::ReadLight);
    }
    match &watch.holder_light_state {
        Some(saved) => (HolderPhase::Restoring, HolderAction::Put(restore_command(saved))),
        None => (HolderPhase::Over, HolderAction::Finish(true)),
    }
}

/// Goes on with an update after how what was asked for went.
pub fn continue_holder_mode(
    config: &Config,
    potato: &PotatoState,
    phase: HolderPhase,
    event: HolderEvent,
    watch: &mut WatchState,
) -> (next: (HolderPhase, HolderAction))
    requires
        blend_fits(potato@, phase, event),
    ensures
        (next.0, next.1@, final(watch)@) == update_step(config@, potato@, phase, event, old(watch)@),
{
    match (phase, event) {
        (HolderPhase::Restoring, HolderEvent::Done) => {
            watch.holder_light_state = None;
            (HolderPhase::SavingRelease, HolderAction::Save)
        },
        (HolderPhase::SavingRelease, HolderEvent::Done) => (HolderPhase::Over, HolderAction::Finish(true)),
        (HolderPhase::ReadingLight, HolderEvent::LightRead(light)) => {
            if watch.holder_light_state.is_none() {
                watch.holder_light_state = Some(light.state.clone());
                (HolderPhase::SavingCapture(light), HolderAction::Save)
            } else {
                (HolderPhase::Blending(light), HolderAction::Blend)
            }
        },
        (HolderPhase::SavingCapture(light), HolderEvent::Done) => (HolderPhase::Blending(light), HolderAction::Blend),
        (HolderPhase::Blending(light), HolderEvent::Blended(blend)) => match &config.holder {
            Some(holder) => (
                HolderPhase::Showing,
                HolderAction::Put(show_hold(config, holder, potato, &light, blend)),
            ),
            None => (HolderPhase::Over, HolderAction::Finish(false)),
        },
        (HolderPhase::Showing, HolderEvent::Done) => (HolderPhase::Over, HolderAction::Finish(true)),
        _ => (HolderPhase::Over, HolderAction::Finish(false)),
    }
}

/// The first update of a hold reads the light, remembers and saves what it
/// shows, and then sends it one command: the one that shows the hold of the game
/// as it is at that time.
pub proof fn a_new_hold_is_saved_and_then_shown(
    config: ConfigView,
    potato: PotatoView,
    watch: WatchView,
    light: HueLight,
    blend: Blend,
)
    requires
        is_held(config.holder, potato),
        watch.holder_light_state is None,
    ensures
        ({
            let taken_over = WatchView { holder_light_state: Some(light.state@), ..watch };
            let (reading, read, before) = update_begin(config, potato, watch);
            let (saving, save, captured) = update_step(config, potato, reading, HolderEvent::LightRead(light), before);
            let (blending, ask, saved) = update_step(config, potato, saving, HolderEvent::Done, captured);
            let (showing, put, shown) = update_step(config, potato, blending, HolderEvent::Blended(blend), saved);
            &&& read is ReadLight && before == watch
            &&& save is Save && captured == taken_over
            &&& ask is Blend && saved == taken_over
            &&& put == HolderStep::Put(
                Json::Object(
                    hold_fields(config, config.holder->Some_0, potato, light.capabilities.control, blend),
                ),
            )
            &&& shown == taken_over
            &&& update_step(config, potato, showing, HolderEvent::Done, shown) == (
                HolderPhase::Over,
                HolderStep::Finish(true),
                taken_over,
            )
        }),
{
}

/// Every later update of a hold reads the light and sends it one command: the
/// one that shows the hold of the game as it is at that time. What the light
/// showed before the hold stays remembered, and nothing is saved.
pub proof fn a_hold_under_way_is_shown_as_it_is_now(
    config: ConfigView,
    potato: PotatoView,
    watch: WatchView,
    light: HueLight,
    blend: Blend,
)
    requires
        is_held(config.holder, potato),
        watch.holder_light_state is Some,
    ensures
        ({
            let (reading, read, before) = update_begin(config, potato, watch);
            let (blending, ask, kept) = update_step(config, potato, reading, HolderEvent::LightRead(light), before);
            let (showing, put, shown) = update_step(config, potato, blending, HolderEvent::Blended(blend), kept);
            &&& read is ReadLight && before == watch
            &&& ask is Blend && kept == watch
            &&& put == HolderStep::Put(
                Json::Object(
                    hold_fields(config, config.holder->Some_0, potato, light.capabilities.control, blend),
                ),
            )
            &&& shown == watch
            &&& update_step(config, potato, showing, HolderEvent::Done, shown) == (
                HolderPhase::Over,
                HolderStep::Finish(true),
                watch,
            )
        }),
{
}

/// Where whoever holds the potato is followed, the light stays hot from one
/// holder to the next: the update after a snatch brings nothing back, keeps what
/// the light showed before, and shows how much has passed between the new
/// holder's purchase and deadline.
pub proof fn following_stays_hot_across_snatches(
    config: ConfigView,
    holder: HolderView,
    potato: PotatoView,
    watch: WatchView,
    light: HueLight,
    blend: Blend,
    purchased_at: i64,
    deadline: i64,
)
    requires
        config.holder == Some(holder),
        holder.target is CurrentHolder,
        potato.current_owner is Some,
        potato.purchased_at == Some(purchased_at),
        potato.deadline == Some(deadline),
        purchased_at < deadline,
        times_fit(potato, blend.now_ms as int),
        watch.holder_light_state is Some,
    ensures
        ({
            let (reading, read, before) = update_begin(config, potato, watch);
            let (blending, ask, kept) = update_step(config, potato, reading, HolderEvent::LightRead(light), before);
            let (showing, put, shown) = update_step(config, potato, blending, HolderEvent::Blended(blend), kept);
            let progress = progress_at(potato, blend.now_ms as int);
            let shade = look(holder, potato, blend);
            &&& read is ReadLight
            &&& ask is Blend
            &&& put == HolderStep::Put(
                Json::Object(
                    holder_fields(
                        light.capabilities.control,
                        shade,
                        clamped(config.poll_seconds * 10, 1, 50) as u16,
                    ),
                ),
            )
            &&& progress.window == deadline - purchased_at
            &&& progress.elapsed == clamped(blend.now_ms - purchased_at, 0, deadline - purchased_at)
            &&& shade.bri == styled(holder, progress, blend.shade).bri
            &&& shade.ct == styled(holder, progress, blend.shade).ct
            &&& shade.xy == (if blend.now_ms <= purchased_at { blend.start } else { blend.shade.xy })
            &&& shown == watch
        }),
{
}

/// A light with what it was read for.
pub struct Reading {
    pub potato: PotatoView,
    pub light: HueLight,
}

/// What is remembered after the light was read for each of several updates of
/// one hold.
pub open spec fn after_readings(config: ConfigView, watch: WatchView, readings: Seq<Reading>) -> WatchView
    decreases readings.len(),
{
    if readings.len() == 0 {
        watch
    } else {
        after_readings(
            config,
            update_step(
                config,
                readings[0].potato,
                HolderPhase::ReadingLight,
                HolderEvent::LightRead(readings[0].light),
                watch,
            ).2,
            readings.subrange(1, readings.len() as int),
        )
    }
}

proof fn readings_keep_what_was_taken_over(config: ConfigView, watch: WatchView, readings: Seq<Reading>)
    requires
        watch.holder_light_state is Some,
    ensures
        after_readings(config, watch, readings) == watch,
    decreases readings.len(),
{
    if readings.len() > 0 {
        readings_keep_what_was_taken_over(config, watch, readings.subrange(1, readings.len() as int));
    }
}

/// However often a hold is updated, once it is over the light is asked to show
/// what it showed when the hold was first seen. Once that has gone well, and not
/// before, what it showed is forgotten, and that is saved.
pub proof fn a_hold_ends_with_what_the_light_showed_before(
    config: ConfigView,
    potato: PotatoView,
    watch: WatchView,
    readings: Seq<Reading>,
)
    requires
        watch.holder_light_state is None,
        readings.len() > 0,
        !is_held(config.holder, potato),
    ensures
        ({
            let before = readings[0].light.state@;
            let held = after_readings(config, watch, readings);
            let (phase, step, kept) = update_begin(config, potato, held);
            &&& held.holder_light_state == Some(before)
            &&& step == HolderStep::Put(Json::Object(restore_fields(before)))
            &&& kept == held
            &&& update_step(config, potato, phase, HolderEvent::Done, kept) == (
                HolderPhase::SavingRelease,
                HolderStep::Save,
                watch,
            )
            &&& update_step(config, potato, phase, HolderEvent::Failed, kept).2 == held
        }),
{
    let taken_over = update_step(
        config,
        readings[0].potato,
        HolderPhase::ReadingLight,
        HolderEvent::LightRead(readings[0].light),
        watch,
    ).2;
    readings_keep_what_was_taken_over(config, taken_over, readings.subrange(1, readings.len() as int));
}

/// A light that could not be brought back is brought back by the next update
/// that finds it not held, with the same command, until that has gone well.
pub proof fn a_failed_restore_is_asked_for_again(
    config: ConfigView,
    potato: PotatoView,
    later: PotatoView,
    watch: WatchView,
    event: HolderEvent,
)
    requires
        !is_held(config.holder, potato),
        !is_held(config.holder, later),
        watch.holder_light_state is Some,
        !(event is Done),
    ensures
        ({
            let (phase, step, kept) = update_begin(config, potato, watch);
            let (over, end, left) = update_step(config, potato, phase, event, kept);
            &&& step == HolderStep::Put(Json::Object(restore_fields(watch.holder_light_state->Some_0)))
            &&& over == HolderPhase::Over
            &&& end == HolderStep::Finish(false)
            &&& left == watch
            &&& update_begin(config, later, left) == (phase, step, kept)
        }),
{
}

/// No update changes what is remembered without saving it next.
pub proof fn every_change_in_an_update_is_saved_next(
    config: ConfigView,
    potato: PotatoView,
    phase: HolderPhase,
    event: HolderEvent,
    watch: WatchView,
)
    ensures
        update_begin(config, potato, watch).2 == watch,
        update_step(config, potato, phase, event, watch).2 != watch ==> update_step(
            config,
            potato,
            phase,
            event,
            watch,
        ).1 is Save,
{
}

/// In the update that takes a light over, nothing is sent to it where what it
/// showed could not be saved.
pub proof fn a_light_is_saved_before_it_is_taken_over(
    config: ConfigView,
    potato: PotatoView,
    watch: WatchView,
    light: HueLight,
)
    requires
        watch.holder_light_state is None,
    ensures
        ({
            let (phase, step, taken_over) = update_step(
                config,
                potato,
                HolderPhase::ReadingLight,
                HolderEvent::LightRead(light),
                watch,
            );
            &&& step == HolderStep::Save
            &&& taken_over.holder_light_state == Some(light.state@)
            &&& update_step(config, potato, phase, HolderEvent::Done, taken_over).1 == HolderStep::Blend
            &&& update_step(config, potato, phase, HolderEvent::Failed, taken_over).1 == HolderStep::Finish(false)
        }),
{
}

/// An address is watched in whichever case its letters are written.
pub proof fn the_case_of_an_owner_does_not_matter(holder: Option<HolderView>, potato: PotatoView, owner: Seq<char>)
    requires
        potato.current_owner matches Some(other) && same_but_for_case(owner, other),
    ensures
        is_held(holder, PotatoView { current_owner: Some(owner), ..potato }) == is_held(holder, potato),
{
    if let Some(holder) = holder {
        if let TargetView::Address(address) = holder.target {
            let other = potato.current_owner->0;
            if same_but_for_case(owner, address) {
                assert forall|i: int| #![trigger other[i], address[i]] 0 <= i < other.len() implies folded(other[i])
                    == folded(address[i]) by {
                    assert(folded(owner[i]) == folded(other[i]));
                    assert(folded(owner[i]) == folded(address[i]));
                }
            }
            if same_but_for_case(other, address) {
                assert forall|i: int| #![trigger owner[i], address[i]] 0 <= i < owner.len() implies folded(owner[i])
                    == folded(address[i]) by {
                    assert(folded(owner[i]) == folded(other[i]));
                    assert(folded(other[i]) == folded(address[i]));
                }
            }
        }
    }
}

/// An update of the light leaves the queue alone.
pub proof fn holder_mode_leaves_the_queue_alone(
    config: ConfigView,
    potato: PotatoView,
    phase: HolderPhase,
    event: HolderEvent,
    watch: WatchView,
)
    ensures
        update_begin(config, potato, watch).2.pending_pulses == watch.pending_pulses,
        update_begin(config, potato, watch).2.last_holder_count == watch.last_holder_count,
        update_step(config, potato, phase, event, watch).2.pending_pulses == watch.pending_pulses,
        update_step(config, potato, phase, event, watch).2.last_holder_count == watch.last_holder_count,
{
}

/// What a command that shows a hold says of a field.
pub open spec fn shown(control: HueControl, shade: Shade, transitiontime: u16, key: Seq<char>) -> Option<Json> {
    json_field(Json::Object(holder_fields(control, shade, transitiontime)), key)
}

/// A hold is shown in colour on a light that has colours, at a temperature that
/// it can show on one that has temperatures only, and by brightness on any. The
/// command says nothing else.
pub proof fn a_hold_is_shown_as_the_light_can(control: HueControl, shade: Shade, transitiontime: u16)
    requires
        temperatures_are_a_range(control),
    ensures
        shown(control, shade, transitiontime, "on"@) == Some(Json::Bool(true)),
        shown(control, shade, transitiontime, "bri"@) == Some(Json::Integer(shade.bri as int)),
        shown(control, shade, transitiontime, "transitiontime"@) == Some(Json::Integer(transitiontime as int)),
        holder_fields(control, shade, transitiontime).dom().subset_of(
            set!["on"@, "bri"@, "transitiontime"@, "xy"@, "ct"@],
        ),
        control.colorgamut is Some ==> {
            &&& shown(control, shade, transitiontime, "xy"@) == Some(point(shade.xy@))
            &&& shown(control, shade, transitiontime, "ct"@) is None
        },
        control.colorgamut is None ==> shown(control, shade, transitiontime, "xy"@) is None,
        control.colorgamut is None ==> (control.ct matches Some(range) ==> {
            &&& shown(control, shade, transitiontime, "ct"@) matches Some(Json::Integer(ct))
            &&& range.min <= ct <= range.max
        }),
        control.colorgamut is None && control.ct is None ==> shown(control, shade, transitiontime, "ct"@) is None,
{
    field_names_differ();
}

/// Whether a number is one of two others or lies between them.
pub open spec fn between(number: int, one: int, other: int) -> bool {
    one <= number <= other || other <= number <= one
}

/// A hold starts as bright and as warm as its start style, ends as bright and as
/// warm as its end style, and is shown between the two, whatever was blended.
pub proof fn a_hold_is_shown_between_its_styles(
    holder: HolderView,
    progress: Progress,
    blended: Shade,
    control: HueControl,
    transitiontime: u16,
)
    requires
        0 <= progress.elapsed <= progress.window,
        0 < progress.window,
    ensures
        ({
            let shade = styled(holder, progress, blended);
            &&& shown(control, shade, transitiontime, "bri"@) == Some(Json::Integer(shade.bri as int))
            &&& between(shade.bri as int, holder.start_bri as int, holder.end_bri as int)
            &&& between(shade.ct as int, holder.start_ct as int, holder.end_ct as int)
            &&& progress.elapsed == 0 ==> shade.bri == holder.start_bri && shade.ct == holder.start_ct
            &&& progress.elapsed == progress.window ==> shade.bri == holder.end_bri && shade.ct == holder.end_ct
        }),
{
    field_names_differ();
}

/// Where nothing of a hold has passed it is shown in its start style: as bright,
/// in the colour that the style starts in on a light that has colours, and as
/// warm, as far as the light goes, on one that has temperatures only.
pub proof fn a_hold_begins_in_its_start_style(
    config: ConfigView,
    holder: HolderView,
    potato: PotatoView,
    control: HueControl,
    blend: Blend,
)
    requires
        progress_at(potato, blend.now_ms as int).elapsed == 0,
    ensures
        ({
            let command = Json::Object(hold_fields(config, holder, potato, control, blend));
            &&& json_field(command, "bri"@) == Some(Json::Integer(holder.start_bri as int))
            &&& control.colorgamut is Some ==> json_field(command, "xy"@) == Some(point(blend.start@))
            &&& control.colorgamut is None ==> (control.ct matches Some(range) ==> json_field(command, "ct"@) == Some(
                Json::Integer(clamped(holder.start_ct as int, range.min as int, range.max as int)),
            ))
        }),
{
    field_names_differ();
}

/// A number is kept as it is where it lies within the bounds, and otherwise
/// becomes the bound that it is beyond.
pub proof fn a_number_is_kept_within_its_bounds(number: int, low: int, high: int)
    requires
        low <= high,
    ensures
        low <= number <= high ==> clamped(number, low, high) == number,
        number < low ==> clamped(number, low, high) == low,
        number > high ==> clamped(number, low, high) == high,
{
}

/// The potato is held by the one that is watched exactly where holder mode is on
/// and the potato has an owner who is anyone, where whoever holds it is followed,
/// or else has the address that is watched: as long as it, and at each place
/// the same character, or a capital letter and the small one of it.
pub proof fn the_watched_address_holds_and_no_other(holder: HolderConfig, potato: PotatoState)
    ensures
        !is_held(holder_view(None), potato@),
        potato.current_owner is None ==> !is_held(holder_view(Some(holder)), potato@),
        potato.current_owner is Some && holder.target is CurrentHolder ==> is_held(holder_view(Some(holder)), potato@),
        potato.current_owner is Some && holder.target is Address ==> {
            let owner = potato.current_owner->0@;
            let address = holder.target->Address_0@;
            is_held(holder_view(Some(holder)), potato@) <==> {
                &&& owner.len() == address.len()
                &&& forall|i: int|
                    #![trigger owner[i], address[i]]
                    0 <= i < owner.len() ==> {
                        ||| owner[i] == address[i]
                        ||| 'A' <= owner[i] && owner[i] <= 'Z' && address[i] as int == owner[i] as int + 32
                        ||| 'A' <= address[i] && address[i] <= 'Z' && owner[i] as int == address[i] as int + 32
                    }
            }
        },
{
    if potato.current_owner is Some && holder.target is Address {
        only_the_case_of_letters_is_passed_over(potato.current_owner->0@, holder.target->Address_0@);
    }
}

/// A shade is sent as it is: its brightness on any light, its point on a light
/// that has colours, and on one that has temperatures only the temperature of it
/// that lies nearest among those. The command says nothing else.
pub proof fn a_shade_is_sent_as_it_is(light: HueLight, shade: Shade, transitiontime: u16, key: Seq<char>)
    ensures
        ({
            let control = light.capabilities.control;
            let command = Json::Object(holder_fields(control, shade, transitiontime));
            &&& json_field(command, "on"@) == Some(Json::Bool(true))
            &&& json_field(command, "bri"@) == Some(Json::Integer(shade.bri as int))
            &&& json_field(command, "transitiontime"@) == Some(Json::Integer(transitiontime as int))
            &&& json_field(command, "xy"@) == (if control.colorgamut is Some {
                Some(Json::Items(seq![json(shade.xy.x), json(shade.xy.y)]))
            } else {
                None
            })
            &&& json_field(command, "ct"@) == (if control.colorgamut is None && control.ct is Some {
                Some(
                    Json::Integer(
                        if shade.ct < control.ct->0.min {
                            control.ct->0.min as int
                        } else if shade.ct > control.ct->0.max {
                            control.ct->0.max as int
                        } else {
                            shade.ct as int
                        },
                    ),
                )
            } else {
                None
            })
            &&& json_field(command, key) is Some ==> {
                ||| key == "on"@
                ||| key == "bri"@
                ||| key == "transitiontime"@
                ||| key == "xy"@
                ||| key == "ct"@
            }
        }),
{
    field_names_differ();
}

/// The light is given as long to follow as the service waits for the next update,
/// but a tenth of a second at least and five seconds at most.
pub proof fn the_light_follows_until_the_next_update(config: Config)
    ensures
        config.poll_seconds == 0 ==> clamped(config@.poll_seconds * 10, 1, 50) == 1,
        1 <= config.poll_seconds <= 5 ==> clamped(config@.poll_seconds * 10, 1, 50) == config.poll_seconds * 10,
        5 < config.poll_seconds ==> clamped(config@.poll_seconds * 10, 1, 50) == 50,
{
}

/// A hold that has begun and is not over keeps the blended colour as it is, and
/// the blended brightness and temperature where they lie between those of its two
/// styles, however the styles lie to each other; a blend beyond them becomes the
/// nearer one.
pub proof fn a_blend_between_the_styles_is_kept(holder: HolderConfig, progress: Progress, blended: Shade)
    ensures
        ({
            let shade = styled(holder@, progress, blended);
            let under_way = 0 < progress.elapsed && progress.elapsed < progress.window;
            &&& shade.xy == blended.xy
            &&& progress.elapsed <= 0 ==> shade.bri == holder.start_bri && shade.ct == holder.start_ct
            &&& 0 < progress.elapsed && progress.window <= progress.elapsed ==> shade.bri == holder.end_bri && shade.ct
                == holder.end_ct
            &&& under_way && (holder.start_bri <= blended.bri <= holder.end_bri || holder.end_bri <= blended.bri
                <= holder.start_bri) ==> shade.bri == blended.bri
            &&& under_way && (holder.start_ct <= blended.ct <= holder.end_ct || holder.end_ct <= blended.ct
                <= holder.start_ct) ==> shade.ct == blended.ct
            &&& under_way ==> (holder.start_bri <= shade.bri <= holder.end_bri || holder.end_bri <= shade.bri
                <= holder.start_bri)
            &&& under_way ==> (holder.start_ct <= shade.ct <= holder.end_ct || holder.end_ct <= shade.ct
                <= holder.start_ct)
            &&& under_way && blended.bri < holder.start_bri && blended.bri < holder.end_bri ==> shade.bri
                <= holder.start_bri && shade.bri <= holder.end_bri
            &&& under_way && blended.bri > holder.start_bri && blended.bri > holder.end_bri ==> shade.bri
                >= holder.start_bri && shade.bri >= holder.end_bri
            &&& under_way && blended.ct < holder.start_ct && blended.ct < holder.end_ct ==> shade.ct
                <= holder.start_ct && shade.ct <= holder.end_ct
            &&& under_way && blended.ct > holder.start_ct && blended.ct > holder.end_ct ==> shade.ct
                >= holder.start_ct && shade.ct >= holder.end_ct
        }),
{
}

/// Whose ever hold it is, it is shown by its times and its style alone: in the
/// colour, brightness and temperature of its start style until it has begun, then
/// in the blended ones, and as bright and as warm as its end style from its
/// deadline on.
pub proof fn a_hold_is_shown_by_its_times(
    config: Config,
    holder: HolderConfig,
    potato: PotatoState,
    light: HueLight,
    blend: Blend,
    key: Seq<char>,
)
    requires
        potato.purchased_at is Some && potato.deadline is Some && potato.purchased_at->0 < potato.deadline->0 ==> {
            &&& potato.deadline->0 - potato.purchased_at->0 <= i64::MAX
            &&& i64::MIN <= blend.now_ms - potato.purchased_at->0 <= i64::MAX
        },
    ensures
        ({
            let control = light.capabilities.control;
            let command = Json::Object(hold_fields(config@, holder@, potato@, control, blend));
            let begun = potato.purchased_at is Some && potato.deadline is Some && potato.purchased_at->0
                < potato.deadline->0 && potato.purchased_at->0 < blend.now_ms;
            let over = begun && potato.deadline->0 <= blend.now_ms;
            let bri = json_field(command, "bri"@);
            let low = if holder.start_bri < holder.end_bri {
                holder.start_bri as int
            } else {
                holder.end_bri as int
            };
            let high = if holder.start_bri < holder.end_bri {
                holder.end_bri as int
            } else {
                holder.start_bri as int
            };
            &&& json_field(command, "on"@) == Some(Json::Bool(true))
            &&& json_field(command, "transitiontime"@) == Some(
                Json::Integer(
                    if config.poll_seconds == 0 {
                        1
                    } else if config.poll_seconds > 5 {
                        50
                    } else {
                        config.poll_seconds * 10
                    },
                ),
            )
            &&& !begun ==> bri == Some(Json::Integer(holder.start_bri as int))
            &&& over ==> bri == Some(Json::Integer(holder.end_bri as int))
            &&& begun && !over ==> bri == Some(
                Json::Integer(
                    if blend.shade.bri < low {
                        low
                    } else if blend.shade.bri > high {
                        high
                    } else {
                        blend.shade.bri as int
                    },
                ),
            )
            &&& json_field(command, "xy"@) == (if control.colorgamut is None {
                None
            } else if begun {
                Some(Json::Items(seq![json(blend.shade.xy.x), json(blend.shade.xy.y)]))
            } else {
                Some(Json::Items(seq![json(blend.start.x), json(blend.start.y)]))
            })
            &&& json_field(command, key) is Some ==> {
                ||| key == "on"@
                ||| key == "bri"@
                ||| key == "transitiontime"@
                ||| key == "xy"@
                ||| key == "ct"@
            }
        }),
{
    field_names_differ();
}

/// On a light that has temperatures only a hold is shown at the temperature of
/// its start style until it has begun, then at the blended one, kept between those
/// of its two styles, and at that of its end style from its deadline on; in any
/// case at the nearest that the light can show. A light that has colours, or no
/// temperatures, is given none.
pub proof fn a_hold_is_as_warm_as_its_times_and_the_light_allow(
    config: Config,
    holder: HolderConfig,
    potato: PotatoState,
    light: HueLight,
    blend: Blend,
    range: HueTemperatureRange,
    wanted: int,
)
    requires
        potato.purchased_at is Some && potato.deadline is Some && potato.purchased_at->0 < potato.deadline->0 ==> {
            &&& potato.deadline->0 - potato.purchased_at->0 <= i64::MAX
            &&& i64::MIN <= blend.now_ms - potato.purchased_at->0 <= i64::MAX
        },
        light.capabilities.control.ct is Some ==> light.capabilities.control.ct == Some(range),
        ({
            let begun = potato.purchased_at is Some && potato.deadline is Some && potato.purchased_at->0
                < potato.deadline->0 && potato.purchased_at->0 < blend.now_ms;
            let over = begun && potato.deadline->0 <= blend.now_ms;
            let between = (holder.start_ct <= blend.shade.ct <= holder.end_ct || holder.end_ct <= blend.shade.ct
                <= holder.start_ct);
            &&& !begun ==> wanted == holder.start_ct
            &&& over ==> wanted == holder.end_ct
            &&& begun && !over ==> between && wanted == blend.shade.ct
        }),
    ensures
        ({
            let control = light.capabilities.control;
            let ct = json_field(Json::Object(hold_fields(config@, holder@, potato@, control, blend)), "ct"@);
            ct == (if control.colorgamut is None && control.ct is Some {
                Some(
                    Json::Integer(
                        if wanted < range.min {
                            range.min as int
                        } else if wanted > range.max {
                            range.max as int
                        } else {
                            wanted
                        },
                    ),
                )
            } else {
                None
            })
        }),
{
    field_names_differ();
}

/// An update of a light that is not held and was not taken over is over at once,
/// and has done nothing.
pub proof fn a_light_that_is_not_held_is_left_alone(config: ConfigView, potato: PotatoView, watch: WatchView)
    requires
        !is_held(config.holder, potato),
        watch.holder_light_state is None,
    ensures
        update_begin(config, potato, watch) == (HolderPhase::Over, HolderStep::Finish(true), watch),
{
}

/// A light that was taken over is brought back in one command, that is saved, and
/// then the update is over; nothing else of what is remembered changes.
pub proof fn a_light_is_brought_back_saved_and_done(config: Config, potato: PotatoState, watch: WatchState)
    requires
        !is_held(config@.holder, potato@),
        watch.holder_light_state is Some,
    ensures
        ({
            let (restoring, put, kept) = update_begin(config@, potato@, watch@);
            let (saving, save, released) = update_step(config@, potato@, restoring, HolderEvent::Done, kept);
            let (over, end, left) = update_step(config@, potato@, saving, HolderEvent::Done, released);
            &&& put == HolderStep::Put(Json::Object(restore_fields(watch.holder_light_state->0@)))
            &&& kept == watch@
            &&& save is Save
            &&& over is Over
            &&& end == HolderStep::Finish(true)
            &&& left == released
            &&& left.holder_light_state is None
            &&& left.pending_pulses == watch.pending_pulses
            &&& left.last_holder_count == watch.last_holder_count
        }),
{
}

/// Where what an update asked for failed, or is answered by something else, the
/// update is over and has failed, and what is remembered stays as it is.
pub proof fn nothing_but_its_answer_lets_an_update_go_on(
    config: ConfigView,
    potato: PotatoView,
    phase: HolderPhase,
    event: HolderEvent,
    watch: WatchView,
)
    requires
        match phase {
            HolderPhase::ReadingLight => !(event is LightRead),
            HolderPhase::Blending(_) => !(event is Blended),
            HolderPhase::Over => true,
            _ => !(event is Done),
        },
    ensures
        update_step(config, potato, phase, event, watch) == (HolderPhase::Over, HolderStep::Finish(false), watch),
{
}

/// What is to be done is seen as it is asked for.
pub proof fn a_step_is_seen_as_it_is(action: HolderAction)
    ensures
        action is Save <==> action@ is Save,
        action is ReadLight <==> action@ is ReadLight,
        action is Blend <==> action@ is Blend,
        action matches HolderAction::Put(command) ==> action@ == HolderStep::Put(json(command)),
        action matches HolderAction::Finish(ok) ==> action@ == HolderStep::Finish(ok),
{
}

/// A hold can be shown wherever its times can be subtracted and a light that is
/// set by temperature has a lowest and a highest one in that order.
pub proof fn a_hold_can_be_shown_wherever_its_times_fit(potato: PotatoState, light: HueLight, blend: Blend)
    ensures
        ({
            let control = light.capabilities.control;
            let timed = potato.purchased_at is Some && potato.deadline is Some && potato.purchased_at->0
                < potato.deadline->0;
            let fits = timed ==> {
                &&& potato.deadline->0 - potato.purchased_at->0 <= i64::MAX
                &&& i64::MIN <= blend.now_ms - potato.purchased_at->0 <= i64::MAX
            };
            let ranged = control.colorgamut is None && control.ct is Some ==> control.ct->0.min <= control.ct->0.max;
            &&& times_fit(potato@, blend.now_ms as int) <==> fits
            &&& temperatures_are_a_range(control) <==> ranged
            &&& fits && ranged ==> blend_fits(potato@, HolderPhase::Blending(light), HolderEvent::Blended(blend))
            &&& blend_fits(potato@, HolderPhase::Blending(light), HolderEvent::Failed)
        }),
{
}

} // verus!
