//! Pulsing a light: for each snatch it lights up and goes dark again, and after
//! the batch it shows what it showed before.

use crate::config::{Config, ConfigView, PulseStyle};
use crate::json::{json, json_field, object_value, Json};
use crate::light::{
    dark_command, field_names_differ, insert_integer, insert_point, point, restore_command, restore_fields, switch_fields, switch_object,
    HueState, HueStateView, Xy, XyView,
};
use vstd::prelude::*;
use vstd::string::*;

verus! {

/// The fields that light up a light for a pulse, at once.
pub open spec fn pulse_fields(config: ConfigView, xy: XyView) -> Map<Seq<char>, Json> {
    let lit = switch_fields(true).insert("bri"@, Json::Integer(config.pulse_bri as int));
    match config.pulse_style {
        PulseStyle::Preserve => lit,
        PulseStyle::Temperature(ct) => lit.insert("ct"@, Json::Integer(ct as int)),
        PulseStyle::Colour(_) => lit.insert("xy"@, point(xy)),
    }
}

/// The command that lights up a light for a pulse. `xy` is where the colour of
/// the pulse lies in the chromaticity diagram, and counts for nothing where the
/// pulse has no colour of its own.
pub fn pulse_command(config: &Config, xy: &Xy) -> (command: serde_json::Value)
    ensures
        json(command) == Json::Object(pulse_fields(config@, xy@)),
{
    let mut fields = switch_object(true);
    insert_integer(&mut fields, "bri", config.pulse_bri as u16);
    match config.pulse_style {
        PulseStyle::Preserve => {},
        PulseStyle::Temperature(ct) => {
            insert_integer(&mut fields, "ct", ct);
        },
        PulseStyle::Colour(_) => {
            insert_point(&mut fields, "xy", xy);
        },
    }
    object_value(fields)
}

/// How a batch ended.
#[derive(Debug, Clone, Copy, PartialEq, Eq)]
pub enum BatchOutcome {
    Success,
    PulseFailed,
    RestoreFailed,
    BothFailed,
}

/// What is to be done next in a batch.
#[derive(Debug, PartialEq)]
pub enum PulseAction {
    /// Send a command to the light.
    Put(serde_json::Value),
    /// Wait, in milliseconds.
    Wait(u64),
    /// The batch is over.
    Finish(BatchOutcome),
}

/// What is to be done next in a batch, as mathematics.
pub enum PulseStep {
    Put(Json),
    Wait(u64),
    Finish(BatchOutcome),
}

impl View for PulseAction {
    type V = PulseStep;

    open spec fn view(&self) -> PulseStep {
        match *self {
            PulseAction::Put(command) => PulseStep::Put(json(command)),
            PulseAction::Wait(ms) => PulseStep::Wait(ms),
            PulseAction::Finish(outcome) => PulseStep::Finish(outcome),
        }
    }
}

/// Sending the command that makes the light dark.
pub open spec fn go_dark() -> PulseStep {
    PulseStep::Put(Json::Object(switch_fields(false)))
}

/// Sending the command that lights up the light.
pub open spec fn light_up(config: ConfigView, xy: XyView) -> PulseStep {
    PulseStep::Put(Json::Object(pulse_fields(config, xy)))
}

/// Sending the command that brings back what the light showed.
pub open spec fn bring_back(original: HueStateView) -> PulseStep {
    PulseStep::Put(Json::Object(restore_fields(original)))
}

/// So many pulses, with a gap between each two.
pub open spec fn pulses(count: nat, config: ConfigView, xy: XyView) -> Seq<PulseStep>
    decreases count,
{
    let one = seq![light_up(config, xy), PulseStep::Wait(config.pulse_on_ms), go_dark()];
    if count == 0 {
        Seq::empty()
    } else if count == 1 {
        one
    } else {
        pulses((count - 1) as nat, config, xy) + seq![PulseStep::Wait(config.pulse_gap_ms)] + one
    }
}

/// What a batch does where nothing fails: a light that is on goes dark first;
/// then come the pulses; at the end the light is brought back.
pub open spec fn plan(original: HueStateView, count: nat, config: ConfigView, xy: XyView) -> Seq<PulseStep> {
    let lead = if original.on {
        seq![go_dark()]
    } else {
        Seq::empty()
    };
    lead + pulses(count, config, xy) + seq![bring_back(original)]
}

/// How far a batch is.
pub struct BatchView {
    pub original: HueStateView,
    pub count: nat,
    /// The place in the plan of what is being done.
    pub position: nat,
    pub pulse_failed: bool,
    pub restore_failed: bool,
}

/// How a batch ended, by what failed in it.
pub open spec fn batch_outcome(pulse_failed: bool, restore_failed: bool) -> BatchOutcome {
    match (pulse_failed, restore_failed) {
        (false, false) => BatchOutcome::Success,
        (true, false) => BatchOutcome::PulseFailed,
        (false, true) => BatchOutcome::RestoreFailed,
        (true, true) => BatchOutcome::BothFailed,
    }
}

/// A batch that has just begun.
pub open spec fn begun(original: HueStateView, count: nat) -> BatchView {
    BatchView { original, count, position: 0, pulse_failed: false, restore_failed: false }
}

/// What comes after a step of the plan: the next one where it went well, and
/// the last one, which brings the light back, where it failed. After the last
/// one the batch is over.
pub open spec fn batch_step(batch: BatchView, ok: bool, plan: Seq<PulseStep>) -> (BatchView, PulseStep) {
    let last = (plan.len() - 1) as nat;
    if batch.position > last {
        (batch, PulseStep::Finish(batch_outcome(batch.pulse_failed, batch.restore_failed)))
    } else if batch.position == last {
        let over = BatchView { position: plan.len(), restore_failed: !ok, ..batch };
        (over, PulseStep::Finish(batch_outcome(over.pulse_failed, over.restore_failed)))
    } else if ok {
        (BatchView { position: batch.position + 1, ..batch }, plan[batch.position as int + 1])
    } else {
        (BatchView { position: last, pulse_failed: true, ..batch }, plan[last as int])
    }
}

/// What is being done, with the number of the pulse.
#[derive(Debug, Clone, Copy, PartialEq)]
enum PulsePhase {
    Darkening,
    Lighting(u64),
    Holding(u64),
    Dimming(u64),
    Pausing(u64),
    Restoring,
    Over(bool),
}

/// A batch of pulses under way.
#[derive(Debug)]
pub struct PulseBatch {
    original: HueState,
    count: u64,
    phase: PulsePhase,
    pulse_failed: bool,
}

/// The place of the first pulse in the plan.
spec fn lead(original: HueStateView) -> nat {
    if original.on {
        1
    } else {
        0
    }
}

/// The place in the plan of bringing the light back.
spec fn last_place(original: HueStateView, count: nat) -> nat {
    if count == 0 {
        lead(original)
    } else {
        (lead(original) + 4 * count - 1) as nat
    }
}

impl View for PulseBatch {
    type V = BatchView;

    closed spec fn view(&self) -> BatchView {
        let first = lead(self.original@);
        BatchView {
            original: self.original@,
            count: self.count as nat,
            position: match self.phase {
                PulsePhase::Darkening => 0,
                PulsePhase::Lighting(pulse) => first + 4 * pulse as nat,
                PulsePhase::Holding(pulse) => first + 4 * pulse as nat + 1,
                PulsePhase::Dimming(pulse) => first + 4 * pulse as nat + 2,
                PulsePhase::Pausing(pulse) => first + 4 * pulse as nat + 3,
                PulsePhase::Restoring => last_place(self.original@, self.count as nat),
                PulsePhase::Over(_) => last_place(self.original@, self.count as nat) + 1,
            },
            pulse_failed: self.pulse_failed,
            restore_failed: self.phase matches PulsePhase::Over(failed) && failed,
        }
    }
}

proof fn places_of_pulses(count: nat, config: ConfigView, xy: XyView)
    ensures
        pulses(count, config, xy).len() == (if count == 0 {
            0
        } else {
            4 * count - 1
        }),
        forall|i: int|
            #![trigger pulses(count, config, xy)[i]]
            0 <= i < pulses(count, config, xy).len() ==> pulses(count, config, xy)[i] == (if i % 4 == 0 {
                light_up(config, xy)
            } else if i % 4 == 1 {
                PulseStep::Wait(config.pulse_on_ms)
            } else if i % 4 == 2 {
                go_dark()
            } else {
                PulseStep::Wait(config.pulse_gap_ms)
            }),
    decreases count,
{
    if count > 1 {
        places_of_pulses((count - 1) as nat, config, xy);
    }
}

proof fn places_of_plan(original: HueStateView, count: nat, config: ConfigView, xy: XyView)
    ensures
        plan(original, count, config, xy).len() == last_place(original, count) + 1,
        plan(original, count, config, xy)[last_place(original, count) as int] == bring_back(original),
        original.on ==> plan(original, count, config, xy)[0] == go_dark(),
{
    places_of_pulses(count, config, xy);
}

proof fn places_of_one_pulse(original: HueStateView, count: nat, config: ConfigView, xy: XyView, pulse: nat)
    requires
        pulse < count,
    ensures
        ({
            let steps = plan(original, count, config, xy);
            let at = lead(original) + 4 * pulse as int;
            &&& at + 3 < steps.len()
            &&& steps[at] == light_up(config, xy)
            &&& steps[at + 1] == PulseStep::Wait(config.pulse_on_ms)
            &&& steps[at + 2] == go_dark()
            &&& pulse + 1 < count ==> steps[at + 3] == PulseStep::Wait(config.pulse_gap_ms)
        }),
{
    places_of_pulses(count, config, xy);
    let steps = plan(original, count, config, xy);
    let middle = pulses(count, config, xy);
    let at = lead(original) + 4 * pulse as int;
    assert(steps[at] == middle[4 * pulse as int]);
    assert(steps[at + 1] == middle[4 * pulse as int + 1]);
    assert(steps[at + 2] == middle[4 * pulse as int + 2]);
    if pulse + 1 < count {
        assert(steps[at + 3] == middle[4 * pulse as int + 3]);
    }
}

impl PulseBatch {
    /// Whether the pulse in hand is one of the batch.
    pub closed spec fn wf(&self) -> bool {
        match self.phase {
            PulsePhase::Darkening => self.original@.on,
            PulsePhase::Lighting(pulse) => pulse < self.count,
            PulsePhase::Holding(pulse) => pulse < self.count,
            PulsePhase::Dimming(pulse) => pulse < self.count,
            PulsePhase::Pausing(pulse) => pulse + 1 < self.count,
            PulsePhase::Restoring => true,
            PulsePhase::Over(_) => true,
        }
    }

    fn act(&self, config: &Config, xy: &Xy) -> (action: PulseAction)
        requires
            self.wf(),
        ensures
            ({
                let steps = plan(self@.original, self@.count, config@, xy@);
                if self@.position < steps.len() {
                    action@ == steps[self@.position as int]
                } else {
                    action@ == PulseStep::Finish(batch_outcome(self@.pulse_failed, self@.restore_failed))
                }
            }),
            self@.position <= plan(self@.original, self@.count, config@, xy@).len(),
    {
        proof {
            places_of_plan(self@.original, self@.count, config@, xy@);
            let pulse = match self.phase {
                PulsePhase::Lighting(pulse) => pulse as nat,
                PulsePhase::Holding(pulse) => pulse as nat,
                PulsePhase::Dimming(pulse) => pulse as nat,
                PulsePhase::Pausing(pulse) => pulse as nat,
                _ => 0,
            };
            if pulse < self.count {
                places_of_one_pulse(self@.original, self@.count, config@, xy@, pulse);
            }
        }
        match self.phase {
            PulsePhase::Darkening => PulseAction::Put(dark_command()),
            PulsePhase::Lighting(_) => PulseAction::Put(pulse_command(config, xy)),
            PulsePhase::Holding(_) => PulseAction::Wait(config.pulse_on_ms),
            PulsePhase::Dimming(_) => PulseAction::Put(dark_command()),
            PulsePhase::Pausing(_) => PulseAction::Wait(config.pulse_gap_ms),
            PulsePhase::Restoring => PulseAction::Put(restore_command(&self.original)),
            PulsePhase::Over(restore_failed) => PulseAction::Finish(
                match (self.pulse_failed, restore_failed) {
                    (false, false) => BatchOutcome::Success,
                    (true, false) => BatchOutcome::PulseFailed,
                    (false, true) => BatchOutcome::RestoreFailed,
                    (true, true) => BatchOutcome::BothFailed,
                },
            ),
        }
    }

    /// Begins a batch of `count` pulses on a light that shows `original`.
    pub fn begin(original: HueState, count: u64, config: &Config, xy: &Xy) -> (first: (PulseBatch, PulseAction))
        ensures
            first.0.wf(),
            first.0@ == begun(original@, count as nat),
            first.1@ == plan(original@, count as nat, config@, xy@)[0],
    {
        let phase = if original.on {
            PulsePhase::Darkening
        } else if count > 0 {
            PulsePhase::Lighting(0)
        } else {
            PulsePhase::Restoring
        };
        let batch = PulseBatch { original, count, phase, pulse_failed: false };
        proof {
            places_of_plan(batch@.original, batch@.count, config@, xy@);
        }
        let action = batch.act(config, xy);
        (batch, action)
    }

    /// Goes on after what was asked for last, which went well or failed.
    pub fn advance(self, ok: bool, config: &Config, xy: &Xy) -> (next: (PulseBatch, PulseAction))
        requires
            self.wf(),
        ensures
            next.0.wf(),
            (next.0@, next.1@) == batch_step(self@, ok, plan(self@.original, self@.count, config@, xy@)),
    {
        proof {
            places_of_plan(self@.original, self@.count, config@, xy@);
        }
        let mut batch = self;
        let phase = batch.phase;
        match phase {
            PulsePhase::Restoring => {
                batch.phase = PulsePhase::Over(!ok);
            },
            PulsePhase::Over(_) => {},
            _ => {
                if !ok {
                    batch.phase = PulsePhase::Restoring;
                    batch.pulse_failed = true;
                } else {
                    batch.phase = match phase {
                        PulsePhase::Darkening => if batch.count > 0 {
                            PulsePhase::Lighting(0)
                        } else {
                            PulsePhase::Restoring
                        },
                        PulsePhase::Lighting(pulse) => PulsePhase::Holding(pulse),
                        PulsePhase::Holding(pulse) => PulsePhase::Dimming(pulse),
                        PulsePhase::Dimming(pulse) => if pulse + 1 < batch.count {
                            PulsePhase::Pausing(pulse)
                        } else {
                            PulsePhase::Restoring
                        },
                        PulsePhase::Pausing(pulse) => PulsePhase::Lighting(pulse + 1),
                        PulsePhase::Restoring => PulsePhase::Restoring,
                        PulsePhase::Over(failed) => PulsePhase::Over(failed),
                    };
                }
            },
        }
        let action = batch.act(config, xy);
        (batch, action)
    }
}

/// What is told of a batch in which both failed.
pub open spec fn both_failed_text(pulse_error: Seq<char>, restore_error: Seq<char>) -> Seq<char> {
    "pulse error: "@ + pulse_error + "; also could not restore the light: "@ + restore_error
}

/// The text that tells of a batch in which a pulse failed and the light could
/// not be brought back either.
pub fn both_failed_message(pulse_error: &str, restore_error: &str) -> (text: String)
    ensures
        text@ == "pulse error: "@ + pulse_error@ + "; also could not restore the light: "@ + restore_error@,
        text@ == both_failed_text(pulse_error@, restore_error@),
{
    "pulse error: ".to_owned().concat(pulse_error).concat("; also could not restore the light: ").concat(restore_error)
}

/// What a batch asks for in answer to how each step went.
pub open spec fn answers(batch: BatchView, oks: Seq<bool>, plan: Seq<PulseStep>) -> Seq<PulseStep>
    decreases oks.len(),
{
    if oks.len() == 0 {
        Seq::empty()
    } else {
        let (next, step) = batch_step(batch, oks[0], plan);
        seq![step] + answers(next, oks.subrange(1, oks.len() as int), plan)
    }
}

/// All that a batch asks for where its steps go as `oks` says.
pub open spec fn played(original: HueStateView, count: nat, config: ConfigView, xy: XyView, oks: Seq<bool>) -> Seq<
    PulseStep,
> {
    let steps = plan(original, count, config, xy);
    seq![steps[0]] + answers(begun(original, count), oks, steps)
}

proof fn answers_of_success(batch: BatchView, oks: Seq<bool>, steps: Seq<PulseStep>)
    requires
        batch.position < steps.len(),
        oks.len() == steps.len() - batch.position,
        forall|i: int| 0 <= i < oks.len() ==> oks[i],
        !batch.pulse_failed,
    ensures
        seq![steps[batch.position as int]] + answers(batch, oks, steps) == steps.subrange(
            batch.position as int,
            steps.len() as int,
        ) + seq![PulseStep::Finish(BatchOutcome::Success)],
    decreases oks.len(),
{
    let (next, step) = batch_step(batch, oks[0], steps);
    let rest = oks.subrange(1, oks.len() as int);
    let left = steps.subrange(batch.position as int, steps.len() as int);
    if batch.position == steps.len() - 1 {
        assert(answers(next, rest, steps) =~= Seq::empty());
        assert(left =~= seq![steps[batch.position as int]]);
    } else {
        answers_of_success(next, rest, steps);
        assert(left =~= seq![steps[batch.position as int]] + steps.subrange(
            next.position as int,
            steps.len() as int,
        ));
        assert(answers(batch, oks, steps) =~= seq![step] + answers(next, rest, steps));
        assert(seq![steps[batch.position as int]] + answers(batch, oks, steps) =~= left + seq![
            PulseStep::Finish(BatchOutcome::Success),
        ]);
    }
}

/// Where nothing fails a batch does what is planned, step by step, and succeeds.
pub proof fn a_batch_without_failures_follows_its_plan(
    original: HueStateView,
    count: nat,
    config: ConfigView,
    xy: XyView,
    oks: Seq<bool>,
)
    requires
        oks.len() == plan(original, count, config, xy).len(),
        forall|i: int| 0 <= i < oks.len() ==> oks[i],
    ensures
        played(original, count, config, xy, oks) == plan(original, count, config, xy) + seq![
            PulseStep::Finish(BatchOutcome::Success),
        ],
{
    let steps = plan(original, count, config, xy);
    answers_of_success(begun(original, count), oks, steps);
    assert(steps.subrange(0, steps.len() as int) =~= steps);
}

proof fn plans_never_finish(original: HueStateView, count: nat, config: ConfigView, xy: XyView)
    ensures
        forall|i: int|
            0 <= i < plan(original, count, config, xy).len() ==> !(#[trigger] plan(original, count, config, xy)[i]
                is Finish),
{
    places_of_pulses(count, config, xy);
}

/// Whether every step before the `end`th went well.
pub open spec fn all_well(oks: Seq<bool>, end: int) -> bool {
    forall|i: int| 0 <= i < end ==> oks[i]
}

proof fn answers_end_with_the_last_step(batch: BatchView, oks: Seq<bool>, steps: Seq<PulseStep>) -> (end: int)
    requires
        batch.position < steps.len(),
        oks.len() >= steps.len() - batch.position,
        forall|i: int| 0 <= i < steps.len() ==> !(#[trigger] steps[i] is Finish),
    ensures
        ({
            let acts = seq![steps[batch.position as int]] + answers(batch, oks, steps);
            &&& 1 <= end <= steps.len() - batch.position
            &&& end < acts.len()
            &&& acts[end - 1] == steps[steps.len() - 1]
            &&& acts[end] == PulseStep::Finish(
                batch_outcome(batch.pulse_failed || !all_well(oks, end - 1), !oks[end - 1]),
            )
            &&& forall|i: int| 0 <= i < end ==> !(#[trigger] acts[i] is Finish)
        }),
    decreases steps.len() - batch.position,
{
    let (next, step) = batch_step(batch, oks[0], steps);
    let rest = oks.subrange(1, oks.len() as int);
    let acts = seq![steps[batch.position as int]] + answers(batch, oks, steps);
    if batch.position == steps.len() - 1 {
        assert(acts[1] == step);
        1
    } else {
        let end = answers_end_with_the_last_step(next, rest, steps);
        let later = seq![steps[next.position as int]] + answers(next, rest, steps);
        assert(acts =~= seq![steps[batch.position as int]] + later);
        assert forall|i: int| 0 <= i < end + 1 implies !(#[trigger] acts[i] is Finish) by {
            if i > 0 {
                assert(acts[i] == later[i - 1]);
            }
        }
        assert(acts[end] == later[end - 1]);
        assert(acts[end + 1] == later[end]);
        assert(rest[end - 1] == oks[end]);
        assert((oks[0] && all_well(rest, end - 1)) == all_well(oks, end)) by {
            if oks[0] && all_well(rest, end - 1) {
                assert forall|i: int| 0 <= i < end implies oks[i] by {
                    if i > 0 {
                        assert(rest[i - 1] == oks[i]);
                    }
                }
            }
            if all_well(oks, end) {
                assert forall|i: int| 0 <= i < end - 1 implies rest[i] by {
                    assert(rest[i] == oks[i + 1]);
                }
            }
        }
        end + 1
    }
}

/// However its steps go, a batch comes to an end, the last thing it asks for is
/// to bring the light back, and the outcome tells whether anything failed
/// before that, and whether that failed.
pub proof fn a_batch_ends_by_bringing_the_light_back(
    original: HueStateView,
    count: nat,
    config: ConfigView,
    xy: XyView,
    oks: Seq<bool>,
) -> (end: int)
    requires
        oks.len() >= plan(original, count, config, xy).len(),
    ensures
        ({
            let acts = played(original, count, config, xy, oks);
            &&& 1 <= end <= plan(original, count, config, xy).len()
            &&& end < acts.len()
            &&& acts[end - 1] == bring_back(original)
            &&& acts[end] == PulseStep::Finish(batch_outcome(!all_well(oks, end - 1), !oks[end - 1]))
            &&& forall|i: int| 0 <= i < end ==> !(#[trigger] acts[i] is Finish)
        }),
{
    plans_never_finish(original, count, config, xy);
    answers_end_with_the_last_step(begun(original, count), oks, plan(original, count, config, xy))
}

proof fn lighting_up_is_not_going_dark(config: ConfigView, xy: XyView)
    ensures
        light_up(config, xy) != go_dark(),
{
    field_names_differ();
    assert(pulse_fields(config, xy)["on"@] == Json::Bool(true));
    assert(switch_fields(false)["on"@] == Json::Bool(false));
}

/// A batch of so many pulses lights up the light so many times.
pub proof fn a_batch_lights_up_once_for_each_pulse(count: nat, config: ConfigView, xy: XyView)
    ensures
        pulses(count, config, xy).to_multiset().count(light_up(config, xy)) == count,
    decreases count,
{
    broadcast use vstd::seq_lib::group_to_multiset_ensures;

    lighting_up_is_not_going_dark(config, xy);
    let up = light_up(config, xy);
    let hold = PulseStep::Wait(config.pulse_on_ms);
    let gap = PulseStep::Wait(config.pulse_gap_ms);
    if count == 1 {
        assert(pulses(count, config, xy) =~= Seq::empty().push(up).push(hold).push(go_dark()));
    } else if count > 1 {
        a_batch_lights_up_once_for_each_pulse((count - 1) as nat, config, xy);
        assert(pulses(count, config, xy) =~= pulses((count - 1) as nat, config, xy).push(gap).push(up).push(hold).push(
            go_dark(),
        ));
    }
}

/// A pulse is sent at the brightness that is set and at once, at the temperature
/// that is set where the style is one, in the colour of the given point where the
/// style is one, and otherwise as the light is. The command says nothing else.
pub proof fn a_pulse_is_sent_as_it_is_set(config: Config, xy: Xy, key: Seq<char>)
    ensures
        ({
            let command = Json::Object(pulse_fields(config@, xy@));
            &&& json_field(command, "on"@) == Some(Json::Bool(true))
            &&& json_field(command, "transitiontime"@) == Some(Json::Integer(0))
            &&& json_field(command, "bri"@) == Some(Json::Integer(config.pulse_bri as int))
            &&& match config.pulse_style {
                PulseStyle::Preserve => {
                    &&& json_field(command, "ct"@) is None
                    &&& json_field(command, "xy"@) is None
                },
                PulseStyle::Temperature(mired) => {
                    &&& json_field(command, "ct"@) == Some(Json::Integer(mired as int))
                    &&& json_field(command, "xy"@) is None
                },
                PulseStyle::Colour(_) => {
                    &&& json_field(command, "xy"@) == Some(Json::Items(seq![json(xy.x), json(xy.y)]))
                    &&& json_field(command, "ct"@) is None
                },
            }
            &&& json_field(command, key) is Some ==> {
                ||| key == "on"@
                ||| key == "transitiontime"@
                ||| key == "bri"@
                ||| key == "ct"@
                ||| key == "xy"@
            }
        }),
{
    field_names_differ();
}

/// A batch is planned for each pulse alike: light up, wait as long as is set, go
/// dark, and wait as long as is set before the next one. A light that is on goes
/// dark before the first, and behind the last the light is brought back.
pub proof fn each_pulse_has_its_place(original: HueState, count: u64, config: Config, xy: Xy, pulse: nat)
    requires
        pulse < count,
    ensures
        ({
            let steps = plan(original@, count as nat, config@, xy@);
            let dark = PulseStep::Put(Json::Object(switch_fields(false)));
            let first = if original.on {
                1int
            } else {
                0int
            };
            let at = first + 4 * pulse as int;
            &&& steps.len() == first + 4 * count
            &&& original.on ==> steps[0] == dark
            &&& steps[at] == PulseStep::Put(Json::Object(pulse_fields(config@, xy@)))
            &&& steps[at + 1] == PulseStep::Wait(config.pulse_on_ms)
            &&& steps[at + 2] == dark
            &&& pulse + 1 < count ==> steps[at + 3] == PulseStep::Wait(config.pulse_gap_ms)
            &&& steps[steps.len() - 1] == PulseStep::Put(Json::Object(restore_fields(original@)))
        }),
{
    places_of_plan(original@, count as nat, config@, xy@);
    places_of_one_pulse(original@, count as nat, config@, xy@, pulse);
}

/// A batch without pulses makes a light that is on dark and brings the light
/// back, no more.
pub proof fn no_pulses_are_no_more_than_bringing_back(original: HueState, config: Config, xy: Xy)
    ensures
        plan(original@, 0, config@, xy@) == (if original.on {
            seq![
                PulseStep::Put(Json::Object(switch_fields(false))),
                PulseStep::Put(Json::Object(restore_fields(original@))),
            ]
        } else {
            seq![PulseStep::Put(Json::Object(restore_fields(original@)))]
        }),
{
}

/// What a batch under way asks for in answer to how each step goes.
pub open spec fn batch_run(batch: BatchView, oks: Seq<bool>, config: ConfigView, xy: XyView) -> Seq<PulseStep>
    decreases oks.len(),
{
    if oks.len() == 0 {
        Seq::empty()
    } else {
        let (next, step) = batch_step(batch, oks[0], plan(batch.original, batch.count, config, xy));
        seq![step] + batch_run(next, oks.subrange(1, oks.len() as int), config, xy)
    }
}

proof fn run_until_a_failure(batch: BatchView, oks: Seq<bool>, config: ConfigView, xy: XyView, failing: int)
    requires
        !batch.pulse_failed,
        0 <= failing,
        batch.position + failing + 1 < plan(batch.original, batch.count, config, xy).len(),
        failing + 1 < oks.len(),
        forall|i: int| 0 <= i < failing ==> oks[i],
        !oks[failing],
    ensures
        ({
            let steps = plan(batch.original, batch.count, config, xy);
            let acts = batch_run(batch, oks, config, xy);
            &&& acts.len() == oks.len()
            &&& forall|i: int| 0 <= i < failing ==> #[trigger] acts[i] == steps[batch.position + 1 + i]
            &&& acts[failing] == steps[steps.len() - 1]
            &&& acts[failing + 1] == PulseStep::Finish(
                if oks[failing + 1] {
                    BatchOutcome::PulseFailed
                } else {
                    BatchOutcome::BothFailed
                },
            )
        }),
    decreases failing,
{
    let steps = plan(batch.original, batch.count, config, xy);
    let (next, step) = batch_step(batch, oks[0], steps);
    let rest = oks.subrange(1, oks.len() as int);
    let acts = batch_run(batch, oks, config, xy);
    let later = batch_run(next, rest, config, xy);
    run_is_as_long(batch, oks, config, xy);
    run_is_as_long(next, rest, config, xy);
    assert(acts =~= seq![step] + later);
    if failing > 0 {
        assert(oks[0]);
        run_until_a_failure(next, rest, config, xy, failing - 1);
        assert forall|i: int| 0 <= i < failing implies #[trigger] acts[i] == steps[batch.position + 1 + i] by {
            if i > 0 {
                assert(acts[i] == later[i - 1]);
            }
        }
        assert(acts[failing] == later[failing - 1]);
        assert(acts[failing + 1] == later[failing]);
        assert(rest[failing] == oks[failing + 1]);
    } else {
        let (over, end) = batch_step(next, rest[0], steps);
        assert(later =~= seq![end] + batch_run(over, rest.subrange(1, rest.len() as int), config, xy));
        assert(acts[1] == later[0]);
    }
}

proof fn run_is_as_long(batch: BatchView, oks: Seq<bool>, config: ConfigView, xy: XyView)
    ensures
        batch_run(batch, oks, config, xy).len() == oks.len(),
    decreases oks.len(),
{
    if oks.len() > 0 {
        let (next, _) = batch_step(batch, oks[0], plan(batch.original, batch.count, config, xy));
        run_is_as_long(next, oks.subrange(1, oks.len() as int), config, xy);
    }
}

proof fn run_to_the_end(batch: BatchView, oks: Seq<bool>, config: ConfigView, xy: XyView)
    requires
        !batch.pulse_failed,
        batch.position < plan(batch.original, batch.count, config, xy).len(),
        oks.len() == plan(batch.original, batch.count, config, xy).len() - batch.position,
        forall|i: int| 0 <= i < oks.len() - 1 ==> oks[i],
    ensures
        ({
            let steps = plan(batch.original, batch.count, config, xy);
            let acts = batch_run(batch, oks, config, xy);
            &&& acts.len() == oks.len()
            &&& forall|i: int| 0 <= i < oks.len() - 1 ==> #[trigger] acts[i] == steps[batch.position + 1 + i]
            &&& acts[oks.len() - 1] == PulseStep::Finish(
                if oks[oks.len() - 1] {
                    BatchOutcome::Success
                } else {
                    BatchOutcome::RestoreFailed
                },
            )
        }),
    decreases oks.len(),
{
    let steps = plan(batch.original, batch.count, config, xy);
    let (next, step) = batch_step(batch, oks[0], steps);
    let rest = oks.subrange(1, oks.len() as int);
    let acts = batch_run(batch, oks, config, xy);
    let later = batch_run(next, rest, config, xy);
    run_is_as_long(batch, oks, config, xy);
    run_is_as_long(next, rest, config, xy);
    assert(acts =~= seq![step] + later);
    if oks.len() > 1 {
        assert(oks[0]);
        run_to_the_end(next, rest, config, xy);
        assert forall|i: int| 0 <= i < oks.len() - 1 implies #[trigger] acts[i] == steps[batch.position + 1 + i] by {
            if i > 0 {
                assert(acts[i] == later[i - 1]);
            }
        }
        assert(acts[oks.len() - 1] == later[oks.len() - 2]);
        assert(rest[oks.len() - 2] == oks[oks.len() - 1]);
    }
}

/// A batch does what is planned, step by step, as long as that goes well. Right
/// after the first step that fails the light is brought back, and then the batch
/// is over and has failed, whether or not that went well.
pub proof fn the_light_is_brought_back_right_after_a_failure(
    original: HueState,
    count: u64,
    config: Config,
    xy: Xy,
    oks: Seq<bool>,
    failing: int,
)
    requires
        0 <= failing,
        failing + 1 < plan(original@, count as nat, config@, xy@).len(),
        failing + 1 < oks.len(),
        forall|i: int| 0 <= i < failing ==> oks[i],
        !oks[failing],
    ensures
        ({
            let steps = plan(original@, count as nat, config@, xy@);
            let acts = seq![steps[0]] + batch_run(begun(original@, count as nat), oks, config@, xy@);
            &&& forall|i: int| 0 <= i <= failing ==> #[trigger] acts[i] == steps[i]
            &&& acts[failing + 1] == PulseStep::Put(Json::Object(restore_fields(original@)))
            &&& acts[failing + 2] == PulseStep::Finish(
                if oks[failing + 1] {
                    BatchOutcome::PulseFailed
                } else {
                    BatchOutcome::BothFailed
                },
            )
        }),
{
    let steps = plan(original@, count as nat, config@, xy@);
    let run = batch_run(begun(original@, count as nat), oks, config@, xy@);
    let acts = seq![steps[0]] + run;
    places_of_plan(original@, count as nat, config@, xy@);
    run_until_a_failure(begun(original@, count as nat), oks, config@, xy@, failing);
    assert forall|i: int| 0 <= i <= failing implies #[trigger] acts[i] == steps[i] by {
        if i > 0 {
            assert(acts[i] == run[i - 1]);
        }
    }
    assert(acts[failing + 1] == run[failing]);
    assert(acts[failing + 2] == run[failing + 1]);
}

/// Where no step before the last one fails, a batch does all that is planned, in
/// that order and once, and then it is over: well where the light was brought
/// back, and failed where not.
pub proof fn a_batch_does_all_that_is_planned(original: HueState, count: u64, config: Config, xy: Xy, oks: Seq<bool>)
    requires
        oks.len() == plan(original@, count as nat, config@, xy@).len(),
        forall|i: int| 0 <= i < oks.len() - 1 ==> oks[i],
    ensures
        seq![plan(original@, count as nat, config@, xy@)[0]] + batch_run(
            begun(original@, count as nat),
            oks,
            config@,
            xy@,
        ) == plan(original@, count as nat, config@, xy@) + seq![
            PulseStep::Finish(
                if oks[oks.len() - 1] {
                    BatchOutcome::Success
                } else {
                    BatchOutcome::RestoreFailed
                },
            ),
        ],
{
    let steps = plan(original@, count as nat, config@, xy@);
    let run = batch_run(begun(original@, count as nat), oks, config@, xy@);
    let acts = seq![steps[0]] + run;
    places_of_plan(original@, count as nat, config@, xy@);
    run_to_the_end(begun(original@, count as nat), oks, config@, xy@);
    assert forall|i: int| 0 <= i < steps.len() implies #[trigger] acts[i] == steps[i] by {
        if i > 0 {
            assert(acts[i] == run[i - 1]);
        }
    }
    assert(acts[steps.len() as int] == run[oks.len() - 1]);
}

/// A batch that is over stays over, with the outcome it had.
pub proof fn an_outcome_stays(batch: BatchView, ok: bool, steps: Seq<PulseStep>)
    requires
        steps.len() > 0,
        batch.position >= steps.len(),
    ensures
        batch_step(batch, ok, steps).0 == batch,
        batch_step(batch, ok, steps).1 == PulseStep::Finish(
            if batch.pulse_failed && batch.restore_failed {
                BatchOutcome::BothFailed
            } else if batch.pulse_failed {
                BatchOutcome::PulseFailed
            } else if batch.restore_failed {
                BatchOutcome::RestoreFailed
            } else {
                BatchOutcome::Success
            },
        ),
{
}

/// Where both failed both errors are told, each whole and in its place.
pub proof fn both_errors_are_told(pulse_error: Seq<char>, restore_error: Seq<char>)
    ensures
        ({
            let text = both_failed_text(pulse_error, restore_error);
            let pulse_end = 13 + pulse_error.len() as int;
            &&& text.len() == pulse_end + 36 + restore_error.len()
            &&& text.subrange(0, 13) == "pulse error: "@
            &&& text.subrange(13, pulse_end) == pulse_error
            &&& text.subrange(pulse_end, pulse_end + 36) == "; also could not restore the light: "@
            &&& text.subrange(pulse_end + 36, text.len() as int) == restore_error
        }),
{
    reveal_strlit("pulse error: ");
    reveal_strlit("; also could not restore the light: ");
    let text = both_failed_text(pulse_error, restore_error);
    let pulse_end = 13 + pulse_error.len() as int;
    assert(text.subrange(0, 13) =~= "pulse error: "@);
    assert(text.subrange(13, pulse_end) =~= pulse_error);
    assert(text.subrange(pulse_end, pulse_end + 36) =~= "; also could not restore the light: "@);
    assert(text.subrange(pulse_end + 36, text.len() as int) =~= restore_error);
}

/// What is to be done is seen as it is asked for.
pub proof fn a_pulse_step_is_seen_as_it_is(action: PulseAction)
    ensures
        action matches PulseAction::Put(command) ==> action@ == PulseStep::Put(json(command)),
        action matches PulseAction::Wait(ms) ==> action@ == PulseStep::Wait(ms),
        action matches PulseAction::Finish(outcome) ==> action@ == PulseStep::Finish(outcome),
{
}

} // verus!
