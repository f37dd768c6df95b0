//! Watching the game: every snatch that is seen is queued as a pulse, and the
//! queue is saved before it is pulsed.

use crate::light::{HueState, HueStateView};
use crate::potato::{PotatoState, PotatoView};
use vstd::prelude::*;

verus! {

/// What the service remembers from one start to the next.
#[derive(Debug, PartialEq)]
pub struct WatchState {
    /// How often the potato had changed hands when it was last looked at.
    pub last_holder_count: u64,
    /// How many snatches are still to be pulsed.
    pub pending_pulses: u64,
    /// What the light showed before holder mode took it over.
    pub holder_light_state: Option<HueState>,
}

/// What the service remembers, as mathematics.
#[verifier::ext_equal]
pub struct WatchView {
    pub last_holder_count: nat,
    pub pending_pulses: nat,
    pub holder_light_state: Option<HueStateView>,
}

impl View for WatchState {
    type V = WatchView;

    open spec fn view(&self) -> WatchView {
        WatchView {
            last_holder_count: self.last_holder_count as nat,
            pending_pulses: self.pending_pulses as nat,
            holder_light_state: match self.holder_light_state {
                Some(state) => Some(state@),
                None => None,
            },
        }
    }
}

/// What is remembered where nothing was.
pub open spec fn nothing_remembered() -> WatchView {
    WatchView { last_holder_count: 0, pending_pulses: 0, holder_light_state: None }
}

impl Default for WatchState {
    fn default() -> (state: WatchState)
        ensures
            state@ == nothing_remembered(),
    {
        WatchState { last_holder_count: 0, pending_pulses: 0, holder_light_state: None }
    }
}

/// What is remembered once the holder count is seen: each count above the last
/// one is a snatch to pulse, and a count below it, which a new game brings, is
/// taken as it is.
pub open spec fn observed(watch: WatchView, holder_count: nat) -> WatchView {
    WatchView {
        last_holder_count: holder_count,
        pending_pulses: if holder_count > watch.last_holder_count {
            (watch.pending_pulses + holder_count - watch.last_holder_count) as nat
        } else {
            watch.pending_pulses
        },
        ..watch
    }
}

/// What the watch is waiting for.
#[derive(Debug, Clone, Copy, PartialEq, Eq)]
pub enum WatchPhase {
    /// The count to start from is being saved.
    SavingBaseline,
    /// The light is being brought in line with the state of the game.
    UpdatingHolder,
    /// The queue is being pulsed.
    Pulsing,
    /// That the queue was pulsed is being saved.
    SavingPulsed,
    /// The time until the next look is passing.
    Sleeping,
    /// The state of the game is being fetched.
    Fetching,
    /// A new count is being saved.
    SavingCount,
    /// The watch is over.
    Stopped,
}

/// How what was asked for went.
#[derive(Debug, PartialEq)]
pub enum WatchEvent {
    Done,
    Failed,
    Fetched(PotatoState),
}

/// How what was asked for went, as mathematics.
pub enum WatchEventView {
    Done,
    Failed,
    Fetched(PotatoView),
}

impl View for WatchEvent {
    type V = WatchEventView;

    open spec fn view(&self) -> WatchEventView {
        match *self {
            WatchEvent::Done => WatchEventView::Done,
            WatchEvent::Failed => WatchEventView::Failed,
            WatchEvent::Fetched(potato) => WatchEventView::Fetched(potato@),
        }
    }
}

/// What is to be done next in the watch.
#[derive(Debug, Clone, Copy, PartialEq, Eq)]
pub enum WatchAction {
    /// Save what is remembered.
    Save,
    /// Bring the light in line with the state of the game.
    UpdateHolder,
    /// Pulse the light so many times.
    Pulse(u64),
    /// Wait until the next look.
    Sleep,
    /// Fetch the state of the game.
    Fetch,
    /// Stop, for what is remembered cannot be saved.
    Stop,
}

/// A watch under way.
#[derive(Debug)]
pub struct Watcher {
    pub state: WatchState,
    pub potato: PotatoState,
    pub phase: WatchPhase,
}

/// A watch under way, as mathematics.
pub struct WatcherView {
    pub state: WatchView,
    pub potato: PotatoView,
    pub phase: WatchPhase,
}

impl View for Watcher {
    type V = WatcherView;

    open spec fn view(&self) -> WatcherView {
        WatcherView { state: self.state@, potato: self.potato@, phase: self.phase }
    }
}

/// How a watch begins. Where nothing was saved before, it starts from the count
/// of now, so that nothing that happened earlier is pulsed.
pub open spec fn watch_begin(state: WatchView, was_saved: bool, potato: PotatoView) -> (WatcherView, WatchAction) {
    if was_saved {
        (WatcherView { state, potato, phase: WatchPhase::UpdatingHolder }, WatchAction::UpdateHolder)
    } else {
        (
            WatcherView {
                state: WatchView { last_holder_count: potato.holder_count, ..state },
                potato,
                phase: WatchPhase::SavingBaseline,
            },
            WatchAction::Save,
        )
    }
}

/// How a watch goes on.
pub open spec fn watch_step(watcher: WatcherView, event: WatchEventView) -> (WatcherView, WatchAction) {
    let update_holder = WatcherView { phase: WatchPhase::UpdatingHolder, ..watcher };
    let sleep = WatcherView { phase: WatchPhase::Sleeping, ..watcher };
    let stop = WatcherView { phase: WatchPhase::Stopped, ..watcher };
    match (watcher.phase, event) {
        (WatchPhase::SavingBaseline, WatchEventView::Done) => (update_holder, WatchAction::UpdateHolder),
        (WatchPhase::UpdatingHolder, WatchEventView::Done) | (
            WatchPhase::UpdatingHolder,
            WatchEventView::Failed,
        ) => if watcher.state.pending_pulses > 0 {
            (
                WatcherView { phase: WatchPhase::Pulsing, ..watcher },
                WatchAction::Pulse(watcher.state.pending_pulses as u64),
            )
        } else {
            (sleep, WatchAction::Sleep)
        },
        (WatchPhase::Pulsing, WatchEventView::Done) => (
            WatcherView {
                state: WatchView { pending_pulses: 0, ..watcher.state },
                phase: WatchPhase::SavingPulsed,
                ..watcher
            },
            WatchAction::Save,
        ),
        (WatchPhase::Pulsing, WatchEventView::Failed) => (sleep, WatchAction::Sleep),
        (WatchPhase::SavingPulsed, WatchEventView::Done) => (sleep, WatchAction::Sleep),
        (WatchPhase::Sleeping, WatchEventView::Done) => (
            WatcherView { phase: WatchPhase::Fetching, ..watcher },
            WatchAction::Fetch,
        ),
        (WatchPhase::Fetching, WatchEventView::Fetched(potato)) => if potato.holder_count
            == watcher.state.last_holder_count {
            (WatcherView { potato, ..update_holder }, WatchAction::UpdateHolder)
        } else {
            (
                WatcherView {
                    state: observed(watcher.state, potato.holder_count),
                    potato,
                    phase: WatchPhase::SavingCount,
                },
                WatchAction::Save,
            )
        },
        (WatchPhase::Fetching, WatchEventView::Failed) => (update_holder, WatchAction::UpdateHolder),
        (WatchPhase::SavingCount, WatchEventView::Done) => (update_holder, WatchAction::UpdateHolder),
        _ => (stop, WatchAction::Stop),
    }
}

/// Whether the queue can be counted once the event is seen.
pub open spec fn queue_fits(watcher: WatcherView, event: WatchEventView) -> bool {
    watcher.phase is Fetching ==> (event matches WatchEventView::Fetched(potato) ==> observed(
        watcher.state,
        potato.holder_count,
    ).pending_pulses <= u64::MAX)
}

impl Watcher {
    /// Begins a watch with what was remembered, and tells whether that had been
    /// saved before.
    pub fn begin(state: WatchState, was_saved: bool, potato: PotatoState) -> (begun: (Watcher, WatchAction))
        ensures
            (begun.0@, begun.1) == watch_begin(state@, was_saved, potato@),
    {
        if was_saved {
            (Watcher { state, potato, phase: WatchPhase::UpdatingHolder }, WatchAction::UpdateHolder)
        } else {
            let mut state = state;
            state.last_holder_count = potato.holder_count;
            (Watcher { state, potato, phase: WatchPhase::SavingBaseline }, WatchAction::Save)
        }
    }

    /// Goes on after how what was asked for went.
    pub fn advance(&mut self, event: WatchEvent) -> (action: WatchAction)
        requires
            queue_fits(old(self)@, event@),
        ensures
            (final(self)@, action) == watch_step(old(self)@, event@),
    {
        let (phase, action) = match (self.phase, event) {
            (WatchPhase::SavingBaseline, WatchEvent::Done) => (WatchPhase::UpdatingHolder, WatchAction::UpdateHolder),
            (WatchPhase::UpdatingHolder, WatchEvent::Done) | (WatchPhase::UpdatingHolder, WatchEvent::Failed) => {
                if self.state.pending_pulses > 0 {
                    (WatchPhase::Pulsing, WatchAction::Pulse(self.state.pending_pulses))
                } else {
                    (WatchPhase::Sleeping, WatchAction::Sleep)
                }
            },
            (WatchPhase::Pulsing, WatchEvent::Done) => {
                self.state.pending_pulses = 0;
                (WatchPhase::SavingPulsed, WatchAction::Save)
            },
            (WatchPhase::Pulsing, WatchEvent::Failed) => (WatchPhase::Sleeping, WatchAction::Sleep),
            (WatchPhase::SavingPulsed, WatchEvent::Done) => (WatchPhase::Sleeping, WatchAction::Sleep),
            (WatchPhase::Sleeping, WatchEvent::Done) => (WatchPhase::Fetching, WatchAction::Fetch),
            (WatchPhase::Fetching, WatchEvent::Fetched(potato)) => {
                let count: u64 = potato.holder_count;
                self.potato = potato;
                if count == self.state.last_holder_count {
                    (WatchPhase::UpdatingHolder, WatchAction::UpdateHolder)
                } else {
                    if count > self.state.last_holder_count {
                        let added: u64 = count - self.state.last_holder_count;
                        self.state.pending_pulses = self.state.pending_pulses + added;
                    }
                    self.state.last_holder_count = count;
                    (WatchPhase::SavingCount, WatchAction::Save)
                }
            },
            (WatchPhase::Fetching, WatchEvent::Failed) => (WatchPhase::UpdatingHolder, WatchAction::UpdateHolder),
            (WatchPhase::SavingCount, WatchEvent::Done) => (WatchPhase::UpdatingHolder, WatchAction::UpdateHolder),
            _ => (WatchPhase::Stopped, WatchAction::Stop),
        };
        self.phase = phase;
        action
    }
}

/// What a watch that has not begun yet is waiting for.
#[derive(Debug, PartialEq)]
pub enum OpeningPhase {
    /// What was remembered is being loaded.
    Loading,
    /// The state of the game is being fetched for the first time.
    Fetching(WatchState),
    /// The watch has begun, or could not.
    Over,
}

/// What a watch that has not begun yet is waiting for, as mathematics.
pub enum OpeningPhaseView {
    Loading,
    Fetching(WatchView),
    Over,
}

impl View for OpeningPhase {
    type V = OpeningPhaseView;

    open spec fn view(&self) -> OpeningPhaseView {
        match *self {
            OpeningPhase::Loading => OpeningPhaseView::Loading,
            OpeningPhase::Fetching(state) => OpeningPhaseView::Fetching(state@),
            OpeningPhase::Over => OpeningPhaseView::Over,
        }
    }
}

/// How what a watch needs to begin came.
#[derive(Debug, PartialEq)]
pub enum OpeningEvent {
    /// What was remembered was loaded, where anything was.
    Loaded(Option<WatchState>),
    /// The state of the game was fetched, and whether anything is saved by then.
    Fetched(PotatoState, bool),
    Failed,
}

/// How what a watch needs to begin came, as mathematics.
pub enum OpeningEventView {
    Loaded(Option<WatchView>),
    Fetched(PotatoView, bool),
    Failed,
}

impl View for OpeningEvent {
    type V = OpeningEventView;

    open spec fn view(&self) -> OpeningEventView {
        match *self {
            OpeningEvent::Loaded(Some(state)) => OpeningEventView::Loaded(Some(state@)),
            OpeningEvent::Loaded(None) => OpeningEventView::Loaded(None),
            OpeningEvent::Fetched(potato, was_saved) => OpeningEventView::Fetched(potato@, was_saved),
            OpeningEvent::Failed => OpeningEventView::Failed,
        }
    }
}

/// What is to be done next to begin a watch.
#[derive(Debug)]
pub enum OpeningAction {
    /// Load what was remembered.
    Load,
    /// Fetch the state of the game.
    Fetch,
    /// Watch, and do this first.
    Watch(Watcher, WatchAction),
    /// Stop, for the watch cannot begin.
    Stop,
}

/// What is to be done next to begin a watch, as mathematics.
pub enum OpeningStep {
    Load,
    Fetch,
    Watch(WatcherView, WatchAction),
    Stop,
}

impl View for OpeningAction {
    type V = OpeningStep;

    open spec fn view(&self) -> OpeningStep {
        match *self {
            OpeningAction::Load => OpeningStep::Load,
            OpeningAction::Fetch => OpeningStep::Fetch,
            OpeningAction::Watch(watcher, action) => OpeningStep::Watch(watcher@, action),
            OpeningAction::Stop => OpeningStep::Stop,
        }
    }
}

/// How a watch comes to begin: with what was remembered, or nothing, and the
/// state of the game.
pub open spec fn opening_step(phase: OpeningPhaseView, event: OpeningEventView) -> (OpeningPhaseView, OpeningStep) {
    match (phase, event) {
        (OpeningPhaseView::Loading, OpeningEventView::Loaded(state)) => (
            OpeningPhaseView::Fetching(
                match state {
                    Some(state) => state,
                    None => nothing_remembered(),
                },
            ),
            OpeningStep::Fetch,
        ),
        (OpeningPhaseView::Fetching(state), OpeningEventView::Fetched(potato, was_saved)) => {
            let (watcher, action) = watch_begin(state, was_saved, potato);
            (OpeningPhaseView::Over, OpeningStep::Watch(watcher, action))
        },
        _ => (OpeningPhaseView::Over, OpeningStep::Stop),
    }
}

/// Opens a watch.
pub fn open_watch() -> (opened: (OpeningPhase, OpeningAction))
    ensures
        opened.0@ == OpeningPhaseView::Loading,
        opened.1@ == OpeningStep::Load,
{
    (OpeningPhase::Loading, OpeningAction::Load)
}

/// Goes on to open a watch after how what was asked for came.
pub fn continue_opening(phase: OpeningPhase, event: OpeningEvent) -> (next: (OpeningPhase, OpeningAction))
    ensures
        (next.0@, next.1@) == opening_step(phase@, event@),
{
    match (phase, event) {
        (OpeningPhase::Loading, OpeningEvent::Loaded(Some(state))) => (
            OpeningPhase::Fetching(state),
            OpeningAction::Fetch,
        ),
        (OpeningPhase::Loading, OpeningEvent::Loaded(None)) => (
            OpeningPhase::Fetching(WatchState::default()),
            OpeningAction::Fetch,
        ),
        (OpeningPhase::Fetching(state), OpeningEvent::Fetched(potato, was_saved)) => {
            let (watcher, action) = Watcher::begin(state, was_saved, potato);
            (OpeningPhase::Over, OpeningAction::Watch(watcher, action))
        },
        _ => (OpeningPhase::Over, OpeningAction::Stop),
    }
}

/// A watch begins only once what was remembered was loaded and the state of the
/// game was fetched, and then with these. Where either fails nothing is saved
/// and nothing is done to the light: what was asked for until then is to load
/// and to fetch.
pub proof fn a_watch_begins_once_it_has_loaded_and_fetched(first: OpeningEventView, second: OpeningEventView)
    ensures
        ({
            let (phase, step) = opening_step(OpeningPhaseView::Loading, first);
            let (over, end) = opening_step(phase, second);
            let remembered = match first {
                OpeningEventView::Loaded(Some(state)) => state,
                _ => nothing_remembered(),
            };
            &&& step is Fetch <==> first is Loaded
            &&& step is Stop <==> !(first is Loaded)
            &&& over is Over
            &&& first is Loaded ==> match second {
                OpeningEventView::Fetched(potato, was_saved) => end == OpeningStep::Watch(
                    watch_begin(remembered, was_saved, potato).0,
                    watch_begin(remembered, was_saved, potato).1,
                ),
                _ => end is Stop,
            }
            &&& !(first is Loaded) ==> end is Stop
        }),
{
}

/// Whether the watch is saving what it remembers.
pub open spec fn is_saving(phase: WatchPhase) -> bool {
    phase is SavingBaseline || phase is SavingPulsed || phase is SavingCount
}

/// Whether an event is an answer to what the watch asked for. Time always
/// passes, and only a fetch brings a state of the game.
pub open spec fn answers(phase: WatchPhase, event: WatchEventView) -> bool {
    match phase {
        WatchPhase::Stopped => false,
        WatchPhase::Sleeping => event is Done,
        WatchPhase::Fetching => event is Fetched || event is Failed,
        _ => event is Done || event is Failed,
    }
}

/// An answer to a watch, with what is remembered of the light when it comes,
/// which an update of the light may have changed.
pub struct Turn {
    pub event: WatchEventView,
    pub holder_light_state: Option<HueStateView>,
}

/// The watch when an answer comes.
pub open spec fn before_turn(watcher: WatcherView, turn: Turn) -> WatcherView {
    WatcherView { state: WatchView { holder_light_state: turn.holder_light_state, ..watcher.state }, ..watcher }
}

/// The watch after several answers.
pub open spec fn watch_run(watcher: WatcherView, turns: Seq<Turn>) -> WatcherView
    decreases turns.len(),
{
    if turns.len() == 0 {
        watcher
    } else {
        let before = before_turn(watch_run(watcher, turns.drop_last()), turns.last());
        watch_step(before, turns.last().event).0
    }
}

/// Whether each of several answers is one to what the watch asked for then.
pub open spec fn all_answer(watcher: WatcherView, turns: Seq<Turn>) -> bool
    decreases turns.len(),
{
    turns.len() > 0 ==> {
        &&& all_answer(watcher, turns.drop_last())
        &&& answers(watch_run(watcher, turns.drop_last()).phase, turns.last().event)
    }
}

/// A watch goes on after every answer to what it asked for, except that it stops
/// where one of its own saves failed.
pub proof fn only_a_failed_save_stops_a_watch(watcher: WatcherView, event: WatchEventView)
    requires
        answers(watcher.phase, event),
    ensures
        watch_step(watcher, event).1 is Stop <==> is_saving(watcher.phase) && event is Failed,
        watch_step(watcher, event).0.phase is Stopped <==> watch_step(watcher, event).1 is Stop,
{
}

/// However long a watch runs and whatever becomes of its updates, its pulses and
/// its looks at the game, it is over exactly when the last thing that happened
/// is that one of its own saves failed.
pub proof fn a_watch_runs_until_it_cannot_save(
    state: WatchView,
    was_saved: bool,
    potato: PotatoView,
    turns: Seq<Turn>,
)
    requires
        all_answer(watch_begin(state, was_saved, potato).0, turns),
    ensures
        ({
            let begun = watch_begin(state, was_saved, potato).0;
            watch_run(begun, turns).phase is Stopped <==> {
                &&& turns.len() > 0
                &&& is_saving(watch_run(begun, turns.drop_last()).phase)
                &&& turns.last().event is Failed
            }
        }),
{
    let begun = watch_begin(state, was_saved, potato).0;
    if turns.len() > 0 {
        only_a_failed_save_stops_a_watch(
            before_turn(watch_run(begun, turns.drop_last()), turns.last()),
            turns.last().event,
        );
    }
}

/// Whatever changes in what is remembered is saved next, before anything else
/// is done.
pub proof fn every_change_is_saved_next(watcher: WatcherView, event: WatchEventView)
    ensures
        watch_step(watcher, event).0.state != watcher.state ==> watch_step(watcher, event).1 is Save,
{
}

/// What is remembered once several holder counts are seen, one after another.
pub open spec fn observed_all(watch: WatchView, holder_counts: Seq<nat>) -> WatchView
    decreases holder_counts.len(),
{
    if holder_counts.len() == 0 {
        watch
    } else {
        observed_all(
            observed(watch, holder_counts[0]),
            holder_counts.subrange(1, holder_counts.len() as int),
        )
    }
}

/// While the holder count does not fall, as many snatches are queued as it
/// rises by, however many of them come between two looks.
pub proof fn every_snatch_is_queued(watch: WatchView, holder_counts: Seq<nat>)
    requires
        holder_counts.len() > 0,
        watch.last_holder_count <= holder_counts[0],
        forall|i: int, j: int| 0 <= i <= j < holder_counts.len() ==> holder_counts[i] <= holder_counts[j],
    ensures
        observed_all(watch, holder_counts).pending_pulses == watch.pending_pulses + holder_counts.last()
            - watch.last_holder_count,
        observed_all(watch, holder_counts).last_holder_count == holder_counts.last(),
    decreases holder_counts.len(),
{
    let rest = holder_counts.subrange(1, holder_counts.len() as int);
    if rest.len() > 0 {
        every_snatch_is_queued(observed(watch, holder_counts[0]), rest);
    } else {
        reveal_with_fuel(observed_all, 2);
    }
}

/// A count that falls queues nothing and takes nothing from the queue.
pub proof fn a_new_game_leaves_the_queue_alone(watch: WatchView, holder_count: nat)
    requires
        holder_count < watch.last_holder_count,
    ensures
        observed(watch, holder_count) == (WatchView { last_holder_count: holder_count, ..watch }),
{
}

/// A watch that remembers nothing pulses nothing before it has seen a snatch:
/// it saves the count of now, looks after the light and sleeps.
pub proof fn a_first_watch_replays_nothing(potato: PotatoView, event: WatchEventView)
    requires
        event is Done || event is Failed,
    ensures
        ({
            let (begun, save) = watch_begin(nothing_remembered(), false, potato);
            let (updating, update) = watch_step(begun, WatchEventView::Done);
            let (sleeping, sleep) = watch_step(updating, event);
            &&& save is Save
            &&& update is UpdateHolder
            &&& sleep is Sleep
            &&& sleeping.state == (WatchView {
                last_holder_count: potato.holder_count,
                pending_pulses: 0,
                holder_light_state: None,
            })
        }),
{
}

/// A watch that starts again goes on with the queue it left: once it has looked
/// after the light it pulses the whole of it.
pub proof fn a_restart_goes_on_with_the_queue(state: WatchView, potato: PotatoView, event: WatchEventView)
    requires
        state.pending_pulses > 0,
        event is Done || event is Failed,
    ensures
        ({
            let (begun, update) = watch_begin(state, true, potato);
            let (pulsing, pulse) = watch_step(begun, event);
            &&& update is UpdateHolder
            &&& pulse == WatchAction::Pulse(state.pending_pulses as u64)
            &&& pulsing.state == state
        }),
{
}

/// The light is pulsed only right after it was brought in line with the state
/// of the game, and then for the whole queue.
pub proof fn pulses_follow_the_update_of_the_light(watcher: WatcherView, event: WatchEventView)
    requires
        watch_step(watcher, event).1 is Pulse,
    ensures
        watcher.phase is UpdatingHolder,
        watch_step(watcher, event).0.phase is Pulsing,
        watch_step(watcher, event).0.state == watcher.state,
        watch_step(watcher, event).1 == WatchAction::Pulse(watcher.state.pending_pulses as u64),
{
}

/// A watch with what it has seen and done.
pub struct Tally {
    pub watcher: WatcherView,
    /// How many snatches were seen.
    pub seen: nat,
    /// How many snatches were pulsed.
    pub pulsed: nat,
}

/// The tally after one more event.
pub open spec fn tally_step(tally: Tally, event: WatchEventView) -> Tally {
    let watcher = tally.watcher;
    Tally {
        watcher: watch_step(watcher, event).0,
        seen: match (watcher.phase, event) {
            (WatchPhase::Fetching, WatchEventView::Fetched(potato)) => if potato.holder_count
                > watcher.state.last_holder_count {
                (tally.seen + potato.holder_count - watcher.state.last_holder_count) as nat
            } else {
                tally.seen
            },
            _ => tally.seen,
        },
        pulsed: match (watcher.phase, event) {
            (WatchPhase::Pulsing, WatchEventView::Done) => tally.pulsed + watcher.state.pending_pulses,
            _ => tally.pulsed,
        },
    }
}

/// The tally after several events.
pub open spec fn tally_all(tally: Tally, events: Seq<WatchEventView>) -> Tally
    decreases events.len(),
{
    if events.len() == 0 {
        tally
    } else {
        tally_all(tally_step(tally, events[0]), events.subrange(1, events.len() as int))
    }
}

/// Whatever happens, every snatch that is seen is pulsed once or still queued:
/// pulses that fail stay in the queue, and those that went well leave it.
pub proof fn every_snatch_is_pulsed_or_still_queued(tally: Tally, events: Seq<WatchEventView>)
    ensures
        ({
            let after = tally_all(tally, events);
            after.pulsed + after.watcher.state.pending_pulses - after.seen == tally.pulsed
                + tally.watcher.state.pending_pulses - tally.seen
        }),
    decreases events.len(),
{
    if events.len() > 0 {
        every_snatch_is_pulsed_or_still_queued(
            tally_step(tally, events[0]),
            events.subrange(1, events.len() as int),
        );
    }
}

/// What is remembered is seen whole, and so is a watch.
pub proof fn a_watch_is_seen_as_it_is(watcher: Watcher)
    ensures
        watcher@.phase == watcher.phase,
        watcher@.potato == watcher.potato@,
        watcher@.state == watcher.state@,
        watcher.state@.last_holder_count == watcher.state.last_holder_count,
        watcher.state@.pending_pulses == watcher.state.pending_pulses,
        watcher.state@.holder_light_state is Some <==> watcher.state.holder_light_state is Some,
        watcher.state.holder_light_state matches Some(state) ==> watcher.state@.holder_light_state == Some(state@),
{
}

/// An event is seen as it is.
pub proof fn an_event_is_seen_as_it_is(event: WatchEvent)
    ensures
        event is Done <==> event@ is Done,
        event is Failed <==> event@ is Failed,
        event matches WatchEvent::Fetched(potato) ==> event@ == WatchEventView::Fetched(potato@),
{
}

/// Whatever count a look at the game brings is the one that is remembered, and
/// the game is the one that is watched from then on. The queue grows by as much as
/// the count rose, and stays as it is where the count fell or stayed.
pub proof fn a_look_is_remembered(watcher: Watcher, potato: PotatoState)
    requires
        watcher.phase is Fetching,
    ensures
        ({
            let after = watch_step(watcher@, WatchEventView::Fetched(potato@)).0;
            &&& after.state.last_holder_count == potato.holder_count
            &&& potato.holder_count >= watcher.state.last_holder_count ==> after.state.pending_pulses
                == watcher.state.pending_pulses + potato.holder_count - watcher.state.last_holder_count
            &&& potato.holder_count <= watcher.state.last_holder_count ==> after.state.pending_pulses
                == watcher.state.pending_pulses
            &&& after.state.holder_light_state == watcher@.state.holder_light_state
            &&& after.potato == potato@
        }),
{
}

/// A second look that brings the same count, whenever it comes, queues nothing
/// and has nothing to save.
pub proof fn the_same_count_is_queued_once(watcher: WatcherView, later: WatcherView, potato: PotatoView, again: PotatoView)
    requires
        watcher.phase is Fetching,
        later.phase is Fetching,
        later.state.last_holder_count == watch_step(
            watcher,
            WatchEventView::Fetched(potato),
        ).0.state.last_holder_count,
        again.holder_count == potato.holder_count,
    ensures
        ({
            let (after, action) = watch_step(later, WatchEventView::Fetched(again));
            &&& after.state == later.state
            &&& action is UpdateHolder
        }),
{
}

/// Nothing but a look at the game changes the count or the game that is watched;
/// nothing but that and pulses that went well changes the queue, and these leave
/// nothing in it; and no step changes what is remembered of the light.
pub proof fn nothing_else_changes_what_is_remembered(watcher: WatcherView, event: WatchEventView)
    ensures
        ({
            let after = watch_step(watcher, event).0;
            let looked = watcher.phase is Fetching && event is Fetched;
            let pulsed = watcher.phase is Pulsing && event is Done;
            &&& !looked ==> after.state.last_holder_count == watcher.state.last_holder_count
            &&& !looked ==> after.potato == watcher.potato
            &&& !looked && !pulsed ==> after.state.pending_pulses == watcher.state.pending_pulses
            &&& pulsed ==> after.state.pending_pulses == 0
            &&& after.state.holder_light_state == watcher.state.holder_light_state
        }),
{
}

/// What a watch does next, where what it asked for is answered: it looks at the
/// game only after it has slept; it brings the light in line once a count is
/// saved, or where a look brought nothing new or failed; after that it pulses
/// where anything is queued, and saves that where it went well; otherwise it
/// sleeps.
pub proof fn a_watch_goes_round(watcher: WatcherView, event: WatchEventView)
    requires
        match watcher.phase {
            WatchPhase::Stopped => false,
            WatchPhase::Sleeping => event is Done,
            WatchPhase::Fetching => event is Fetched || event is Failed,
            _ => event is Done || event is Failed,
        },
    ensures
        ({
            let (after, action) = watch_step(watcher, event);
            let saving = watcher.phase is SavingBaseline || watcher.phase is SavingCount || watcher.phase is SavingPulsed;
            let news = watcher.phase is Fetching && event is Fetched && event->Fetched_0.holder_count
                != watcher.state.last_holder_count;
            &&& action is Stop <==> saving && event is Failed
            &&& action is Stop <==> after.phase is Stopped
            &&& action is Fetch <==> watcher.phase is Sleeping
            &&& action is Fetch <==> after.phase is Fetching
            &&& action is UpdateHolder <==> {
                ||| watcher.phase is SavingBaseline && event is Done
                ||| watcher.phase is SavingCount && event is Done
                ||| watcher.phase is Fetching && !news
            }
            &&& action is UpdateHolder <==> after.phase is UpdatingHolder
            &&& action is Pulse <==> watcher.phase is UpdatingHolder && watcher.state.pending_pulses > 0
            &&& action is Pulse <==> after.phase is Pulsing
            &&& action is Pulse ==> action == WatchAction::Pulse(watcher.state.pending_pulses as u64)
            &&& action is Sleep <==> {
                ||| watcher.phase is UpdatingHolder && watcher.state.pending_pulses == 0
                ||| watcher.phase is Pulsing && event is Failed
                ||| watcher.phase is SavingPulsed && event is Done
            }
            &&& action is Sleep <==> after.phase is Sleeping
            &&& action is Save <==> news || watcher.phase is Pulsing && event is Done
            &&& news <==> after.phase is SavingCount
            &&& watcher.phase is Pulsing && event is Done <==> after.phase is SavingPulsed
        }),
{
}

/// A watch begins with what is remembered as it is, and the light first; but where
/// nothing was saved before it takes the count of now for the one to start from,
/// and saves that first.
pub proof fn a_watch_begins_from_what_is_remembered(state: WatchState, was_saved: bool, potato: PotatoState)
    ensures
        ({
            let (watcher, action) = watch_begin(state@, was_saved, potato@);
            &&& watcher.potato == potato@
            &&& watcher.state.pending_pulses == state.pending_pulses
            &&& watcher.state.holder_light_state == state@.holder_light_state
            &&& was_saved ==> {
                &&& watcher.state.last_holder_count == state.last_holder_count
                &&& watcher.phase is UpdatingHolder
                &&& action is UpdateHolder
            }
            &&& !was_saved ==> {
                &&& watcher.state.last_holder_count == potato.holder_count
                &&& watcher.phase is SavingBaseline
                &&& action is Save
            }
        }),
{
}

/// Where nothing is remembered no snatch was seen, none is queued, and no light
/// was taken over.
pub proof fn nothing_is_remembered_at_first()
    ensures
        nothing_remembered().last_holder_count == 0,
        nothing_remembered().pending_pulses == 0,
        nothing_remembered().holder_light_state is None,
{
}

/// The queue can be counted exactly where what is queued and what a look adds to
/// it fit together.
pub proof fn the_queue_fits_as_long_as_it_can_be_counted(watcher: Watcher, potato: PotatoState)
    requires
        watcher.phase is Fetching,
    ensures
        queue_fits(watcher@, WatchEventView::Fetched(potato@)) <==> (potato.holder_count
            > watcher.state.last_holder_count ==> watcher.state.pending_pulses + potato.holder_count
            - watcher.state.last_holder_count <= u64::MAX),
        queue_fits(watcher@, WatchEventView::Failed),
{
}

/// Whether no look among several events brings a lower count than the last one.
pub open spec fn counts_never_fall(watcher: WatcherView, events: Seq<WatchEventView>) -> bool
    decreases events.len(),
{
    events.len() > 0 ==> {
        &&& watcher.phase is Fetching && events[0] is Fetched ==> watcher.state.last_holder_count
            <= events[0]->Fetched_0.holder_count
        &&& counts_never_fall(watch_step(watcher, events[0]).0, events.subrange(1, events.len() as int))
    }
}

/// While the count does not fall, whatever else happens, exactly as many snatches
/// are pulsed or queued as it rises by: each snatch once, however often the game
/// is looked at.
pub proof fn as_many_snatches_are_queued_as_the_count_rises_by(tally: Tally, events: Seq<WatchEventView>)
    requires
        counts_never_fall(tally.watcher, events),
    ensures
        ({
            let after = tally_all(tally, events);
            after.pulsed + after.watcher.state.pending_pulses - tally.pulsed - tally.watcher.state.pending_pulses
                == after.watcher.state.last_holder_count - tally.watcher.state.last_holder_count
        }),
    decreases events.len(),
{
    if events.len() > 0 {
        as_many_snatches_are_queued_as_the_count_rises_by(
            tally_step(tally, events[0]),
            events.subrange(1, events.len() as int),
        );
    }
}

/// What a watch needs to begin is seen as it comes.
pub proof fn an_opening_is_seen_as_it_is(state: WatchState, potato: PotatoState, was_saved: bool)
    ensures
        OpeningEvent::Loaded(Some(state))@ == OpeningEventView::Loaded(Some(state@)),
        OpeningEvent::Loaded(None)@ == OpeningEventView::Loaded(None),
        OpeningEvent::Fetched(potato, was_saved)@ == OpeningEventView::Fetched(potato@, was_saved),
        OpeningEvent::Failed@ == OpeningEventView::Failed,
        OpeningPhase::Loading@ == OpeningPhaseView::Loading,
        OpeningPhase::Fetching(state)@ == OpeningPhaseView::Fetching(state@),
        OpeningPhase::Over@ == OpeningPhaseView::Over,
{
}

/// A watch that is told of something that it did not ask for, or is over, stops,
/// and what is remembered stays as it is.
pub proof fn nothing_but_its_answer_lets_a_watch_go_on(watcher: WatcherView, event: WatchEventView)
    requires
        match watcher.phase {
            WatchPhase::Stopped => true,
            WatchPhase::Sleeping => !(event is Done),
            WatchPhase::Fetching => event is Done,
            _ => event is Fetched,
        },
    ensures
        watch_step(watcher, event) == (
            WatcherView { phase: WatchPhase::Stopped, ..watcher },
            WatchAction::Stop,
        ),
{
}

} // verus!
