//! The state of the game: who holds the potato, since when and until when.

use crate::text::text_of;
use vstd::prelude::*;

verus! {

/// The state of the game. Times are in milliseconds since the Unix epoch.
#[derive(Debug, PartialEq)]
pub struct PotatoState {
    pub holder_count: u64,
    pub current_owner: Option<String>,
    pub purchased_at: Option<i64>,
    pub deadline: Option<i64>,
}

/// The state of the game, as mathematics.
pub struct PotatoView {
    pub holder_count: nat,
    pub current_owner: Option<Seq<char>>,
    pub purchased_at: Option<i64>,
    pub deadline: Option<i64>,
}

impl View for PotatoState {
    type V = PotatoView;

    open spec fn view(&self) -> PotatoView {
        PotatoView {
            holder_count: self.holder_count as nat,
            current_owner: text_of(self.current_owner),
            purchased_at: self.purchased_at,
            deadline: self.deadline,
        }
    }
}

/// How much of a hold has passed: `elapsed` of `window` milliseconds.
#[derive(Debug, Clone, Copy, PartialEq, Eq)]
pub struct Progress {
    pub elapsed: i64,
    pub window: i64,
}

/// How much of the hold has passed at a time: nothing before it starts, all of
/// it from the deadline on, and nothing where there is no such hold.
pub open spec fn progress_at(potato: PotatoView, now_ms: int) -> Progress {
    match (potato.purchased_at, potato.deadline) {
        (Some(start), Some(deadline)) => if start < deadline {
            let window = deadline - start;
            let since = now_ms - start;
            let elapsed = if since < 0 {
                0
            } else if since > window {
                window
            } else {
                since
            };
            Progress { elapsed: elapsed as i64, window: window as i64 }
        } else {
            Progress { elapsed: 0, window: 1 }
        },
        _ => Progress { elapsed: 0, window: 1 },
    }
}

/// Whether the times of a hold lie near enough to each other to be subtracted.
pub open spec fn times_fit(potato: PotatoView, now_ms: int) -> bool {
    match (potato.purchased_at, potato.deadline) {
        (Some(start), Some(deadline)) => start < deadline ==> deadline - start <= i64::MAX && i64::MIN <= now_ms
            - start <= i64::MAX,
        _ => true,
    }
}

/// How much of the hold has passed at a time.
pub fn hold_progress(potato: &PotatoState, now_ms: i64) -> (progress: Progress)
    requires
        times_fit(potato@, now_ms as int),
    ensures
        progress == progress_at(potato@, now_ms as int),
        0 <= progress.elapsed <= progress.window,
        0 < progress.window,
{
    let (start, deadline) = match (potato.purchased_at, potato.deadline) {
        (Some(start), Some(deadline)) => (start, deadline),
        _ => return Progress { elapsed: 0, window: 1 },
    };
    if deadline <= start {
        return Progress { elapsed: 0, window: 1 };
    }
    let window: i64 = deadline - start;
    let since: i64 = now_ms - start;
    let elapsed: i64 = if since < 0 {
        0
    } else if since > window {
        window
    } else {
        since
    };
    Progress { elapsed, window }
}

/// A hold begins at nothing, only gets on, and is full at its deadline.
pub proof fn a_hold_gets_on_until_its_deadline(potato: PotatoView, earlier: int, later: int)
    requires
        earlier <= later,
        times_fit(potato, earlier),
        times_fit(potato, later),
    ensures
        progress_at(potato, earlier).window == progress_at(potato, later).window,
        progress_at(potato, earlier).elapsed <= progress_at(potato, later).elapsed,
        potato.purchased_at matches Some(start) && later <= start ==> progress_at(potato, later).elapsed == 0,
        (potato.purchased_at matches Some(start) && potato.deadline matches Some(deadline) && start < deadline
            && deadline <= earlier) ==> progress_at(potato, earlier).elapsed == progress_at(potato, earlier).window,
{
}

/// The reading of a clock that shows so many milliseconds since the Unix epoch,
/// or none where it is set to before that.
pub open spec fn clock_reading(since_epoch: Option<u128>) -> i64 {
    match since_epoch {
        Some(ms) => if ms <= i64::MAX {
            ms as i64
        } else {
            i64::MAX
        },
        None => 0,
    }
}

/// The reading of a clock that shows so many milliseconds since the Unix epoch.
pub fn read_clock(since_epoch: Option<u128>) -> (now_ms: i64)
    ensures
        now_ms == clock_reading(since_epoch),
{
    match since_epoch {
        Some(ms) => if ms <= i64::MAX as u128 {
            ms as i64
        } else {
            i64::MAX
        },
        None => 0,
    }
}

/// `std::time::SystemTime::elapsed` of the Unix epoch, in whole milliseconds;
/// nothing where the clock is set to before the epoch. The time is what the
/// machine says, so nothing is claimed of it.
#[verifier::external_body]
fn since_epoch() -> (elapsed: Option<u128>) {
    match std::time::UNIX_EPOCH.elapsed() {
        Ok(elapsed) => Some(elapsed.as_millis()),
        Err(_) => None,
    }
}

/// The time now, in milliseconds since the Unix epoch.
pub fn current_time_ms() -> (now_ms: i64)
    ensures
        0 <= now_ms,
{
    read_clock(since_epoch())
}

/// The state of the game is seen with all that it tells.
pub proof fn the_game_is_seen_as_it_is(potato: PotatoState)
    ensures
        potato@.holder_count == potato.holder_count,
        potato@.current_owner is Some <==> potato.current_owner is Some,
        potato.current_owner matches Some(owner) ==> potato@.current_owner == Some(owner@),
        potato@.purchased_at == potato.purchased_at,
        potato@.deadline == potato.deadline,
{
}

/// Of a hold with a purchase before its deadline as much has passed as the time
/// is behind the purchase, but nothing before that, and no more than lies between
/// the two.
pub proof fn what_has_passed_is_counted_from_the_purchase(potato: PotatoState, start: i64, deadline: i64, now_ms: i64)
    requires
        potato.purchased_at == Some(start),
        potato.deadline == Some(deadline),
        start < deadline,
        deadline - start <= i64::MAX,
        i64::MIN <= now_ms - start <= i64::MAX,
    ensures
        times_fit(potato@, now_ms as int),
        ({
            let progress = progress_at(potato@, now_ms as int);
            &&& progress.window == deadline - start
            &&& now_ms <= start ==> progress.elapsed == 0
            &&& start <= now_ms <= deadline ==> progress.elapsed == now_ms - start
            &&& deadline <= now_ms ==> progress.elapsed == deadline - start
        }),
{
}

/// Where the purchase or the deadline is not known, or the deadline does not lie
/// behind the purchase, nothing of a hold ever passes, whatever the time.
pub proof fn nothing_passes_without_a_window(potato: PotatoState, now_ms: i64)
    requires
        potato.purchased_at is None || potato.deadline is None || potato.deadline->0 <= potato.purchased_at->0,
    ensures
        times_fit(potato@, now_ms as int),
        progress_at(potato@, now_ms as int).elapsed == 0,
        progress_at(potato@, now_ms as int).window > 0,
{
}

/// A clock is read as it shows, as far as the numbers go, and as the epoch where
/// it is set to before that.
pub proof fn a_clock_is_read_as_it_shows(ms: u128)
    ensures
        ms <= i64::MAX ==> clock_reading(Some(ms)) == ms,
        ms > i64::MAX ==> clock_reading(Some(ms)) == i64::MAX,
        clock_reading(None) == 0,
{
}

} // verus!
