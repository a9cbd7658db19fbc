//! No-data watchdog: degrades the display gracefully when input stops.
//!
//! A periodic task compares "now" against the time of the last good message.
//! Short silence leaves the display alone; after two seconds a warning is
//! drawn, and after thirty the screen is blanked.  Each display side effect
//! happens exactly once, on the transition into its state, never again on
//! the repeated polls while the silence lasts.

use vstd::prelude::*;

verus! {

/// Silence, in milliseconds, after which the warning message is drawn.
pub const STALE_MS: u64 = 2000;

/// Silence, in milliseconds, after which the screen is blanked.
pub const BLANK_SCREEN_MS: u64 = 30000;

/// State of the watchdog between polls.
#[derive(Clone, Copy, Debug, PartialEq, Eq, Structural)]
pub enum WatchdogState {
    /// Fresh data arrived recently; the display shows it.
    Normal,
    /// Data has stopped; the warning message has been drawn.
    Stale,
    /// Data stopped long ago; the screen has been blanked.
    Blanked,
}

/// Display side effect one poll asks for.
#[derive(Clone, Copy, Debug, PartialEq, Eq, Structural)]
pub enum WatchdogAction {
    NoAction,
    DrawNoDataWarning,
    BlankScreen,
}

/// State after one poll at `elapsed_ms` of silence.  `None` stands for a
/// clock that could not measure the silence (the last message lies in the
/// local future); such a poll changes nothing.
pub open spec fn watchdog_next(
    state: WatchdogState,
    elapsed_ms: Option<u64>,
) -> WatchdogState {
    match elapsed_ms {
        None => state,
        Some(e) => if e < STALE_MS {
            WatchdogState::Normal
        } else if e < BLANK_SCREEN_MS {
            WatchdogState::Stale
        } else {
            WatchdogState::Blanked
        },
    }
}

/// Display side effect of one poll: drawn only on the transition into
/// `Stale` or `Blanked`.
pub open spec fn watchdog_effect(
    state: WatchdogState,
    elapsed_ms: Option<u64>,
) -> WatchdogAction {
    let next = watchdog_next(state, elapsed_ms);
    if next == state {
        WatchdogAction::NoAction
    } else if next is Stale {
        WatchdogAction::DrawNoDataWarning
    } else if next is Blanked {
        WatchdogAction::BlankScreen
    } else {
        WatchdogAction::NoAction
    }
}

/// One watchdog poll: evaluates the measured silence and returns the new
/// state together with the display side effect to perform.
pub fn no_data_poll(state: WatchdogState, elapsed_ms: Option<u64>) -> (r: (
    WatchdogState,
    WatchdogAction,
))
    ensures
        r.0 == watchdog_next(state, elapsed_ms),
        r.1 == watchdog_effect(state, elapsed_ms),
{
    let elapsed = match elapsed_ms {
        None => {
            return (state, WatchdogAction::NoAction);
        }
        Some(e) => e,
    };

    if elapsed < STALE_MS {
        (WatchdogState::Normal, WatchdogAction::NoAction)
    } else if elapsed < BLANK_SCREEN_MS {
        if state != WatchdogState::Stale {
            (WatchdogState::Stale, WatchdogAction::DrawNoDataWarning)
        } else {
            (WatchdogState::Stale, WatchdogAction::NoAction)
        }
    } else {
        if state != WatchdogState::Blanked {
            (WatchdogState::Blanked, WatchdogAction::BlankScreen)
        } else {
            (WatchdogState::Blanked, WatchdogAction::NoAction)
        }
    }
}

/// Transition-only side effects: a second poll in the same silence band
/// performs nothing, however often it repeats, and fresh data drives any
/// state back to `Normal` without a display side effect.
pub proof fn lemma_watchdog_effect_once(state: WatchdogState, e1: u64, e2: u64)
    ensures
        watchdog_next(state, Some(e1)) == watchdog_next(
            watchdog_next(state, Some(e1)),
            Some(e1),
        ),
        STALE_MS <= e1 < BLANK_SCREEN_MS && STALE_MS <= e2 < BLANK_SCREEN_MS
            ==> watchdog_effect(watchdog_next(state, Some(e1)), Some(e2))
            == WatchdogAction::NoAction,
        e1 >= BLANK_SCREEN_MS && e2 >= BLANK_SCREEN_MS ==> watchdog_effect(
            watchdog_next(state, Some(e1)),
            Some(e2),
        ) == WatchdogAction::NoAction,
        e2 < STALE_MS ==> watchdog_next(state, Some(e2)) == WatchdogState::Normal
            && watchdog_effect(state, Some(e2)) == WatchdogAction::NoAction,
{
}

} // verus!
