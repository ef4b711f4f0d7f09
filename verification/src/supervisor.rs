//! Process supervisor policy: the child server process runs to completion,
//! its wall-clock run time is measured, and a minimum restart interval is
//! enforced before the next launch, breaking crash-restart storms.
use vstd::prelude::*;

verus! {

/// Default minimum number of seconds between two launches of the child.
pub const DEFAULT_MIN_RESTART_INTERVAL_SECONDS: u64 = 240;

/// What the supervisor loop does after one run of the child process.
///
/// While restarting is enabled the loop is infinite: no run outcome ever ends
/// it. `Stop` comes only from the configuration's restart flag, the one
/// explicit way to turn the loop off.
pub enum RestartDecision {
    /// The restart policy is disabled: leave the loop.
    Stop,
    /// Enough wall-clock time has passed: relaunch at once.
    RestartNow,
    /// The run ended too quickly: wait this many seconds, then relaunch.
    WaitThenRestart(u64),
}

/// How long the loop must still wait before relaunching: the minimum interval
/// less the elapsed run time, or nothing when the run already lasted at least
/// the minimum interval.
pub fn restart_delay(elapsed_seconds: u64, min_interval_seconds: u64) -> (r: Option<u64>)
    ensures
        r is Some <==> elapsed_seconds < min_interval_seconds,
        elapsed_seconds < min_interval_seconds ==> r == Some(
            (min_interval_seconds - elapsed_seconds) as u64,
        ),
{
    if elapsed_seconds < min_interval_seconds {
        Some(min_interval_seconds - elapsed_seconds)
    } else {
        None
    }
}

/// The decision for the next cycle, given the restart policy and the
/// measured run time. The run's own outcome (clean exit or failure) plays no
/// part: a failed run feeds into the backoff exactly like a clean one.
pub fn restart_decision(restart: bool, elapsed_seconds: u64, min_interval_seconds: u64) -> (d:
    RestartDecision)
    ensures
        !restart ==> d is Stop,
        restart && elapsed_seconds >= min_interval_seconds ==> d is RestartNow,
        restart && elapsed_seconds < min_interval_seconds ==> d
            == RestartDecision::WaitThenRestart((min_interval_seconds - elapsed_seconds) as u64),
{
    if !restart {
        RestartDecision::Stop
    } else {
        match restart_delay(elapsed_seconds, min_interval_seconds) {
            Some(delay) => RestartDecision::WaitThenRestart(delay),
            None => RestartDecision::RestartNow,
        }
    }
}

/// Law (backoff timing): whenever a wait is ordered, the wait and the
/// elapsed run time add up to exactly the minimum interval.
pub proof fn lemma_backoff_timing(elapsed_seconds: u64, min_interval_seconds: u64, delay: u64)
    requires
        elapsed_seconds < min_interval_seconds,
        delay == min_interval_seconds - elapsed_seconds,
    ensures
        elapsed_seconds + delay == min_interval_seconds,
{
}

} // verus!
