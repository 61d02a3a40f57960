//! Waiting for the device to report that it is ready.
//!
//! The device is asked for its state again and again. Every answer that is
//! neither ready nor error counts as a failure and is followed by a pause;
//! the failure that makes the count reach the threshold restarts the
//! measurement and clears the count. There is no overall timeout: the wait
//! ends when the device is ready or reports the error state.

use crate::telegram::{DeviceState, Response, ResponseView};
use vstd::prelude::*;

verus! {

/// Number of failures in a row after which the measurement is restarted.
pub const RESTART_THRESHOLD: u32 = 60;

/// Seconds to pause after a failure, before the next command.
pub const BACKOFF_SECONDS: u64 = 1;

/// What one answer to a device state query means for the wait.
#[derive(Clone, Copy, Debug, PartialEq, Eq)]
pub enum Poll {
    /// The device is ready: the wait is over.
    Ready,
    /// The device reports the error state: the wait is given up.
    Fatal,
    /// Not ready yet: pause, then ask again. Holds the new failure count.
    Retry(u32),
    /// Not ready yet, and the count reached the threshold: pause, stop the
    /// measurement, start it, then ask again with the count at 0.
    Restart,
}

/// The decision of the wait: ready ends it, error gives it up, whatever the
/// count; any other answer counts as a failure.
pub open spec fn spec_wait_for_ready(failures: u32, response: ResponseView) -> Poll {
    match response {
        ResponseView::DeviceState(DeviceState::Ready) => Poll::Ready,
        ResponseView::DeviceState(DeviceState::Error) => Poll::Fatal,
        _ => if failures + 1 >= RESTART_THRESHOLD {
            Poll::Restart
        } else {
            Poll::Retry((failures + 1) as u32)
        },
    }
}

/// Decides what follows the answer to a device state query, given the
/// number of failures so far.
pub fn wait_for_ready(failures: u32, response: &Response) -> (poll: Poll)
    ensures
        poll == spec_wait_for_ready(failures, response@),
{
    match response {
        Response::DeviceState(DeviceState::Ready) => Poll::Ready,
        Response::DeviceState(DeviceState::Error) => Poll::Fatal,
        _ => if failures >= RESTART_THRESHOLD - 1 {
            Poll::Restart
        } else {
            Poll::Retry(failures + 1)
        },
    }
}

/// The failure count and the number of restarts after `polls` answers in a
/// row that all say busy, for a wait that starts with the count `failures`.
pub open spec fn after_busy_polls(failures: u32, polls: nat) -> (u32, nat)
    decreases polls,
{
    if polls == 0 {
        (failures, 0)
    } else {
        let (count, restarts) = after_busy_polls(failures, (polls - 1) as nat);
        match spec_wait_for_ready(count, ResponseView::DeviceState(DeviceState::Busy)) {
            Poll::Retry(next) => (next, restarts),
            Poll::Restart => (0, restarts + 1),
            Poll::Ready => (count, restarts),
            Poll::Fatal => (count, restarts),
        }
    }
}

/// A busy answer never ends the wait: it asks for a retry or for a restart.
pub proof fn lemma_busy_never_ends(failures: u32)
    ensures
        spec_wait_for_ready(failures, ResponseView::DeviceState(DeviceState::Busy)) is Retry
            || spec_wait_for_ready(failures, ResponseView::DeviceState(DeviceState::Busy))
            is Restart,
{
}

/// A wait that starts fresh and hears busy `polls` times in a row has
/// restarted the measurement once for every full threshold of failures, and
/// counts the failures since the last restart. So sixty busy answers give
/// exactly one restart, issued by the sixtieth, and leave the count at 0;
/// fewer give none; the sixty-first gives no second one.
pub proof fn lemma_restart_every_threshold(polls: nat)
    ensures
        after_busy_polls(0, polls) == ((polls % RESTART_THRESHOLD as nat) as u32, polls
            / RESTART_THRESHOLD as nat),
        polls < RESTART_THRESHOLD ==> after_busy_polls(0, polls) == (polls as u32, 0nat),
        polls == RESTART_THRESHOLD ==> after_busy_polls(0, polls) == (0u32, 1nat),
        polls == RESTART_THRESHOLD + 1 ==> after_busy_polls(0, polls) == (1u32, 1nat),
    decreases polls,
{
    if polls > 0 {
        lemma_restart_every_threshold((polls - 1) as nat);
    }
}

/// The error state gives the wait up at once, whatever the failure count.
pub proof fn lemma_error_aborts(failures: u32)
    ensures
        spec_wait_for_ready(failures, ResponseView::DeviceState(DeviceState::Error))
            == Poll::Fatal,
{
}

} // verus!
