//! The throttle that keeps requests to the catalogue apart.

use vstd::prelude::*;

verus! {

/// The least time between the starts of two requests, in milliseconds.
pub const REQUEST_DELAY: u64 = 500;

/// When the last request was let through, in milliseconds on a clock that
/// its owner reads. `None` until the first request.
#[derive(Clone, Copy, Debug, PartialEq, Eq, Structural)]
pub struct Throttle {
    pub last_request: Option<u64>,
}

/// The time that has passed since `last`; none where the clock reads less
/// than it did then.
pub open spec fn elapsed(last: u64, now: u64) -> int {
    if now >= last {
        now - last
    } else {
        0
    }
}

/// How long a request that arrives at `now` has to wait.
pub open spec fn wait_at(last_request: Option<u64>, now: u64) -> int {
    match last_request {
        Some(last) => if elapsed(last, now) < REQUEST_DELAY {
            REQUEST_DELAY - elapsed(last, now)
        } else {
            0
        },
        None => 0,
    }
}

impl Throttle {
    /// A throttle through which no request has passed.
    pub fn new() -> (state: Throttle)
        ensures
            state.last_request is None,
    {
        Throttle { last_request: None }
    }
}

/// Lets a request through that arrives at `now`, and tells how many
/// milliseconds it has to wait first so that it starts no sooner than
/// [`REQUEST_DELAY`] after the one before. The throttle then holds the time
/// at which the request starts: `now` plus the wait.
pub fn throttle(state: &mut Throttle, now: u64) -> (wait: u64)
    requires
        now <= u64::MAX - REQUEST_DELAY,
    ensures
        wait == wait_at(old(state).last_request, now),
        wait <= REQUEST_DELAY,
        final(state).last_request == Some((now + wait) as u64),
        old(state).last_request matches Some(last) ==> last <= now ==> now + wait - last
            >= REQUEST_DELAY,
{
    let wait = match state.last_request {
        Some(last) => {
            let passed = if now >= last {
                now - last
            } else {
                0
            };
            if passed < REQUEST_DELAY {
                REQUEST_DELAY - passed
            } else {
                0
            }
        },
        None => 0,
    };
    state.last_request = Some(now + wait);
    wait
}

} // verus!
