//! The device-flow state machine that drives an authorization end to end.
//!
//! The machine is pure: it maps the current state and one observed event
//! (the classified outcome of a poll, or the clock) to the next state. An
//! unverified shell performs the waiting and the network exchange and feeds
//! every outcome back through [`on_poll_result`], so the decisions here are
//! verified for every possible server behaviour. `AuthorizationPending` and
//! `SlowDown` are absorbed by the loop; any other error, a success, or the
//! code's lifetime running out ends it.

use vstd::prelude::*;

use crate::auth::{AuthorizationError, CodePairResponse, TokenResponse};
use crate::config::spec_sat_add;

verus! {

/// How much the polling interval widens on every `SlowDown`.
pub const SLOW_DOWN_BACKOFF_SECONDS: u64 = 5;

/// The states of one authorization flow.
pub enum FlowState {
    /// Nothing requested yet.
    Idle,
    /// A code pair was issued; the operator has been shown the user code
    /// and verification URI. `deadline` is the absolute instant the code
    /// dies; `interval` the current minimum wait between polls.
    CodeIssued {
        user_code: String,
        device_code: String,
        verification_uri: String,
        deadline: u64,
        interval: u64,
    },
    /// The token endpoint is being polled.
    Polling {
        user_code: String,
        device_code: String,
        verification_uri: String,
        deadline: u64,
        interval: u64,
    },
    /// Terminal success: the granted tokens, ready to be stored.
    Authorized { token: TokenResponse },
    /// Terminal: the device code's lifetime elapsed; restart from the
    /// beginning.
    Expired,
    /// Terminal: a non-retryable protocol or transport failure.
    Failed { error: AuthorizationError },
}

/// The code lifetime as an unsigned count of seconds; a nonsensical
/// negative lifetime counts as already dead.
pub open spec fn spec_code_lifetime(expires_in: i64) -> u64 {
    if expires_in < 0 {
        0u64
    } else {
        expires_in as u64
    }
}

/// Accept an issued code pair: records the operator-facing strings, the
/// absolute deadline and the server's polling interval.
pub fn begin_flow(pair: CodePairResponse, now: u64) -> (r: FlowState)
    ensures
        r matches FlowState::CodeIssued {
            user_code,
            device_code,
            verification_uri,
            deadline,
            interval,
        } && {
            &&& user_code@ == pair.user_code@
            &&& device_code@ == pair.device_code@
            &&& verification_uri@ == pair.verification_uri@
            &&& deadline == spec_sat_add(now, spec_code_lifetime(pair.expires_in))
            &&& interval == pair.interval
        },
{
    let lifetime: u64 = if pair.expires_in < 0 {
        0
    } else {
        pair.expires_in as u64
    };
    let deadline: u64 = if lifetime <= u64::MAX - now {
        now + lifetime
    } else {
        u64::MAX
    };
    FlowState::CodeIssued {
        user_code: pair.user_code,
        device_code: pair.device_code,
        verification_uri: pair.verification_uri,
        deadline,
        interval: pair.interval,
    }
}

/// Enter the polling loop, keeping every recorded datum.
pub fn start_polling(st: FlowState) -> (r: FlowState)
    requires
        st is CodeIssued,
    ensures
        r matches FlowState::Polling {
            user_code,
            device_code,
            verification_uri,
            deadline,
            interval,
        } && {
            &&& user_code == st->CodeIssued_user_code
            &&& device_code == st->CodeIssued_device_code
            &&& verification_uri == st->CodeIssued_verification_uri
            &&& deadline == st->CodeIssued_deadline
            &&& interval == st->CodeIssued_interval
        },
{
    match st {
        FlowState::CodeIssued { user_code, device_code, verification_uri, deadline, interval } => {
            FlowState::Polling { user_code, device_code, verification_uri, deadline, interval }
        },
        _ => {
            proof {
                assert(false);
            }
            FlowState::Idle
        },
    }
}

/// What one classified poll outcome does to a polling flow at instant
/// `now`: success authorizes; `AuthorizationPending` keeps waiting and
/// `SlowDown` additionally widens the interval by the fixed backoff, either
/// expiring instead once the deadline has passed; `ExpiredToken` expires;
/// everything else fails with that error.
pub open spec fn spec_on_poll(
    st: FlowState,
    outcome: Result<TokenResponse, AuthorizationError>,
    now: u64,
) -> FlowState {
    match outcome {
        Ok(t) => FlowState::Authorized { token: t },
        Err(e) => if e == AuthorizationError::AuthorizationPending {
            if now <= st->Polling_deadline {
                st
            } else {
                FlowState::Expired
            }
        } else if e == AuthorizationError::SlowDown {
            if now <= st->Polling_deadline {
                FlowState::Polling {
                    user_code: st->Polling_user_code,
                    device_code: st->Polling_device_code,
                    verification_uri: st->Polling_verification_uri,
                    deadline: st->Polling_deadline,
                    interval: spec_sat_add(st->Polling_interval, SLOW_DOWN_BACKOFF_SECONDS),
                }
            } else {
                FlowState::Expired
            }
        } else if e == AuthorizationError::ExpiredToken {
            FlowState::Expired
        } else {
            FlowState::Failed { error: e }
        },
    }
}

/// Apply one poll outcome.
pub fn on_poll_result(
    st: FlowState,
    outcome: Result<TokenResponse, AuthorizationError>,
    now: u64,
) -> (r: FlowState)
    requires
        st is Polling,
    ensures
        r == spec_on_poll(st, outcome, now),
{
    match st {
        FlowState::Polling { user_code, device_code, verification_uri, deadline, interval } => {
            match outcome {
                Ok(t) => FlowState::Authorized { token: t },
                Err(e) => match e {
                    AuthorizationError::AuthorizationPending => {
                        if now <= deadline {
                            FlowState::Polling {
                                user_code,
                                device_code,
                                verification_uri,
                                deadline,
                                interval,
                            }
                        } else {
                            FlowState::Expired
                        }
                    },
                    AuthorizationError::SlowDown => {
                        if now <= deadline {
                            let widened: u64 = if SLOW_DOWN_BACKOFF_SECONDS <= u64::MAX - interval {
                                interval + SLOW_DOWN_BACKOFF_SECONDS
                            } else {
                                u64::MAX
                            };
                            FlowState::Polling {
                                user_code,
                                device_code,
                                verification_uri,
                                deadline,
                                interval: widened,
                            }
                        } else {
                            FlowState::Expired
                        }
                    },
                    AuthorizationError::ExpiredToken => FlowState::Expired,
                    _ => FlowState::Failed { error: e },
                },
            }
        },
        _ => {
            proof {
                assert(false);
            }
            FlowState::Idle
        },
    }
}

/// Whether the code's lifetime has run out, checked between polls.
pub fn flow_timed_out(st: &FlowState, now: u64) -> (r: bool)
    requires
        *st is Polling,
    ensures
        r == (now > st->Polling_deadline),
{
    match st {
        FlowState::Polling { deadline, .. } => now > *deadline,
        _ => {
            proof {
                assert(false);
            }
            false
        },
    }
}

/// Give up a flow whose code has outlived its lifetime, even before the
/// server says so.
pub fn mark_expired(st: FlowState) -> (r: FlowState)
    requires
        st is Polling || st is CodeIssued,
    ensures
        r is Expired,
{
    FlowState::Expired
}

/// The current minimum wait before the next poll.
pub fn wait_interval(st: &FlowState) -> (r: u64)
    requires
        *st is Polling,
    ensures
        r == st->Polling_interval,
{
    match st {
        FlowState::Polling { interval, .. } => *interval,
        _ => {
            proof {
                assert(false);
            }
            0
        },
    }
}

/// A `SlowDown` reply widens the interval used for the next attempt by
/// exactly the fixed backoff, and changes nothing else about the wait.
pub proof fn lemma_slow_down_widens_interval(st: FlowState, now: u64)
    requires
        st is Polling,
        now <= st->Polling_deadline,
        st->Polling_interval + SLOW_DOWN_BACKOFF_SECONDS <= u64::MAX,
    ensures
        spec_on_poll(st, Err(AuthorizationError::SlowDown), now) is Polling,
        spec_on_poll(st, Err(AuthorizationError::SlowDown), now)->Polling_interval == st
            ->Polling_interval + SLOW_DOWN_BACKOFF_SECONDS,
        spec_on_poll(st, Err(AuthorizationError::SlowDown), now)->Polling_deadline == st
            ->Polling_deadline,
{
}

/// `AuthorizationPending` before the deadline changes nothing: the flow
/// keeps polling with the same interval.
pub proof fn lemma_pending_keeps_state(st: FlowState, now: u64)
    requires
        st is Polling,
        now <= st->Polling_deadline,
    ensures
        spec_on_poll(st, Err(AuthorizationError::AuthorizationPending), now) == st,
{
}

/// `ExpiredToken` is terminal: the flow ends expired, whatever the clock
/// says, and no token is produced.
pub proof fn lemma_expired_token_is_terminal(st: FlowState, now: u64)
    requires
        st is Polling,
    ensures
        spec_on_poll(st, Err(AuthorizationError::ExpiredToken), now) is Expired,
{
}

} // verus!
