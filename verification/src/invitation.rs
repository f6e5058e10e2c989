//! Invitation bookkeeping: the state of an invitation code and the decision
//! taken when a code is checked.

use vstd::prelude::*;

verus! {

/// How long a code may sit in `Using` before a check hands it back, in
/// seconds.
pub const USING_HOLD_SECONDS: i64 = 300;

/// The lifecycle state of an invitation code.
#[derive(Clone, Copy, Debug, PartialEq, Eq, Structural)]
pub enum InvitationState {
    Unused,
    Using,
    Used,
}

/// The wire label of an invitation state.
pub open spec fn state_label(s: InvitationState) -> Seq<char> {
    match s {
        InvitationState::Unused => "unused"@,
        InvitationState::Using => "using"@,
        InvitationState::Used => "used"@,
    }
}

impl InvitationState {
    /// The state's wire label, as [`state_label`] describes it.
    pub fn label(&self) -> (r: &'static str)
        ensures
            r@ == state_label(*self),
    {
        match *self {
            InvitationState::Unused => "unused",
            InvitationState::Using => "using",
            InvitationState::Used => "used",
        }
    }
}

/// The request body of an invitation check.
pub struct CheckInvitationRequest {
    pub invitation_code: String,
}

/// The response of an invitation check.
pub struct CheckInvitationResponse {
    pub state: String,
}

/// What the store should record after a check.
#[derive(Clone, Copy, Debug, PartialEq, Eq, Structural)]
pub enum InvitationUpdate {
    /// Mark the code `Using`, holding it from the given moment.
    MarkUsing(i64),
    /// Hand the code back: mark it `Unused` and clear the hold.
    MarkUnused,
    /// Record nothing.
    NoChange,
}

/// A `Using` hold has lapsed: it has no start, or started more than the hold
/// window before `now`.
pub open spec fn using_expired(used_at: Option<i64>, now: i64) -> bool {
    match used_at {
        None => true,
        Some(t) => t + USING_HOLD_SECONDS < now,
    }
}

/// The decision taken when a code in the given state is checked at `now`:
/// what to record, and the state label to answer with.
pub open spec fn check_outcome(
    state: InvitationState,
    used_at: Option<i64>,
    now: i64,
) -> (InvitationUpdate, Seq<char>) {
    match state {
        InvitationState::Unused => (InvitationUpdate::MarkUsing(now), "unused"@),
        InvitationState::Using => {
            if using_expired(used_at, now) {
                (InvitationUpdate::MarkUnused, "unused"@)
            } else {
                (InvitationUpdate::NoChange, "using"@)
            }
        },
        InvitationState::Used => (InvitationUpdate::NoChange, "used"@),
    }
}

/// Decides an invitation check, as [`check_outcome`] describes it: an unused
/// code is held as `Using` from `now`; a `Using` hold older than the window
/// is handed back; a used code stays used. The store's read and write stand
/// outside; `now` is the moment the store's clock gave.
pub fn check_invitation_state(state: InvitationState, used_at: Option<i64>, now: i64) -> (r: (
    InvitationUpdate,
    CheckInvitationResponse,
))
    ensures
        (r.0, r.1.state@) == check_outcome(state, used_at, now),
{
    match state {
        InvitationState::Unused => (
            InvitationUpdate::MarkUsing(now),
            CheckInvitationResponse { state: InvitationState::Unused.label().to_owned() },
        ),
        InvitationState::Using => {
            let expired = match used_at {
                None => true,
                Some(t) => (t as i128) + (USING_HOLD_SECONDS as i128) < (now as i128),
            };
            if expired {
                (
                    InvitationUpdate::MarkUnused,
                    CheckInvitationResponse { state: InvitationState::Unused.label().to_owned() },
                )
            } else {
                (
                    InvitationUpdate::NoChange,
                    CheckInvitationResponse { state: InvitationState::Using.label().to_owned() },
                )
            }
        },
        InvitationState::Used => (
            InvitationUpdate::NoChange,
            CheckInvitationResponse { state: InvitationState::Used.label().to_owned() },
        ),
    }
}

} // verus!
