//! Sessions begin only on an explicit start: a completed session, a break that
//! follows it, and an observation never start one by themselves.

use vstd::prelude::*;

use crate::model::{ProgressState, QuickStartChoice, Timestamp};
use crate::observation::Observation;
use crate::transition::{Command, DomainModel};

verus! {

/// The ID of the active session, if any.
pub open spec fn active_id(m: DomainModel) -> Option<crate::model::SessionId> {
    match m.snapshot.state {
        ProgressState::Active { session, .. } => Some(session.id),
        _ => None,
    }
}

/// An observation never starts a session: after it, a session is active only
/// if that same session was active before.
pub proof fn lemma_observe_never_starts(m: DomainModel, observation: Observation)
    requires
        m.observe(observation) is Ok,
    ensures
        active_id(m.observe(observation)->Ok_0) is Some ==> active_id(m.observe(observation)->Ok_0)
            == active_id(m),
{
}

/// Only `Start` and continuing a Quick Start begin a new session; every other
/// command leaves no session active or keeps the one that was.
pub proof fn lemma_only_start_begins(m: DomainModel, command: Command, at: Timestamp)
    requires
        m.apply(command, at) is Ok,
        active_id(m.apply(command, at)->Ok_0) is Some,
        active_id(m.apply(command, at)->Ok_0) != active_id(m),
    ensures
        command is Start || command matches Command::DecideQuickStart {
            choice: QuickStartChoice::Continue,
            ..
        },
{
}

} // verus!
