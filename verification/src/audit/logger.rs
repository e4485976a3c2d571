//! Calls of other contracts into the audit log.

use vstd::prelude::*;

use crate::audit::checksum::hashable;
use crate::audit::contract::{logged, AuditContract, EventData};
use crate::audit::records::{AuditEventType, StateSnapshot};
use crate::audit::state::AuditEnv;
use crate::base::address::Address;
use crate::base::symbol::Symbol;

verus! {

/// A call of `log_event` that a contract makes on its audit-log sink.
#[derive(Debug, PartialEq, Eq)]
pub struct AuditCall {
    /// The audit-log contract.
    pub sink: Address,
    /// Who initiated the event.
    pub actor: Address,
    /// What happened.
    pub event_type: AuditEventType,
    /// Logical scope of the event.
    pub portfolio: Symbol,
    /// Permissions that the actor asserted.
    pub permissions: u32,
    /// State before the event.
    pub state_before: StateSnapshot,
    /// State after the event.
    pub state_after: StateSnapshot,
    /// Outcome symbol.
    pub outcome: Symbol,
    /// Human-readable detail.
    pub detail: String,
}

/// What an `AuditCall` holds: the contract called, and what it is told.
#[verifier::ext_equal]
pub struct AuditCallView {
    pub sink: Address,
    pub data: EventData,
}

impl View for AuditCall {
    type V = AuditCallView;

    open spec fn view(&self) -> AuditCallView {
        AuditCallView {
            sink: self.sink,
            data: EventData {
                actor: self.actor,
                event_type: self.event_type,
                portfolio: self.portfolio,
                permissions: self.permissions,
                state_before: self.state_before@,
                state_after: self.state_after@,
                outcome: self.outcome,
                detail: self.detail@,
            },
        }
    }
}

/// The views of a list of calls.
pub open spec fn call_views(calls: Seq<AuditCall>) -> Seq<AuditCallView> {
    calls.map_values(|c: AuditCall| c@)
}

impl AuditCall {
    /// Make the call on the audit log of the sink. Returns the sequence ID of
    /// the entry.
    pub fn deliver(self, log: &mut AuditEnv) -> (seq: u64)
        requires
            old(log)@.wf(),
            old(log)@.next_seq + 1 < u64::MAX,
            self@.data.actor.valid(),
            hashable(self@.data.detail, self@.data.state_before, self@.data.state_after),
        ensures
            final(log)@ == logged(old(log)@, self@.data),
            seq == old(log)@.next_seq + 1,
            final(log)@.wf(),
    {
        AuditContract::log_event(
            log,
            self.actor,
            self.event_type,
            self.portfolio,
            self.permissions,
            self.state_before,
            self.state_after,
            self.outcome,
            self.detail,
        )
    }
}

} // verus!
