//! Filters for reading the audit log.

use vstd::prelude::*;

use crate::audit::records::{AuditEventType, AuditLog, AuditLogView};
use crate::base::address::Address;
use crate::base::symbol::{sym, Symbol};

verus! {

/// Filter set for log queries.
///
/// `None` / default fields mean "any"; non-default narrows the search.
/// Boolean flags control which filters are active.
#[derive(Clone, Copy, Debug, PartialEq, Eq, Structural)]
pub struct LogQuery {
    /// Inclusive lower bound on `entry.timestamp`. `0` is treated as unset.
    pub from_ts: u64,
    /// Inclusive upper bound on `entry.timestamp`. `0` is treated as unset.
    pub to_ts: u64,
    /// Event-type filter. Ignored when `filter_event_type` is false.
    pub event_type: AuditEventType,
    /// Actor filter address. Only used when `filter_actor` is true.
    pub actor: Address,
    /// Portfolio filter symbol. Ignored when `filter_portfolio` is false.
    pub portfolio: Symbol,
    /// Outcome filter symbol. Only used when `filter_outcome` is true.
    pub outcome: Symbol,
    /// Whether `event_type` filtering is active.
    pub filter_event_type: bool,
    /// Whether `actor` filtering is active.
    pub filter_actor: bool,
    /// Whether `portfolio` filtering is active.
    pub filter_portfolio: bool,
    /// Whether `outcome` filtering is active.
    pub filter_outcome: bool,
    /// Maximum number of entries returned.
    pub limit: u32,
    /// Reserved for future use (e.g. cursor-based pagination).
    pub cursor: u64,
}

impl View for LogQuery {
    type V = LogQuery;

    open spec fn view(&self) -> LogQuery {
        *self
    }
}

/// The query without filters; its actor is a placeholder that is never compared.
pub open spec fn any_entry(limit: u32) -> LogQuery {
    LogQuery {
        from_ts: 0,
        to_ts: 0,
        event_type: AuditEventType::Custom,
        actor: Address { a: 0, b: 0, c: 0, d: 0 },
        portfolio: sym(""@),
        outcome: sym(""@),
        filter_event_type: false,
        filter_actor: false,
        filter_portfolio: false,
        filter_outcome: false,
        limit,
        cursor: 0,
    }
}

impl LogQuery {
    /// The entry satisfies every active filter.
    pub open spec fn accepts(self, e: AuditLogView) -> bool {
        &&& self.from_ts != 0 ==> e.timestamp >= self.from_ts
        &&& self.to_ts != 0 ==> e.timestamp <= self.to_ts
        &&& self.filter_event_type ==> e.event_type == self.event_type
        &&& self.filter_actor ==> e.actor == self.actor
        &&& self.filter_portfolio ==> e.portfolio == self.portfolio
        &&& self.filter_outcome ==> e.outcome == self.outcome
    }

    /// The number of entries that the query returns at most.
    pub open spec fn cap(self) -> nat {
        if self.limit == 0 {
            50
        } else {
            self.limit as nat
        }
    }

    /// Build an empty query with the given limit.
    pub fn new(limit: u32) -> (q: LogQuery)
        ensures
            q == any_entry(limit),
    {
        LogQuery {
            from_ts: 0,
            to_ts: 0,
            event_type: AuditEventType::Custom,
            actor: Address { a: 0, b: 0, c: 0, d: 0 },
            portfolio: Symbol::empty(),
            outcome: Symbol::empty(),
            filter_event_type: false,
            filter_actor: false,
            filter_portfolio: false,
            filter_outcome: false,
            limit,
            cursor: 0,
        }
    }

    /// Restrict the query to events at or after this timestamp.
    pub fn from_ts(self, ts: u64) -> (q: LogQuery)
        ensures
            q == (LogQuery { from_ts: ts, ..self }),
    {
        LogQuery { from_ts: ts, ..self }
    }

    /// Restrict the query to events at or before this timestamp.
    pub fn to_ts(self, ts: u64) -> (q: LogQuery)
        ensures
            q == (LogQuery { to_ts: ts, ..self }),
    {
        LogQuery { to_ts: ts, ..self }
    }

    /// Restrict the query to a single event type.
    pub fn event_type(self, t: AuditEventType) -> (q: LogQuery)
        ensures
            q == (LogQuery { event_type: t, filter_event_type: true, ..self }),
    {
        LogQuery { event_type: t, filter_event_type: true, ..self }
    }

    /// Restrict the query to a single actor.
    pub fn actor(self, a: Address) -> (q: LogQuery)
        ensures
            q == (LogQuery { actor: a, filter_actor: true, ..self }),
    {
        LogQuery { actor: a, filter_actor: true, ..self }
    }

    /// Restrict the query to a single portfolio.
    pub fn portfolio(self, p: Symbol) -> (q: LogQuery)
        ensures
            q == (LogQuery { portfolio: p, filter_portfolio: true, ..self }),
    {
        LogQuery { portfolio: p, filter_portfolio: true, ..self }
    }

    /// Restrict the query to a single outcome symbol.
    pub fn outcome(self, o: Symbol) -> (q: LogQuery)
        ensures
            q == (LogQuery { outcome: o, filter_outcome: true, ..self }),
    {
        LogQuery { outcome: o, filter_outcome: true, ..self }
    }

    /// Override the maximum number of entries returned.
    pub fn limit(self, limit: u32) -> (q: LogQuery)
        ensures
            q == (LogQuery { limit, ..self }),
    {
        LogQuery { limit, ..self }
    }

    /// Return `true` when `entry` satisfies every active filter.
    pub fn matches(&self, entry: &AuditLog) -> (b: bool)
        ensures
            b == self.accepts(entry@),
    {
        if self.from_ts != 0 && entry.timestamp < self.from_ts {
            return false;
        }
        if self.to_ts != 0 && entry.timestamp > self.to_ts {
            return false;
        }
        if self.filter_event_type && entry.event_type != self.event_type {
            return false;
        }
        if self.filter_actor && entry.actor != self.actor {
            return false;
        }
        if self.filter_portfolio && entry.portfolio != self.portfolio {
            return false;
        }
        if self.filter_outcome && entry.outcome != self.outcome {
            return false;
        }
        true
    }
}

} // verus!
