//! Events and metrics handed to an observability backend.

use vstd::prelude::*;
use std::time::Duration;

verus! {

/// Relies on `Duration`'s `Clone`, which copies: the result equals its argument.
pub assume_specification[ <Duration as Clone>::clone ](d: &Duration) -> (r: Duration)
    ensures
        r == *d,
;

/// Something that happened in the agent.
#[derive(Debug, Clone)]
pub enum ObserverEvent {
    AgentStart { provider: String, model: String },
    AgentEnd { duration: Duration, tokens_used: Option<u64> },
    ToolCall { tool: String, duration: Duration, success: bool },
    ChannelMessage { channel: String, direction: String },
    HeartbeatTick,
    Error { component: String, message: String },
}

/// A measurement taken in the agent.
#[derive(Debug, Clone)]
pub enum ObserverMetric {
    RequestLatency(Duration),
    TokensUsed(u64),
    ActiveSessions(u64),
    QueueDepth(u64),
}

/// An observability backend (logs, Prometheus, OpenTelemetry, ...).
pub trait Observer {
    /// Record one event.
    fn record_event(&self, event: &ObserverEvent);

    /// Record one metric.
    fn record_metric(&self, metric: &ObserverMetric);

    /// Push out anything buffered.
    fn flush(&self) {
    }

    /// The backend's name.
    fn name(&self) -> &str;
}

} // verus!
