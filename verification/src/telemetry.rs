//! Settings of the per-tick tracing.

use vstd::prelude::*;

verus! {

/// Telemetry settings of a server.
#[derive(Clone, Copy, PartialEq, Eq, Structural, Debug)]
pub struct TelemetryConfig {
    /// Whether each tick is wrapped in a tracing span.
    pub tracing: bool,
}

impl TelemetryConfig {
    /// Telemetry switched off.
    pub open spec fn off() -> TelemetryConfig {
        TelemetryConfig { tracing: false }
    }
}

impl Default for TelemetryConfig {
    fn default() -> (config: TelemetryConfig)
        ensures
            config == TelemetryConfig::off(),
    {
        TelemetryConfig { tracing: false }
    }
}

/// The telemetry of one server, known by the server's name.
pub struct TelemetryPlugin {
    pub name: String,
    pub config: TelemetryConfig,
}

impl TelemetryPlugin {
    /// Whether the tick span is to be installed.
    pub fn traces_ticks(&self) -> (installed: bool)
        ensures
            installed == self.config.tracing,
    {
        self.config.tracing
    }
}

/// What the tick span is doing between two ticks.
#[derive(Clone, Copy, PartialEq, Eq, Structural, Debug)]
pub enum TickSpan {
    /// No span is entered.
    Idle,
    /// The span of the running tick is entered.
    Entered,
}

impl TickSpan {
    /// The start of a tick: the span is entered if the subscriber gave it an
    /// identity (`enabled`), else nothing changes.
    pub open spec fn started(self, enabled: bool) -> TickSpan {
        if enabled {
            TickSpan::Entered
        } else {
            self
        }
    }

    /// Whether the end of a tick has a span to exit.
    pub open spec fn has_span(self) -> bool {
        self == TickSpan::Entered
    }

    pub fn start(&mut self, enabled: bool)
        ensures
            *final(self) == old(self).started(enabled),
    {
        if enabled {
            *self = TickSpan::Entered;
        }
    }

    /// The end of a tick. Says whether there is a span to exit, and forgets it.
    pub fn finish(&mut self) -> (exit: bool)
        ensures
            exit == old(self).has_span(),
            *final(self) == TickSpan::Idle,
    {
        let exit = match self {
            TickSpan::Entered => true,
            TickSpan::Idle => false,
        };
        *self = TickSpan::Idle;
        exit
    }
}

} // verus!
