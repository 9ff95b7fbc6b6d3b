use vstd::prelude::*;

use crate::cleanup::CleanupPod;

verus! {

/// How much the controller logs, from least to most.
#[derive(Clone, Copy, Debug, PartialEq, Eq, Structural)]
pub enum LogLevel {
    Error,
    Warn,
    Info,
    Debug,
    Trace,
}

/// The logging switches given on the command line.
#[derive(Clone, Debug)]
pub struct LoggingOpts {
    /// How many times verbose output was asked for.
    pub verbose: u64,
    /// Log warnings and errors only.
    pub warn: bool,
    /// Log errors only.
    pub error: bool,
}

/// The level the switches select: `error` wins over `warn`, which wins over
/// the verbosity count; no verbosity logs at `Info`, once at `Debug`, more
/// at `Trace`.
pub open spec fn level_of(opts: LoggingOpts) -> LogLevel {
    if opts.error {
        LogLevel::Error
    } else if opts.warn {
        LogLevel::Warn
    } else if opts.verbose == 0 {
        LogLevel::Info
    } else if opts.verbose == 1 {
        LogLevel::Debug
    } else {
        LogLevel::Trace
    }
}

impl LoggingOpts {
    pub fn to_level_filter(&self) -> (r: LogLevel)
        ensures
            r == level_of(*self),
    {
        if self.error {
            LogLevel::Error
        } else if self.warn {
            LogLevel::Warn
        } else if self.verbose == 0 {
            LogLevel::Info
        } else if self.verbose == 1 {
            LogLevel::Debug
        } else {
            LogLevel::Trace
        }
    }
}

/// The settings the watch loop runs with.
#[derive(Clone, Debug)]
pub struct WatcherArgs {
    /// Name of the sidecar container that is shut down before a teardown.
    pub istio_container_name: String,
    /// Grace period after the sidecar's shutdown signal, in milliseconds.
    pub istio_deadline_ms: u32,
    /// How long, in milliseconds, an exited critical container is given
    /// before its pod becomes eligible under `Any`.
    pub critical_deadline: i64,
}

impl WatcherArgs {
    /// The sidecar settings of these arguments.
    pub fn cleanup(&self) -> (r: CleanupPod)
        ensures
            r.istio_container_name@ == self.istio_container_name@,
            r.istio_deadline_ms == self.istio_deadline_ms,
    {
        CleanupPod::new(self.istio_container_name.as_str(), self.istio_deadline_ms)
    }
}

} // verus!
