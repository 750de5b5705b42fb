//! Verbosity of the process log.
use vstd::prelude::*;

verus! {

/// How much the process logs, from nothing to everything.
#[derive(Debug, Clone, Copy, PartialEq, Eq, Structural)]
pub enum LogLevel {
    Off,
    Error,
    Warn,
    Info,
    Debug,
    Trace,
}

} // verus!
