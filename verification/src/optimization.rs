//! Performance suggestions: their categories and severities. The analysis itself reads
//! floating-point usage figures and is not part of this library.
use vstd::prelude::*;

verus! {

/// What a suggestion is about.
#[derive(Clone, Copy, Debug, PartialEq, Eq, Structural)]
pub enum OptimizationCategory {
    Cpu,
    Memory,
    Disk,
    Network,
}

/// How urgent a suggestion is.
#[derive(Clone, Copy, Debug, PartialEq, Eq, Structural)]
pub enum OptimizationSeverity {
    Info,
    Warning,
    Critical,
}

/// Turns collected metrics into suggestions.
pub struct OptimizationService;

} // verus!
