//! How much a program logs, from its command-line switches.

use vstd::prelude::*;

verus! {

/// How much is logged, from nothing to everything.
#[derive(Clone, Copy, Debug, PartialEq, Eq, Structural)]
pub enum Verbosity {
    Off,
    Error,
    Warn,
    Info,
    Trace,
}

/// The verbosity that stands at the given step: 0 is nothing, each
/// step logs more, and from 4 on everything is logged.
pub open spec fn at_step(step: int) -> Verbosity {
    if step <= 0 {
        Verbosity::Off
    } else if step == 1 {
        Verbosity::Error
    } else if step == 2 {
        Verbosity::Warn
    } else if step == 3 {
        Verbosity::Info
    } else {
        Verbosity::Trace
    }
}

/// The step at which a program logs when no switch is given: warnings.
pub const DEFAULT_VERBOSITY: u8 = 2;

/// The verbosity that the switches ask for: nothing when `quiet` is
/// set, whatever `verbose` says; else the default, one step up for
/// each time that `verbose` was given.
pub fn verbosity(quiet: bool, verbose: u8) -> (level: Verbosity)
    ensures
        level == if quiet {
            Verbosity::Off
        } else {
            at_step(DEFAULT_VERBOSITY + verbose)
        },
{
    if quiet {
        Verbosity::Off
    } else if verbose == 0 {
        Verbosity::Warn
    } else if verbose == 1 {
        Verbosity::Info
    } else {
        Verbosity::Trace
    }
}

} // verus!
