//! Test assets: how well a case lends itself to automation and why not.

use vstd::prelude::*;

verus! {

/// Whether automating a test case pays off.
#[derive(Debug, Clone, Copy, PartialEq, Eq, Structural)]
pub enum AutoSuitability {
    /// Worth automating.
    Suitable,
    /// Little gain; low priority.
    LowPriority,
    /// Cannot be automated for physical or technical reasons.
    Impossible,
    /// Not assessed yet.
    Pending,
}

/// Why a case is not automated.
#[derive(Debug, Clone, Copy, PartialEq, Eq, Structural)]
pub enum NonAutoReason {
    /// Needs a person to act on the device.
    PhysicalIntervention,
    /// Changes too fast for scripts to be kept up.
    HighMaintenance,
    /// The hardware offers no debug port or status channel.
    HardwareLimitation,
    /// Depends on an environment that cannot be controlled.
    EnvironmentUnstable,
    /// Nothing stands in the way of automation.
    NoConstraint,
}

} // verus!
