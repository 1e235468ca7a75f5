//! Acceptance of releases: categories, release types, conclusions and the
//! result of single inspections.

use vstd::prelude::*;

verus! {

/// Category of an acceptance item.
#[derive(Debug, Clone, Copy, PartialEq, Eq, Structural)]
pub enum AcceptanceCategory {
    Hardware,
    Software,
    System,
    Compliance,
}

/// Kind of release under acceptance.
#[derive(Debug, Clone, Copy, PartialEq, Eq, Structural)]
pub enum ReleaseType {
    Alpha,
    Beta,
    /// Release candidate.
    RC,
    /// General availability.
    GA,
}

/// Go / no-go conclusion of an acceptance task.
#[derive(Debug, Clone, Copy, PartialEq, Eq, Structural)]
pub enum AcceptanceConclusion {
    Pending,
    Pass,
    /// Passed with accepted risks.
    ConditionalPass,
    Fail,
}

/// Result of one inspection.
#[derive(Debug, Clone, Copy, PartialEq, Eq, Structural)]
pub enum InspectionResult {
    Pass,
    Fail,
    NotApplicable,
}

} // verus!
