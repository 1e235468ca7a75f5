//! Quality events across research, production and after-sales.

use vstd::prelude::*;

verus! {

/// Stage of the product life in which an issue was found.
#[derive(Debug, Clone, Copy, PartialEq, Eq, Structural)]
pub enum QualityStage {
    /// Research and development testing.
    Rd,
    Production,
    AfterSales,
}

/// Severity of an issue.
#[derive(Debug, Clone, Copy, PartialEq, Eq, Structural)]
pub enum QualitySeverity {
    Blocker,
    Critical,
    Major,
    Minor,
}

/// Handling state of an issue.
#[derive(Debug, Clone, Copy, PartialEq, Eq, Structural)]
pub enum QualityStatus {
    Open,
    InAnalysis,
    Fixed,
    Verified,
    Closed,
    Ignored,
}

} // verus!
