//! Tasks: their state, priority and risk level.

use vstd::prelude::*;

verus! {

/// Execution state of a task.
#[derive(Debug, Clone, Copy, PartialEq, Eq, Structural)]
pub enum TaskStatus {
    Todo,
    InProgress,
    Testing,
    Done,
    Blocked,
    Cancelled,
}

/// Priority of a task; stored as 1 (low) to 3 (high).
#[derive(Debug, Clone, Copy, PartialEq, Eq, Structural)]
pub enum TaskPriority {
    Low,
    Medium,
    High,
}

/// Risk level of a task; stored as 0 (normal) to 3 (critical).
#[derive(Debug, Clone, Copy, PartialEq, Eq, Structural)]
pub enum RiskLevel {
    Normal,
    Low,
    Medium,
    Critical,
}

/// The stored number of a priority.
pub open spec fn priority_value(p: TaskPriority) -> i32 {
    match p {
        TaskPriority::Low => 1,
        TaskPriority::Medium => 2,
        TaskPriority::High => 3,
    }
}

/// The stored number of a risk level.
pub open spec fn risk_value(r: RiskLevel) -> i32 {
    match r {
        RiskLevel::Normal => 0,
        RiskLevel::Low => 1,
        RiskLevel::Medium => 2,
        RiskLevel::Critical => 3,
    }
}

impl TaskPriority {
    /// The stored number: low 1, medium 2, high 3.
    pub fn value(self) -> (r: i32)
        ensures
            r == priority_value(self),
    {
        match self {
            TaskPriority::Low => 1,
            TaskPriority::Medium => 2,
            TaskPriority::High => 3,
        }
    }

    /// The priority stored as `v`, if `v` is one of 1, 2, 3.
    pub fn from_value(v: i32) -> (r: Option<TaskPriority>)
        ensures
            match r {
                Some(p) => priority_value(p) == v,
                None => !(1 <= v <= 3),
            },
    {
        if v == 1 {
            Some(TaskPriority::Low)
        } else if v == 2 {
            Some(TaskPriority::Medium)
        } else if v == 3 {
            Some(TaskPriority::High)
        } else {
            None
        }
    }
}

impl RiskLevel {
    /// The stored number: normal 0, low 1, medium 2, critical 3.
    pub fn value(self) -> (r: i32)
        ensures
            r == risk_value(self),
    {
        match self {
            RiskLevel::Normal => 0,
            RiskLevel::Low => 1,
            RiskLevel::Medium => 2,
            RiskLevel::Critical => 3,
        }
    }

    /// The risk level stored as `v`, if `v` is one of 0 to 3.
    pub fn from_value(v: i32) -> (r: Option<RiskLevel>)
        ensures
            match r {
                Some(l) => risk_value(l) == v,
                None => !(0 <= v <= 3),
            },
    {
        if v == 0 {
            Some(RiskLevel::Normal)
        } else if v == 1 {
            Some(RiskLevel::Low)
        } else if v == 2 {
            Some(RiskLevel::Medium)
        } else if v == 3 {
            Some(RiskLevel::Critical)
        } else {
            None
        }
    }
}

/// Reading back a stored priority or risk level gives the value that was
/// stored.
pub proof fn lemma_stored_numbers_round_trip(p: TaskPriority, r: RiskLevel)
    ensures
        1 <= priority_value(p) <= 3,
        0 <= risk_value(r) <= 3,
        forall|q: TaskPriority| priority_value(q) == priority_value(p) ==> q == p,
        forall|l: RiskLevel| risk_value(l) == risk_value(r) ==> l == r,
{
}

} // verus!
