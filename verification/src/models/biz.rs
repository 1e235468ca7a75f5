//! Products and projects.

use vstd::prelude::*;
use crate::text::text_eq;

verus! {

broadcast use vstd::string::group_string_axioms;

/// Life-cycle state of a product model.
#[derive(Debug, Clone, Copy, PartialEq, Eq, Structural)]
pub enum ModelStatus {
    Planning,
    Developing,
    Testing,
    Released,
    Maintained,
    EndOfLife,
}

/// Execution state of a project.
#[derive(Debug, Clone, Copy, PartialEq, Eq, Structural)]
pub enum ProjectStatus {
    Active,
    Archived,
    Completed,
    Suspended,
}

/// State of a milestone.
#[derive(Debug, Clone, Copy, PartialEq, Eq, Structural)]
pub enum MilestoneStatus {
    Planned,
    InProgress,
    Achieved,
    Delayed,
    Cancelled,
}

/// The text of a project state, as shown and as stored: the variant name.
pub open spec fn project_status_text(s: ProjectStatus) -> Seq<char> {
    match s {
        ProjectStatus::Active => "Active"@,
        ProjectStatus::Archived => "Archived"@,
        ProjectStatus::Completed => "Completed"@,
        ProjectStatus::Suspended => "Suspended"@,
    }
}

impl ProjectStatus {
    /// The text of the state ("Active", "Archived", "Completed", "Suspended").
    pub fn to_string(&self) -> (r: String)
        ensures
            r@ == project_status_text(*self),
    {
        match self {
            ProjectStatus::Active => "Active".to_string(),
            ProjectStatus::Archived => "Archived".to_string(),
            ProjectStatus::Completed => "Completed".to_string(),
            ProjectStatus::Suspended => "Suspended".to_string(),
        }
    }

    /// The state whose text is `s`, if any.
    pub fn from_text(s: &str) -> (r: Option<ProjectStatus>)
        ensures
            match r {
                Some(st) => project_status_text(st) == s@,
                None => forall|st: ProjectStatus| project_status_text(st) != s@,
            },
    {
        if text_eq(s, "Active") {
            Some(ProjectStatus::Active)
        } else if text_eq(s, "Archived") {
            Some(ProjectStatus::Archived)
        } else if text_eq(s, "Completed") {
            Some(ProjectStatus::Completed)
        } else if text_eq(s, "Suspended") {
            Some(ProjectStatus::Suspended)
        } else {
            proof {
                assert forall|st: ProjectStatus| project_status_text(st) != s@ by {
                    match st {
                        ProjectStatus::Active => {},
                        ProjectStatus::Archived => {},
                        ProjectStatus::Completed => {},
                        ProjectStatus::Suspended => {},
                    }
                }
            }
            None
        }
    }
}

/// Reading the text of a state back gives the state.
pub proof fn lemma_project_status_round_trip(s: ProjectStatus)
    ensures
        forall|t: ProjectStatus| project_status_text(t) == project_status_text(s) ==> t == s,
{
    reveal_strlit("Active");
    reveal_strlit("Archived");
    reveal_strlit("Completed");
    reveal_strlit("Suspended");
    assert forall|t: ProjectStatus| project_status_text(t) == project_status_text(s) implies t == s by {
        if t != s {
            let a = project_status_text(t);
            let b = project_status_text(s);
            assert(a.len() != b.len() || a[0] != b[0] || a[1] != b[1]);
        }
    }
}

/// A project, the unit that research tasks belong to. Times are
/// milliseconds since the Unix epoch, UTC.
#[derive(Debug, Clone)]
pub struct Project {
    pub id: String,
    pub model_id: String,
    pub name: String,
    pub status: ProjectStatus,
    pub created_at: i64,
    pub updated_at: i64,
    pub created_by: Option<String>,
    pub updated_by: Option<String>,
}

impl Project {
    /// A copy of this project.
    pub fn duplicate(&self) -> (r: Project)
        ensures
            r == *self,
    {
        Project {
            id: self.id.clone(),
            model_id: self.model_id.clone(),
            name: self.name.clone(),
            status: self.status,
            created_at: self.created_at,
            updated_at: self.updated_at,
            created_by: match &self.created_by {
                Some(s) => Some(s.clone()),
                None => None,
            },
            updated_by: match &self.updated_by {
                Some(s) => Some(s.clone()),
                None => None,
            },
        }
    }
}

} // verus!
