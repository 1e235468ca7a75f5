//! Domain records of the quality database: accounts and permissions,
//! products and projects, tasks, notifications, quality events, acceptance
//! and test assets.

pub mod acceptance;
pub mod assets;
pub mod auth;
pub mod biz;
pub mod notify;
pub mod quality;
pub mod task;

pub use acceptance::{AcceptanceCategory, AcceptanceConclusion, InspectionResult, ReleaseType};
pub use assets::{AutoSuitability, NonAutoReason};
pub use auth::{RoleName, RolePermission, UserGender, UserRole};
pub use biz::{MilestoneStatus, ModelStatus, Project, ProjectStatus};
pub use notify::{NotifyChannel, NotifyStatus, NotifyTask};
pub use quality::{QualitySeverity, QualityStage, QualityStatus};
pub use task::{RiskLevel, TaskPriority, TaskStatus};
