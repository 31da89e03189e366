//! The scan pipeline shared by audit and update commands: audit rules,
//! update planning, labels and the rewriting of planned lines.
pub mod apply;
pub mod audit;
pub mod display;
pub mod pin;
pub mod pipeline;
pub mod plan;
pub mod types;

pub use types::{
    AppliedChange, ApplyFailure, ApplyReport, ApplyTarget, AuditIssue, CommentTagResolution,
    LocatedReference, PlanReason, PlannedChange, ReferenceReport, ResolvedReference, ScanReport,
    ScanError, ScanStats, WorkflowReport,
};
