//! Plans made of markdown files that form a tree: which nodes a plan has, which
//! reviews they passed, and how a plan is refined after comments on it.
//!
//! The library computes; it reads no file, runs no command and keeps no
//! database. What stands on disk comes in as [`files::PlanFiles`], what is
//! remembered as [`runtime::Runtime`], and times and the replies of judges come
//! in as arguments.
pub mod api;
pub mod bundle;
pub mod bundle_laws;
pub mod cli;
pub mod cli_laws;
pub mod digest;
pub mod error;
pub mod event_laws;
pub mod events;
pub mod files;
pub mod ids;
pub mod invocation;
pub mod invocation_laws;
pub mod line_laws;
pub mod path_laws;
pub mod paths;
pub mod refine;
pub mod runtime;
pub mod skill;
pub mod skill_laws;
pub mod text;
pub mod text_laws;

pub use api::{
    EnsureNodeIdRequest, EnsureNodeIdResponse, EnsurePlanRequest, EnsurePlanResponse, GateSummary,
    InspectNodeRequest, InspectNodeResponse, ListChildrenRequest, ListChildrenResponse, NodeKind,
    NodeSummary, OpenPlanRequest, OpenPlanResponse, PlannerMode, ReconcileParentChildLinksRequest,
    ReconcileParentChildLinksResponse, ReviewIssue, RunFrontierReviewGateRequest,
    RunFrontierReviewGateResponse, RunLeafReviewGateRequest, RunLeafReviewGateResponse,
};
pub use runtime::Runtime;
