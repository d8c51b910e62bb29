//! What is remembered of plans, their nodes and their reviews, and what can be
//! asked of it.
pub mod child_links;
pub mod comments;
pub mod dispatch;
pub mod dispatch_laws;
pub mod ensuring_laws;
pub mod gate_laws;
pub mod gates;
pub mod inspection_laws;
pub mod integrity;
pub mod laws;
pub mod linkage;
pub mod linking_laws;
pub mod node_paths;
pub mod plans;
pub mod query;
pub mod reading_laws;
pub mod reconciliation_laws;
pub mod review_laws;
pub mod scope_laws;
pub mod stability;
pub mod store;
pub mod upkeep_laws;

pub use store::Runtime;
