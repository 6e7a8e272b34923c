//! The graph of queries by which a build is answered.

pub mod action_query;
pub mod analysis_request;
pub mod back_references;
pub mod depmaps;
pub mod labels;
pub mod output_query;
pub mod query_node;
pub mod query_registry;
pub mod query_result;
pub mod rule_analysis;
pub mod source_depmap;
pub mod target_query;
pub mod walk_rounds;
pub mod workspaces_query;
