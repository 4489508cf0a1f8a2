//! Transform application and the analysis passes over a workspace.

pub mod arch_info;
pub mod closed_laws;
pub mod feature;
pub mod free_dim_analysis;
pub mod mem_access_analysis;
pub mod noc_analysis;
pub mod pass_pipeline;
pub mod passes;
pub mod property;
pub mod reorder_laws;
pub mod transform_laws;
pub mod transform_pass;
pub mod workspace;
pub mod workspace_text;
pub mod tiling_laws;
