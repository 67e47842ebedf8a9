//! What the helpers of the changelog template compute.

pub mod common;
pub mod group_by_helper;
pub mod indent_helper;
pub mod reverse_helper;
pub mod sort_versions_helper;
