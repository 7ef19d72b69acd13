//! Compact views of the `multica` CLI's output: the issue and workspace
//! filters, and the routing that decides which command runs and how its
//! output is rendered.

pub mod text;
pub mod json;
pub mod clock;
pub mod plan;
pub mod workspace;
pub mod tables;
pub mod issue;
pub mod multica_cmd;
pub mod laws;
pub mod renderings;
