//! A three-line statusline for a coding agent: rate-limit bars, context and
//! cost segments, and the working directory with its git branch.
pub mod bar;
pub mod cli;
pub mod color;
pub mod format;
pub mod git;
pub mod input;
pub mod laws;
pub mod pace;
pub mod render;
pub mod text;
pub mod theme;
