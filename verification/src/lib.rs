pub mod text;
pub mod metadata;
pub mod git;
pub mod config;
pub mod ref_name;
pub mod clock;
pub mod commands;
pub mod report;
