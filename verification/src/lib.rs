pub mod cli;
pub mod context;
pub mod error;
pub mod features;
pub mod manifest;
pub mod plan;
pub mod restore;
pub mod process;
pub mod run;
