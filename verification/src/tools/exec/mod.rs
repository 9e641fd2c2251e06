pub mod cargo;
pub mod cargo_exec;
pub mod git;
pub mod git_diff;
pub mod github;
pub mod gradle;
