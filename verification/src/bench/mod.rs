//! The bench framework's logic: task specifications, the task filter, the
//! outcome of a run and the report helpers. Running agents and shells,
//! temporary directories and YAML belong to the application.

pub mod report;
pub mod runner;
pub mod spec;
pub mod suite;
pub mod workspace;
