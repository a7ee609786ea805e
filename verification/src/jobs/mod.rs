pub mod dependencies;
pub mod examples;
pub mod history;
pub mod manager;
pub mod models;
pub mod queue;
pub mod queue_runs;
pub mod results;
pub mod tracking;
