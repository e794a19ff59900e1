//! What the dashboard's pages decide.
pub mod agents;
pub mod dashboard;
