pub mod text;
pub mod skeleton;
pub mod classify;
pub mod pool;
pub mod telemetry;
pub mod orchestrator;
pub mod solver;
pub mod config;
pub mod identity;
pub mod dashboard;
