//! A tick-driven work scheduler for a small simulated team.

pub mod dice;
pub mod employee;
pub mod fixed;
pub mod kanban;
pub mod laws;
pub mod model;
pub mod screen;
pub mod task;
