//! Planning core for a fleet of polling workers that share one cyclic search
//! alphabet: where each worker starts, how its cursor moves, and how it reacts
//! to the outcome of every remote call it asks its driver to perform.

pub mod alphabet;
pub mod cursor;
pub mod fleet;
pub mod model;
pub mod partition;
pub mod report;
pub mod trace;
pub mod worker;
