//! Collision and deadlock resolution for a fleet of mobile robots that
//! report their poses in synchronised batches.
//!
//! A cycle takes a batch of robots and, for each ordered pair, whether their
//! rotated boxes overlap at the reported poses. It lists the conflicts, lets
//! every robot advance one waypoint when there are none, and otherwise holds
//! the whole fleet. Points of the plane are identifiers, equal exactly when
//! the coordinates are.

pub mod batch;
pub mod client;
pub mod config;
pub mod laws;
pub mod model;
pub mod monitor;
pub mod query;

pub use client::RobotRpcClient;
pub use config::CLIArguments;
pub use model::{MotionState, Robot};
pub use monitor::CollisionMonitor;
pub use query::QueryError;
