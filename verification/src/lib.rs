//! Courier matching and wait-time forecasting: a first-come-first-served
//! queue of requesters, the decisions that bind them to free couriers, and
//! the forecast of how long a waiting requester still has to wait.

pub mod config;
pub mod cycle;
pub mod engine;
pub mod errors;
pub mod estimator;
pub mod ids;
pub mod intake;
pub mod laws;
pub mod matcher;
pub mod model;
pub mod policy;
pub mod replies;
pub mod smoothing;
pub mod store;
pub mod time;
