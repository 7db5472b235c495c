//! Zero-downtime releases and fleet maintenance for applications behind a
//! load balancer: the decisions of a blue/green deployment with a canary,
//! of a batched rotation of a scaling group, and of the bounded waits and
//! metric windows they rest on. The library decides; a driver carries out
//! the actions it asks for and reports what came back.

pub mod capacity;
pub mod command;
pub mod deployment;
pub mod fleet;
pub mod loadbalancer;
pub mod metrics;
pub mod region;
pub mod request;
pub mod rotation;
pub mod source;
pub mod text;
pub mod universe;
