//! Decision logic of a small publish/subscribe service kernel: a registry of
//! services and the topics they listen to, the brokers that route messages
//! between services, and the pixel work of the camera and display services.
use vstd::prelude::*;

pub mod appbroker;
pub mod appmanager;
pub mod basic;
pub mod broker;
pub mod frame;
pub mod kernel;
pub mod registry;
pub mod services;

verus! {

/// Identifier of a service registered with a broker.
pub type SID = u64;

} // verus!
