//! Coordination layer of an inference swarm: peer bookkeeping, the task
//! message protocol, the table of in-flight broadcast requests, the routing
//! decision between local, direct and broadcast execution, and a
//! content-addressed blob store.

pub mod types;
pub mod storage;
pub mod registry;
pub mod pending;
pub mod routing;
pub mod message;
pub mod dispatch;
pub mod compute;
pub mod backend;
