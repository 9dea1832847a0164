//! Verified core of the Polyminis simulation server: the JSON values that the
//! server hands around, the per-simulation worker state with its cache of
//! recent epochs, the worker's decision procedure and the request routing.

pub mod json;
pub mod epoch;
pub mod cache;
pub mod worker;
pub mod handling;
pub mod routes;
pub mod server;
pub mod laws;

pub use epoch::EpochState;
pub use handling::{EpochLoopKind, HandleStage, WorkerCommand, WorkerEvent};
pub use json::Json;
pub use routes::{Endpoint, EndpointHelper, Error, Management, Reply, RoutePlan, Simulation};
pub use server::ServerState;
pub use worker::{WorkerThreadActions, WorkerThreadState};
