//! The rules of a service that keeps inheritance plans: which plans are accepted, what is stored
//! of them, how they are listed, and what a signed sign of life of their owner changes.

pub mod amount;
pub mod binary64;
pub mod create;
pub mod create_laws;
pub mod list;
pub mod list_laws;
pub mod model;
pub mod payout;
pub mod ping;
pub mod ping_laws;
pub mod plan;
pub mod reply;
pub mod routes;
pub mod signature;
pub mod store;
pub mod store_laws;
pub mod text;
pub mod yields;
