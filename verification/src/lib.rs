//! Binky is a message passing library: agents registered with a router
//! exchange values locally, and through bridges with remote routers.
pub mod address;
pub mod agent;
pub mod bridge;
pub mod clock;
pub mod error;
mod outside;
pub mod queue;
pub mod request;
pub mod retry;
pub mod router;
pub mod serializer;
pub mod slab;
pub mod storage;
pub mod value;
