//! Sample entities, a generic CRUD repository layer with a verified in-memory
//! store, the decisions of a topic-based pub/sub broadcaster, and the small
//! pieces of service logic around them (error status codes, logging settings,
//! REST/gRPC multiplexing, vote confirmation).

pub mod diagnostics;
pub mod entity;
pub mod repository;
pub mod memory_repository;
pub mod usecase;
pub mod pubsub;
pub mod protocol;
pub mod multiplex;
pub mod config;
pub mod voting;
pub mod seq_facts;
pub mod text;
