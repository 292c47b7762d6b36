//! Event records of a tracer for message-passing programs, and the
//! append-only log that collects them.
pub mod types;
pub mod mpi_ibcast;
pub mod builder;
pub mod codec;
pub mod event;
pub mod log;
