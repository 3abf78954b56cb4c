//! A networked key-value store: a length-delimited binary protocol, the
//! server's per-connection request handling over a pluggable storage engine,
//! and the client's reading of the server's answers.

pub mod client;
pub mod engine;
pub mod error;
pub mod server;
pub mod wire;

pub use error::KvsError;
pub use wire::{FrameState, Request, Response};
pub use client::{client_step, get_outcome, remove_outcome, set_outcome, ClientStep};
pub use engine::{KvsEngine, MemEngine};
pub use server::{change_response, lookup_response, ConnStep, KvsServer};
