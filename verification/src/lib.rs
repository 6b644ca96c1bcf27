//! A Byzantine fault tolerant consensus engine, verified.
//!
//! The library holds the logic of the engine: the round state machine,
//! the authority roster with its threshold arithmetic, the vote collector,
//! the driver's height memory, the timer schedule with its cancellation
//! filter, and the pure judgement of the signature-verification stage.
//!
//! Networking, cryptography, block execution and persistence are the
//! host's work; the asynchronous shell that carries messages between the
//! host and this engine lives outside this crate and hands it plain
//! values.

pub mod authority;
pub mod collector;
pub mod error;
pub mod smr;
pub mod state;
pub mod timer;
pub mod timer_config;
pub mod types;
pub mod verify;
