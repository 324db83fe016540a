//! Client-side core of a risk-balanced portfolio builder: an autocomplete
//! input state machine, a portfolio orchestrator with stale-response
//! protection, and the storage codec for the persisted portfolio.
//!
//! All network, timer and storage work is left to the host; the library
//! describes each requested action as a plain value and consumes the host's
//! answers through explicit event methods.

pub mod autocomplete;
pub mod codec;
pub mod portfolio;
pub mod ticker;
pub mod text;
