//! Coordination core of a threshold-signature network manager.
//!
//! Signing and key-generation requests are turned into rooms addressed by
//! the digest of their content. Each request is driven by a small state
//! machine that says which outside work comes next (storing, notifying,
//! running the per-party protocol) and folds the outcome of that work back
//! into its state.
//!
//! A driver starts a request in the `Idle` state with the `Started` event.
//! It performs the action that a step returns and hands the outcome back
//! as the event of the next step, until the action is to finish, to return
//! or to abort. The library does no outside work itself: what it is handed
//! and what it hands back are plain values.

pub mod coordinator;
pub mod digest;
pub mod error;
pub mod keygen;
pub mod manager;
pub mod orchestrator;
pub mod request;
pub mod room;
pub mod text;
