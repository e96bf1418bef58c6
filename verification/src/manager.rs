//! The manager: the service that owns the room registry and drives the
//! requests.

pub mod service;
