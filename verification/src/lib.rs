//! Core of a layer-7 reverse proxy: a registry of upstream backends with
//! their health state, a round-robin selector over the healthy set, the
//! health-checker's bookkeeping rules, and the per-request filter pipeline
//! that injects headers and can short-circuit a request.
//!
//! Everything here is pure decision logic: the surrounding process performs
//! the network I/O (accepting connections, probing backends, forwarding
//! bytes) and consults these functions for every decision.

pub mod backend_app;
pub mod headers;
pub mod health;
pub mod pipeline;
pub mod registry;
pub mod selector;
