//! A distributed-tracing core: span identities that cross process boundaries
//! in request headers, an in-process span lifecycle, and an export seam that
//! turns completed spans into an externally consumable trace.

pub mod export;
pub mod hex;
pub mod hop;
pub mod ids;
pub mod propagate;
pub mod span;
pub mod tracer;
