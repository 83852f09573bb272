//! An in-process HTTP test harness: a concurrency-safe shared server state
//! (address, cookie jar, default request settings) and a deferred, one-shot
//! request lifecycle that reads that state, assembles a wire-level request,
//! and feeds response cookies back into the shared jar.

pub mod cookies;
pub mod errors;
pub mod laws;
pub mod request;
pub mod response;
pub mod state;
mod wire;

pub use errors::HarnessError;
