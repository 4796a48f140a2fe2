//! A verified model of a multi-transfer concurrency bridge over a native,
//! callback-driven I/O multiplexer.
//!
//! The native multiplexer runs many transfers at once and talks back through
//! two C-style callbacks and a pull-style completion queue.  Everything the
//! bridge decides — handle registration, completion routing, callback-context
//! reference accounting, drain-loop stepping, timeouts and teardown ordering —
//! lives here as verified code over plain values.  The thin layer that makes
//! the actual native calls supplies their outcomes to these functions and
//! obeys their verdicts.

pub mod errors;
pub mod libpath;
pub mod loader;
pub mod logger;
pub mod adapter;
pub mod async_loop;
pub mod context;
pub mod multi;
pub mod registry;
pub mod socket;
pub mod utils;

pub use errors::MultiError;
