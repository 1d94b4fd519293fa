//! Core of a personal media-download manager: the download queue state
//! machine, the bounded-concurrency admission model, and the streaming
//! progress decoder, together with the pure parts of list import/export
//! and version reporting.

use vstd::prelude::*;

pub mod errors;
pub mod formats;
pub mod item;
pub mod media;
pub mod orchestrate;
pub mod pool;
pub mod port;
pub mod portio;
pub mod progress;
pub mod queue;
pub mod sanitize;
pub mod strutil;
pub mod types;
pub mod version;
pub mod worker;

verus! {

} // verus!
