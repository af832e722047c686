//! Key-event capture core: normalised key events, a buffer that batches them
//! for durable storage under a size and a time trigger, the aggregate queries
//! that a dashboard reads, and the mapping from raw key codes to key names.

pub mod events;
pub mod buffer;
pub mod stats;
pub mod keyboard;
pub mod windows;
