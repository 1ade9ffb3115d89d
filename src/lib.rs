//! A fixed-capacity ring queue for single-producer/single-consumer use.
//!
//! `layout` plans the single backing allocation (control block, padding,
//! slot array), `index` holds the wraparound encoding and the producer and
//! consumer decisions, `ring_queue` is the typed queue built on them, and
//! `laws` states what holds across calls.
pub mod index;
pub mod laws;
pub mod layout;
pub mod ring_queue;
