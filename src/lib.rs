//! Single-cell resampling of weighted collider events.
//!
//! The library owns an ordered buffer of events, hands out and overwrites
//! their weights by position, and prepares the resampling of one cell at a
//! time. Weights and momentum components are held as the bit patterns of
//! IEEE-754 doubles: the library only moves them, it never computes with them.
pub mod distance;
pub mod event;
pub mod resampler;
