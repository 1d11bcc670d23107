//! A typing-practice library: a sliding-window line source, a keystroke
//! classifier, the per-line typing state machine, and the accuracy counters
//! it accumulates.

pub mod analytics;
pub mod client;
pub mod input;
pub mod session;
pub mod source;
