//! Runtime core of a terminal messaging client: the event type that every
//! producer feeds into the dispatch loop, the translation of raw terminal
//! input, the frame limiter, the reconnector for the inbound message stream
//! and the dispatch decision of the main loop.
pub mod event;
pub mod frame;
pub mod reconnect;
pub mod dispatch;
