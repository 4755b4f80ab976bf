//! The pool-watching daemon's state machine, configuration and sizing
//! engine.
pub mod cache;
pub mod config;
pub mod engine;
