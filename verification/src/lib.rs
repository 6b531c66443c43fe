//! Core of an instanced 2D renderer: pipeline specialization and caching,
//! per-frame instance buffer preparation, per-view draw queueing, and the
//! draw-time resolution/submission state machine.
//!
//! The graphics device itself (buffer upload, pipeline compilation, command
//! encoding) is the hosting application's side of the contract: this crate
//! decides *what* is uploaded, cached, queued and drawn, over plain values.

pub mod draw;
pub mod instances;
pub mod pipeline;
pub mod queue;
