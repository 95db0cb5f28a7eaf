//! Delta-based synchronization of a shared UI context across a host/module
//! boundary.
//!
//! The library keeps one mutable context in step on both sides of the
//! boundary without copying the whole state every cycle: a delta tracker
//! records which subsections changed since the last confirmed push, a codec
//! turns a delta-restricted view of the context into bytes and back, and a
//! scoped handle pulls a snapshot on acquire and builds the outgoing snapshot
//! on release.

pub mod sections;

pub mod delta;

pub mod state;

pub mod wire;

pub mod codec;

pub mod handle;

pub mod hashing;

pub mod hit_test;

pub mod mirror;
