//! Debounced command coordination for a lighting status panel.
//!
//! The crate keeps the panel's view of lights, groups and scenes, applies
//! edits to it at once, and decides which commands reach the bridge and when.
//! It performs no input or output: every function maps plain values to plain
//! values, and the caller carries out the effects that are handed back.

pub mod color;
pub mod sorting;
pub mod store;
pub mod debounce;
pub mod config;
pub mod model;
