//! Core engine of a desktop package-management application: the shared
//! domain model, a single-worker job executor with cooperative cancellation
//! and a serialized transaction lock, the pure state reducer that turns
//! backend events into UI state, the provider output parsers, and the
//! debounced external-change watcher.

pub mod aur;
pub mod backend;
pub mod chanio;
pub mod domain;
pub mod executor;
pub mod pacman;
pub mod reducer;
pub mod sorting;
pub mod strutil;
pub mod watcher;
