//! A function-as-a-service lifecycle engine: a directory-scan driven
//! deployment controller for WebAssembly modules, with a checksum-keyed
//! compilation cache and contracts over every state transition.
//!
//! The watched directory is the source of truth. Each reconciliation tick
//! takes a snapshot of the directory (file names and file bytes), drives
//! every function record through its state machine, compiles new or changed
//! modules, and reports which compilations took place. All lifecycle
//! decisions are verified; reading the directory, running a compiled module
//! in a sandboxed child process, and the wire transport live outside the
//! library and hand it plain values.

pub mod text;
pub mod status;
pub mod digest;
pub mod watcher;
pub mod engine;
pub mod compiler;
pub mod manager;
pub mod executor;
pub mod registry;
pub mod upload;
pub mod service;
