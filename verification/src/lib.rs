//! A minimal build orchestrator for multi-module native-code projects.
//!
//! Every module carries a manifest naming its sources and dependencies. The
//! [`walker`] decides in which order modules are loaded and compiled, the
//! [`options`] module accumulates compiler options and renders them for a
//! compiler front end, and [`manifest`] holds the manifest model and its
//! validation. The library performs no I/O: the walker hands out actions and
//! is told their outcomes.

pub mod text;
pub mod options;
pub mod manifest;
pub mod error;
pub mod walker;
