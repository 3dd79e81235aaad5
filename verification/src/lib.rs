//! Keeps a NixOS machine on the newest commit of its flake's branch that
//! passed CI: the decisions that the `fetch-rs` and `rebuild` tools make.
pub mod calendar;
pub mod config;
pub mod git;
pub mod rebuild;
pub mod text;
pub mod util;
