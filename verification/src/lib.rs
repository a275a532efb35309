//! Collects and reconciles partial hardware and operating-system
//! information into fully populated descriptor records.
//!
//! The crate holds the logic of that pipeline: a key/value text parser,
//! a substring extractor, a version parser, a byte-size humanizer, and
//! the per-platform field-merge policies that pick, for each descriptor
//! field, the first candidate present across a prioritized list of
//! collector results. Running the collectors themselves (processes,
//! sockets, native calls) is left to the surrounding program; every
//! function here is a pure computation over the collectors' output.
pub mod consts;
pub mod hostname;
pub mod humanize;
pub mod mac;
pub mod mapping;
pub mod merge;
pub mod nix;
pub mod os_arch;
pub mod text;
pub mod utils;
pub mod version;
pub mod win;
