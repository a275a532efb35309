//! Collector normalization and field-merge policy for the Apple platform.
pub mod hwinfo;
pub mod osinfo;
