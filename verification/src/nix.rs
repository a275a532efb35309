//! Collector normalization and field-merge policy for the Linux platform.
pub mod hwinfo;
pub mod osinfo;
