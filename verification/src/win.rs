//! Descriptor assembly for the Windows platform, over plain models of the
//! native version, registry and management-instrumentation answers.
pub mod hwinfo;
pub mod osinfo;
