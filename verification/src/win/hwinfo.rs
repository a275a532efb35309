//! Hardware descriptor assembly for the Windows platform, from plain
//! models of the three management-instrumentation rows the surrounding
//! program queries.
use crate::consts::SystemHardware;
use crate::text::{chars_of, extend_chars, space_pred, string_from_chars, trim_space, trim_spec};
use vstd::prelude::*;

verus! {

/// The firmware row: caption, serial number, and release date (already
/// rendered as text by the caller).
pub struct WinBios {
    pub caption: String,
    pub serial_number: String,
    pub release_date: String,
}

/// The computer system row, counts already rendered as text.
pub struct WinComputerSystem {
    pub number_of_logical_processors: String,
    pub number_of_processors: String,
    pub system_type: String,
    pub manufacturer: String,
    pub model: String,
    pub total_physical_memory: String,
}

/// The processor row, counts already rendered as text.
pub struct WinProcessor {
    pub name: String,
    pub manufacturer: String,
    pub number_of_logical_processors: String,
    pub number_of_cores: String,
}

/// Assemble the hardware descriptor from the three rows; the firmware
/// field joins the trimmed caption and the release date, and the feature
/// list stays empty on this platform.
pub fn from_system_hardware(bios: WinBios, sys: WinComputerSystem, cpu: WinProcessor) -> (r:
    SystemHardware)
    ensures
        r.system_manufacturer@ == sys.manufacturer@,
        r.system_model@ == sys.model@,
        r.serial_number@ == bios.serial_number@,
        r.bios@ == trim_spec(bios.caption@, space_pred()) + " ("@ + bios.release_date@ + ")"@,
        r.physical_memory@ == sys.total_physical_memory@,
        r.processor@ == cpu.name@,
        r.architecture@ == sys.system_type@,
        r.processor_vendor@ == cpu.manufacturer@,
        r.processor_physical_cpus@ == sys.number_of_processors@,
        r.processor_logical_cpus@ == sys.number_of_logical_processors@,
        r.processor_features@.len() == 0,
{
    let cc = chars_of(bios.caption.as_str());
    let mut v = trim_space(cc.as_slice());
    let s1 = chars_of(" (");
    extend_chars(&mut v, s1.as_slice());
    let dc = chars_of(bios.release_date.as_str());
    extend_chars(&mut v, dc.as_slice());
    let s2 = chars_of(")");
    extend_chars(&mut v, s2.as_slice());
    SystemHardware {
        system_manufacturer: sys.manufacturer,
        system_model: sys.model,
        serial_number: bios.serial_number,
        bios: string_from_chars(v.as_slice()),
        physical_memory: sys.total_physical_memory,
        processor: cpu.name,
        architecture: sys.system_type,
        processor_vendor: cpu.manufacturer,
        processor_physical_cpus: sys.number_of_processors,
        processor_logical_cpus: sys.number_of_logical_processors,
        processor_features: Vec::new(),
    }
}

} // verus!
