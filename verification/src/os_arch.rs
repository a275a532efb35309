//! The operating system's word width, derived from a reported word-size
//! value.
use crate::text::{chars_of, contains_sub, has_sub};
use vstd::prelude::*;

verus! {

/// OS architecture.
#[derive(Debug, Copy, Clone, PartialEq, Eq, Structural)]
pub enum OSArchitecture {
    /// Unknown architecture (unable to determine).
    Unknown,
    /// 32-bit operating system.
    X32,
    /// 64-bit operating system.
    X64,
}

/// The architecture a reported word-size text denotes: a text holding
/// `"32"` is 32-bit, else one holding `"64"` is 64-bit, else unknown.
pub open spec fn arch_of_output(s: Seq<char>) -> OSArchitecture {
    if has_sub(s, "32"@) {
        OSArchitecture::X32
    } else if has_sub(s, "64"@) {
        OSArchitecture::X64
    } else {
        OSArchitecture::Unknown
    }
}

/// The display form of an architecture tag.
pub open spec fn arch_display_spec(a: OSArchitecture) -> Seq<char> {
    match a {
        OSArchitecture::Unknown => "unknown architecture"@,
        OSArchitecture::X32 => "32-bit"@,
        OSArchitecture::X64 => "64-bit"@,
    }
}

impl OSArchitecture {
    /// Classify the output of a word-size query (such as the `LONG_BIT`
    /// configuration value) into an architecture tag.
    pub fn get_arch(output: &str) -> (r: Self)
        ensures
            r == arch_of_output(output@),
    {
        let cs = chars_of(output);
        let t32 = chars_of("32");
        let t64 = chars_of("64");
        if contains_sub(cs.as_slice(), t32.as_slice()) {
            OSArchitecture::X32
        } else if contains_sub(cs.as_slice(), t64.as_slice()) {
            OSArchitecture::X64
        } else {
            OSArchitecture::Unknown
        }
    }

    /// Write the architecture out for display.
    pub fn display(&self) -> (r: String)
        ensures
            r@ == arch_display_spec(*self),
    {
        match self {
            OSArchitecture::Unknown => String::from_str("unknown architecture"),
            OSArchitecture::X32 => String::from_str("32-bit"),
            OSArchitecture::X64 => String::from_str("64-bit"),
        }
    }
}

} // verus!
