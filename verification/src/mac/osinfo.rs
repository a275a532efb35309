//! Operating-system descriptor assembly for the Apple platform: software
//! version report, kernel release query, and the release-name table.
use crate::consts::SystemOS;
use crate::mapping::Mapping;
use crate::merge::{first_match_spec, match1, results_view};
use crate::os_arch::{arch_display_spec, arch_of_output, OSArchitecture};
use crate::text::{chars_of, space_pred, string_from_chars, trim_space, trim_spec};
use crate::utils::{kv_map_spec, to_hashmap};
use crate::version::{parse_version_spec, Version};
use vstd::prelude::*;

verus! {

/// Normalize the software version report: empty means no result,
/// anything else is parsed as `Label: Value` lines.
pub fn get_sw_vers(output: String) -> (r: Option<Mapping>)
    ensures
        match r {
            Some(m) => output@.len() > 0 && m@ == kv_map_spec(output@, ':'),
            None => output@.len() == 0,
        },
{
    if output.as_str().is_empty() {
        None
    } else {
        Some(to_hashmap(output))
    }
}

/// Normalize the kernel release query's output: empty means no result,
/// anything else becomes a one-entry table under `"Kernel"`.
pub fn get_kernel(output: String) -> (r: Option<Mapping>)
    ensures
        match r {
            Some(m) => output@.len() > 0 && m@ == Map::<Seq<char>, Seq<char>>::empty().insert(
                "Kernel"@,
                trim_spec(output@, space_pred()),
            ),
            None => output@.len() == 0,
        },
{
    if output.as_str().is_empty() {
        None
    } else {
        let cs = chars_of(output.as_str());
        let t = trim_space(cs.as_slice());
        let mut m = Mapping::new();
        m.insert(String::from_str("Kernel"), string_from_chars(t.as_slice()));
        Some(m)
    }
}

/// The collector row for the descriptor, in submission order: version
/// report, kernel release.
pub open spec fn mac_os_row(
    sw: Option<Mapping>,
    kern: Option<Mapping>,
) -> Seq<Option<Map<Seq<char>, Seq<char>>>> {
    results_view(seq![sw, kern])
}

/// Merge the version report and kernel query into the (version, OS name,
/// kernel version) triple, absent data as empty strings.
pub fn version(sw: Option<Mapping>, kern: Option<Mapping>) -> (r: (String, String, String))
    ensures
        ({
            let rv = mac_os_row(sw, kern);
            &&& r.0@ == first_match_spec(rv, seq![(0int, "ProductVersion"@)])
            &&& r.1@ == first_match_spec(rv, seq![(0int, "ProductName"@)])
            &&& r.2@ == first_match_spec(rv, seq![(1int, "Kernel"@)])
        }),
{
    let mut row: Vec<Option<Mapping>> = Vec::new();
    row.push(sw);
    row.push(kern);
    proof {
        assert(row@ =~= seq![row@[0], row@[1]]);
    }
    let results = row.as_slice();
    (
        match1(results, 0, "ProductVersion"),
        match1(results, 0, "ProductName"),
        match1(results, 1, "Kernel"),
    )
}

/// The release-name table, keyed by the semantic version's major and
/// minor numbers.
pub open spec fn mac_edition_table(major: u64, minor: u64) -> Seq<char> {
    if major == 15 {
        "macOS Sequoia"@
    } else if major == 14 {
        "macOS Sonoma"@
    } else if major == 13 {
        "macOS Ventura"@
    } else if major == 12 {
        "macOS Monterey"@
    } else if major == 11 {
        "macOS Big Sur"@
    } else if major == 10 && minor == 15 {
        "macOS Catalina"@
    } else if major == 10 && minor == 14 {
        "macOS Mojave"@
    } else if major == 10 && minor == 13 {
        "macOS High Sierra"@
    } else if major == 10 && minor == 12 {
        "macOS Sierra"@
    } else if major == 10 && minor == 11 {
        "OS X El Capitan"@
    } else if major == 10 && minor == 10 {
        "OS X Yosemite"@
    } else if major == 10 && minor == 9 {
        "OS X Mavericks"@
    } else if major == 10 && minor == 8 {
        "OS X Mountain Lion"@
    } else if major == 10 && minor == 7 {
        "OS X Lion"@
    } else if major == 10 && minor == 6 {
        "Mac OS X Snow Leopard"@
    } else if major == 10 && minor == 5 {
        "Mac OS X Leopard"@
    } else if major == 10 && minor == 4 {
        "Mac OS X Tiger"@
    } else if major == 10 && minor == 3 {
        "Mac OS X Panther"@
    } else if major == 10 && minor == 2 {
        "Mac OS X Jaguar"@
    } else if major == 10 && minor == 1 {
        "Mac OS X Puma"@
    } else if major == 10 && minor == 0 {
        "Mac OS X Cheetah"@
    } else {
        "Unknown"@
    }
}

/// The release name of a version: the table entry for a semantic version,
/// the empty string for any other version form.
pub open spec fn mac_edition_spec(v: Version) -> Seq<char> {
    match v {
        Version::Semantic(major, minor, patch) => mac_edition_table(major, minor),
        _ => Seq::<char>::empty(),
    }
}

/// The release name a raw version string leads to: empty and unparsable
/// strings carry no release name.
pub open spec fn mac_edition_of_version_string(s: Seq<char>) -> Seq<char> {
    if s.len() == 0 {
        Seq::<char>::empty()
    } else {
        match parse_version_spec(s) {
            Some(t) => mac_edition_table(t.0, t.1),
            None => Seq::<char>::empty(),
        }
    }
}

/// Look a version up in the release-name table.
pub fn edition(v: &Version) -> (r: String)
    ensures
        r@ == mac_edition_spec(*v),
{
    match v {
        Version::Semantic(major, minor, _patch) => {
            let ma: u64 = *major;
            let mi: u64 = *minor;
            if ma == 15 {
                String::from_str("macOS Sequoia")
            } else if ma == 14 {
                String::from_str("macOS Sonoma")
            } else if ma == 13 {
                String::from_str("macOS Ventura")
            } else if ma == 12 {
                String::from_str("macOS Monterey")
            } else if ma == 11 {
                String::from_str("macOS Big Sur")
            } else if ma == 10 && mi == 15 {
                String::from_str("macOS Catalina")
            } else if ma == 10 && mi == 14 {
                String::from_str("macOS Mojave")
            } else if ma == 10 && mi == 13 {
                String::from_str("macOS High Sierra")
            } else if ma == 10 && mi == 12 {
                String::from_str("macOS Sierra")
            } else if ma == 10 && mi == 11 {
                String::from_str("OS X El Capitan")
            } else if ma == 10 && mi == 10 {
                String::from_str("OS X Yosemite")
            } else if ma == 10 && mi == 9 {
                String::from_str("OS X Mavericks")
            } else if ma == 10 && mi == 8 {
                String::from_str("OS X Mountain Lion")
            } else if ma == 10 && mi == 7 {
                String::from_str("OS X Lion")
            } else if ma == 10 && mi == 6 {
                String::from_str("Mac OS X Snow Leopard")
            } else if ma == 10 && mi == 5 {
                String::from_str("Mac OS X Leopard")
            } else if ma == 10 && mi == 4 {
                String::from_str("Mac OS X Tiger")
            } else if ma == 10 && mi == 3 {
                String::from_str("Mac OS X Panther")
            } else if ma == 10 && mi == 2 {
                String::from_str("Mac OS X Jaguar")
            } else if ma == 10 && mi == 1 {
                String::from_str("Mac OS X Puma")
            } else if ma == 10 && mi == 0 {
                String::from_str("Mac OS X Cheetah")
            } else {
                String::from_str("Unknown")
            }
        },
        _ => String::new(),
    }
}

/// Assemble the operating-system descriptor from the two collector
/// results, the architecture query's output, and the hostname and local
/// address the surrounding program obtained; absent data stays empty.
pub fn from_system_os(
    sw_vers: Option<Mapping>,
    kernel: Option<Mapping>,
    arch_output: &str,
    hostname: String,
    ip_address: String,
) -> (r: SystemOS)
    ensures
        ({
            let rv = mac_os_row(sw_vers, kernel);
            let vstr = first_match_spec(rv, seq![(0int, "ProductVersion"@)]);
            &&& r.os@ == first_match_spec(rv, seq![(0int, "ProductName"@)])
            &&& r.kernel@ == first_match_spec(rv, seq![(1int, "Kernel"@)])
            &&& r.edition@ == mac_edition_of_version_string(vstr)
            &&& r.version@ == vstr
            &&& r.architecture@ == arch_display_spec(arch_of_output(arch_output@))
            &&& r.hostname@ == hostname@
            &&& r.ip_address@ == ip_address@
        }),
{
    let (version_str, os, kernel_str) = version(sw_vers, kernel);
    let v = Version::from_string(version_str.as_str());
    let ed = edition(&v);
    SystemOS {
        os,
        kernel: kernel_str,
        edition: ed,
        version: version_str,
        architecture: OSArchitecture::get_arch(arch_output).display(),
        hostname,
        ip_address,
    }
}

} // verus!
