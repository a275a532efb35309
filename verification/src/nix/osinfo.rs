//! Operating-system descriptor assembly for the Linux platform: the
//! hostname/kernel status report and the OS release file.
use crate::consts::SystemOS;
use crate::mapping::Mapping;
use crate::merge::{first_match_spec, match1, match2, results_view, slot_get, slot_lookup};
use crate::os_arch::{arch_display_spec, arch_of_output, OSArchitecture};
use crate::text::{chars_of, contains_sub, has_sub, to_upper_unicode, upper_of};
use crate::utils::{kv_map_spec, to_hashmap_with_delim};
use vstd::prelude::*;

verus! {

/// Normalize the host status report: empty output or a missing-command
/// marker means no result; otherwise `Label: Value` lines.
pub fn from_hostnamectl(output: String) -> (r: Option<Mapping>)
    ensures
        match r {
            Some(m) => output@.len() > 0 && !has_sub(output@, "command not found"@) && m@
                == kv_map_spec(output@, ':'),
            None => output@.len() == 0 || has_sub(output@, "command not found"@),
        },
{
    let cs = chars_of(output.as_str());
    let marker = chars_of("command not found");
    if output.as_str().is_empty() || contains_sub(cs.as_slice(), marker.as_slice()) {
        None
    } else {
        Some(to_hashmap_with_delim(output, ':'))
    }
}

/// Normalize the OS release file: empty output or a missing-command
/// marker means no result; otherwise `Label=Value` lines.
pub fn from_os_release(output: String) -> (r: Option<Mapping>)
    ensures
        match r {
            Some(m) => output@.len() > 0 && !has_sub(output@, "command not found"@) && m@
                == kv_map_spec(output@, '='),
            None => output@.len() == 0 || has_sub(output@, "command not found"@),
        },
{
    let cs = chars_of(output.as_str());
    let marker = chars_of("command not found");
    if output.as_str().is_empty() || contains_sub(cs.as_slice(), marker.as_slice()) {
        None
    } else {
        Some(to_hashmap_with_delim(output, '='))
    }
}

/// The collector row for the descriptor, in submission order: host
/// status, OS release.
pub open spec fn nix_os_row(
    hostnamectl: Option<Mapping>,
    os_release: Option<Mapping>,
) -> Seq<Option<Map<Seq<char>, Seq<char>>>> {
    results_view(seq![hostnamectl, os_release])
}

/// The edition before upper-casing: the version codename when present and
/// non-empty, else the pretty name when present, else empty.
pub open spec fn nix_edition_raw_spec(rv: Seq<Option<Map<Seq<char>, Seq<char>>>>) -> Seq<char> {
    match slot_lookup(rv, 1, "VERSION_CODENAME"@) {
        Some(v) => if v.len() > 0 {
            v
        } else {
            match slot_lookup(rv, 1, "PRETTY_NAME"@) {
                Some(p) => p,
                None => Seq::<char>::empty(),
            }
        },
        None => match slot_lookup(rv, 1, "PRETTY_NAME"@) {
            Some(p) => p,
            None => Seq::<char>::empty(),
        },
    }
}

fn nix_edition(results: &[Option<Mapping>]) -> (r: String)
    ensures
        r@ == upper_of(nix_edition_raw_spec(results_view(results@))),
{
    let raw: String = match slot_get(results, 1, "VERSION_CODENAME") {
        Some(v) => {
            if !v.as_str().is_empty() {
                v
            } else {
                match slot_get(results, 1, "PRETTY_NAME") {
                    Some(p) => p,
                    None => String::new(),
                }
            }
        },
        None => match slot_get(results, 1, "PRETTY_NAME") {
            Some(p) => p,
            None => String::new(),
        },
    };
    to_upper_unicode(raw.as_str())
}

/// Assemble the operating-system descriptor from the two collector
/// results, the architecture query's output, and the hostname and local
/// address the surrounding program obtained; absent data stays empty.
pub fn from_system_os(
    hostnamectl: Option<Mapping>,
    os_release: Option<Mapping>,
    arch_output: &str,
    hostname: String,
    ip_address: String,
) -> (r: SystemOS)
    ensures
        ({
            let rv = nix_os_row(hostnamectl, os_release);
            &&& r.os@ == first_match_spec(
                rv,
                seq![(1int, "NAME"@), (0int, "Operating System"@)],
            )
            &&& r.kernel@ == first_match_spec(rv, seq![(0int, "Kernel"@)])
            &&& r.edition@ == upper_of(nix_edition_raw_spec(rv))
            &&& r.version@ == first_match_spec(
                rv,
                seq![(1int, "VERSION"@), (1int, "VERSION_ID"@)],
            )
            &&& r.architecture@ == arch_display_spec(arch_of_output(arch_output@))
            &&& r.hostname@ == hostname@
            &&& r.ip_address@ == ip_address@
        }),
{
    let mut row: Vec<Option<Mapping>> = Vec::new();
    row.push(hostnamectl);
    row.push(os_release);
    proof {
        assert(row@ =~= seq![row@[0], row@[1]]);
    }
    let results = row.as_slice();
    SystemOS {
        os: match2(results, 1, "NAME", 0, "Operating System"),
        kernel: match1(results, 0, "Kernel"),
        edition: nix_edition(results),
        version: match2(results, 1, "VERSION", 1, "VERSION_ID"),
        architecture: OSArchitecture::get_arch(arch_output).display(),
        hostname,
        ip_address,
    }
}

} // verus!
