//! Hardware descriptor assembly from the Linux platform's collectors: the
//! memory pseudo-file, the DMI table decoder (with the hardware lister as
//! fallback), and the CPU summary.
use crate::consts::SystemHardware;
use crate::humanize::{humanize_bytes, humanize_spec};
use crate::mapping::Mapping;
use crate::merge::{
    first_match_spec, match1, match2, results_view, slot_get, slot_lookup,
};
use crate::text::{
    chars_of, extend_chars, has_sub, contains_sub, parse_u64, parse_u64_spec, replace_all,
    replace_all_spec, space_pred, string_from_chars, to_upper_ascii, trim_space, trim_spec,
    upper_ascii_seq, words, words_spec,
};
use crate::utils::{
    filter_prefixed, keep_prefixed, kv_from_lines, kv_map_of_lines, kv_map_spec,
    split_nonempty_lines, to_hashmap, vec_string_spec,
};
use vstd::prelude::*;

verus! {

/// Normalize the memory pseudo-file query: empty output or a missing-file
/// marker means no result; otherwise the kilobyte suffixes are removed and
/// the text parsed as `Label: Value` lines.
pub fn get_mem_info(output: String) -> (r: Option<Mapping>)
    ensures
        match r {
            Some(m) => output@.len() > 0 && !has_sub(output@, "No such file"@) && m@
                == kv_map_spec(
                trim_spec(replace_all_spec(output@, " kB"@, Seq::<char>::empty()), space_pred()),
                ':',
            ),
            None => output@.len() == 0 || has_sub(output@, "No such file"@),
        },
{
    let cs = chars_of(output.as_str());
    let marker = chars_of("No such file");
    if output.as_str().is_empty() || contains_sub(cs.as_slice(), marker.as_slice()) {
        None
    } else {
        let pat = chars_of(" kB");
        let empty: Vec<char> = Vec::new();
        let replaced = replace_all(cs.as_slice(), pat.as_slice(), empty.as_slice());
        let trimmed = trim_space(replaced.as_slice());
        Some(to_hashmap(string_from_chars(trimmed.as_slice())))
    }
}

/// The table a DMI-decoder or hardware-lister report denotes: non-empty
/// trimmed lines starting with one of the given prefixes, parsed as
/// `Label: Value` entries.
pub open spec fn prefixed_kv_spec(out: Seq<char>, ps: Seq<Seq<char>>) -> Map<Seq<char>, Seq<char>> {
    kv_map_of_lines(keep_prefixed(vec_string_spec(out, true), ps), ':')
}

/// Normalize the DMI decoder's firmware table: empty output or the
/// missing-entry-point marker means no result; otherwise the vendor,
/// version and release date lines are parsed.
pub fn dmidecode_bios(output: String) -> (r: Option<Mapping>)
    ensures
        match r {
            Some(m) => output@.len() > 0 && !has_sub(
                output@,
                "No SMBIOS nor DMI entry point found"@,
            ) && m@ == prefixed_kv_spec(output@, seq!["Vendor:"@, "Version"@, "Release Date:"@]),
            None => output@.len() == 0 || has_sub(
                output@,
                "No SMBIOS nor DMI entry point found"@,
            ),
        },
{
    let cs = chars_of(output.as_str());
    let marker = chars_of("No SMBIOS nor DMI entry point found");
    if output.as_str().is_empty() || contains_sub(cs.as_slice(), marker.as_slice()) {
        None
    } else {
        let lines = split_nonempty_lines(output.as_str(), true);
        let mut prefixes: Vec<Vec<char>> = Vec::new();
        prefixes.push(chars_of("Vendor:"));
        prefixes.push(chars_of("Version"));
        prefixes.push(chars_of("Release Date:"));
        let kept = filter_prefixed(&lines, &prefixes);
        proof {
            assert(crate::utils::prefix_views(prefixes@) =~= seq![
                "Vendor:"@,
                "Version"@,
                "Release Date:"@,
            ]);
            assert(crate::utils::lines_views(lines@) =~= vec_string_spec(output@, true));
        }
        Some(kv_from_lines(&kept, ':'))
    }
}

/// Normalize the DMI decoder's system table: empty output or the
/// missing-entry-point marker means no result; otherwise the manufacturer,
/// product name and serial number lines are parsed.
pub fn dmidecode_system(output: String) -> (r: Option<Mapping>)
    ensures
        match r {
            Some(m) => output@.len() > 0 && !has_sub(
                output@,
                "No SMBIOS nor DMI entry point found"@,
            ) && m@ == prefixed_kv_spec(
                output@,
                seq!["Manufacturer:"@, "Product Name:"@, "Serial Number:"@],
            ),
            None => output@.len() == 0 || has_sub(
                output@,
                "No SMBIOS nor DMI entry point found"@,
            ),
        },
{
    let cs = chars_of(output.as_str());
    let marker = chars_of("No SMBIOS nor DMI entry point found");
    if output.as_str().is_empty() || contains_sub(cs.as_slice(), marker.as_slice()) {
        None
    } else {
        let lines = split_nonempty_lines(output.as_str(), true);
        let mut prefixes: Vec<Vec<char>> = Vec::new();
        prefixes.push(chars_of("Manufacturer:"));
        prefixes.push(chars_of("Product Name:"));
        prefixes.push(chars_of("Serial Number:"));
        let kept = filter_prefixed(&lines, &prefixes);
        proof {
            assert(crate::utils::prefix_views(prefixes@) =~= seq![
                "Manufacturer:"@,
                "Product Name:"@,
                "Serial Number:"@,
            ]);
            assert(crate::utils::lines_views(lines@) =~= vec_string_spec(output@, true));
        }
        Some(kv_from_lines(&kept, ':'))
    }
}

/// Join the DMI decoder's two tables: both present means the firmware
/// entries shadow shared labels of the system entries; one present means
/// that one; none means no result.
pub fn from_dmidecode(system: Option<Mapping>, bios: Option<Mapping>) -> (r: Option<Mapping>)
    ensures
        match (system, bios) {
            (Some(s), Some(b)) => r matches Some(m) && m@ == s@.union_prefer_right(b@),
            (Some(s), None) => r matches Some(m) && m@ == s@,
            (None, Some(b)) => r matches Some(m) && m@ == b@,
            (None, None) => r is None,
        },
{
    match (system, bios) {
        (Some(mut s), Some(b)) => {
            s.extend(&b);
            Some(s)
        },
        (Some(s), None) => Some(s),
        (None, Some(b)) => Some(b),
        (None, None) => None,
    }
}

/// Normalize the hardware lister's report: empty output or a missing-file
/// marker means no result; otherwise the product and serial lines are
/// parsed.
pub fn from_lshw(output: String) -> (r: Option<Mapping>)
    ensures
        match r {
            Some(m) => output@.len() > 0 && !has_sub(output@, "No such file"@) && m@
                == prefixed_kv_spec(output@, seq!["product"@, "serial"@]),
            None => output@.len() == 0 || has_sub(output@, "No such file"@),
        },
{
    let cs = chars_of(output.as_str());
    let marker = chars_of("No such file");
    if output.as_str().is_empty() || contains_sub(cs.as_slice(), marker.as_slice()) {
        None
    } else {
        let lines = split_nonempty_lines(output.as_str(), true);
        let mut prefixes: Vec<Vec<char>> = Vec::new();
        prefixes.push(chars_of("product"));
        prefixes.push(chars_of("serial"));
        let kept = filter_prefixed(&lines, &prefixes);
        proof {
            assert(crate::utils::prefix_views(prefixes@) =~= seq!["product"@, "serial"@]);
            assert(crate::utils::lines_views(lines@) =~= vec_string_spec(output@, true));
        }
        Some(kv_from_lines(&kept, ':'))
    }
}

/// Normalize the CPU summary: empty means no result, anything else is
/// parsed as `Label: Value` lines.
pub fn from_lscpu(output: String) -> (r: Option<Mapping>)
    ensures
        match r {
            Some(m) => output@.len() > 0 && m@ == kv_map_spec(output@, ':'),
            None => output@.len() == 0,
        },
{
    if output.as_str().is_empty() {
        None
    } else {
        Some(to_hashmap(output))
    }
}

/// The collector row for the hardware descriptor, in submission order:
/// memory info, system info, CPU info.
pub open spec fn nix_hw_row(
    mem_info: Option<Mapping>,
    sys_info: Option<Mapping>,
    cpu_info: Option<Mapping>,
) -> Seq<Option<Map<Seq<char>, Seq<char>>>> {
    results_view(seq![mem_info, sys_info, cpu_info])
}

/// The composite firmware field: `"vendor vversion (date)"`, constructed
/// only when all three parts are present, else empty.
pub open spec fn bios_join_spec(
    vend: Option<Seq<char>>,
    vers: Option<Seq<char>>,
    date: Option<Seq<char>>,
) -> Seq<char> {
    if vend is Some && vers is Some && date is Some {
        vend->0 + " v"@ + vers->0 + " ("@ + date->0 + ")"@
    } else {
        Seq::<char>::empty()
    }
}

/// The humanized physical memory: the total kilobyte count scaled to
/// bytes and humanized; absent or malformed counts stay empty.
pub open spec fn mem_field_spec(v: Option<Seq<char>>) -> Seq<char> {
    match v {
        Some(t) => match parse_u64_spec(t) {
            Some(n) => if n <= u64::MAX / 1000 {
                humanize_spec(false, (n * 1000) as nat)
            } else {
                Seq::<char>::empty()
            },
            None => Seq::<char>::empty(),
        },
        None => Seq::<char>::empty(),
    }
}

/// The processor feature tokens: the flags value ASCII upper-cased and
/// split on whitespace; absent flags give no tokens.
pub open spec fn nix_features_spec(flags: Option<Seq<char>>) -> Seq<Seq<char>> {
    match flags {
        Some(v) => words_spec(upper_ascii_seq(v)),
        None => Seq::<Seq<char>>::empty(),
    }
}

fn bios_join(results: &[Option<Mapping>]) -> (r: String)
    ensures
        r@ == bios_join_spec(
            slot_lookup(results_view(results@), 1, "Vendor"@),
            slot_lookup(results_view(results@), 1, "Version"@),
            slot_lookup(results_view(results@), 1, "Release Date"@),
        ),
{
    let vend = slot_get(results, 1, "Vendor");
    let vers = slot_get(results, 1, "Version");
    let date = slot_get(results, 1, "Release Date");
    match (vend, vers, date) {
        (Some(a), Some(b), Some(c)) => {
            let mut v = chars_of(a.as_str());
            let s1 = chars_of(" v");
            extend_chars(&mut v, s1.as_slice());
            let bc = chars_of(b.as_str());
            extend_chars(&mut v, bc.as_slice());
            let s2 = chars_of(" (");
            extend_chars(&mut v, s2.as_slice());
            let cc = chars_of(c.as_str());
            extend_chars(&mut v, cc.as_slice());
            let s3 = chars_of(")");
            extend_chars(&mut v, s3.as_slice());
            string_from_chars(v.as_slice())
        },
        _ => String::new(),
    }
}

fn mem_field(results: &[Option<Mapping>]) -> (r: String)
    ensures
        r@ == mem_field_spec(slot_lookup(results_view(results@), 0, "MemTotal"@)),
{
    match slot_get(results, 0, "MemTotal") {
        Some(t) => {
            let tc = chars_of(t.as_str());
            match parse_u64(tc.as_slice()) {
                Some(n) => {
                    if n <= u64::MAX / 1000 {
                        humanize_bytes(false, n * 1000)
                    } else {
                        String::new()
                    }
                },
                None => String::new(),
            }
        },
        None => String::new(),
    }
}

fn nix_features(results: &[Option<Mapping>]) -> (r: Vec<String>)
    ensures
        ({
            let spec = nix_features_spec(slot_lookup(results_view(results@), 2, "Flags"@));
            r@.len() == spec.len() && (forall|i: int| 0 <= i < r@.len() ==> r@[i]@ == spec[i])
        }),
{
    match slot_get(results, 2, "Flags") {
        Some(flags) => {
            let fc = chars_of(flags.as_str());
            let up = to_upper_ascii(fc.as_slice());
            let ws = words(up.as_slice());
            let mut out: Vec<String> = Vec::new();
            let mut i: usize = 0;
            while i < ws.len()
                invariant
                    0 <= i <= ws@.len(),
                    out@.len() == i,
                    ws@.len() == words_spec(up@).len(),
                    forall|k: int| 0 <= k < ws@.len() ==> ws@[k]@ == words_spec(up@)[k],
                    forall|k: int| 0 <= k < i ==> out@[k]@ == words_spec(up@)[k],
                decreases ws@.len() - i,
            {
                out.push(string_from_chars(ws[i].as_slice()));
                i = i + 1;
            }
            out
        },
        None => Vec::new(),
    }
}

/// Assemble the hardware descriptor from the three collector results,
/// each field drawn from its own candidates and absent data left as the
/// empty value; the descriptor is always fully populated.
pub fn from_system_hardware(
    mem_info: Option<Mapping>,
    sys_info: Option<Mapping>,
    cpu_info: Option<Mapping>,
) -> (r: SystemHardware)
    ensures
        ({
            let rv = nix_hw_row(mem_info, sys_info, cpu_info);
            &&& r.system_manufacturer@ == first_match_spec(
                rv,
                seq![(1int, "Manufacturer"@), (1int, "product"@)],
            )
            &&& r.system_model@ == first_match_spec(rv, seq![(1int, "Product Name"@)])
            &&& r.serial_number@ == first_match_spec(
                rv,
                seq![(1int, "Serial Number"@), (1int, "serial"@)],
            )
            &&& r.bios@ == bios_join_spec(
                slot_lookup(rv, 1, "Vendor"@),
                slot_lookup(rv, 1, "Version"@),
                slot_lookup(rv, 1, "Release Date"@),
            )
            &&& r.physical_memory@ == mem_field_spec(slot_lookup(rv, 0, "MemTotal"@))
            &&& r.processor@ == first_match_spec(rv, seq![(2int, "Model name"@)])
            &&& r.architecture@ == first_match_spec(rv, seq![(2int, "Architecture"@)])
            &&& r.processor_vendor@ == first_match_spec(rv, seq![(2int, "Vendor ID"@)])
            &&& r.processor_physical_cpus@ == first_match_spec(
                rv,
                seq![(2int, "Core(s) per socket"@)],
            )
            &&& r.processor_logical_cpus@ == first_match_spec(rv, seq![(2int, "CPU(s)"@)])
            &&& ({
                let fs = nix_features_spec(slot_lookup(rv, 2, "Flags"@));
                r.processor_features@.len() == fs.len() && (forall|i: int|
                    0 <= i < fs.len() ==> r.processor_features@[i]@ == fs[i])
            })
        }),
{
    let mut row: Vec<Option<Mapping>> = Vec::new();
    row.push(mem_info);
    row.push(sys_info);
    row.push(cpu_info);
    proof {
        assert(row@ =~= seq![row@[0], row@[1], row@[2]]);
    }
    let results = row.as_slice();
    SystemHardware {
        system_manufacturer: match2(results, 1, "Manufacturer", 1, "product"),
        system_model: match1(results, 1, "Product Name"),
        serial_number: match2(results, 1, "Serial Number", 1, "serial"),
        bios: bios_join(results),
        physical_memory: mem_field(results),
        processor: match1(results, 2, "Model name"),
        architecture: match1(results, 2, "Architecture"),
        processor_vendor: match1(results, 2, "Vendor ID"),
        processor_physical_cpus: match1(results, 2, "Core(s) per socket"),
        processor_logical_cpus: match1(results, 2, "CPU(s)"),
        processor_features: nix_features(results),
    }
}

} // verus!
