//! Hardware descriptor assembly from the Apple platform's collectors: the
//! hardware profiler report, the kernel state query, and the machine
//! architecture query.
use crate::consts::SystemHardware;
use crate::mapping::Mapping;
use crate::merge::{
    d_or_empty, first_match_spec, match1, results_view, slot_get, slot_lookup,
};
use crate::text::{
    chars_of, extend_chars, space_pred, string_from_chars, to_upper_ascii, trim_space, trim_spec,
    upper_ascii_seq, words, words_spec,
};
use crate::utils::{kv_map_spec, to_hashmap};
use vstd::prelude::*;

verus! {

/// Normalize the machine architecture query's output: empty means no
/// result, anything else becomes a one-entry table under `"arch"`.
pub fn get_arch(output: String) -> (r: Option<Mapping>)
    ensures
        match r {
            Some(m) => output@.len() > 0 && m@ == Map::<Seq<char>, Seq<char>>::empty().insert(
                "arch"@,
                trim_spec(output@, space_pred()),
            ),
            None => output@.len() == 0,
        },
{
    if output.as_str().is_empty() {
        None
    } else {
        let cs = chars_of(output.as_str());
        let t = trim_space(cs.as_slice());
        let mut m = Mapping::new();
        m.insert(String::from_str("arch"), string_from_chars(t.as_slice()));
        Some(m)
    }
}

/// Normalize the hardware profiler's report: empty means no result,
/// anything else is parsed as `Label: Value` lines.
pub fn from_systemprofiler(output: String) -> (r: Option<Mapping>)
    ensures
        match r {
            Some(m) => output@.len() > 0 && m@ == kv_map_spec(output@, ':'),
            None => output@.len() == 0,
        },
{
    if output.as_str().is_empty() {
        None
    } else {
        Some(to_hashmap(output))
    }
}

/// Normalize the kernel state query's report: empty means no result,
/// anything else is parsed as `label: value` lines.
pub fn from_sysctl(output: String) -> (r: Option<Mapping>)
    ensures
        match r {
            Some(m) => output@.len() > 0 && m@ == kv_map_spec(output@, ':'),
            None => output@.len() == 0,
        },
{
    if output.as_str().is_empty() {
        None
    } else {
        Some(to_hashmap(output))
    }
}

/// The collector row for the hardware descriptor, in submission order:
/// profiler report, kernel state, architecture.
pub open spec fn mac_hw_row(
    sys_info: Option<Mapping>,
    sysctl: Option<Mapping>,
    arch: Option<Mapping>,
) -> Seq<Option<Map<Seq<char>, Seq<char>>>> {
    results_view(seq![sys_info, sysctl, arch])
}

/// The composite model field: `"identifier (name)"` only when both the
/// model identifier and the model name are present, else empty.
pub open spec fn join_model_spec(id: Option<Seq<char>>, name: Option<Seq<char>>) -> Seq<char> {
    if id is Some && name is Some {
        id->0 + " ("@ + name->0 + ")"@
    } else {
        Seq::<char>::empty()
    }
}

/// The processor feature tokens: the three feature label values joined by
/// spaces, split on whitespace, each token ASCII upper-cased.
pub open spec fn mac_features_spec(
    f: Option<Seq<char>>,
    e: Option<Seq<char>>,
    l: Option<Seq<char>>,
) -> Seq<Seq<char>> {
    words_spec(d_or_empty(f) + seq![' '] + d_or_empty(e) + seq![' '] + d_or_empty(l)).map_values(
        |w: Seq<char>| upper_ascii_seq(w),
    )
}

fn join_model(results: &[Option<Mapping>]) -> (r: String)
    ensures
        r@ == join_model_spec(
            slot_lookup(results_view(results@), 0, "Model Identifier"@),
            slot_lookup(results_view(results@), 0, "Model Name"@),
        ),
{
    let id = slot_get(results, 0, "Model Identifier");
    let name = slot_get(results, 0, "Model Name");
    match (id, name) {
        (Some(idv), Some(namev)) => {
            let mut v = chars_of(idv.as_str());
            let sep = chars_of(" (");
            extend_chars(&mut v, sep.as_slice());
            let nc = chars_of(namev.as_str());
            extend_chars(&mut v, nc.as_slice());
            let close = chars_of(")");
            extend_chars(&mut v, close.as_slice());
            string_from_chars(v.as_slice())
        },
        _ => String::new(),
    }
}

fn mac_features(results: &[Option<Mapping>]) -> (r: Vec<String>)
    ensures
        ({
            let spec = mac_features_spec(
                slot_lookup(results_view(results@), 1, "machdep.cpu.features"@),
                slot_lookup(results_view(results@), 1, "machdep.cpu.extfeatures"@),
                slot_lookup(results_view(results@), 1, "machdep.cpu.leaf7_features"@),
            );
            r@.len() == spec.len() && (forall|i: int| 0 <= i < r@.len() ==> r@[i]@ == spec[i])
        }),
{
    let f = match slot_get(results, 1, "machdep.cpu.features") {
        Some(v) => v,
        None => String::new(),
    };
    let e = match slot_get(results, 1, "machdep.cpu.extfeatures") {
        Some(v) => v,
        None => String::new(),
    };
    let l = match slot_get(results, 1, "machdep.cpu.leaf7_features") {
        Some(v) => v,
        None => String::new(),
    };
    let mut combined = chars_of(f.as_str());
    combined.push(' ');
    let ec = chars_of(e.as_str());
    extend_chars(&mut combined, ec.as_slice());
    combined.push(' ');
    let lc = chars_of(l.as_str());
    extend_chars(&mut combined, lc.as_slice());
    proof {
        assert(combined@ =~= d_or_empty(
            slot_lookup(results_view(results@), 1, "machdep.cpu.features"@),
        ) + seq![' '] + d_or_empty(
            slot_lookup(results_view(results@), 1, "machdep.cpu.extfeatures"@),
        ) + seq![' '] + d_or_empty(
            slot_lookup(results_view(results@), 1, "machdep.cpu.leaf7_features"@),
        ));
    }
    let ws = words(combined.as_slice());
    let mut out: Vec<String> = Vec::new();
    let mut i: usize = 0;
    while i < ws.len()
        invariant
            0 <= i <= ws@.len(),
            out@.len() == i,
            forall|k: int|
                0 <= k < ws@.len() ==> ws@[k]@ == words_spec(combined@)[k],
            ws@.len() == words_spec(combined@).len(),
            forall|k: int|
                0 <= k < i ==> out@[k]@ == upper_ascii_seq(words_spec(combined@)[k]),
        decreases ws@.len() - i,
    {
        let u = to_upper_ascii(ws[i].as_slice());
        out.push(string_from_chars(u.as_slice()));
        i = i + 1;
    }
    out
}

/// Assemble the hardware descriptor from the three collector results,
/// each field drawn from its own candidates and absent data left as the
/// empty value; the descriptor is always fully populated.
pub fn from_system_hardware(
    sys_info: Option<Mapping>,
    sysctl: Option<Mapping>,
    arch: Option<Mapping>,
) -> (r: SystemHardware)
    ensures
        ({
            let rv = mac_hw_row(sys_info, sysctl, arch);
            &&& r.system_manufacturer@ == "Apple"@
            &&& r.system_model@ == join_model_spec(
                slot_lookup(rv, 0, "Model Identifier"@),
                slot_lookup(rv, 0, "Model Name"@),
            )
            &&& r.serial_number@ == first_match_spec(
                rv,
                seq![(0int, "Serial Number (system)"@)],
            )
            &&& r.bios@ == first_match_spec(rv, seq![(0int, "System Firmware Version"@)])
            &&& r.physical_memory@ == first_match_spec(rv, seq![(0int, "Memory"@)])
            &&& r.processor@ == first_match_spec(rv, seq![(1int, "machdep.cpu.brand_string"@)])
            &&& r.architecture@ == first_match_spec(rv, seq![(2int, "arch"@)])
            &&& r.processor_vendor@ == first_match_spec(rv, seq![(1int, "machdep.cpu.vendor"@)])
            &&& r.processor_physical_cpus@ == first_match_spec(rv, seq![(1int, "hw.physicalcpu"@)])
            &&& r.processor_logical_cpus@ == first_match_spec(rv, seq![(1int, "hw.logicalcpu"@)])
            &&& ({
                let fs = mac_features_spec(
                    slot_lookup(rv, 1, "machdep.cpu.features"@),
                    slot_lookup(rv, 1, "machdep.cpu.extfeatures"@),
                    slot_lookup(rv, 1, "machdep.cpu.leaf7_features"@),
                );
                r.processor_features@.len() == fs.len() && (forall|i: int|
                    0 <= i < fs.len() ==> r.processor_features@[i]@ == fs[i])
            })
        }),
{
    let mut row: Vec<Option<Mapping>> = Vec::new();
    row.push(sys_info);
    row.push(sysctl);
    row.push(arch);
    proof {
        assert(row@ =~= seq![row@[0], row@[1], row@[2]]);
    }
    let results = row.as_slice();
    SystemHardware {
        system_manufacturer: String::from_str("Apple"),
        system_model: join_model(results),
        serial_number: match1(results, 0, "Serial Number (system)"),
        bios: match1(results, 0, "System Firmware Version"),
        physical_memory: match1(results, 0, "Memory"),
        processor: match1(results, 1, "machdep.cpu.brand_string"),
        architecture: match1(results, 2, "arch"),
        processor_vendor: match1(results, 1, "machdep.cpu.vendor"),
        processor_physical_cpus: match1(results, 1, "hw.physicalcpu"),
        processor_logical_cpus: match1(results, 1, "hw.logicalcpu"),
        processor_features: mac_features(results),
    }
}

} // verus!
