//! Operating-system descriptor assembly for the Windows platform, over a
//! plain model of the native version answer: the version numbers, the
//! product type, and the few machine facts the edition table consults.
use crate::consts::SystemOS;
use crate::os_arch::{arch_display_spec, OSArchitecture};
use crate::text::{chars_of, lemma_split_on_len, replace_all, replace_all_spec, split_on,
    split_on_spec, string_from_chars};
use crate::version::{version_display_spec, Version};
use vstd::prelude::*;

verus! {

/// A plain model of the native version answer: the version triple, the
/// product type, and the machine facts the edition table reads.
#[derive(Debug, Clone)]
pub struct WinVersionInfo {
    pub major: u64,
    pub minor: u64,
    pub build: u64,
    /// The product type is the workstation one.
    pub workstation: bool,
    /// The suite mask carries the home-server flag.
    pub suite_wh_server: bool,
    /// The machine reports the second server release of its line.
    pub serverr2: bool,
    /// The processor architecture is 64-bit.
    pub amd64: bool,
}

/// The edition table: what the version numbers, product type and machine
/// facts determine about the marketed edition name.
pub open spec fn win_edition_spec(v: WinVersionInfo) -> Option<Seq<char>> {
    if v.major == 10 && v.minor == 0 && v.workstation && v.build >= 22000 {
        Some("Windows 11"@)
    } else if v.major == 10 && v.minor == 0 && v.workstation {
        Some("Windows 10"@)
    } else if v.major == 10 && v.minor == 0 {
        Some("Windows Server 2016"@)
    } else if v.major == 6 && v.minor == 3 && v.workstation {
        Some("Windows 8.1"@)
    } else if v.major == 6 && v.minor == 3 {
        Some("Windows Server 2012 R2"@)
    } else if v.major == 6 && v.minor == 2 && v.workstation {
        Some("Windows 8"@)
    } else if v.major == 6 && v.minor == 2 {
        Some("Windows Server 2012"@)
    } else if v.major == 6 && v.minor == 1 && v.workstation {
        Some("Windows 7"@)
    } else if v.major == 6 && v.minor == 1 {
        Some("Windows Server 2008 R2"@)
    } else if v.major == 6 && v.minor == 0 && v.workstation {
        Some("Windows Vista"@)
    } else if v.major == 6 && v.minor == 0 {
        Some("Windows Server 2008"@)
    } else if v.major == 5 && v.minor == 1 {
        Some("Windows XP"@)
    } else if v.major == 5 && v.minor == 0 {
        Some("Windows 2000"@)
    } else if v.major == 5 && v.minor == 2 && !v.serverr2 {
        if v.suite_wh_server {
            Some("Windows Home Server"@)
        } else if v.workstation && v.amd64 {
            Some("Windows XP Professional x64 Edition"@)
        } else {
            Some("Windows Server 2003"@)
        }
    } else {
        None
    }
}

/// Determine the marketed edition name from the version answer.
pub fn edition(v: &WinVersionInfo) -> (r: Option<String>)
    ensures
        match r {
            Some(s) => win_edition_spec(*v) == Some(s@),
            None => win_edition_spec(*v) is None,
        },
{
    if v.major == 10 && v.minor == 0 && v.workstation && v.build >= 22000 {
        Some(String::from_str("Windows 11"))
    } else if v.major == 10 && v.minor == 0 && v.workstation {
        Some(String::from_str("Windows 10"))
    } else if v.major == 10 && v.minor == 0 {
        Some(String::from_str("Windows Server 2016"))
    } else if v.major == 6 && v.minor == 3 && v.workstation {
        Some(String::from_str("Windows 8.1"))
    } else if v.major == 6 && v.minor == 3 {
        Some(String::from_str("Windows Server 2012 R2"))
    } else if v.major == 6 && v.minor == 2 && v.workstation {
        Some(String::from_str("Windows 8"))
    } else if v.major == 6 && v.minor == 2 {
        Some(String::from_str("Windows Server 2012"))
    } else if v.major == 6 && v.minor == 1 && v.workstation {
        Some(String::from_str("Windows 7"))
    } else if v.major == 6 && v.minor == 1 {
        Some(String::from_str("Windows Server 2008 R2"))
    } else if v.major == 6 && v.minor == 0 && v.workstation {
        Some(String::from_str("Windows Vista"))
    } else if v.major == 6 && v.minor == 0 {
        Some(String::from_str("Windows Server 2008"))
    } else if v.major == 5 && v.minor == 1 {
        Some(String::from_str("Windows XP"))
    } else if v.major == 5 && v.minor == 0 {
        Some(String::from_str("Windows 2000"))
    } else if v.major == 5 && v.minor == 2 && !v.serverr2 {
        if v.suite_wh_server {
            Some(String::from_str("Windows Home Server"))
        } else if v.workstation && v.amd64 {
            Some(String::from_str("Windows XP Professional x64 Edition"))
        } else {
            Some(String::from_str("Windows Server 2003"))
        }
    } else {
        None
    }
}

/// What the registry's product name becomes: every `"10"` in it replaced
/// by `"11"` on builds of the newer line, else kept as it stands.
pub open spec fn product_name_spec(raw: Seq<char>, build: u64) -> Seq<char> {
    replace_all_spec(
        raw,
        "10"@,
        if build >= 22000 {
            "11"@
        } else {
            "10"@
        },
    )
}

/// Adjust the registry's product name to the build actually running.
pub fn product_name(raw: Option<String>, build: u64) -> (r: Option<String>)
    ensures
        match raw {
            Some(s) => r matches Some(t) && t@ == product_name_spec(s@, build),
            None => r is None,
        },
{
    match raw {
        Some(s) => {
            let cs = chars_of(s.as_str());
            let pat = chars_of("10");
            let repl = if build >= 22000 {
                chars_of("11")
            } else {
                chars_of("10")
            };
            let out = replace_all(cs.as_slice(), pat.as_slice(), repl.as_slice());
            Some(string_from_chars(out.as_slice()))
        },
        None => None,
    }
}

/// The view of an optional string.
pub open spec fn opt_str_view(o: Option<String>) -> Option<Seq<char>> {
    match o {
        Some(s) => Some(s@),
        None => None,
    }
}

/// The edition the descriptor reports: the adjusted registry name when
/// the registry answered, else the edition table's entry.
pub open spec fn win_name_spec(
    raw: Option<Seq<char>>,
    v: WinVersionInfo,
) -> Option<Seq<char>> {
    match raw {
        Some(s) => Some(product_name_spec(s, v.build)),
        None => win_edition_spec(v),
    }
}

/// Classify the native version answer: no answer means an unknown
/// version and no edition; an answer gives the semantic triple and the
/// registry-or-table edition.
pub fn version(info: &Option<WinVersionInfo>, product_raw: Option<String>) -> (r: (
    Version,
    Option<String>,
))
    ensures
        match info {
            None => r.0 == Version::Unknown && r.1 is None,
            Some(v) => r.0 == Version::Semantic(v.major, v.minor, v.build) && opt_str_view(r.1)
                == win_name_spec(opt_str_view(product_raw), *v),
        },
{
    match info {
        None => (Version::Unknown, None),
        Some(v) => {
            let name = match product_name(product_raw, v.build) {
                Some(n) => Some(n),
                None => edition(v),
            };
            (Version::Semantic(v.major, v.minor, v.build), name)
        },
    }
}

/// The machine's word width: a 64-bit build can only run on a 64-bit
/// system; a 32-bit build goes by the compatibility-layer probe, and an
/// unanswered probe leaves the width unknown.
pub fn os_arch(pointer_width_64: bool, wow64: Option<bool>) -> (r: OSArchitecture)
    ensures
        pointer_width_64 ==> r == OSArchitecture::X64,
        !pointer_width_64 ==> r == (match wow64 {
            None => OSArchitecture::Unknown,
            Some(false) => OSArchitecture::X32,
            Some(true) => OSArchitecture::X64,
        }),
{
    if pointer_width_64 {
        OSArchitecture::X64
    } else {
        match wow64 {
            None => OSArchitecture::Unknown,
            Some(false) => OSArchitecture::X32,
            Some(true) => OSArchitecture::X64,
        }
    }
}

/// The piece after the last `'.'` of a version's display form: the build
/// number of a semantic version, the whole text when no dot occurs.
pub open spec fn last_dot_piece(s: Seq<char>) -> Seq<char> {
    split_on_spec(s, '.').last()
}

fn kernel_of_display(s: &String) -> (r: String)
    ensures
        r@ == last_dot_piece(s@),
{
    let cs = chars_of(s.as_str());
    let pieces = split_on(cs.as_slice(), '.');
    proof {
        lemma_split_on_len(cs@, '.');
    }
    let lastp: &Vec<char> = &pieces[pieces.len() - 1];
    string_from_chars(lastp.as_slice())
}

/// Assemble the operating-system descriptor from the native version
/// answer, the registry's product name, the machine's word width, and the
/// hostname and local address the surrounding program obtained.
pub fn from_system_os(
    info: Option<WinVersionInfo>,
    product_raw: Option<String>,
    pointer_width_64: bool,
    wow64: Option<bool>,
    hostname: String,
    ip_address: String,
) -> (r: SystemOS)
    ensures
        r.os@ == "Microsoft Windows"@,
        ({
            let ver: Version = match info {
                None => Version::Unknown,
                Some(v) => Version::Semantic(v.major, v.minor, v.build),
            };
            let ed: Option<Seq<char>> = match info {
                None => None,
                Some(v) => win_name_spec(opt_str_view(product_raw), v),
            };
            &&& r.version@ == version_display_spec(ver)
            &&& r.kernel@ == last_dot_piece(version_display_spec(ver))
            &&& r.edition@ == (match ed {
                Some(e) => e,
                None => Seq::<char>::empty(),
            })
        }),
        pointer_width_64 ==> r.architecture@ == arch_display_spec(OSArchitecture::X64),
        !pointer_width_64 ==> r.architecture@ == arch_display_spec(
            match wow64 {
                None => OSArchitecture::Unknown,
                Some(false) => OSArchitecture::X32,
                Some(true) => OSArchitecture::X64,
            },
        ),
        r.hostname@ == hostname@,
        r.ip_address@ == ip_address@,
{
    let (ver, ed) = version(&info, product_raw);
    let version_text = ver.display();
    let kernel = kernel_of_display(&version_text);
    SystemOS {
        os: String::from_str("Microsoft Windows"),
        kernel,
        edition: match ed {
            Some(e) => e,
            None => String::new(),
        },
        version: version_text,
        architecture: os_arch(pointer_width_64, wow64).display(),
        hostname,
        ip_address,
    }
}

} // verus!
