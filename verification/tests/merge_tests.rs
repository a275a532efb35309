use systeminfo::hostname::wrap_buffer;
use systeminfo::mac;
use systeminfo::merge::first_match;
use systeminfo::nix;
use systeminfo::utils::to_hashmap;
use systeminfo::os_arch::OSArchitecture;
use systeminfo::version::Version;
use systeminfo::win;

#[test]
fn test_fallback_prefers_later_present_label() {
    // The first result lacks the label; the second holds it, even as an
    // empty string: the field resolves to the second source's value.
    let first = Some(to_hashmap("Other: data".to_string()));
    let second = Some(to_hashmap("Label:".to_string()));
    let results = vec![first, second];
    let picked = first_match(&results, &[(0, "Label"), (1, "Label")]);
    assert_eq!(picked, "");
    let picked2 = first_match(&results, &[(0, "Other"), (1, "Label")]);
    assert_eq!(picked2, "data");
}

#[test]
fn test_fallback_default_when_no_candidate() {
    let results = vec![None, Some(to_hashmap("A: b".to_string()))];
    assert_eq!(first_match(&results, &[(0, "A"), (1, "Missing")]), "");
}

#[test]
fn test_mac_hardware_merge() {
    let profiler = mac::hwinfo::from_systemprofiler(
        "Model Identifier: Mac14,9\nModel Name: MacBook Pro\nMemory: 16 GB\nSerial Number (system): C02XXXX\nSystem Firmware Version: 8422.100.650".to_string(),
    );
    let sysctl = mac::hwinfo::from_sysctl(
        "machdep.cpu.brand_string: Apple M2 Pro\nmachdep.cpu.vendor: Apple\nhw.physicalcpu: 10\nhw.logicalcpu: 10\nmachdep.cpu.features: fpu sse\nmachdep.cpu.extfeatures: lahf\nmachdep.cpu.leaf7_features: smep".to_string(),
    );
    let arch = mac::hwinfo::get_arch("arm64\n".to_string());
    let hw = mac::hwinfo::from_system_hardware(profiler, sysctl, arch);
    assert_eq!(hw.system_manufacturer, "Apple");
    assert_eq!(hw.system_model, "Mac14,9 (MacBook Pro)");
    assert_eq!(hw.serial_number, "C02XXXX");
    assert_eq!(hw.physical_memory, "16 GB");
    assert_eq!(hw.processor, "Apple M2 Pro");
    assert_eq!(hw.architecture, "arm64");
    assert_eq!(hw.processor_physical_cpus, "10");
    assert_eq!(
        hw.processor_features,
        vec!["FPU", "SSE", "LAHF", "SMEP"]
    );
}

#[test]
fn test_mac_model_composite_needs_both_parts() {
    let profiler = mac::hwinfo::from_systemprofiler("Model Name: MacBook Pro".to_string());
    let hw = mac::hwinfo::from_system_hardware(profiler, None, None);
    assert_eq!(hw.system_model, "");
}

#[test]
fn test_aggregation_tolerates_failed_collector() {
    // One of the three collectors fails entirely; the others still
    // populate their fields and the descriptor is returned whole.
    let mem = nix::hwinfo::get_mem_info("MemTotal:       16384256 kB".to_string());
    let cpu = nix::hwinfo::from_lscpu(
        "Architecture: x86_64\nModel name: AMD Ryzen\nVendor ID: AuthenticAMD\nCPU(s): 16\nCore(s) per socket: 8\nFlags: fpu vme sse".to_string(),
    );
    let hw = nix::hwinfo::from_system_hardware(mem, None, cpu);
    assert_eq!(hw.physical_memory, "16.38 GB");
    assert_eq!(hw.processor, "AMD Ryzen");
    assert_eq!(hw.architecture, "x86_64");
    assert_eq!(hw.processor_vendor, "AuthenticAMD");
    assert_eq!(hw.processor_logical_cpus, "16");
    assert_eq!(hw.processor_physical_cpus, "8");
    assert_eq!(hw.processor_features, vec!["FPU", "VME", "SSE"]);
    // Fields whose only source failed fall back to the empty default.
    assert_eq!(hw.system_manufacturer, "");
    assert_eq!(hw.system_model, "");
    assert_eq!(hw.serial_number, "");
    assert_eq!(hw.bios, "");
}

#[test]
fn test_nix_bios_composite_needs_all_parts() {
    let sys = nix::hwinfo::dmidecode_bios(
        "Vendor: LENOVO\nVersion: R1MET43W\nRelease Date: 07/01/2021".to_string(),
    );
    let hw = nix::hwinfo::from_system_hardware(None, sys, None);
    assert_eq!(hw.bios, "LENOVO vR1MET43W (07/01/2021)");
    let partial = nix::hwinfo::dmidecode_bios("Vendor: LENOVO".to_string());
    let hw2 = nix::hwinfo::from_system_hardware(None, partial, None);
    assert_eq!(hw2.bios, "");
}

#[test]
fn test_dmidecode_marker_means_no_result() {
    assert!(nix::hwinfo::dmidecode_bios("No SMBIOS nor DMI entry point found".to_string())
        .is_none());
    assert!(nix::hwinfo::dmidecode_system("".to_string()).is_none());
}

#[test]
fn test_from_dmidecode_joins_tables() {
    let sys = nix::hwinfo::dmidecode_system("Manufacturer: LENOVO\nProduct Name: 20Y7".to_string());
    let bios = nix::hwinfo::dmidecode_bios("Vendor: LENOVO\nVersion: R1M".to_string());
    let joined = nix::hwinfo::from_dmidecode(sys, bios).unwrap();
    assert_eq!(joined.get("Manufacturer").unwrap().as_str(), "LENOVO");
    assert_eq!(joined.get("Vendor").unwrap().as_str(), "LENOVO");
    assert!(nix::hwinfo::from_dmidecode(None, None).is_none());
}

#[test]
fn test_nix_os_merge() {
    let hostnamectl = nix::osinfo::from_hostnamectl(
        "Operating System: Debian GNU/Linux 12\nKernel: Linux 6.1.0".to_string(),
    );
    let os_release = nix::osinfo::from_os_release(
        "NAME=\"Debian GNU/Linux\"\nVERSION_ID=\"12\"\nVERSION=\"12 (bookworm)\"\nVERSION_CODENAME=bookworm\nPRETTY_NAME=\"Debian GNU/Linux 12 (bookworm)\"".to_string(),
    );
    let os = nix::osinfo::from_system_os(
        hostnamectl,
        os_release,
        "64\n",
        "myhost".to_string(),
        "192.168.0.2".to_string(),
    );
    assert_eq!(os.os, "Debian GNU/Linux");
    assert_eq!(os.kernel, "Linux 6.1.0");
    assert_eq!(os.edition, "BOOKWORM");
    assert_eq!(os.version, "12 (bookworm)");
    assert_eq!(os.architecture, "64-bit");
    assert_eq!(os.hostname, "myhost");
    assert_eq!(os.ip_address, "192.168.0.2");
}

#[test]
fn test_mac_os_merge_and_edition() {
    let sw = mac::osinfo::get_sw_vers(
        "ProductName: macOS\nProductVersion: 13.2.1\nBuildVersion: 22D68".to_string(),
    );
    let kern = mac::osinfo::get_kernel("22.3.0\n".to_string());
    let os = mac::osinfo::from_system_os(
        sw,
        kern,
        "64",
        "mac.local".to_string(),
        "10.0.0.5".to_string(),
    );
    assert_eq!(os.os, "macOS");
    assert_eq!(os.version, "13.2.1");
    assert_eq!(os.kernel, "22.3.0");
    assert_eq!(os.edition, "macOS Ventura");
    assert_eq!(os.architecture, "64-bit");
}

#[test]
fn test_mac_edition_table() {
    assert_eq!(mac::osinfo::edition(&Version::Semantic(10, 15, 7)), "macOS Catalina");
    assert_eq!(mac::osinfo::edition(&Version::Semantic(11, 0, 0)), "macOS Big Sur");
    assert_eq!(mac::osinfo::edition(&Version::Semantic(9, 0, 0)), "Unknown");
    assert_eq!(mac::osinfo::edition(&Version::Custom("x".to_string())), "");
    assert_eq!(mac::osinfo::edition(&Version::Unknown), "");
}

#[test]
fn test_win_edition_table() {
    let base = win::osinfo::WinVersionInfo {
        major: 10,
        minor: 0,
        build: 22621,
        workstation: true,
        suite_wh_server: false,
        serverr2: false,
        amd64: true,
    };
    assert_eq!(win::osinfo::edition(&base).unwrap(), "Windows 11");
    let w10 = win::osinfo::WinVersionInfo { build: 19045, ..base.clone() };
    assert_eq!(win::osinfo::edition(&w10).unwrap(), "Windows 10");
    let server = win::osinfo::WinVersionInfo { workstation: false, ..base.clone() };
    assert_eq!(win::osinfo::edition(&server).unwrap(), "Windows Server 2016");
    let xp64 = win::osinfo::WinVersionInfo {
        major: 5,
        minor: 2,
        build: 3790,
        workstation: true,
        suite_wh_server: false,
        serverr2: false,
        amd64: true,
    };
    assert_eq!(
        win::osinfo::edition(&xp64).unwrap(),
        "Windows XP Professional x64 Edition"
    );
    let unknown = win::osinfo::WinVersionInfo { major: 4, minor: 9, ..base.clone() };
    assert!(win::osinfo::edition(&unknown).is_none());
}

#[test]
fn test_win_os_descriptor() {
    let info = win::osinfo::WinVersionInfo {
        major: 10,
        minor: 0,
        build: 22621,
        workstation: true,
        suite_wh_server: false,
        serverr2: false,
        amd64: true,
    };
    let os = win::osinfo::from_system_os(
        Some(info),
        Some("Windows 10 Pro".to_string()),
        true,
        None,
        "winhost".to_string(),
        "10.1.1.1".to_string(),
    );
    assert_eq!(os.os, "Microsoft Windows");
    assert_eq!(os.version, "10.0.22621");
    assert_eq!(os.kernel, "22621");
    // The registry name is adjusted to the running build's line.
    assert_eq!(os.edition, "Windows 11 Pro");
    assert_eq!(os.architecture, "64-bit");
}

#[test]
fn test_win_os_descriptor_without_version_info() {
    let os = win::osinfo::from_system_os(
        None,
        None,
        false,
        Some(false),
        "h".to_string(),
        "".to_string(),
    );
    assert_eq!(os.version, "Unknown");
    assert_eq!(os.kernel, "Unknown");
    assert_eq!(os.edition, "");
    assert_eq!(os.architecture, "32-bit");
}

#[test]
fn test_win_hardware_merge() {
    let hw = win::hwinfo::from_system_hardware(
        win::hwinfo::WinBios {
            caption: "  1.2.3  ".to_string(),
            serial_number: "SN1".to_string(),
            release_date: "Mon, 05 Jul 2021".to_string(),
        },
        win::hwinfo::WinComputerSystem {
            number_of_logical_processors: "16".to_string(),
            number_of_processors: "1".to_string(),
            system_type: "x64-based PC".to_string(),
            manufacturer: "LENOVO".to_string(),
            model: "20Y7".to_string(),
            total_physical_memory: "16.38 GB".to_string(),
        },
        win::hwinfo::WinProcessor {
            name: "AMD Ryzen".to_string(),
            manufacturer: "AuthenticAMD".to_string(),
            number_of_logical_processors: "16".to_string(),
            number_of_cores: "8".to_string(),
        },
    );
    assert_eq!(hw.bios, "1.2.3 (Mon, 05 Jul 2021)");
    assert_eq!(hw.system_manufacturer, "LENOVO");
    assert!(hw.processor_features.is_empty());
}

#[test]
fn test_get_mem_info_strips_unit() {
    let m = nix::hwinfo::get_mem_info("MemTotal:       16384256 kB".to_string()).unwrap();
    assert_eq!(m.get("MemTotal").unwrap().as_str(), "16384256");
}

#[test]
fn test_wrap_buffer_truncates_at_nul() {
    assert_eq!(wrap_buffer(vec![104, 105, 0, 120, 121]), vec![104, 105]);
    assert_eq!(wrap_buffer(vec![104, 105]), vec![104, 105]);
    assert_eq!(wrap_buffer(vec![0]), Vec::<u8>::new());
}

#[test]
fn test_get_arch_classification() {
    assert_eq!(OSArchitecture::get_arch("64\n"), OSArchitecture::X64);
    assert_eq!(OSArchitecture::get_arch("32\n"), OSArchitecture::X32);
    assert_eq!(OSArchitecture::get_arch(""), OSArchitecture::Unknown);
    assert_eq!(OSArchitecture::get_arch("64").display(), "64-bit");
}
