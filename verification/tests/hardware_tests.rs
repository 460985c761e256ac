use omni::hardware::{
    cpu_info, dmi_value, extract_cpu_field, hardware_summary, pci_driver_path, pci_line, CpuInfo, GpuDevice,
    HardwareDetector, HardwareInfo, NetworkDevice, SystemInfo,
};

#[test]
fn pci_lines() {
    let line = "02:00.0 Ethernet controller [0200]: Intel Corporation 82574L Gigabit Network Connection [8086:10d3]";
    let (bus, vendor, model) = pci_line(line).unwrap();
    assert_eq!(bus, "02:00.0");
    assert_eq!(vendor, "Intel Corporation");
    assert_eq!(model, "82574L Gigabit Network Connection [8086:10d3]");
    assert!(pci_line("no separator here").is_none());
    let d = HardwareDetector::new();
    let dev = d.parse_network_device(line, Some("e1000e".to_string())).unwrap();
    assert_eq!(dev.driver_needed, Some("intel-ethernet".to_string()));
    let gpu = d.parse_gpu_device("01:00.0 VGA compatible controller [0300]: NVIDIA Corporation GA102 [10de:2204]", None).unwrap();
    assert_eq!(gpu.driver_needed, Some("nvidia-driver".to_string()));
    let st = d.parse_storage_device("03:00.0 RAID bus controller [0104]: Adaptec Series 8 [9005:028d]", None).unwrap();
    assert_eq!(st.vendor, "Adaptec");
    assert_eq!(st.driver_needed, Some("aacraid".to_string()));
}

#[test]
fn driver_paths_and_fields() {
    assert_eq!(pci_driver_path("02:00.0"), "/sys/bus/pci/devices/0000:02:00.0/driver");
    assert_eq!(pci_driver_path("0000:02:00.0"), "/sys/bus/pci/devices/0000:02:00.0/driver");
    let cpuinfo = "processor\t: 0\nvendor_id\t: GenuineIntel\nmodel name\t: Xeon\nprocessor\t: 1\n";
    assert_eq!(extract_cpu_field(cpuinfo, "vendor_id"), Some("GenuineIntel".to_string()));
    assert_eq!(extract_cpu_field(cpuinfo, "flags"), None);
    let cpu = cpu_info(cpuinfo, "x86_64");
    assert_eq!(cpu.cores, 2);
    assert_eq!(cpu.model, "Xeon");
    assert_eq!(dmi_value(Some(" Dell Inc.\n")), "Dell Inc.");
    assert_eq!(dmi_value(None), "unknown");
}

#[test]
fn recommended_drivers() {
    let hw = HardwareInfo {
        cpu: CpuInfo { vendor: "v".to_string(), model: "m".to_string(), architecture: "x86_64".to_string(), cores: 4 },
        network: vec![NetworkDevice {
            vendor: "Intel Corporation".to_string(),
            model: "X".to_string(),
            driver: None,
            driver_needed: Some("intel-ethernet".to_string()),
        }],
        storage: vec![],
        gpu: vec![GpuDevice { vendor: "NVIDIA".to_string(), model: "G".to_string(), driver: None, driver_needed: None }],
        system: SystemInfo { vendor: "Dell Inc.".to_string(), model: "R740".to_string(), bios_version: "1".to_string() },
    };
    let d = HardwareDetector::new();
    assert_eq!(
        d.get_recommended_drivers(&hw),
        vec!["intel-ethernet", "dell-smbios", "dcdbas", "firmware-misc-nonfree", "linux-firmware", "microcode"]
    );
    let summary = hardware_summary(&hw);
    assert!(summary.contains("⚙️  CPU: v m (4 cores)\n"));
    assert!(summary.contains("   • Intel Corporation X\n"));
}

#[test]
fn gpu_vendors_are_matched_as_words() {
    let d = HardwareDetector::new();
    let intel = d
        .parse_gpu_device("00:02.0 VGA compatible controller [0300]: Intel Corporation UHD Graphics 620 [8086:5917]", None)
        .unwrap();
    assert_eq!(intel.vendor, "Intel Corporation");
    assert_eq!(intel.model, "UHD Graphics 620 [8086:5917]");
    assert_eq!(intel.driver_needed, None);
    let amd = d.parse_gpu_device("03:00.0 VGA compatible controller [0300]: AMD Navi 21 [1002:73bf]", None).unwrap();
    assert_eq!(amd.driver_needed, Some("amdgpu".to_string()));
    let ati = d.parse_gpu_device("01:00.0 VGA compatible controller [0300]: ATI Technologies Rage [1002:4752]", None).unwrap();
    assert_eq!(ati.vendor, "ATI");
    assert_eq!(ati.driver_needed, Some("amdgpu".to_string()));
}
