use chalybs::config::{
    CpuConfig, CpuExtrasConfig, DevicesConfig, GpuPolicyConfig, IsolationPolicyConfig,
    LookingGlassConfig, PciDeviceConfig, PeripheralConfig, QemuConfig, SmbiosConfig, SpiceConfig,
    VmConfig,
};
use chalybs::error::ChalybsError;
use chalybs::qemu::host::{
    desktop_user_vars, detect_desktop_username, looking_glass_shm, lookup_group, lookup_user,
    shm_owner,
};
use chalybs::qemu::rootport::{build_pci_rootport_map, parse_rootport_slot};
use chalybs::qemu::{build_qemu_command_with, cpu_arg_from, preflight, qmp_path_for_vm};

fn qemu() -> QemuConfig {
    QemuConfig {
        binary: "/usr/bin/qemu-system-x86_64".to_string(),
        pre_args: None,
        args: "-nographic  -vga none".to_string(),
        post_args: Some("-S".to_string()),
        rtc: None,
        num_vcpus: 4,
        mem_mb: 8192,
        hugepages: true,
        ovmf_code: "/code.fd".to_string(),
        ovmf_vars: "/vars.fd".to_string(),
        smbios: None,
        cpu_model: None,
        cpu_extras: None,
        rombar_off: None,
        pci_rootport: None,
        legacy_primary_gpu: false,
    }
}

fn devs(bdfs: &[&str]) -> Option<Vec<PciDeviceConfig>> {
    if bdfs.is_empty() {
        None
    } else {
        Some(
            bdfs.iter()
                .map(|b| PciDeviceConfig { pci_address: b.to_string(), required: true, level: None })
                .collect(),
        )
    }
}

fn vm(gpu: &[&str], nvme: &[&str]) -> VmConfig {
    VmConfig {
        cpu: CpuConfig { host_cpus: "0-1".to_string(), vm_cpus: "2-5".to_string() },
        qemu: qemu(),
        numa: None,
        devices: DevicesConfig { gpu: devs(gpu), nvme: devs(nvme), nic: None, usb: None },
        gpu: GpuPolicyConfig { allow_single_gpu: false, force_use_igpu: false },
        isolation: IsolationPolicyConfig::default(),
        peripherals: None,
    }
}

fn strs(v: &[&str]) -> Vec<String> {
    v.iter().map(|s| s.to_string()).collect()
}

#[test]
fn qmp_path_is_per_vm() {
    assert_eq!(qmp_path_for_vm("win"), "/run/chalybs/win.qmp");
}

#[test]
fn cpu_arg_resolution() {
    let mut q = qemu();
    assert_eq!(cpu_arg_from(&q, Some("EPYC-v4".to_string())), "host");
    q.cpu_model = Some(" Auto ".to_string());
    assert_eq!(cpu_arg_from(&q, Some("EPYC-v4".to_string())), "EPYC-v4");
    assert_eq!(cpu_arg_from(&q, None), "host");
    q.cpu_model = Some("Skylake-Client".to_string());
    q.cpu_extras = Some(CpuExtrasConfig {
        abi: Some("ignored".to_string()),
        topo: Some(" topoext=on ".to_string()),
        hv_contexts: Some("".to_string()),
        vendor_id: Some("hv_vendor_id=abc".to_string()),
    });
    assert_eq!(cpu_arg_from(&q, None), "Skylake-Client,topoext=on,hv_vendor_id=abc");
    q.cpu_model = None;
    assert_eq!(cpu_arg_from(&q, None), "ignored,topoext=on,hv_vendor_id=abc");
}

#[test]
fn full_command_line() {
    let mut cfg = vm(&["0000:0b:00.0", "0000:0a:00.0"], &["0000:05:00.0"]);
    cfg.qemu.pre_args = Some("nice".to_string());
    cfg.qemu.legacy_primary_gpu = true;
    cfg.qemu.rombar_off = Some(strs(&["0000:05:00.0"]));
    cfg.qemu.pci_rootport = Some(vec![("0000:05:00.0".to_string(), "0x02".to_string())]);
    cfg.qemu.smbios = Some(SmbiosConfig {
        bios_vendor: Some("ACME".to_string()),
        bios_version: None,
        bios_date: Some("".to_string()),
        system_manufacturer: None,
        system_product_name: None,
        system_uuid: None,
        baseboard_manufacturer: None,
        baseboard_product: Some("B1".to_string()),
    });
    cfg.peripherals = Some(PeripheralConfig {
        tasmota: None,
        ddc: None,
        looking_glass: Some(LookingGlassConfig { shm_name: "/dev/shm/lg".to_string(), mem_mb: 64 }),
        spice: Some(SpiceConfig { enabled: true, port: 5900, addr: " 127.0.0.1 ".to_string() }),
    });
    let c = build_qemu_command_with("win", &cfg, "host".to_string(), true).unwrap();
    assert_eq!(c.binary, "/usr/bin/qemu-system-x86_64");
    assert_eq!(c.qmp_path, "/run/chalybs/win.qmp");
    let expected = strs(&[
        "nice",
        "-enable-kvm", "-cpu", "host", "-smp", "4", "-m", "8192",
        "-mem-prealloc", "-mem-path", "/dev/hugepages",
        "-machine", "q35,accel=kvm",
        "-drive", "if=pflash,format=raw,readonly=on,file=/code.fd",
        "-drive", "if=pflash,format=raw,file=/vars.fd",
        "-qmp", "unix:/run/chalybs/win.qmp,server,nowait",
        "-rtc", "base=localtime,driftfix=slew",
        "-smbios", "type=0,vendor=ACME",
        "-smbios", "type=2,product=B1",
        "-device", "vfio-pci,host=0000:0b:00.0,multifunction=on,x-vga=on,bus=pcie.0,addr=0x03",
        "-device", "vfio-pci,host=0000:0a:00.0,bus=pcie.0,addr=0x01",
        "-device", "vfio-pci,host=0000:05:00.0,rombar=0,bus=pcie.0,addr=0x02",
        "-object", "memory-backend-file,id=ivshmem,share=on,mem-path=/dev/shm/lg,size=64M",
        "-device", "ivshmem-plain,memdev=ivshmem,bus=pcie.0",
        "-device", "virtio-serial-pci,id=virtio-serial0,max_ports=16,bus=pcie.0,addr=0x10",
        "-chardev", "spicevmc,name=vdagent,id=vdagent",
        "-device", "virtserialport,nr=1,bus=virtio-serial0.0,chardev=vdagent,name=com.redhat.spice.0",
        "-spice", "port=5900,addr=127.0.0.1,disable-ticketing=on",
        "-nographic", "-vga", "none",
        "-S",
    ]);
    assert_eq!(c.args, expected);
}

#[test]
fn rtc_blank_means_no_flag() {
    let mut cfg = vm(&[], &[]);
    cfg.qemu.rtc = Some("   ".to_string());
    let c = build_qemu_command_with("a", &cfg, "host".to_string(), false).unwrap();
    assert!(!c.args.iter().any(|a| a == "-rtc"));
    assert!(!c.args.iter().any(|a| a == "-mem-prealloc"));
    cfg.qemu.rtc = Some(" base=utc ".to_string());
    let c = build_qemu_command_with("a", &cfg, "host".to_string(), false).unwrap();
    let i = c.args.iter().position(|a| a == "-rtc").unwrap();
    assert_eq!(c.args[i + 1], "base=utc");
}

#[test]
fn spice_misconfiguration_is_an_error() {
    let mut cfg = vm(&[], &[]);
    cfg.peripherals = Some(PeripheralConfig {
        tasmota: None,
        ddc: None,
        looking_glass: None,
        spice: Some(SpiceConfig { enabled: true, port: 0, addr: "x".to_string() }),
    });
    match build_qemu_command_with("a", &cfg, "host".to_string(), false) {
        Err(ChalybsError::Qemu(m)) => assert_eq!(
            m,
            "vm a: peripherals.spice.enabled = true but port=0; please set a valid SPICE TCP port"
        ),
        other => panic!("unexpected: {other:?}"),
    }
}

#[test]
fn rootport_slots_and_errors() {
    assert_eq!(parse_rootport_slot("v", "b", "0x1f").unwrap(), 0x1f);
    assert_eq!(parse_rootport_slot("v", "b", "0X0a").unwrap(), 0x0a);
    let msg = |addr: &str| match parse_rootport_slot("v", "0000:01:00.0", addr) {
        Err(ChalybsError::Config(m)) => m,
        other => panic!("unexpected: {other:?}"),
    };
    assert_eq!(
        msg("0x20"),
        "vm v: pci_rootport address '0x20' for device 0000:01:00.0 is out of range; valid slot range is 0x00-0x1f"
    );
    assert_eq!(
        msg("12"),
        "vm v: invalid pci_rootport address '12' for device 0000:01:00.0; expected '0xNN' with NN in 00-1f"
    );

    let cfg = vm(&["0000:02:00.0", "0000:01:00.0"], &["0000:00:1f.0"]);
    let map: Vec<(String, u8)> = build_pci_rootport_map("v", &cfg)
        .unwrap()
        .into_iter()
        .map(|(b, s)| (b.into_iter().collect(), s))
        .collect();
    assert_eq!(
        map,
        vec![
            ("0000:01:00.0".to_string(), 1),
            ("0000:02:00.0".to_string(), 2),
            ("0000:00:1f.0".to_string(), 3)
        ]
    );

    let mut bad = vm(&["0000:01:00.0"], &["0000:05:00.0"]);
    bad.qemu.pci_rootport = Some(vec![
        ("0000:01:00.0".to_string(), "0x04".to_string()),
        ("0000:05:00.0".to_string(), "0x04".to_string()),
    ]);
    match build_pci_rootport_map("v", &bad) {
        Err(ChalybsError::Config(m)) => {
            assert_eq!(m, "vm v: pci_rootport slot '0x04' is assigned to more than one device")
        }
        other => panic!("unexpected: {other:?}"),
    }
    bad.qemu.pci_rootport = Some(vec![("0000:09:00.0".to_string(), "0x04".to_string())]);
    match build_pci_rootport_map("v", &bad) {
        Err(ChalybsError::Config(m)) => assert_eq!(
            m,
            "vm v: pci_rootport override for device 0000:09:00.0 which is not configured under vm.v.devices"
        ),
        other => panic!("unexpected: {other:?}"),
    }
}

#[test]
fn preflight_checks_paths_in_order() {
    let q = qemu();
    assert!(preflight(&q, true, true, true).is_ok());
    match preflight(&q, false, false, false) {
        Err(ChalybsError::Qemu(m)) => assert_eq!(m, "QEMU binary not found: /usr/bin/qemu-system-x86_64"),
        other => panic!("unexpected: {other:?}"),
    }
    assert!(preflight(&q, true, false, true).is_err());
    assert!(preflight(&q, true, true, false).is_err());
}

#[test]
fn desktop_user_and_ids() {
    assert_eq!(desktop_user_vars(), vec!["SUDO_USER", "DOAS_USER", "USER", "LOGNAME"]);
    let vals = vec![None, Some(" root ".to_string()), Some(" alice ".to_string()), Some("bob".to_string())];
    assert_eq!(detect_desktop_username(&vals), Some("alice".to_string()));
    assert_eq!(detect_desktop_username(&vec![Some("root".to_string()), None]), None);

    let passwd = "# comment\nroot:x:0:0:root:/root:/bin/bash\nalice:x:1000:1001::/home/alice:/bin/zsh\n";
    assert_eq!(lookup_user(passwd, "alice"), Some((1000, 1001)));
    assert_eq!(lookup_user(passwd, "carol"), None);
    let group = "wheel:x:10:alice\nkvm:x:78:\n";
    assert_eq!(lookup_group(group, "kvm"), Some(78));
    assert_eq!(lookup_group(group, "video"), None);
    assert_eq!(shm_owner((1000, 1001), Some(78)), (1000, 78));
    assert_eq!(shm_owner((1000, 1001), None), (1000, 1001));
    let lg = Some(LookingGlassConfig { shm_name: "/dev/shm/looking-glass".to_string(), mem_mb: 32 });
    assert_eq!(looking_glass_shm(&lg), Some(("/dev/shm/looking-glass".to_string(), 32 << 20)));
    let zero = Some(LookingGlassConfig { shm_name: "x".to_string(), mem_mb: 0 });
    assert_eq!(looking_glass_shm(&zero), None);
}

#[test]
fn rootport_slots_distinct_and_in_range() {
    let mut cfg = vm(
        &["0000:0b:00.0", "0000:0b:00.1", "0000:0a:00.0"],
        &["0000:01:00.0", "0000:02:00.0", "0000:03:00.0"],
    );
    cfg.qemu.pci_rootport = Some(vec![
        ("0000:02:00.0".to_string(), "0x01".to_string()),
        ("0000:0b:00.1".to_string(), "0x00".to_string()),
    ]);
    let map = build_pci_rootport_map("v", &cfg).unwrap();
    assert_eq!(map.len(), 6);
    let mut slots: Vec<u8> = map.iter().map(|(_, s)| *s).collect();
    slots.sort();
    slots.dedup();
    assert_eq!(slots.len(), 6);
    assert!(slots.iter().all(|s| *s <= 0x1f));
    let slot_of = |b: &str| map.iter().find(|(x, _)| x.iter().collect::<String>() == b).unwrap().1;
    assert_eq!(slot_of("0000:02:00.0"), 1);
    assert_eq!(slot_of("0000:0b:00.1"), 0);
    assert_eq!(slot_of("0000:0a:00.0"), 2);
    assert_eq!(slot_of("0000:0b:00.0"), 3);
    assert_eq!(slot_of("0000:01:00.0"), 4);
    assert_eq!(slot_of("0000:03:00.0"), 5);
}

#[test]
fn rootport_runs_out_of_slots() {
    let many: Vec<String> = (0..32).map(|i| format!("0000:{:02x}:00.0", i + 1)).collect();
    let refs: Vec<&str> = many.iter().map(|s| s.as_str()).collect();
    let cfg = vm(&[], &refs);
    match build_pci_rootport_map("v", &cfg) {
        Err(ChalybsError::Config(m)) => assert_eq!(
            m,
            "vm v: more passthrough devices than available PCIe root-port slots (0x01-0x1f)"
        ),
        other => panic!("unexpected: {other:?}"),
    }
}
