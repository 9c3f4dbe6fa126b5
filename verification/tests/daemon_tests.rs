use chalybs::config::{
    CpuConfig, DevicesConfig, GpuPolicyConfig, IsolationMode, IsolationPolicyConfig,
    PciDeviceConfig, PeripheralConfig, QemuConfig, RootConfig, TasmotaConfig, VmConfig,
};
use chalybs::daemon::introspect::{debug_string, introspect_vm_config_only, introspect_vm_devices};
use chalybs::daemon::ipc::{
    IpcEvent, IpcEventKind, IpcVmCpuLayout, IpcVmCpuSample, IpcVmEvents, IpcVmHugepages,
    IpcVmState, IpcVmStatus,
};
use chalybs::daemon::shell::{handle_shell_command, DaemonVmView, ShellEffect};
use chalybs::daemon::snapshot::{vm_total_jiffies, vm_vcpu_jiffies, DaemonSnapshot};
use chalybs::daemon::status::{
    cpu_sample_from_pairs, daemon_vm_layout, drive_action, heartbeat_event, map_vm_state_to_ipc,
    new_vm_events, vm_status, DriveAction, RuntimeView,
};
use chalybs::model::{CoreEvent, CoreEventKind};
use chalybs::pci::{PciFunction, PciInventory};
use chalybs::state::VmState;

fn qemu() -> QemuConfig {
    QemuConfig {
        binary: "/usr/bin/qemu-system-x86_64".to_string(),
        pre_args: None,
        args: "".to_string(),
        post_args: None,
        rtc: None,
        num_vcpus: 2,
        mem_mb: 2048,
        hugepages: true,
        ovmf_code: "/code.fd".to_string(),
        ovmf_vars: "/vars.fd".to_string(),
        smbios: None,
        cpu_model: None,
        cpu_extras: None,
        rombar_off: None,
        pci_rootport: None,
        legacy_primary_gpu: false,
    }
}

fn vm(host: &str, guest: &str) -> VmConfig {
    let mut isolation = IsolationPolicyConfig::default();
    isolation.mode = IsolationMode::Audit;
    VmConfig {
        cpu: CpuConfig { host_cpus: host.to_string(), vm_cpus: guest.to_string() },
        qemu: qemu(),
        numa: None,
        devices: DevicesConfig {
            gpu: Some(vec![PciDeviceConfig {
                pci_address: "0000:01:00.0".to_string(),
                required: true,
                level: None,
            }]),
            nvme: Some(vec![PciDeviceConfig {
                pci_address: "0000:05:00.0".to_string(),
                required: false,
                level: None,
            }]),
            nic: None,
            usb: None,
        },
        gpu: GpuPolicyConfig { allow_single_gpu: false, force_use_igpu: false },
        isolation,
        peripherals: None,
    }
}

fn root() -> Option<RootConfig> {
    Some(RootConfig {
        vm: vec![
            ("win".to_string(), vm("0-1", "2-5")),
            ("arch".to_string(), vm("0", "1-2")),
            ("broken".to_string(), vm("0-x", "1")),
        ],
        logging: None,
    })
}

fn reply_texts(command: &str, vms: &Vec<DaemonVmView>) -> (Vec<(IpcEventKind, String)>, ShellEffect) {
    let r = handle_shell_command(&root(), vms, command);
    (r.events.into_iter().map(|e| (e.kind, e.message)).collect(), r.effect)
}

#[test]
fn shell_help_and_unknown() {
    let (ev, eff) = reply_texts("  help ", &vec![]);
    assert_eq!(ev.len(), 2);
    assert!(ev[0].1.starts_with("available commands: help | vm list"));
    assert!(matches!(eff, ShellEffect::Nothing));
    let (ev, _) = reply_texts("frobnicate now", &vec![]);
    assert_eq!(ev, vec![(IpcEventKind::Error, "daemon: unknown command `frobnicate` (try `help`)".to_string())]);
    let (ev, _) = reply_texts("   ", &vec![]);
    assert!(ev.is_empty());
}

#[test]
fn shell_vm_list_is_sorted() {
    let (ev, _) = reply_texts("vm list", &vec![]);
    assert_eq!(ev, vec![(IpcEventKind::Info, "daemon: configured VMs: arch, broken, win".to_string())]);
}

#[test]
fn shell_vm_status_lines() {
    let vms = vec![DaemonVmView {
        name: "win".to_string(),
        state: VmState::Steady,
        desired: IpcVmState::Running,
    }];
    let (ev, _) = reply_texts("vm status win", &vms);
    assert_eq!(
        ev,
        vec![
            (
                IpcEventKind::Info,
                "vm win: state=Running, desired=Running, isolation=audit, hugepages=true".to_string()
            ),
            (IpcEventKind::Info, "vm win: devices gpu=1, nvme=1, nic=0, usb=0".to_string()),
        ]
    );
    let (ev, _) = reply_texts("vm status ghost", &vms);
    assert_eq!(ev, vec![(IpcEventKind::Error, "vm ghost: not found in configuration".to_string())]);
}

#[test]
fn shell_vm_start_and_stop_effects() {
    let (ev, eff) = reply_texts("vm start arch", &vec![]);
    assert_eq!(
        ev,
        vec![(IpcEventKind::System, "vm arch: `start` requested; desired state set to Starting".to_string())]
    );
    match eff {
        ShellEffect::Start { name, fresh: Some(l) } => {
            assert_eq!(name, "arch");
            assert_eq!(l.host.cpus, vec![0]);
            assert_eq!(l.vm.cpus, vec![1, 2]);
        }
        other => panic!("unexpected: {other:?}"),
    }
    let running = vec![DaemonVmView {
        name: "arch".to_string(),
        state: VmState::Steady,
        desired: IpcVmState::Running,
    }];
    let (_, eff) = reply_texts("vm restart arch", &running);
    assert!(matches!(eff, ShellEffect::Start { fresh: None, .. }));
    let (ev, eff) = reply_texts("vm start broken", &vec![]);
    assert_eq!(ev[0].0, IpcEventKind::Error);
    assert!(ev[0].1.starts_with("vm broken: failed to parse host_cpus=\"0-x\" for runtime construction: "));
    assert!(matches!(eff, ShellEffect::Nothing));
    let (ev, eff) = reply_texts("vm stop arch", &running);
    assert_eq!(
        ev,
        vec![(IpcEventKind::System, "vm arch: `stop` requested; desired state set to ShuttingDown".to_string())]
    );
    assert!(matches!(eff, ShellEffect::Stop { name } if name == "arch"));
    let (ev, eff) = reply_texts("vm stop win", &running);
    assert_eq!(ev[0].0, IpcEventKind::Info);
    assert!(matches!(eff, ShellEffect::Nothing));
    let (ev, _) = reply_texts("vm reboot win", &running);
    assert_eq!(
        ev,
        vec![(
            IpcEventKind::Error,
            "daemon: unknown vm subcommand `reboot` (expected list|status|start|stop|restart)".to_string()
        )]
    );
    let r = handle_shell_command(&None, &vec![], "vm list");
    assert_eq!(r.events[0].message, "daemon: no config loaded; vm commands are unavailable");
}

#[test]
fn drive_actions_follow_desire() {
    assert_eq!(drive_action(IpcVmState::Starting, VmState::Init), DriveAction::BringUpStep);
    assert_eq!(drive_action(IpcVmState::Starting, VmState::Steady), DriveAction::MarkRunning);
    assert_eq!(drive_action(IpcVmState::Running, VmState::Idle), DriveAction::Wait);
    assert_eq!(drive_action(IpcVmState::ShuttingDown, VmState::Steady), DriveAction::ShutdownStep);
    assert_eq!(drive_action(IpcVmState::Stopped, VmState::Idle), DriveAction::Wait);
    assert_eq!(map_vm_state_to_ipc(VmState::Cleanup), IpcVmState::ShuttingDown);
    assert_eq!(map_vm_state_to_ipc(VmState::PinVcpus), IpcVmState::Starting);
}

#[test]
fn status_without_and_with_runtime() {
    let mut cfg = vm("0-1", "2-3");
    let s = vm_status(&"win".to_string(), &cfg, None);
    assert_eq!(s.state, IpcVmState::Stopped);
    assert_eq!(s.cpu_layout.host, vec![0, 1]);
    assert_eq!(s.isolation_mode, "audit");
    assert!(s.hugepages);
    cfg.peripherals = Some(PeripheralConfig {
        tasmota: Some(TasmotaConfig {
            mqtt_host: "b:1".to_string(),
            username: None,
            password: None,
            device_id: "d".to_string(),
        }),
        ddc: None,
        looking_glass: None,
        spice: None,
    });
    let hp = IpcVmHugepages { active: true, node: Some(0), pages: 8, bytes: 8 << 30 };
    let rt = RuntimeView {
        state: VmState::Steady,
        pinned_threads: true,
        pinned_irqs: false,
        tasmota_powered: true,
        hugepages: hp,
        cpu_sample: Some(IpcVmCpuSample { vcpu_indices: vec![0], vcpu_jiffies: vec![7] }),
    };
    let s = vm_status(&"win".to_string(), &cfg, Some(rt.clone()));
    assert_eq!(s.state, IpcVmState::Running);
    assert!(s.cpu_pinned && !s.irq_pinned && s.tasmota_on);
    assert_eq!(s.hugepages_detail, hp);
    assert!(s.cpu_sample.is_some());
    let mut idle = rt;
    idle.state = VmState::Idle;
    let s = vm_status(&"win".to_string(), &cfg, Some(idle));
    assert!(!s.cpu_pinned && !s.tasmota_on && s.cpu_sample.is_none());
}

#[test]
fn heartbeat_every_forty_ticks() {
    assert!(heartbeat_event(39).is_none());
    let e = heartbeat_event(80).unwrap();
    assert_eq!(e.message, "daemon heartbeat: tick=80");
    assert_eq!(e.kind, IpcEventKind::Info);
}

#[test]
fn new_vm_events_advance_cursor() {
    let evs = vec![
        CoreEvent { kind: CoreEventKind::System, message: "a".to_string() },
        CoreEvent { kind: CoreEventKind::Warning, message: "b".to_string() },
    ];
    let (batch, cur) = new_vm_events(&"win".to_string(), &evs, 1);
    assert_eq!(cur, 2);
    let batch = batch.unwrap();
    assert_eq!(batch.vm_name, "win");
    assert_eq!(batch.events.len(), 1);
    assert_eq!(batch.events[0].kind, IpcEventKind::Warning);
    let (batch, cur) = new_vm_events(&"win".to_string(), &evs, 2);
    assert!(batch.is_none());
    assert_eq!(cur, 2);
}

#[test]
fn daemon_layout_errors_name_the_field() {
    let l = daemon_vm_layout("win", &vm("0-1", "4,6")).unwrap();
    assert_eq!(l.vm.cpus, vec![4, 6]);
    let e = daemon_vm_layout("win", &vm("0", "z")).unwrap_err();
    assert!(e.starts_with("vm win: failed to parse vm_cpus=\"z\" for runtime construction: configuration error: "));
}

#[test]
fn cpu_sample_sorted_stably_by_index() {
    assert!(cpu_sample_from_pairs(&vec![]).is_none());
    let s = cpu_sample_from_pairs(&vec![(2, 20), (0, 5), (2, 21), (1, 9)]).unwrap();
    assert_eq!(s.vcpu_indices, vec![0, 1, 2, 2]);
    assert_eq!(s.vcpu_jiffies, vec![5, 9, 20, 21]);
}

fn status(name: &str, sample: Option<IpcVmCpuSample>) -> IpcVmStatus {
    IpcVmStatus {
        name: name.to_string(),
        state: IpcVmState::Running,
        cpu_pinned: true,
        irq_pinned: true,
        tasmota_on: false,
        isolation_mode: "disabled".to_string(),
        hugepages: false,
        cpu_layout: IpcVmCpuLayout { host: vec![0], vm: vec![1, 2] },
        hugepages_detail: IpcVmHugepages { active: false, node: None, pages: 0, bytes: 0 },
        cpu_sample: sample,
    }
}

#[test]
fn snapshot_lookups() {
    let vms = vec![status("a", None), status("b", None), status("a", None)];
    let global = vec![IpcEvent { kind: IpcEventKind::Info, message: "g".to_string() }];
    let per_vm = vec![IpcVmEvents {
        vm_name: "b".to_string(),
        events: vec![IpcEvent { kind: IpcEventKind::Error, message: "x".to_string() }],
    }];
    let snap = DaemonSnapshot::new(&vms, &global, &per_vm);
    assert_eq!(snap.vms().len(), 3);
    assert!(std::ptr::eq(snap.vm_by_name("a").unwrap(), &vms[0]));
    assert!(snap.vm_by_name("zz").is_none());
    assert_eq!(snap.events_for_vm("b").len(), 1);
    assert!(snap.events_for_vm("a").is_empty());
    assert_eq!(snap.events_global()[0].message, "g");
    assert_eq!(snap.iter_vms().count(), 3);
}

#[test]
fn jiffies_pair_up_and_saturate() {
    let s = status(
        "a",
        Some(IpcVmCpuSample { vcpu_indices: vec![0, 1, 2], vcpu_jiffies: vec![u64::MAX, 5] }),
    );
    assert_eq!(vm_vcpu_jiffies(&s).unwrap(), vec![(0, u64::MAX), (1, 5)]);
    assert_eq!(vm_total_jiffies(&s), Some(u64::MAX));
    let s = status("a", Some(IpcVmCpuSample { vcpu_indices: vec![3, 4], vcpu_jiffies: vec![10, 32] }));
    assert_eq!(vm_total_jiffies(&s), Some(42));
    assert_eq!(vm_total_jiffies(&status("a", None)), None);
    for s in [
        status("a", Some(IpcVmCpuSample { vcpu_indices: vec![0, 1], vcpu_jiffies: vec![u64::MAX, 5] })),
        status("b", Some(IpcVmCpuSample { vcpu_indices: vec![0, 1, 2], vcpu_jiffies: vec![7, 8] })),
        status("c", None),
    ] {
        let folded = vm_vcpu_jiffies(&s).map(|v| v.iter().fold(0u64, |a, &(_, j)| a.saturating_add(j)));
        assert_eq!(vm_total_jiffies(&s), folded);
    }
}

#[test]
fn introspection_events() {
    let ev = introspect_vm_config_only("win", &vm("0-1", "2-5"));
    let texts: Vec<String> = ev.iter().map(|e| e.message.clone()).collect();
    assert_eq!(
        texts,
        vec![
            "vm win: parsed vm_cpus=\"2-5\" (4 vCPUs)".to_string(),
            "vm win: parsed host_cpus=\"0-1\" (2 host CPUs)".to_string(),
            "vm win: isolation mode=audit, default_level=Dedicated".to_string(),
        ]
    );
    let inv = PciInventory {
        functions: vec![PciFunction {
            bdf: "0000:01:00.0".to_string(),
            vendor_id: 0x10de,
            device_id: 0x2204,
            class: 0x020000,
            driver: Some("vfio-pci".to_string()),
            iommu_group: Some(1),
            numa_node: None,
        }],
    };
    let mut out = Vec::new();
    introspect_vm_devices("win", &vm("0", "1"), &inv, &mut out);
    let got: Vec<(IpcEventKind, String)> = out.into_iter().map(|e| (e.kind, e.message)).collect();
    assert_eq!(
        got,
        vec![
            (
                IpcEventKind::Warning,
                "vm win: GPU device 0000:01:00.0 present, wrong PCI class (expected Gpu)".to_string()
            ),
            (
                IpcEventKind::Warning,
                "vm win: optional NVMe device 0000:05:00.0 not found in PCI inventory".to_string()
            ),
        ]
    );
}

#[test]
fn debug_string_escapes_like_debug() {
    assert_eq!(debug_string("a\"b\\c\n"), format!("{:?}", "a\"b\\c\n"));
    assert_eq!(debug_string("\u{1}"), format!("{:?}", "\u{1}"));
    assert_eq!(debug_string("plain"), "\"plain\"");
}
