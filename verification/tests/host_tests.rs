use chalybs::affinity::{all_vcpus_present, discover_vcpus, parse_vcpu_name, plan_vcpu_pins, vcpu_wait_timeout, VcpuPin};
use chalybs::config::{
    CpuConfig, DevicesConfig, GpuPolicyConfig, IsolationPolicyConfig, NumaConfig, QemuConfig, VmConfig,
};
use chalybs::cpuset::{cpuset_status, CpusetFiles};
use chalybs::error::ChalybsError;
use chalybs::hugepages::{
    cleanup_steps, gib_string, is_hugetlbfs_mounted, node_hugepages_dir, parse_counter,
    required_pages, select_hugepage_node, CleanupIo, HugepageIo, HugepageStage, ProvisionStep,
    Provisioner,
};
use chalybs::logging::{log_format_from, LogFormat};

fn vm(host: &str, numa: Option<NumaConfig>) -> VmConfig {
    VmConfig {
        cpu: CpuConfig { host_cpus: host.to_string(), vm_cpus: "2-3".to_string() },
        qemu: QemuConfig {
            binary: "q".to_string(),
            pre_args: None,
            args: String::new(),
            post_args: None,
            rtc: None,
            num_vcpus: 2,
            mem_mb: 1024,
            hugepages: true,
            ovmf_code: "c".to_string(),
            ovmf_vars: "v".to_string(),
            smbios: None,
            cpu_model: None,
            cpu_extras: None,
            rombar_off: None,
            pci_rootport: None,
            legacy_primary_gpu: false,
        },
        numa,
        devices: DevicesConfig { gpu: None, nvme: None, nic: None, usb: None },
        gpu: GpuPolicyConfig { allow_single_gpu: false, force_use_igpu: false },
        isolation: IsolationPolicyConfig::default(),
        peripherals: None,
    }
}

fn entries(v: &[(&str, Option<&str>)]) -> Vec<(String, Option<String>)> {
    v.iter().map(|(n, c)| (n.to_string(), c.map(|s| s.to_string()))).collect()
}

#[test]
fn hugepage_arithmetic() {
    assert_eq!(required_pages(1024), 512);
    assert_eq!(required_pages(1), 1);
    assert_eq!(required_pages(0), 0);
    assert_eq!(gib_string(512), "1.0");
    assert_eq!(gib_string(4096), "8.0");
    assert_eq!(gib_string(51), format!("{:.1}", 51.0f64 / 512.0));
    assert_eq!(gib_string(1), format!("{:.1}", 1.0f64 / 512.0));
    // An exact tie rounds to even.
    assert_eq!(gib_string(640), format!("{:.1}", 640.0f64 / 512.0));
    assert_eq!(gib_string(640), "1.2");
    assert_eq!(node_hugepages_dir(1), "/sys/devices/system/node/node1/hugepages/hugepages-2048kB");
}

#[test]
fn counters_and_mounts() {
    assert_eq!(parse_counter(" 42\n", "free_hugepages", "/p").unwrap(), 42);
    match parse_counter("x", "nr_hugepages", "/p") {
        Err(ChalybsError::Other(m)) => assert!(m.starts_with("hugepages: failed to parse nr_hugepages from /p: ")),
        other => panic!("unexpected: {other:?}"),
    }
    assert!(is_hugetlbfs_mounted("proc /proc proc rw 0 0\nhugetlbfs /dev/hugepages hugetlbfs rw 0 0\n"));
    assert!(!is_hugetlbfs_mounted("proc /proc proc rw 0 0\n/dev/hugepages /mnt x rw 0 0\n"));
}

#[test]
fn hugepage_node_selection() {
    let cfg = vm("0-3", Some(NumaConfig { node: Some(1), hugepage_node: Some(2) }));
    assert_eq!(select_hugepage_node(&cfg, &vec![]).unwrap(), 2);
    let cfg = vm("0-3", Some(NumaConfig { node: Some(1), hugepage_node: None }));
    assert_eq!(select_hugepage_node(&cfg, &vec![]).unwrap(), 1);
    let cfg = vm("2-5", None);
    let ents = entries(&[
        ("possible", Some("0-7")),
        ("node0", Some("0-2")),
        ("node1", Some("3-7")),
        ("node2", None),
    ]);
    assert_eq!(select_hugepage_node(&cfg, &ents).unwrap(), 1);
    let tie = entries(&[("node1", Some("2-3")), ("node0", Some("4-5"))]);
    assert_eq!(select_hugepage_node(&cfg, &tie).unwrap(), 1);
    match select_hugepage_node(&cfg, &entries(&[("node0", Some("8-9"))])) {
        Err(ChalybsError::Other(m)) => assert_eq!(
            m,
            "hugepages: failed to determine NUMA node (no overlap between host CPUs and NUMA nodes)"
        ),
        other => panic!("unexpected: {other:?}"),
    }
    assert!(select_hugepage_node(&vm("a-b", None), &vec![]).is_err());
}

#[test]
fn provisioner_enough_pages_at_once() {
    let (mut p, io) = Provisioner::start(0, 512);
    assert_eq!(io, HugepageIo::ReadCounters);
    match p.on_counters("win", 1024, 600) {
        ProvisionStep::Done(m) => assert_eq!(
            m,
            "hugepages: using existing 512 x 2MiB pages (1.0 GiB) on NUMA node 0 for VM win"
        ),
        other => panic!("unexpected: {other:?}"),
    }
}

#[test]
fn provisioner_raises_pool_then_succeeds() {
    let (mut p, _) = Provisioner::start(1, 512);
    assert!(matches!(p.on_counters("win", 0, 0), ProvisionStep::Io(HugepageIo::DropCachesAndCompact)));
    assert_eq!(p.stage, HugepageStage::AfterCompaction);
    assert!(matches!(p.on_counters("win", 10, 10), ProvisionStep::Io(HugepageIo::WriteNr(512))));
    match p.on_counters("win", 512, 512) {
        ProvisionStep::Done(m) => assert!(m.ends_with("for VM win after 1 attempt(s)")),
        other => panic!("unexpected: {other:?}"),
    }
}

#[test]
fn provisioner_gives_up_after_three_rounds() {
    let (mut p, _) = Provisioner::start(0, 100);
    let mut rounds = 0;
    loop {
        match p.on_counters("v", 5, 5) {
            ProvisionStep::Io(HugepageIo::DropCachesAndCompact) => rounds += 1,
            ProvisionStep::Io(_) => {}
            ProvisionStep::Failed(ChalybsError::Other(m)) => {
                assert_eq!(
                    m,
                    "hugepages: insufficient 2MiB hugepages on NUMA node 0 after compaction/raise attempts: \
                     required 100, nr_hugepages=5, free_hugepages=5. Consider increasing large-page capacity \
                     or reducing VM RAM."
                );
                break;
            }
            other => panic!("unexpected: {other:?}"),
        }
    }
    assert_eq!(rounds, 3);
}

#[test]
fn cleanup_step_order() {
    assert!(cleanup_steps(false, Some(0)).is_empty());
    assert_eq!(
        cleanup_steps(true, Some(1)),
        vec![
            CleanupIo::ResetNode(1),
            CleanupIo::ResetGlobal,
            CleanupIo::DropCachesAndCompact,
            CleanupIo::UnmountIfManaged
        ]
    );
    assert_eq!(cleanup_steps(true, None).len(), 3);
}

#[test]
fn cpuset_status_text() {
    let vm_dir = Some(CpusetFiles { cpus: Some(" 2-5\n".to_string()), mems: None });
    assert_eq!(
        cpuset_status("win", &vm_dir, &None),
        "VM: win\n=== cpuset status ===\nvm:\n  path: /sys/fs/cgroup/vfio_vm\n  cpus: 2-5\n  mems: <empty>\n\
         host:\n  <cpuset /sys/fs/cgroup/vfio_host not present>\n"
    );
}

#[test]
fn vcpu_thread_names() {
    assert_eq!(parse_vcpu_name("CPU 3/KVM"), Some(3));
    assert_eq!(parse_vcpu_name("CPU 12"), Some(12));
    assert_eq!(parse_vcpu_name("CPU x/KVM"), None);
    assert_eq!(parse_vcpu_name("qemu-system-x86"), None);
    assert_eq!(parse_vcpu_name("CPU 99999999999/KVM"), None);
    let tasks = vec![
        (100, "qemu-system-x86".to_string()),
        (101, "CPU 1/KVM".to_string()),
        (102, "CPU 0/KVM".to_string()),
    ];
    let threads = discover_vcpus(&tasks);
    assert_eq!(threads, vec![(101, 1), (102, 0)]);
    assert!(all_vcpus_present(&threads, 2));
    assert!(!all_vcpus_present(&threads, 3));
    match vcpu_wait_timeout(4, -1) {
        ChalybsError::Affinity(m) => {
            assert_eq!(m, "timed out waiting for 4 vCPU threads for QEMU pid -1 via procfs")
        }
        other => panic!("unexpected: {other:?}"),
    }
}

#[test]
fn vcpu_pin_plan() {
    let threads = vec![(101, 1), (102, 0), (103, 1)];
    let pins = plan_vcpu_pins(&threads, &vec![6, 7], 2).unwrap();
    assert_eq!(
        pins,
        vec![VcpuPin { tid: 102, vcpu: 0, cpu: 6 }, VcpuPin { tid: 103, vcpu: 1, cpu: 7 }]
    );
    match plan_vcpu_pins(&threads, &vec![6], 2) {
        Err(ChalybsError::Affinity(m)) => assert_eq!(m, "vm_cpus length 1 < expected num_vcpus 2"),
        other => panic!("unexpected: {other:?}"),
    }
    match plan_vcpu_pins(&vec![(101, 1)], &vec![6, 7, 8], 3) {
        Err(ChalybsError::Affinity(m)) => assert_eq!(m, "missing vCPU threads for indices: [0, 2]"),
        other => panic!("unexpected: {other:?}"),
    }
}

#[test]
fn log_format_names() {
    assert_eq!(log_format_from("json"), LogFormat::Json);
    assert_eq!(log_format_from("pretty"), LogFormat::Pretty);
    assert_eq!(log_format_from("JSON"), LogFormat::Pretty);
}
