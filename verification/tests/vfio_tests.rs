use chalybs::config::{
    CpuConfig, DevicesConfig, GpuPolicyConfig, IsolationMode, IsolationPolicyConfig, NumaConfig,
    PciDeviceConfig, QemuConfig, VmConfig,
};
use chalybs::pci::{PciFunction, PciInventory};
use chalybs::vfio::execute::{execute_plan, SysfsStep};
use chalybs::vfio::isolation::{
    evaluate_host_critical_sharing, evaluate_iommu_exclusivity, evaluate_isolation_for_vm,
    evaluate_multifunction_consistency, parse_slot_key, IsolationSeverity,
};
use chalybs::vfio::plan::{build_plan_for_vm, VfioActionKind};
use chalybs::vfio::verify::verify_with_inventory;

fn qemu() -> QemuConfig {
    QemuConfig {
        binary: "/usr/bin/qemu-system-x86_64".to_string(),
        pre_args: None,
        args: "".to_string(),
        post_args: None,
        rtc: None,
        num_vcpus: 2,
        mem_mb: 2048,
        hugepages: false,
        ovmf_code: "/usr/share/OVMF/OVMF_CODE.fd".to_string(),
        ovmf_vars: "/var/lib/libvirt/qemu/nvram/test_VARS.fd".to_string(),
        smbios: None,
        cpu_model: None,
        cpu_extras: None,
        rombar_off: None,
        pci_rootport: None,
        legacy_primary_gpu: false,
    }
}

fn mk_list(bdfs: &[&str]) -> Option<Vec<PciDeviceConfig>> {
    if bdfs.is_empty() {
        None
    } else {
        Some(
            bdfs.iter()
                .map(|b| PciDeviceConfig { pci_address: b.to_string(), required: true, level: None })
                .collect(),
        )
    }
}

fn vm(gpu: &[&str], nvme: &[&str], nic: &[&str], usb: &[&str], mode: IsolationMode) -> VmConfig {
    let mut isolation = IsolationPolicyConfig::default();
    isolation.mode = mode;
    VmConfig {
        cpu: CpuConfig { host_cpus: "0-3".to_string(), vm_cpus: "0-1".to_string() },
        qemu: qemu(),
        numa: Some(NumaConfig { node: None, hugepage_node: None }),
        devices: DevicesConfig {
            gpu: mk_list(gpu),
            nvme: mk_list(nvme),
            nic: mk_list(nic),
            usb: mk_list(usb),
        },
        gpu: GpuPolicyConfig { allow_single_gpu: false, force_use_igpu: false },
        isolation,
        peripherals: None,
    }
}

fn make_gpu(bdf: &str, driver: Option<&str>, iommu_group: Option<u32>) -> PciFunction {
    PciFunction {
        bdf: bdf.to_string(),
        vendor_id: 0x1234,
        device_id: 0x5678,
        class: 0x030000,
        driver: driver.map(|d| d.to_string()),
        iommu_group,
        numa_node: Some(0),
    }
}

fn make_generic(bdf: &str, class: u32, driver: Option<&str>, iommu_group: Option<u32>) -> PciFunction {
    PciFunction {
        bdf: bdf.to_string(),
        vendor_id: 0x1111,
        device_id: 0x2222,
        class,
        driver: driver.map(|d| d.to_string()),
        iommu_group,
        numa_node: Some(0),
    }
}

#[test]
fn parse_slot_key_parses_valid_bdf() {
    let key = parse_slot_key("0000:01:23.4").unwrap();
    assert_eq!(key, (0x0000, 0x01, 0x23));
}

#[test]
fn parse_slot_key_rejects_invalid_bdf() {
    assert!(parse_slot_key("not-a-bdf").is_none());
    assert!(parse_slot_key("0000:01:23").is_none());
    assert!(parse_slot_key("0000:01:23.").is_none());
    assert!(parse_slot_key("00:01:23.1").is_none());
}

#[test]
fn iommu_exclusivity_flags_mixed_group() {
    let pt = make_generic("0000:01:00.0", 0x020000, Some("e1000e"), Some(10));
    let host = make_generic("0000:01:00.1", 0x020000, Some("e1000e"), Some(10));
    let inv = PciInventory { functions: vec![pt.clone(), host.clone()] };
    let mut findings = Vec::new();
    let passthrough_bdfs: Vec<String> = vec![pt.bdf.clone()];
    evaluate_iommu_exclusivity("testvm", &inv, &passthrough_bdfs, &mut findings);
    assert!(findings
        .iter()
        .any(|f| f.code == "IOMMU_GROUP_NOT_EXCLUSIVE" && f.severity == IsolationSeverity::Violation));
}

#[test]
fn iommu_exclusivity_flags_cross_slot_shared_group() {
    let pt = make_generic("0000:01:00.0", 0x010802, Some("nvme"), Some(42));
    let host = make_generic("0000:02:00.0", 0x020000, Some("e1000e"), Some(42));
    let inv = PciInventory { functions: vec![pt.clone(), host.clone()] };
    let mut findings = Vec::new();
    let passthrough_bdfs: Vec<String> = vec![pt.bdf.clone()];
    evaluate_iommu_exclusivity("testvm", &inv, &passthrough_bdfs, &mut findings);
    assert!(
        findings
            .iter()
            .any(|f| f.code == "IOMMU_GROUP_NOT_EXCLUSIVE" && f.severity == IsolationSeverity::Violation),
        "expected cross-slot exclusivity violation, got: {findings:?}"
    );
}

#[test]
fn multifunction_consistency_flags_mixed_functions() {
    let pt = make_generic("0000:01:00.0", 0x020000, Some("e1000e"), Some(5));
    let host = make_generic("0000:01:00.1", 0x020000, Some("e1000e"), Some(5));
    let inv = PciInventory { functions: vec![pt.clone(), host.clone()] };
    let mut findings = Vec::new();
    let passthrough_bdfs: Vec<String> = vec![pt.bdf.clone()];
    evaluate_multifunction_consistency("testvm", &inv, &passthrough_bdfs, &mut findings);
    assert!(findings.iter().any(|f| f.code == "MULTIFUNCTION_MIXED_OWNERSHIP"
        && f.severity == IsolationSeverity::Violation));
}

#[test]
fn host_critical_sharing_flags_group_with_host_gpu() {
    let nic = make_generic("0000:01:00.0", 0x020000, Some("e1000e"), Some(7));
    let host_gpu = make_gpu("0000:01:00.1", Some("amdgpu"), Some(7));
    let inv = PciInventory { functions: vec![nic.clone(), host_gpu.clone()] };
    let mut findings = Vec::new();
    let passthrough_bdfs: Vec<String> = vec![nic.bdf.clone()];
    evaluate_host_critical_sharing("testvm", &inv, &passthrough_bdfs, &mut findings);
    assert!(findings.iter().any(|f| f.code == "HOST_CRITICAL_GPU_SHARED_GROUP"
        && f.severity == IsolationSeverity::Violation));
}

#[test]
fn host_critical_sharing_flags_group_with_passthrough_gpu_and_host_gpu() {
    let pt_gpu = make_gpu("0000:03:00.0", Some("vfio-pci"), Some(9));
    let host_gpu = make_gpu("0000:03:00.1", Some("amdgpu"), Some(9));
    let inv = PciInventory { functions: vec![pt_gpu.clone(), host_gpu.clone()] };
    let mut findings = Vec::new();
    let passthrough_bdfs: Vec<String> = vec![pt_gpu.bdf.clone()];
    evaluate_host_critical_sharing("testvm", &inv, &passthrough_bdfs, &mut findings);
    assert!(
        findings.iter().any(|f| f.code == "HOST_CRITICAL_GPU_SHARED_GROUP"
            && f.severity == IsolationSeverity::Violation),
        "expected host-critical GPU sharing violation, got: {findings:?}"
    );
}

#[test]
fn evaluate_isolation_disabled_is_noop_even_with_issues() {
    let gpu_bdf = "0000:02:00.0";
    let cfg = vm(&[gpu_bdf], &[], &[], &[], IsolationMode::Disabled);
    let pt_gpu = make_gpu(gpu_bdf, Some("vfio-pci"), Some(3));
    let host_dev = make_generic("0000:02:00.1", 0x020000, Some("e1000e"), Some(3));
    let inv = PciInventory { functions: vec![pt_gpu, host_dev] };
    evaluate_isolation_for_vm("testvm", &cfg, &inv).unwrap();
}

#[test]
fn evaluate_isolation_enforce_errors_on_violation() {
    let gpu_bdf = "0000:03:00.0";
    let cfg = vm(&[gpu_bdf], &[], &[], &[], IsolationMode::Enforce);
    let pt_gpu = make_gpu(gpu_bdf, Some("vfio-pci"), Some(4));
    let host_dev = make_generic("0000:03:00.1", 0x020000, Some("e1000e"), Some(4));
    let inv = PciInventory { functions: vec![pt_gpu, host_dev] };
    let err = evaluate_isolation_for_vm("testvm", &cfg, &inv).unwrap_err();
    let msg = err.message();
    assert!(msg.contains("device isolation policy violations detected"));
    assert!(msg.contains("(count = 2)"), "{msg}");
}

#[test]
fn evaluate_isolation_audit_reports_but_passes() {
    let gpu_bdf = "0000:03:00.0";
    let cfg = vm(&[gpu_bdf], &[], &[], &[], IsolationMode::Audit);
    let pt_gpu = make_gpu(gpu_bdf, Some("vfio-pci"), Some(4));
    let host_dev = make_generic("0000:03:00.1", 0x020000, Some("e1000e"), Some(4));
    let inv = PciInventory { functions: vec![pt_gpu, host_dev] };
    evaluate_isolation_for_vm("testvm", &cfg, &inv).unwrap();
}

#[test]
fn isolation_messages_are_exact() {
    let pt = make_generic("0000:01:00.0", 0x020000, None, Some(10));
    let host = make_generic("0000:01:00.1", 0x020000, None, Some(10));
    let inv = PciInventory { functions: vec![pt, host] };
    let mut findings = Vec::new();
    let pts = vec!["0000:01:00.0".to_string()];
    evaluate_iommu_exclusivity("vm1", &inv, &pts, &mut findings);
    evaluate_multifunction_consistency("vm1", &inv, &pts, &mut findings);
    assert_eq!(findings.len(), 2);
    assert_eq!(
        findings[0].message,
        "IOMMU group 10 contains passthrough devices (0000:01:00.0) and non-passthrough members (0000:01:00.1); this violates require_iommu_exclusive for VM vm1"
    );
    assert_eq!(
        findings[1].message,
        "PCI device 0000:01:00.x has mixed ownership: passthrough functions (0000:01:00.0) and host-owned functions (0000:01:00.1); this violates require_multifunction_consistency for VM vm1"
    );
    assert_eq!(findings[0].iommu_group, Some(10));
    assert_eq!(findings[0].device_bdf.as_deref(), Some("0000:01:00.0"));
}

#[test]
fn build_plan_for_vm_with_vfio_gpu_and_no_others_is_empty_or_bind_only() {
    let bdf = "0000:01:00.0";
    let cfg = vm(&[bdf], &[], &[], &[], IsolationMode::Disabled);
    let gpu = make_gpu(bdf, Some("vfio-pci"), Some(10));
    let inv = PciInventory { functions: vec![gpu] };
    let plan = build_plan_for_vm("testvm", &cfg, &inv).unwrap();
    assert!(plan.actions.len() <= 1);
    if let Some(action) = plan.actions.get(0) {
        assert_eq!(action.bdf, bdf);
        assert!(matches!(action.kind, VfioActionKind::BindToVfio));
    }
}

#[test]
fn plan_puts_unbinds_first_and_rejects_host_owned_gpu() {
    let cfg = vm(&["0000:01:00.1"], &["0000:02:00.0"], &[], &[], IsolationMode::Disabled);
    let gpu = make_gpu("0000:01:00.0", Some("vfio-pci"), Some(1));
    let audio = make_generic("0000:01:00.1", 0x040300, Some("snd_hda_intel"), Some(1));
    let nvme = make_generic("0000:02:00.0", 0x010802, Some("nvme"), Some(2));
    let inv = PciInventory { functions: vec![gpu, audio, nvme] };
    let plan = build_plan_for_vm("vm", &cfg, &inv).unwrap();
    let kinds: Vec<VfioActionKind> = plan.actions.iter().map(|a| a.kind).collect();
    assert_eq!(
        kinds,
        vec![
            VfioActionKind::UnbindFromCurrentDriver,
            VfioActionKind::UnbindFromCurrentDriver,
            VfioActionKind::BindToVfio,
            VfioActionKind::BindToVfio
        ]
    );
    assert_eq!(
        plan.actions[0].reason,
        "GPU 0000:01:00.1: unbinding from current driver `snd_hda_intel` before binding to vfio-pci for VM vm"
    );
    assert_eq!(plan.actions[3].reason, "NVMe device bound to vfio-pci for VM vm");

    let steps = execute_plan(&plan, &inv);
    assert!(matches!(&steps[0], SysfsStep::Unbind { driver, .. } if driver == "snd_hda_intel"));
    assert!(matches!(&steps[2], SysfsStep::BindVfio { .. }));

    let cfg = vm(&["0000:05:00.0"], &[], &[], &[], IsolationMode::Disabled);
    let host = make_gpu("0000:05:00.0", Some("amdgpu"), Some(5));
    let inv = PciInventory { functions: vec![host] };
    let e = build_plan_for_vm("vm", &cfg, &inv).unwrap_err().message();
    assert!(e.contains("is classified as RISKY to unbind"), "{e}");
}

#[test]
fn verify_with_inventory_succeeds_when_all_devices_are_vfio_bound() {
    let cfg = vm(&["0000:01:00.0"], &["0000:02:00.0"], &[], &[], IsolationMode::Disabled);
    let inv = PciInventory {
        functions: vec![
            make_gpu("0000:01:00.0", Some("vfio-pci"), Some(10)),
            make_generic("0000:02:00.0", 0x010802, Some("vfio-pci"), Some(20)),
        ],
    };
    verify_with_inventory("testvm", &cfg, &inv).unwrap();
}

#[test]
fn verify_with_inventory_fails_if_gpu_not_vfio_bound() {
    let cfg = vm(&["0000:01:00.0"], &[], &[], &[], IsolationMode::Disabled);
    let inv = PciInventory { functions: vec![make_gpu("0000:01:00.0", Some("amdgpu"), Some(10))] };
    let msg = verify_with_inventory("testvm", &cfg, &inv).unwrap_err().message();
    assert!(msg.contains("expected `vfio-pci`"), "unexpected error message: {msg}");
}

#[test]
fn verify_with_inventory_fails_if_gpu_class_not_display() {
    let cfg = vm(&["0000:01:00.0"], &[], &[], &[], IsolationMode::Disabled);
    let inv = PciInventory {
        functions: vec![make_generic("0000:01:00.0", 0x020000, Some("vfio-pci"), Some(10))],
    };
    let msg = verify_with_inventory("testvm", &cfg, &inv).unwrap_err().message();
    assert!(
        msg.contains("configured as GPU") && msg.contains("class base is not 0x03"),
        "unexpected error message: {msg}"
    );
}

#[test]
fn verify_with_inventory_fails_if_required_gpu_missing_from_inventory() {
    let cfg = vm(&["0000:05:00.0"], &[], &[], &[], IsolationMode::Disabled);
    let inv = PciInventory { functions: vec![] };
    let res = verify_with_inventory("testvm", &cfg, &inv);
    assert!(res.is_err(), "expected error when required GPU is missing from inventory");
}
