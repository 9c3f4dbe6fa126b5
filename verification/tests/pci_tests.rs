use chalybs::pci::function_from_sysfs;
use chalybs::vfio::execute::{execute_plan, SysfsStep};
use chalybs::vfio::plan::{VfioAction, VfioActionKind, VfioPlan};
use chalybs::config::PciDeviceConfig;
use chalybs::pci::{
    parse_bdf_slot, DeviceClass, GpuDriverKind, GpuSafetyClass, GpuUnbindFeasibility, PciFunction,
    PciInventory,
};

fn make_gpu(driver: Option<&str>, iommu_group: Option<u32>) -> PciFunction {
    PciFunction {
        bdf: "0000:01:00.0".to_string(),
        vendor_id: 0x1234,
        device_id: 0x5678,
        class: 0x030000,
        driver: driver.map(|d| d.to_string()),
        iommu_group,
        numa_node: Some(0),
    }
}

fn make_non_gpu() -> PciFunction {
    PciFunction {
        bdf: "0000:02:00.0".to_string(),
        vendor_id: 0x1234,
        device_id: 0x5678,
        class: 0x020000,
        driver: Some("e1000e".to_string()),
        iommu_group: Some(2),
        numa_node: Some(0),
    }
}

#[test]
fn gpu_driver_kind_is_none_for_non_gpu() {
    let nic = make_non_gpu();
    assert!(nic.gpu_driver_kind().is_none());
    assert!(nic.gpu_safety_class().is_none());
}

#[test]
fn gpu_driver_kind_classification_basic() {
    let vfio = make_gpu(Some("vfio-pci"), Some(1));
    assert!(matches!(vfio.gpu_driver_kind(), Some(GpuDriverKind::Vfio)));

    let amd = make_gpu(Some("amdgpu"), Some(1));
    assert!(matches!(amd.gpu_driver_kind(), Some(GpuDriverKind::AmdGpu)));

    let radeon = make_gpu(Some("radeon"), Some(1));
    assert!(matches!(radeon.gpu_driver_kind(), Some(GpuDriverKind::AmdGpu)));

    let nvidia = make_gpu(Some("nvidia"), Some(1));
    assert!(matches!(nvidia.gpu_driver_kind(), Some(GpuDriverKind::Nvidia)));

    let nouveau = make_gpu(Some("nouveau"), Some(1));
    assert!(matches!(nouveau.gpu_driver_kind(), Some(GpuDriverKind::Nouveau)));

    let other = make_gpu(Some("weirdgpu"), Some(1));
    match other.gpu_driver_kind() {
        Some(GpuDriverKind::OtherKernel(name)) => assert_eq!(name, "weirdgpu"),
        _ => panic!("expected OtherKernel"),
    }

    let unbound = make_gpu(None, Some(1));
    assert!(matches!(unbound.gpu_driver_kind(), Some(GpuDriverKind::Unbound)));
}

#[test]
fn gpu_safety_classification_basic() {
    let vfio = make_gpu(Some("vfio-pci"), Some(1));
    assert!(matches!(vfio.gpu_safety_class(), Some(GpuSafetyClass::VfioReady)));

    let host_owned = make_gpu(Some("amdgpu"), Some(1));
    assert!(matches!(host_owned.gpu_safety_class(), Some(GpuSafetyClass::HostOwned)));

    let unknown = make_gpu(Some("weirdgpu"), Some(1));
    assert!(matches!(unknown.gpu_safety_class(), Some(GpuSafetyClass::Unknown)));

    let unbound = make_gpu(None, Some(1));
    assert!(matches!(unbound.gpu_safety_class(), Some(GpuSafetyClass::Unknown)));
}

#[test]
fn gpu_unbind_assessment_vfio_without_iommu_group_is_safe() {
    let gpu = make_gpu(Some("vfio-pci"), None);
    let inv = PciInventory { functions: vec![gpu] };
    let assessments = inv.assess_gpu_unbind_safety();
    assert_eq!(assessments.len(), 1);
    assert!(matches!(assessments[0].feasibility, GpuUnbindFeasibility::Safe));
}

#[test]
fn gpu_unbind_assessment_non_vfio_no_iommu_group_is_unsafe() {
    let gpu = make_gpu(Some("nvidia"), None);
    let inv = PciInventory { functions: vec![gpu] };
    let assessments = inv.assess_gpu_unbind_safety();
    assert_eq!(assessments.len(), 1);
    assert!(matches!(assessments[0].feasibility, GpuUnbindFeasibility::Unsafe(_)));
}

#[test]
fn is_bdf_in_gpu_complex_identifies_slot_mates() {
    let gpu = PciFunction {
        bdf: "0000:4a:00.0".to_string(),
        vendor_id: 0x1234,
        device_id: 0x5678,
        class: 0x030000,
        driver: Some("nvidia".to_string()),
        iommu_group: Some(1),
        numa_node: Some(0),
    };
    let audio = PciFunction {
        bdf: "0000:4a:00.1".to_string(),
        vendor_id: 0x1234,
        device_id: 0x8765,
        class: 0x040300,
        driver: Some("snd_hda_intel".to_string()),
        iommu_group: Some(1),
        numa_node: Some(0),
    };
    let inv = PciInventory { functions: vec![gpu, audio] };
    assert!(inv.is_bdf_in_gpu_complex("0000:4a:00.0"));
    assert!(inv.is_bdf_in_gpu_complex("0000:4a:00.1"));
    assert!(!inv.is_bdf_in_gpu_complex("0000:4a:00.2"));
}

#[test]
fn class_bytes_and_device_classes() {
    let mut f = make_non_gpu();
    f.class = 0x010802;
    assert_eq!(f.class_triple(), (0x01, 0x08, 0x02));
    assert_eq!(f.class_base(), 0x01);
    assert_eq!(f.class_sub(), 0x08);
    assert_eq!(f.class_prog_if(), 0x02);
    assert!(f.is_nvme());
    assert_eq!(f.device_class(), DeviceClass::Nvme);
    f.class = 0x0c0330;
    assert_eq!(f.device_class(), DeviceClass::UsbController);
    f.class = 0x010600;
    assert_eq!(f.device_class(), DeviceClass::StorageOther);
    f.class = 0x020000;
    assert_eq!(f.device_class(), DeviceClass::Nic);
    f.class = 0x088000;
    assert_eq!(f.device_class(), DeviceClass::Other);
    assert_eq!(make_gpu(None, None).device_class(), DeviceClass::Gpu);
}

#[test]
fn bdf_slot_parsing_edge_cases() {
    assert_eq!(parse_bdf_slot("0000:4a:1f.7"), Some((0, 0x4a, 0x1f)));
    assert_eq!(parse_bdf_slot("ABCD:FF:0a.1"), Some((0xabcd, 0xff, 0x0a)));
    assert_eq!(parse_bdf_slot("0000:4a:1f"), None);
    assert_eq!(parse_bdf_slot("0000:4a:1f.7.1"), None);
    assert_eq!(parse_bdf_slot("0000:4a:1f:00.0"), None);
    assert_eq!(parse_bdf_slot("000g:4a:1f.0"), None);
    assert_eq!(parse_bdf_slot("+000:4a:1f.0"), Some((0, 0x4a, 0x1f)));
}

#[test]
fn inventory_queries_filter_in_order() {
    let mut nvme = make_non_gpu();
    nvme.bdf = "0000:03:00.0".to_string();
    nvme.class = 0x010802;
    nvme.iommu_group = Some(2);
    let gpu = make_gpu(Some("amdgpu"), Some(1));
    let nic = make_non_gpu();
    let inv = PciInventory { functions: vec![gpu.clone(), nic.clone(), nvme.clone()] };
    assert_eq!(inv.count_display_controllers(), 1);
    assert_eq!(inv.gpus().len(), 1);
    assert_eq!(inv.nics()[0].bdf, "0000:02:00.0");
    assert_eq!(inv.nvmes()[0].bdf, "0000:03:00.0");
    assert!(inv.usb_controllers().is_empty());
    let groups = inv.by_iommu_group();
    assert_eq!(groups.len(), 2);
    assert_eq!(groups[&2].len(), 2);
    assert_eq!(groups[&1][0].bdf, "0000:01:00.0");
    assert_eq!(inv.find_by_bdf("0000:03:00.0").unwrap().class, 0x010802);
    assert!(inv.find_by_bdf("0000:09:00.0").is_none());
    let s = inv.gpu_summaries();
    assert_eq!(s.len(), 1);
    assert!(matches!(s[0].safety, Some(GpuSafetyClass::HostOwned)));
}

#[test]
fn host_owned_gpu_in_group_is_risky_with_reason() {
    let gpu = make_gpu(Some("amdgpu"), Some(7));
    let inv = PciInventory { functions: vec![gpu] };
    let a = inv.assess_gpu_unbind_safety();
    match &a[0].feasibility {
        GpuUnbindFeasibility::Risky(r) => assert_eq!(
            r,
            "GPU appears host-owned (bound to graphics driver); unbinding may disrupt host display"
        ),
        _ => panic!("expected Risky"),
    }
    assert!(a[0].group_members.is_empty());
}

#[test]
fn resolve_configured_required_and_optional() {
    let inv = PciInventory { functions: vec![make_non_gpu()] };
    let cfgs = vec![
        PciDeviceConfig { pci_address: "0000:02:00.0".to_string(), required: true, level: None },
        PciDeviceConfig { pci_address: "0000:09:00.0".to_string(), required: false, level: None },
    ];
    let r = inv.resolve_configured(&cfgs).unwrap();
    assert_eq!(r.len(), 1);
    let cfgs = vec![PciDeviceConfig {
        pci_address: "0000:09:00.0".to_string(),
        required: true,
        level: None,
    }];
    let e = inv.resolve_configured(&cfgs).unwrap_err();
    assert_eq!(
        e.message(),
        "VFIO error: required PCI device 0000:09:00.0 not present in host inventory"
    );
}

#[test]
fn function_read_from_sysfs_attributes() {
    let f = function_from_sysfs(
        "/sys/bus/pci/devices/0000:0b:00.0",
        "0000:0b:00.0",
        "0x10de\n",
        "0x2206\n",
        "0x030000\n",
        Some("nvidia".to_string()),
        Some("27".to_string()),
        Some("-1\n".to_string()),
    )
    .unwrap();
    assert_eq!(f.bdf, "0000:0b:00.0");
    assert_eq!((f.vendor_id, f.device_id, f.class), (0x10de, 0x2206, 0x030000));
    assert_eq!(f.driver.as_deref(), Some("nvidia"));
    assert_eq!(f.iommu_group, Some(27));
    assert_eq!(f.numa_node, Some(-1));

    let g = function_from_sysfs("/d", "b", "8086", "1234", "0x0c0330", None, Some("x".to_string()), Some("zz".to_string()))
        .unwrap();
    assert_eq!(g.vendor_id, 0x8086);
    assert_eq!(g.iommu_group, None);
    assert_eq!(g.numa_node, None);

    match function_from_sysfs("/d", "b", "0x10de", "0xzz", "0x030000", None, None, None) {
        Err(chalybs::error::ChalybsError::Vfio(m)) => assert_eq!(
            m,
            format!("failed to parse 0xzz as hex u16 from /d/device: {}", u16::from_str_radix("zz", 16).unwrap_err())
        ),
        other => panic!("unexpected: {other:?}"),
    }
    match function_from_sysfs("/d", "b", "0x10de", "0x1", "0x1ffffffff", None, None, None) {
        Err(chalybs::error::ChalybsError::Vfio(m)) => assert_eq!(
            m,
            format!("failed to parse 0x1ffffffff as hex u32 from /d/class: {}", u32::from_str_radix("1ffffffff", 16).unwrap_err())
        ),
        other => panic!("unexpected: {other:?}"),
    }
}

#[test]
fn bind_to_vfio_is_noop_if_already_bound() {
    let gpu = make_gpu(Some("vfio-pci"), Some(1));
    let inv = PciInventory { functions: vec![gpu] };
    let plan = VfioPlan {
        vm_name: "vm".to_string(),
        actions: vec![VfioAction {
            bdf: "0000:01:00.0".to_string(),
            kind: VfioActionKind::BindToVfio,
            reason: "bind".to_string(),
        }],
    };
    // Already on vfio-pci: nothing is written to /sys.
    let steps = execute_plan(&plan, &inv);
    assert_eq!(steps.len(), 1);
    assert!(matches!(&steps[0], SysfsStep::Skip { bdf } if bdf == "0000:01:00.0"));
}
