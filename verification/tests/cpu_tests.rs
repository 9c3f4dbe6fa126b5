use chalybs::cpu::detect::classify::CpuArch;
use chalybs::cpu::detect::cpuid::{identity_from_cpuid, CpuIdentity, CpuVendor};
use chalybs::cpu::detect::qemu_map::map_arch_to_qemu_model;
use chalybs::cpu::detect::topology::{
    normalize_cpus, parse_cpulist, topology_from_entries, HostNumaNode, HostNumaTopology,
};
use chalybs::cpu::detect::{classify_cpu, qemu_model_for_identity};
use chalybs::cpuplan::builder::{build_cpu_plan, CpuPlanInputs};
use chalybs::cpuplan::validate::{validate_cpu_plan, CpuPlanValidationError};
use chalybs::irq::{cpus_to_hex_mask, vfio_irqs_from_interrupts};
use chalybs::model::{CpuSet, VmCpuLayout};
use chalybs::util::parse_cpu_list;

fn ident(vendor: CpuVendor, family: u32, model: u32) -> CpuIdentity {
    CpuIdentity {
        vendor,
        family,
        model,
        stepping: 0,
        raw_vendor: None,
        model_name: None,
    }
}

#[test]
fn parse_simple_cpulist() {
    assert_eq!(parse_cpulist("0"), vec![0]);
    assert_eq!(parse_cpulist("3,5"), vec![3, 5]);
    assert_eq!(parse_cpulist("0-3"), vec![0, 1, 2, 3]);
    assert_eq!(parse_cpulist("0-1,4-5,7"), vec![0, 1, 4, 5, 7]);
}

#[test]
fn parse_cpulist_ignores_garbage() {
    assert_eq!(parse_cpulist("0-x,2-3,y,5"), vec![0, 2, 3, 5]);
}

#[test]
fn parse_cpulist_blank_and_reversed_ranges() {
    assert_eq!(parse_cpulist(""), Vec::<u32>::new());
    assert_eq!(parse_cpulist(" 4 , , 6 "), vec![4, 6]);
    assert_eq!(parse_cpulist("5-3,1"), vec![1]);
    assert_eq!(parse_cpulist("x-3,7-"), vec![7]);
}

#[test]
fn normalize_sorts_and_dedups() {
    assert_eq!(normalize_cpus(&vec![5, 1, 3, 1, 5]), vec![1, 3, 5]);
    assert_eq!(normalize_cpus(&vec![]), Vec::<u32>::new());
}

#[test]
fn strict_cpu_list_parses_and_rejects() {
    assert_eq!(parse_cpu_list("0-2,8").unwrap(), vec![0, 1, 2, 8]);
    assert!(parse_cpu_list("0-x").is_err());
    assert_eq!(parse_cpu_list("3-1").unwrap(), Vec::<u32>::new());
}

#[test]
fn classify_known_families() {
    assert_eq!(classify_cpu(&ident(CpuVendor::Amd, 0x17, 0x08)), CpuArch::AmdZen1OrZenPlus);
    assert_eq!(classify_cpu(&ident(CpuVendor::Amd, 0x17, 0x31)), CpuArch::AmdZen2);
    assert_eq!(classify_cpu(&ident(CpuVendor::Amd, 0x19, 0x21)), CpuArch::AmdZen3OrZen4);
    assert_eq!(classify_cpu(&ident(CpuVendor::Intel, 6, 0x97)), CpuArch::IntelCoreFamily);
    assert_eq!(classify_cpu(&ident(CpuVendor::Intel, 15, 0)), CpuArch::Unknown);
    assert_eq!(classify_cpu(&ident(CpuVendor::Arm, 0, 0)), CpuArch::Arm64Generic);
}

#[test]
fn qemu_models_per_arch() {
    assert_eq!(map_arch_to_qemu_model(CpuArch::AmdZen2), Some("EPYC-v2"));
    assert_eq!(map_arch_to_qemu_model(CpuArch::AmdZen3OrZen4), Some("EPYC-v2"));
    assert_eq!(map_arch_to_qemu_model(CpuArch::Unknown), None);
    // Every AMD host of family 17h or later gets EPYC-v2.
    for (family, model) in [(0x17, 0x08), (0x17, 0x31), (0x19, 0x21), (0x1a, 0x44)] {
        assert_eq!(qemu_model_for_identity(&ident(CpuVendor::Amd, family, model)).as_deref(), Some("EPYC-v2"));
    }
    assert_eq!(qemu_model_for_identity(&ident(CpuVendor::Amd, 0x15, 0x01)), None);
    assert_eq!(qemu_model_for_identity(&ident(CpuVendor::Intel, 6, 0x97)).as_deref(), Some("Skylake-Server"));
}

#[test]
fn hex_mask_of_cpus() {
    assert_eq!(cpus_to_hex_mask(&[0, 1, 4]).unwrap(), "13");
    assert_eq!(cpus_to_hex_mask(&[127]).unwrap(), "80000000000000000000000000000000");
    let err = cpus_to_hex_mask(&[]).unwrap_err();
    assert!(err.message().contains("computed zero IRQ affinity mask"));
    let err = cpus_to_hex_mask(&[3, 130]).unwrap_err();
    assert!(err.message().contains("CPU index 130 is too large"));
}

#[test]
fn vfio_irqs_are_sorted_and_unique() {
    let text = "           CPU0       CPU1\n \
                 45:          0          0  IR-PCI-MSI 1-edge  vfio-msix[0](0000:01:00.0)\n \
                 12:          0          0  IR-PCI-MSI 2-edge  vfio-msi[0](0000:01:00.1)\n \
                 45:          1          0  IR-PCI-MSI 1-edge  vfio-msix[1](0000:01:00.0)\n \
                 30:          0          0  IR-PCI-MSI 3-edge  nvme0q0\n";
    assert_eq!(vfio_irqs_from_interrupts(text), vec![12, 45]);
}

#[test]
fn cpu_plan_splits_nodes_and_finds_dominant() {
    let topology = HostNumaTopology {
        nodes: vec![
            HostNumaNode { node_id: 0, cpus: vec![3, 0, 1, 2] },
            HostNumaNode { node_id: 1, cpus: vec![4, 5, 6, 7] },
        ],
    };
    let layout = VmCpuLayout {
        host: CpuSet { cpus: vec![0, 1] },
        vm: CpuSet { cpus: vec![2, 3, 4] },
    };
    let plan = build_cpu_plan(CpuPlanInputs::new(
        ident(CpuVendor::Amd, 0x19, 0x21),
        CpuArch::AmdZen3OrZen4,
        topology,
        layout,
    ));
    assert_eq!(plan.nodes.len(), 2);
    assert_eq!(plan.nodes[0].host_cpus, vec![0, 1, 2, 3]);
    assert_eq!(plan.nodes[0].vm_cpus, vec![2, 3]);
    assert_eq!(plan.nodes[1].vm_cpus, vec![4]);
    assert!(plan.vm_spans_nodes);
    assert_eq!(plan.dominant_node, Some(0));
    assert_eq!(plan.vm_cpus(), vec![2, 3, 4]);
    assert!(validate_cpu_plan(&plan).is_empty());
}

#[test]
fn cpu_plan_validation_flags_cpus_outside_topology() {
    let topology = HostNumaTopology {
        nodes: vec![HostNumaNode { node_id: 0, cpus: vec![0, 1] }],
    };
    let layout = VmCpuLayout {
        host: CpuSet { cpus: vec![0, 9] },
        vm: CpuSet { cpus: vec![1, 12] },
    };
    let plan = build_cpu_plan(CpuPlanInputs::new(
        ident(CpuVendor::Intel, 6, 0x97),
        CpuArch::IntelCoreFamily,
        topology,
        layout,
    ));
    let errs = validate_cpu_plan(&plan);
    assert!(errs.contains(&CpuPlanValidationError::HostCpuOutsideTopology { cpu: 9 }));
    assert!(errs.contains(&CpuPlanValidationError::VmCpuOutsideTopology { cpu: 12 }));
    assert!(!plan.vm_spans_nodes);
}

#[test]
fn topology_from_node_directory_entries() {
    let entries: Vec<(String, Option<String>)> = vec![
        ("node1".to_string(), Some("4-7\n".to_string())),
        ("possible".to_string(), Some("0-7".to_string())),
        ("node0".to_string(), Some("3,1-2".to_string())),
        ("node2".to_string(), None),
        ("nodex".to_string(), Some("1".to_string())),
        ("node3".to_string(), Some("".to_string())),
    ];
    let topo = topology_from_entries(&entries);
    let nodes: Vec<(u32, Vec<u32>)> = topo.nodes.iter().map(|n| (n.node_id, n.cpus.clone())).collect();
    assert_eq!(nodes, vec![(1, vec![4, 5, 6, 7]), (0, vec![1, 2, 3])]);
}

#[test]
fn identity_from_cpuid_leaf_values() {
    let id = identity_from_cpuid(
        Some("AuthenticAMD".to_string()),
        (0x0f, 0x08, 0x01, 0x03, 0x02),
        Some("  AMD Ryzen Threadripper 2990WX  ".to_string()),
    );
    assert_eq!(id.vendor, CpuVendor::Amd);
    assert_eq!(id.family, 0x17);
    assert_eq!(id.model, 0x31);
    assert_eq!(id.stepping, 2);
    assert_eq!(id.model_name.as_deref(), Some("AMD Ryzen Threadripper 2990WX"));
    let blank = identity_from_cpuid(None, (0x06, 0x00, 0x05, 0x05, 0x00), Some("   ".to_string()));
    assert_eq!(blank.vendor, CpuVendor::Unknown);
    assert_eq!(blank.model, 0x55);
    assert_eq!(blank.model_name, None);
}
