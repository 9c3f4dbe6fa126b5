use chalybs::cpu::detect::cpuid::{vendor_from_lowercase, CpuVendor};
use chalybs::error::ChalybsError;
use chalybs::irq::pin::{DeviceWork, IrqWorker, MsiListing};
use chalybs::config::PciDeviceConfig;
use chalybs::model::VfioTransition;
use chalybs::pci::{PciFunction, PciInventory};
use chalybs::state::{settle_step, VmState};
use chalybs::tui::config::{LogoHaloProfile, TuiConfig};
use chalybs::tui::pulse::{iso_badge, pulse_glyph, IsoBadgeLevel};
use chalybs::vfio::execute::{staging_progress, StagingNext, SysfsStep, WriteOutcome};
use chalybs::vfio::restore::{bind_needed, bind_result, PendingBind, RestoreResultKind};

fn func(bdf: &str, driver: Option<&str>, group: Option<u32>) -> PciFunction {
    PciFunction {
        bdf: bdf.to_string(),
        vendor_id: 0x10de,
        device_id: 0x2206,
        class: 0x030000,
        driver: driver.map(|d| d.to_string()),
        iommu_group: group,
        numa_node: Some(0),
    }
}

#[test]
fn pulse_glyph_breathes_with_the_tick() {
    assert_eq!(pulse_glyph(0, true), ("•", false));
    assert_eq!(pulse_glyph(4, true), ("●", false));
    assert_eq!(pulse_glyph(9, true), ("◉", true));
    assert_eq!(pulse_glyph(12, true), ("●", false));
    assert_eq!(pulse_glyph(16, true), ("•", false));
    assert_eq!(pulse_glyph(9, false), ("●", false));
}

#[test]
fn iso_badge_per_mode() {
    assert_eq!(iso_badge("disabled"), ("[iso-]".to_string(), IsoBadgeLevel::Neutral));
    assert_eq!(iso_badge("audit"), ("[iso-]".to_string(), IsoBadgeLevel::Warn));
    assert_eq!(iso_badge("enforce"), ("[ISO]".to_string(), IsoBadgeLevel::Good));
    assert_eq!(iso_badge("strict"), ("[iso:strict]".to_string(), IsoBadgeLevel::Neutral));
}

#[test]
fn tui_config_from_global_toml_text() {
    let text = "[vm.default]\nx = 1\n\n[tui]\nlogo_halo = \" wide \"\n".to_string();
    let cfg = TuiConfig::load_from_text(None, Some(text.clone())).unwrap();
    assert_eq!(cfg.logo_halo, LogoHaloProfile::C3Wide);
    // The environment wins.
    let cfg = TuiConfig::load_from_text(Some("off".to_string()), Some(text)).unwrap();
    assert_eq!(cfg.logo_halo, LogoHaloProfile::Off);
    // No [tui] table, not TOML, or an unknown name: nothing configured.
    assert!(TuiConfig::load_from_text(None, Some("[vm]\n".to_string())).is_none());
    assert!(TuiConfig::load_from_text(None, Some("logo_halo = ".to_string())).is_none());
    assert!(TuiConfig::load_from_text(None, Some("[tui]\nlogo_halo = \"sparkly\"\n".to_string())).is_none());
    assert!(TuiConfig::load_from_text(None, None).is_none());
}

#[test]
fn failed_step_leaves_state_unchanged() {
    let (s, r) = settle_step(VmState::PreparePci, VmState::ReserveCpus, Ok(()));
    assert_eq!(s, VmState::ReserveCpus);
    assert_eq!(r.unwrap(), VmState::ReserveCpus);
    let (s, r) = settle_step(VmState::PreparePci, VmState::ReserveCpus, Err(ChalybsError::Vfio("x".to_string())));
    assert_eq!(s, VmState::PreparePci);
    assert_eq!(r.unwrap_err().message(), "VFIO error: x");
}

#[test]
fn vendor_from_lowercased_brand() {
    assert_eq!(vendor_from_lowercase(&Some("AuthenticAMD".to_string()), &None), CpuVendor::Amd);
    assert_eq!(vendor_from_lowercase(&Some("GenuineIntel".to_string()), &Some("arm".to_string())), CpuVendor::Intel);
    assert_eq!(vendor_from_lowercase(&None, &Some("neoverse aarch64 core".to_string())), CpuVendor::Arm);
    assert_eq!(vendor_from_lowercase(&Some("Weird".to_string()), &Some("apple m1 (arm)".to_string())), CpuVendor::Arm);
    assert_eq!(vendor_from_lowercase(&None, &Some("Cortex ARM".to_string())), CpuVendor::Unknown);
    assert_eq!(vendor_from_lowercase(&None, &None), CpuVendor::Unknown);
}

fn dev(addr: &str) -> PciDeviceConfig {
    PciDeviceConfig { pci_address: addr.to_string(), required: true, level: None }
}

#[test]
fn irq_worker_marks_device_done_when_irqs_appear() {
    let items = vec![
        DeviceWork { dev: dev("0000:0b:00.0"), target_cpus: vec![8, 9], is_aux_gpu: false, done: false },
        DeviceWork { dev: dev("0000:0c:00.0"), target_cpus: vec![10], is_aux_gpu: false, done: false },
    ];
    let mut w = IrqWorker::new(items);
    assert!(w.on_listing(0, &MsiListing::Absent).is_empty());
    assert!(w.on_listing(0, &MsiListing::Names(vec!["x".to_string()])).is_empty());
    assert!(!w.items[0].done);
    let irqs = w.on_listing(0, &MsiListing::Names(vec!["120".to_string(), "121".to_string()]));
    assert_eq!(irqs, vec![120, 121]);
    assert!(w.items[0].done);
    assert!(!w.finished());
    // Already done: nothing more to pin.
    assert!(w.on_listing(0, &MsiListing::Names(vec!["122".to_string()])).is_empty());
    assert_eq!(w.on_listing(1, &MsiListing::Names(vec!["7".to_string()])), vec![7]);
    assert!(w.finished());
}

#[test]
fn staging_stops_at_first_failed_write() {
    let inv = PciInventory {
        functions: vec![func("0000:0b:00.0", Some("nvidia"), Some(21)), func("0000:0b:00.1", None, Some(21))],
    };
    let steps = vec![
        SysfsStep::Unbind { bdf: "0000:0b:00.0".to_string(), driver: "nvidia".to_string() },
        SysfsStep::Skip { bdf: "0000:0b:00.1".to_string() },
        SysfsStep::BindVfio { bdf: "0000:0b:00.0".to_string() },
        SysfsStep::BindVfio { bdf: "0000:0b:00.1".to_string() },
    ];
    let prior: Vec<VfioTransition> = Vec::new();
    let p = staging_progress(&steps, &vec![], &inv, &prior);
    assert!(matches!(p.next, StagingNext::Write(0)));
    let p = staging_progress(&steps, &vec![WriteOutcome::Written], &inv, &prior);
    assert!(matches!(p.next, StagingNext::Write(2)));
    assert_eq!(p.transitions.len(), 1);
    assert_eq!(p.transitions[0].from_driver.as_deref(), Some("nvidia"));
    assert_eq!(p.transitions[0].iommu_group, Some(21));
    // Failure: staging fails and asks for nothing more.
    let p = staging_progress(&steps, &vec![WriteOutcome::Written, WriteOutcome::Failed("EBUSY".to_string())], &inv, &prior);
    match p.next {
        StagingNext::Failed(e) => assert_eq!(
            e.message(),
            "VFIO error: failed to bind BDF 0000:0b:00.0 to vfio-pci via /sys/bus/pci/drivers/vfio-pci/bind: EBUSY"
        ),
        _ => panic!("expected failure"),
    }
    let all = vec![WriteOutcome::Written, WriteOutcome::Written, WriteOutcome::Written];
    let p = staging_progress(&steps, &all, &inv, &prior);
    assert!(matches!(p.next, StagingNext::Finished));
    // The bind of an already recorded device adds no transition.
    assert_eq!(p.transitions.len(), 2);
    assert_eq!(p.transitions[1].bdf, "0000:0b:00.1");
    assert_eq!(p.transitions[1].from_driver, None);
    let p = staging_progress(&vec![SysfsStep::Unbind { bdf: "a".to_string(), driver: "d".to_string() }], &vec![WriteOutcome::NoPath], &inv, &prior);
    match p.next {
        StagingNext::Failed(e) => assert_eq!(
            e.message(),
            "VFIO error: cannot unbind a: driver unbind path /sys/bus/pci/drivers/d/unbind does not exist"
        ),
        _ => panic!("expected failure"),
    }
    let p = staging_progress(&vec![SysfsStep::UnknownDevice { bdf: "z".to_string() }], &vec![], &inv, &prior);
    match p.next {
        StagingNext::Failed(e) => assert_eq!(e.message(), "VFIO error: VFIO plan references unknown PCI device z"),
        _ => panic!("expected failure"),
    }
}

#[test]
fn restore_bind_skipped_when_already_bound() {
    let inv = PciInventory { functions: vec![func("0000:0b:00.0", Some("nvidia"), Some(21))] };
    let b = PendingBind { bdf: "0000:0b:00.0".to_string(), driver: "nvidia".to_string(), iommu_group: Some(21), is_gpu: true };
    assert!(!bind_needed(&b, &inv));
    let other = PendingBind { driver: "nouveau".to_string(), ..b.clone() };
    assert!(bind_needed(&other, &inv));
    assert_eq!(bind_result(&b, None).result, RestoreResultKind::Succeeded);
    let failed = bind_result(&other, Some(WriteOutcome::NoPath));
    assert_eq!(failed.result, RestoreResultKind::Failed);
    assert_eq!(
        failed.reason.as_deref(),
        Some("failed to restore driver: VFIO error: driver bind path /sys/bus/pci/drivers/nouveau/bind does not exist for `nouveau`; ensure the module is loaded")
    );
}
