//! Configuration model for VMs and their policies.
//!
//! The application deserialises TOML into its own copies of these types and
//! converts; maps keyed by name are held here as vectors of pairs in file
//! order.
use vstd::prelude::*;
use crate::error::{ChalybsError, Result};
use crate::text::lit;

pub mod pci;

verus! {

#[derive(Debug, Clone)]
pub struct RootConfig {
    /// VMs by name.
    pub vm: Vec<(String, VmConfig)>,
    pub logging: Option<LoggingConfig>,
}

#[derive(Debug, Clone)]
pub struct LoggingConfig {
    pub level: Option<String>,
    /// "pretty" or "json".
    pub format: Option<String>,
}

#[derive(Debug, Clone)]
pub struct VmConfig {
    pub cpu: CpuConfig,
    pub qemu: QemuConfig,
    pub numa: Option<NumaConfig>,
    pub devices: DevicesConfig,
    /// GPU policy (single-GPU safety, iGPU usage).
    pub gpu: GpuPolicyConfig,
    /// Device isolation policy.
    pub isolation: IsolationPolicyConfig,
    pub peripherals: Option<PeripheralConfig>,
}

#[derive(Debug, Clone)]
pub struct CpuConfig {
    /// Host CPU set for the VM's vCPUs, e.g. "8-15,40-47".
    pub host_cpus: String,
    /// vCPU indices exposed to the guest, e.g. "0-7".
    pub vm_cpus: String,
}

/// QEMU configuration and CPU/SMBIOS extras.
#[derive(Debug, Clone)]
pub struct QemuConfig {
    pub binary: String,
    /// Extra arguments before the managed core arguments.
    pub pre_args: Option<String>,
    /// Extra arguments after the core arguments.
    pub args: String,
    /// Extra arguments after everything else.
    pub post_args: Option<String>,
    /// RTC policy: `None` gives the localtime default, an empty string
    /// gives no `-rtc` flag, anything else is passed verbatim.
    pub rtc: Option<String>,
    pub num_vcpus: u32,
    /// Guest memory in MiB.
    pub mem_mb: u64,
    pub hugepages: bool,
    pub ovmf_code: String,
    pub ovmf_vars: String,
    pub smbios: Option<SmbiosConfig>,
    /// Base CPU model: "auto" (any case) asks for autodetection.
    pub cpu_model: Option<String>,
    pub cpu_extras: Option<CpuExtrasConfig>,
    /// BDFs whose option ROM BAR is disabled.
    pub rombar_off: Option<Vec<String>>,
    /// BDF to root-port slot ("0xNN") overrides, in file order.
    pub pci_rootport: Option<Vec<(String, String)>>,
    /// Treat the first GPU as a legacy VGA device.
    pub legacy_primary_gpu: bool,
}

/// NUMA policy.
#[derive(Debug, Clone)]
pub struct NumaConfig {
    pub node: Option<u16>,
    pub hugepage_node: Option<u16>,
}

/// Passthrough devices by kind.
#[derive(Debug, Clone)]
pub struct DevicesConfig {
    pub gpu: Option<Vec<PciDeviceConfig>>,
    pub nvme: Option<Vec<PciDeviceConfig>>,
    pub nic: Option<Vec<PciDeviceConfig>>,
    pub usb: Option<Vec<PciDeviceConfig>>,
}

#[derive(Debug, Clone)]
pub struct PciDeviceConfig {
    /// Full PCI address, e.g. "0000:0b:00.0".
    pub pci_address: String,
    /// If true, startup fails when the device is missing.
    pub required: bool,
    /// Per-device isolation level override.
    pub level: Option<IsolationLevel>,
}

/// The default for `PciDeviceConfig::required`.
pub fn default_required() -> (r: bool)
    ensures
        r,
{
    true
}

/// GPU policy: single-GPU safety and iGPU usage.
#[derive(Debug, Clone, Copy)]
pub struct GpuPolicyConfig {
    /// Allow passthrough when the host has exactly one GPU.
    pub allow_single_gpu: bool,
    /// Reserved; currently unused.
    pub force_use_igpu: bool,
}

/// Isolation mode for device safety.
#[derive(Debug, Clone, Copy, PartialEq, Eq, Structural)]
pub enum IsolationMode {
    Disabled,
    Audit,
    Enforce,
}

/// Desired isolation level for a passthrough device.
#[derive(Debug, Clone, Copy, PartialEq, Eq, Structural, Hash)]
pub enum IsolationLevel {
    Dedicated,
    SharedWithHost,
    Forbidden,
}

/// Per-VM device isolation policy.
#[derive(Debug, Clone, Copy)]
pub struct IsolationPolicyConfig {
    pub mode: IsolationMode,
    pub default_level: IsolationLevel,
    /// An IOMMU group with a passthrough device must hold no other device.
    pub require_iommu_exclusive: bool,
    /// Functions of one slot must be passed through together.
    pub require_multifunction_consistency: bool,
    /// No passthrough from a group holding a host-owned GPU.
    pub forbid_host_critical_in_group: bool,
}

pub fn default_isolation_mode() -> (r: IsolationMode)
    ensures
        r == IsolationMode::Disabled,
{
    IsolationMode::Disabled
}

pub fn default_isolation_level() -> (r: IsolationLevel)
    ensures
        r == IsolationLevel::Dedicated,
{
    IsolationLevel::Dedicated
}

pub fn default_true() -> (r: bool)
    ensures
        r,
{
    true
}

impl Default for IsolationPolicyConfig {
    fn default() -> (r: Self)
        ensures
            r.mode == IsolationMode::Disabled,
            r.default_level == IsolationLevel::Dedicated,
            r.require_iommu_exclusive,
            r.require_multifunction_consistency,
            r.forbid_host_critical_in_group,
    {
        IsolationPolicyConfig {
            mode: default_isolation_mode(),
            default_level: default_isolation_level(),
            require_iommu_exclusive: default_true(),
            require_multifunction_consistency: default_true(),
            forbid_host_critical_in_group: default_true(),
        }
    }
}

/// SMBIOS type 0/1/2 fields.
#[derive(Debug, Clone)]
pub struct SmbiosConfig {
    pub bios_vendor: Option<String>,
    pub bios_version: Option<String>,
    pub bios_date: Option<String>,
    pub system_manufacturer: Option<String>,
    pub system_product_name: Option<String>,
    pub system_uuid: Option<String>,
    pub baseboard_manufacturer: Option<String>,
    pub baseboard_product: Option<String>,
}

/// CPU model, feature and hypervisor extras for `-cpu`.
#[derive(Debug, Clone)]
pub struct CpuExtrasConfig {
    pub abi: Option<String>,
    pub topo: Option<String>,
    pub hv_contexts: Option<String>,
    pub vendor_id: Option<String>,
}

#[derive(Debug, Clone)]
pub struct PeripheralConfig {
    pub tasmota: Option<TasmotaConfig>,
    pub ddc: Option<DdcConfig>,
    pub looking_glass: Option<LookingGlassConfig>,
    pub spice: Option<SpiceConfig>,
}

#[derive(Debug, Clone)]
pub struct TasmotaConfig {
    /// MQTT broker, e.g. "mqtt://homeassistant.local.arpa:1883".
    pub mqtt_host: String,
    pub username: Option<String>,
    pub password: Option<String>,
    /// Device id in the topic "cmnd/<device_id>/POWER".
    pub device_id: String,
}

#[derive(Debug, Clone, Copy)]
pub struct DdcConfig {
    pub monitor_i2c_bus: u8,
    pub vm_input: u8,
    pub host_input: u8,
    /// DDC errors abort the VM when true.
    pub fatal_on_error: bool,
}

#[derive(Debug, Clone)]
pub struct LookingGlassConfig {
    pub shm_name: String,
    /// Size of the shared-memory region in MiB; zero disables the wiring.
    pub mem_mb: u64,
}

/// SPICE display and vdagent wiring.
#[derive(Debug, Clone)]
pub struct SpiceConfig {
    pub enabled: bool,
    pub port: u16,
    pub addr: String,
}

/// The first configuration error: no VMs, or a VM with no vCPUs or an
/// empty vCPU list.
pub open spec fn config_error(vms: Seq<(String, VmConfig)>) -> Option<Seq<char>>
    decreases vms.len(),
{
    if vms.len() == 0 {
        Some("no VMs defined"@)
    } else {
        vm_error(vms)
    }
}

pub open spec fn vm_error(vms: Seq<(String, VmConfig)>) -> Option<Seq<char>>
    decreases vms.len(),
{
    if vms.len() == 0 {
        None
    } else {
        match vm_error(vms.drop_last()) {
            Some(e) => Some(e),
            None => {
                let (name, vm) = vms.last();
                if vm.qemu.num_vcpus == 0 {
                    Some("vm "@ + name@ + ": num_vcpus must be > 0"@)
                } else if vm.cpu.vm_cpus@.len() == 0 {
                    Some("vm "@ + name@ + ": vm_cpus must not be empty"@)
                } else {
                    None
                }
            },
        }
    }
}

impl RootConfig {
    /// Check the configuration: at least one VM, each with vCPUs and a
    /// non-empty vCPU list.
    pub fn validate(&self) -> (r: Result<()>)
        ensures
            match config_error(self.vm@) {
                Some(e) => r matches Err(ChalybsError::Config(m)) && m@ == e,
                None => r is Ok,
            },
    {
        if self.vm.len() == 0 {
            return Err(ChalybsError::Config(lit("no VMs defined")));
        }
        let mut i: usize = 0;
        while i < self.vm.len()
            invariant
                i <= self.vm@.len(),
                self.vm@.len() > 0,
                vm_error(self.vm@.take(i as int)) is None,
            decreases self.vm@.len() - i,
        {
            assert(self.vm@.take(i + 1).drop_last() =~= self.vm@.take(i as int));
            assert(self.vm@.take(i + 1).last() == self.vm@[i as int]);
            let (name, vm) = &self.vm[i];
            if vm.qemu.num_vcpus == 0 {
                let mut m = lit("vm ");
                m.append(name.as_str());
                m.append(": num_vcpus must be > 0");
                proof {
                    lemma_vm_error_sticks(self.vm@, i + 1);
                }
                return Err(ChalybsError::Config(m));
            }
            if crate::text::chars_of(vm.cpu.vm_cpus.as_str()).len() == 0 {
                let mut m = lit("vm ");
                m.append(name.as_str());
                m.append(": vm_cpus must not be empty");
                proof {
                    lemma_vm_error_sticks(self.vm@, i + 1);
                }
                return Err(ChalybsError::Config(m));
            }
            i = i + 1;
        }
        assert(self.vm@.take(self.vm@.len() as int) =~= self.vm@);
        Ok(())
    }
}

proof fn lemma_vm_error_sticks(vms: Seq<(String, VmConfig)>, n: int)
    requires
        0 <= n <= vms.len(),
        vm_error(vms.take(n)) is Some,
    ensures
        vm_error(vms) == vm_error(vms.take(n)),
    decreases vms.len() - n,
{
    if n < vms.len() {
        assert(vms.take(n + 1).drop_last() =~= vms.take(n));
        lemma_vm_error_sticks(vms, n + 1);
    } else {
        assert(vms.take(n) =~= vms);
    }
}

} // verus!
