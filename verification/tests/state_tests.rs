use chalybs::cpu::detect::cpuid::{CpuIdentity, CpuVendor};
use chalybs::cpu::detect::topology::{HostNumaNode, HostNumaTopology};
use chalybs::error::ChalybsError;
use chalybs::model::{CpuSet, VmCpuLayout};
use chalybs::state::{
    bring_up_step, cpu_identity_missing, i64_to_dec, plan_cpus, qemu_launch_event, shutdown_step,
    CpuPlanOutcome, LifecycleAction, VmState, Work,
};

fn zen3() -> CpuIdentity {
    CpuIdentity {
        vendor: CpuVendor::Amd,
        family: 0x19,
        model: 0x21,
        stepping: 0,
        raw_vendor: None,
        model_name: None,
    }
}

fn layout(host: Vec<u32>, vm: Vec<u32>) -> VmCpuLayout {
    VmCpuLayout { host: CpuSet { cpus: host }, vm: CpuSet { cpus: vm } }
}

#[test]
fn bring_up_reaches_steady_in_eleven_steps() {
    let mut s = VmState::Init;
    let mut steps = 0;
    while s != VmState::Steady {
        s = bring_up_step(s).unwrap().next;
        steps += 1;
    }
    assert_eq!(steps, 11);
    assert_eq!(bring_up_step(VmState::Steady).unwrap().next, VmState::Steady);
}

#[test]
fn shutdown_reaches_idle_in_three_steps_from_anywhere() {
    for start in [VmState::Init, VmState::Steady, VmState::LaunchQemu, VmState::Cleanup, VmState::Idle] {
        let mut s = start;
        for _ in 0..3 {
            s = shutdown_step(s).next;
        }
        assert_eq!(s, VmState::Idle, "from {start:?}");
    }
}

#[test]
fn bring_up_refuses_shutdown_states() {
    match bring_up_step(VmState::Cleanup) {
        Err(ChalybsError::State(m)) => {
            assert_eq!(m, "step() called in invalid bring-up state: Cleanup")
        }
        other => panic!("unexpected: {other:?}"),
    }
}

#[test]
fn validate_step_actions_in_order() {
    let step = bring_up_step(VmState::Validate).unwrap();
    assert_eq!(step.next, VmState::PrepareHugepages);
    let works: Vec<Work> = step
        .actions
        .iter()
        .filter_map(|a| match a {
            LifecycleAction::Do(w) => Some(*w),
            _ => None,
        })
        .collect();
    assert_eq!(
        works,
        vec![Work::CpusetPreflight, Work::QemuPreflight, Work::GpuPreflight, Work::PlanCpus]
    );
    assert!(matches!(&step.actions[0], LifecycleAction::System(s) if s == "state=Validate"));
}

#[test]
fn shutdown_from_non_steady_state_names_it() {
    let step = shutdown_step(VmState::LaunchQemu);
    assert_eq!(step.next, VmState::Shutdown);
    assert!(matches!(&step.actions[0], LifecycleAction::System(s) if s == "state=Shutdown (from LaunchQemu)"));
    let step = shutdown_step(VmState::Shutdown);
    assert_eq!(step.next, VmState::Cleanup);
    assert_eq!(step.actions.len(), 10);
}

#[test]
fn plan_cpus_outcomes() {
    let topo = HostNumaTopology { nodes: vec![HostNumaNode { node_id: 0, cpus: vec![0, 1, 2, 3] }] };
    match plan_cpus(zen3(), Ok(topo.clone()), layout(vec![0], vec![1, 2])) {
        CpuPlanOutcome::Planned(p) => assert_eq!(p.nodes[0].vm_cpus, vec![1, 2]),
        other => panic!("unexpected: {other:?}"),
    }
    match plan_cpus(zen3(), Ok(topo), layout(vec![0, 8], vec![9])) {
        CpuPlanOutcome::Rejected(m) => assert_eq!(
            m,
            "cpuplan: structural CPU plan validation failed; VM bring-up aborted. Findings: \
             host CPU 8 listed in host_cpus is not present in any discovered NUMA node; \
             VM CPU 9 listed in vm_cpus is not present in any discovered NUMA node"
        ),
        other => panic!("unexpected: {other:?}"),
    }
    match plan_cpus(zen3(), Err("no sysfs".to_string()), layout(vec![0], vec![1])) {
        CpuPlanOutcome::Skipped(m) => assert!(m.ends_with("for this VM: no sysfs")),
        other => panic!("unexpected: {other:?}"),
    }
    assert!(matches!(cpu_identity_missing(), CpuPlanOutcome::Skipped(_)));
}

#[test]
fn qemu_pid_event_text() {
    assert_eq!(qemu_launch_event(Some(4242)), (false, "qemu: launched with pid 4242".to_string()));
    assert!(qemu_launch_event(None).0);
    assert_eq!(i64_to_dec(-17), "-17");
    assert_eq!(i64_to_dec(i64::MIN), "-9223372036854775808");
    assert_eq!(VmState::PinIrqs.name(), "PinIrqs");
}
