//! The VM lifecycle state machine.
//!
//! Bring-up walks Init → Validate → PrepareHugepages → PreparePci →
//! ReserveCpus → LaunchQemu → DetectThreads → PinVcpus → DetectMsi →
//! PinIrqs → PeripheralHooks → Steady, one state per step. Shutdown walks
//! any state → Shutdown → Cleanup → Idle. Each step is a list of actions:
//! events to record and work for the application to perform, in order;
//! the first failing work item ends the step with its error and leaves the
//! state where it was. The state advances to the step's `next` only when
//! every action succeeded.
use vstd::prelude::*;
use crate::cpu::detect::classify::{arch_of, CpuArch};
use crate::cpu::detect::cpuid::CpuIdentity;
use crate::cpu::detect::topology::HostNumaTopology;
use crate::cpu::detect::classify_cpu;
use crate::cpuplan::builder::{build_cpu_plan, dominant, node_matches, vm_node_count, CpuPlanInputs};
use crate::cpuplan::plan::CpuPlan;
use crate::cpuplan::validate::{outside, validate_cpu_plan, CpuPlanValidationError};
use crate::error::{ChalybsError, Result};
use crate::fmt::{dec, join, join_strings, lemma_views_push, u64_to_dec, views};
use crate::model::VmCpuLayout;
use crate::text::lit;

verus! {

#[derive(Debug, Clone, Copy, PartialEq, Eq, Structural)]
pub enum VmState {
    Init,
    Validate,
    PrepareHugepages,
    PreparePci,
    ReserveCpus,
    LaunchQemu,
    DetectThreads,
    PinVcpus,
    DetectMsi,
    PinIrqs,
    PeripheralHooks,
    Steady,
    Shutdown,
    Cleanup,
    Idle,
}

/// The state's name as `{:?}` prints it.
pub open spec fn state_name(s: VmState) -> Seq<char> {
    match s {
        VmState::Init => "Init"@,
        VmState::Validate => "Validate"@,
        VmState::PrepareHugepages => "PrepareHugepages"@,
        VmState::PreparePci => "PreparePci"@,
        VmState::ReserveCpus => "ReserveCpus"@,
        VmState::LaunchQemu => "LaunchQemu"@,
        VmState::DetectThreads => "DetectThreads"@,
        VmState::PinVcpus => "PinVcpus"@,
        VmState::DetectMsi => "DetectMsi"@,
        VmState::PinIrqs => "PinIrqs"@,
        VmState::PeripheralHooks => "PeripheralHooks"@,
        VmState::Steady => "Steady"@,
        VmState::Shutdown => "Shutdown"@,
        VmState::Cleanup => "Cleanup"@,
        VmState::Idle => "Idle"@,
    }
}

impl VmState {
    /// The state's name as `{:?}` prints it.
    pub fn name(&self) -> (r: &'static str)
        ensures
            r@ == state_name(*self),
    {
        match self {
            VmState::Init => "Init",
            VmState::Validate => "Validate",
            VmState::PrepareHugepages => "PrepareHugepages",
            VmState::PreparePci => "PreparePci",
            VmState::ReserveCpus => "ReserveCpus",
            VmState::LaunchQemu => "LaunchQemu",
            VmState::DetectThreads => "DetectThreads",
            VmState::PinVcpus => "PinVcpus",
            VmState::DetectMsi => "DetectMsi",
            VmState::PinIrqs => "PinIrqs",
            VmState::PeripheralHooks => "PeripheralHooks",
            VmState::Steady => "Steady",
            VmState::Shutdown => "Shutdown",
            VmState::Cleanup => "Cleanup",
            VmState::Idle => "Idle",
        }
    }
}

/// Work the application performs for a lifecycle step.
#[derive(Debug, Clone, Copy, PartialEq, Eq, Structural)]
pub enum Work {
    CpusetPreflight,
    QemuPreflight,
    GpuPreflight,
    /// Build and validate the CPU plan (see `plan_cpus`).
    PlanCpus,
    ProvisionHugepages,
    StagePci,
    ReserveCpus,
    LaunchQemu,
    /// Record the launched QEMU pid (see `qemu_launch_event`).
    ReportQemuPid,
    WaitForThreads,
    PinVcpus,
    MarkThreadsPinned,
    SpawnIrqWorker,
    MarkIrqsPinned,
    PeripheralsUp,
    StopQemu,
    RestorePci,
    CleanupCpus,
    CleanupHugepages,
    PeripheralsDown,
}

/// One action of a lifecycle step.
#[derive(Debug)]
pub enum LifecycleAction {
    /// Record a system event.
    System(String),
    /// Record an informational event.
    Info(String),
    /// Perform work; a failure ends the step.
    Do(Work),
}

pub enum ActionView {
    System(Seq<char>),
    Info(Seq<char>),
    Do(Work),
}

pub open spec fn action_view(a: LifecycleAction) -> ActionView {
    match a {
        LifecycleAction::System(s) => ActionView::System(s@),
        LifecycleAction::Info(s) => ActionView::Info(s@),
        LifecycleAction::Do(w) => ActionView::Do(w),
    }
}

pub open spec fn actions_view(v: Seq<LifecycleAction>) -> Seq<ActionView> {
    v.map_values(|a: LifecycleAction| action_view(a))
}

/// One lifecycle step: its actions in order, and the state reached when
/// all of them succeed.
#[derive(Debug)]
pub struct LifecycleStep {
    pub actions: Vec<LifecycleAction>,
    pub next: VmState,
}

pub open spec fn sys(s: Seq<char>) -> ActionView {
    ActionView::System(s)
}

pub open spec fn info(s: Seq<char>) -> ActionView {
    ActionView::Info(s)
}

pub open spec fn work(w: Work) -> ActionView {
    ActionView::Do(w)
}

/// A bring-up step from `s`: its actions and the next state; `None` for
/// the shutdown-side states, where a bring-up step is an error.
pub open spec fn bring_up_spec(s: VmState) -> Option<(Seq<ActionView>, VmState)> {
    match s {
        VmState::Init => Some((seq![sys("state=Init"@)], VmState::Validate)),
        VmState::Validate => Some(
            (
                seq![
                    sys("state=Validate"@),
                    work(Work::CpusetPreflight),
                    info("cpuset: preflight checks completed successfully"@),
                    work(Work::QemuPreflight),
                    info("qemu: preflight checks completed successfully"@),
                    work(Work::GpuPreflight),
                    info("pci: GPU policy preflight completed successfully"@),
                    work(Work::PlanCpus),
                ],
                VmState::PrepareHugepages,
            ),
        ),
        VmState::PrepareHugepages => Some(
            (
                seq![sys("state=PrepareHugepages"@), work(Work::ProvisionHugepages)],
                VmState::PreparePci,
            ),
        ),
        VmState::PreparePci => Some(
            (
                seq![
                    sys("state=PreparePci"@),
                    work(Work::StagePci),
                    info("vfio: PCI staging completed for VM passthrough devices"@),
                ],
                VmState::ReserveCpus,
            ),
        ),
        VmState::ReserveCpus => Some(
            (
                seq![
                    sys("state=ReserveCpus"@),
                    work(Work::ReserveCpus),
                    info("cpuset: VM/host cpuset hierarchy created"@),
                ],
                VmState::LaunchQemu,
            ),
        ),
        VmState::LaunchQemu => Some(
            (
                seq![sys("state=LaunchQemu"@), work(Work::LaunchQemu), work(Work::ReportQemuPid)],
                VmState::DetectThreads,
            ),
        ),
        VmState::DetectThreads => Some(
            (
                seq![
                    sys("state=DetectThreads"@),
                    work(Work::WaitForThreads),
                    info("affinity: QEMU threads discovered for pinning"@),
                ],
                VmState::PinVcpus,
            ),
        ),
        VmState::PinVcpus => Some(
            (
                seq![
                    sys("state=PinVcpus"@),
                    work(Work::PinVcpus),
                    work(Work::MarkThreadsPinned),
                    info("affinity: vCPU threads pinned to VM cpuset"@),
                ],
                VmState::DetectMsi,
            ),
        ),
        VmState::DetectMsi => Some(
            (
                seq![
                    sys("state=DetectMsi"@),
                    work(Work::SpawnIrqWorker),
                    info(
                        "irq: background worker spawned for MSI/MSI-X detection and IRQ pinning"@,
                    ),
                ],
                VmState::PinIrqs,
            ),
        ),
        VmState::PinIrqs => Some(
            (
                seq![
                    sys("state=PinIrqs"@),
                    work(Work::MarkIrqsPinned),
                    info("irq: IRQ pinning delegated to background worker"@),
                ],
                VmState::PeripheralHooks,
            ),
        ),
        VmState::PeripheralHooks => Some(
            (
                seq![
                    sys("state=PeripheralHooks"@),
                    work(Work::PeripheralsUp),
                    info("peripherals: VM up hooks applied successfully"@),
                ],
                VmState::Steady,
            ),
        ),
        VmState::Steady => Some(
            (
                seq![
                    sys("state=Steady"@),
                    info("vm: already in steady-state (all bring-up phases complete)"@),
                ],
                VmState::Steady,
            ),
        ),
        VmState::Shutdown | VmState::Cleanup | VmState::Idle => None,
    }
}

/// A shutdown step from `s`: its actions and the next state.
pub open spec fn shutdown_spec(s: VmState) -> (Seq<ActionView>, VmState) {
    match s {
        VmState::Steady | VmState::PinIrqs | VmState::PeripheralHooks => (
            seq![
                sys("state=Shutdown"@),
                work(Work::StopQemu),
                info("qemu: shutdown requested for VM instance"@),
            ],
            VmState::Shutdown,
        ),
        VmState::Shutdown => (
            seq![
                sys("state=RestorePci (restore PCI driver bindings)"@),
                work(Work::RestorePci),
                info("vfio: restore of PCI driver bindings requested for VM devices"@),
                sys("state=Cleanup"@),
                work(Work::CleanupCpus),
                info("cpuset: VM/host cpuset hierarchy cleaned up"@),
                work(Work::CleanupHugepages),
                info("hugepages: teardown completed for VM instance"@),
                work(Work::PeripheralsDown),
                info("peripherals: VM down hooks applied successfully"@),
            ],
            VmState::Cleanup,
        ),
        VmState::Cleanup => (
            seq![sys("state=Idle (VM shutdown sequence completed)"@)],
            VmState::Idle,
        ),
        VmState::Idle => (seq![sys("state=Idle (shutdown already completed)"@)], VmState::Idle),
        _ => (
            seq![
                sys("state=Shutdown (from "@ + state_name(s) + ")"@),
                work(Work::StopQemu),
                info("qemu: shutdown requested for VM instance (from non-steady state)"@),
            ],
            VmState::Shutdown,
        ),
    }
}

fn push_system(v: &mut Vec<LifecycleAction>, s: &str)
    ensures
        actions_view(final(v)@) == actions_view(old(v)@).push(ActionView::System(s@)),
{
    v.push(LifecycleAction::System(lit(s)));
    assert(actions_view(final(v)@) =~= actions_view(old(v)@).push(ActionView::System(s@)));
}

fn push_info(v: &mut Vec<LifecycleAction>, s: &str)
    ensures
        actions_view(final(v)@) == actions_view(old(v)@).push(ActionView::Info(s@)),
{
    v.push(LifecycleAction::Info(lit(s)));
    assert(actions_view(final(v)@) =~= actions_view(old(v)@).push(ActionView::Info(s@)));
}

fn push_work(v: &mut Vec<LifecycleAction>, w: Work)
    ensures
        actions_view(final(v)@) == actions_view(old(v)@).push(ActionView::Do(w)),
{
    v.push(LifecycleAction::Do(w));
    assert(actions_view(final(v)@) =~= actions_view(old(v)@).push(ActionView::Do(w)));
}

/// One step of bring-up from `state`.
pub fn bring_up_step(state: VmState) -> (r: Result<LifecycleStep>)
    ensures
        match bring_up_spec(state) {
            Some((acts, n)) => r matches Ok(st) && actions_view(st.actions@) == acts && st.next
                == n,
            None => r matches Err(ChalybsError::State(m)) && m@
                == "step() called in invalid bring-up state: "@ + state_name(state),
        },
{
    let mut v: Vec<LifecycleAction> = Vec::new();
    assert(actions_view(v@) =~= Seq::<ActionView>::empty());
    let next = match state {
        VmState::Init => {
            push_system(&mut v, "state=Init");
            VmState::Validate
        },
        VmState::Validate => {
            push_system(&mut v, "state=Validate");
            push_work(&mut v, Work::CpusetPreflight);
            push_info(&mut v, "cpuset: preflight checks completed successfully");
            push_work(&mut v, Work::QemuPreflight);
            push_info(&mut v, "qemu: preflight checks completed successfully");
            push_work(&mut v, Work::GpuPreflight);
            push_info(&mut v, "pci: GPU policy preflight completed successfully");
            push_work(&mut v, Work::PlanCpus);
            VmState::PrepareHugepages
        },
        VmState::PrepareHugepages => {
            push_system(&mut v, "state=PrepareHugepages");
            push_work(&mut v, Work::ProvisionHugepages);
            VmState::PreparePci
        },
        VmState::PreparePci => {
            push_system(&mut v, "state=PreparePci");
            push_work(&mut v, Work::StagePci);
            push_info(&mut v, "vfio: PCI staging completed for VM passthrough devices");
            VmState::ReserveCpus
        },
        VmState::ReserveCpus => {
            push_system(&mut v, "state=ReserveCpus");
            push_work(&mut v, Work::ReserveCpus);
            push_info(&mut v, "cpuset: VM/host cpuset hierarchy created");
            VmState::LaunchQemu
        },
        VmState::LaunchQemu => {
            push_system(&mut v, "state=LaunchQemu");
            push_work(&mut v, Work::LaunchQemu);
            push_work(&mut v, Work::ReportQemuPid);
            VmState::DetectThreads
        },
        VmState::DetectThreads => {
            push_system(&mut v, "state=DetectThreads");
            push_work(&mut v, Work::WaitForThreads);
            push_info(&mut v, "affinity: QEMU threads discovered for pinning");
            VmState::PinVcpus
        },
        VmState::PinVcpus => {
            push_system(&mut v, "state=PinVcpus");
            push_work(&mut v, Work::PinVcpus);
            push_work(&mut v, Work::MarkThreadsPinned);
            push_info(&mut v, "affinity: vCPU threads pinned to VM cpuset");
            VmState::DetectMsi
        },
        VmState::DetectMsi => {
            push_system(&mut v, "state=DetectMsi");
            push_work(&mut v, Work::SpawnIrqWorker);
            push_info(
                &mut v,
                "irq: background worker spawned for MSI/MSI-X detection and IRQ pinning",
            );
            VmState::PinIrqs
        },
        VmState::PinIrqs => {
            push_system(&mut v, "state=PinIrqs");
            push_work(&mut v, Work::MarkIrqsPinned);
            push_info(&mut v, "irq: IRQ pinning delegated to background worker");
            VmState::PeripheralHooks
        },
        VmState::PeripheralHooks => {
            push_system(&mut v, "state=PeripheralHooks");
            push_work(&mut v, Work::PeripheralsUp);
            push_info(&mut v, "peripherals: VM up hooks applied successfully");
            VmState::Steady
        },
        VmState::Steady => {
            push_system(&mut v, "state=Steady");
            push_info(&mut v, "vm: already in steady-state (all bring-up phases complete)");
            VmState::Steady
        },
        VmState::Shutdown | VmState::Cleanup | VmState::Idle => {
            let mut m = lit("step() called in invalid bring-up state: ");
            m.append(state.name());
            return Err(ChalybsError::State(m));
        },
    };
    Ok(LifecycleStep { actions: v, next })
}

/// One step of shutdown from `state`.
pub fn shutdown_step(state: VmState) -> (r: LifecycleStep)
    ensures
        actions_view(r.actions@) == shutdown_spec(state).0,
        r.next == shutdown_spec(state).1,
{
    let mut v: Vec<LifecycleAction> = Vec::new();
    assert(actions_view(v@) =~= Seq::<ActionView>::empty());
    let next = match state {
        VmState::Steady | VmState::PinIrqs | VmState::PeripheralHooks => {
            push_system(&mut v, "state=Shutdown");
            push_work(&mut v, Work::StopQemu);
            push_info(&mut v, "qemu: shutdown requested for VM instance");
            VmState::Shutdown
        },
        VmState::Shutdown => {
            push_system(&mut v, "state=RestorePci (restore PCI driver bindings)");
            push_work(&mut v, Work::RestorePci);
            push_info(&mut v, "vfio: restore of PCI driver bindings requested for VM devices");
            push_system(&mut v, "state=Cleanup");
            push_work(&mut v, Work::CleanupCpus);
            push_info(&mut v, "cpuset: VM/host cpuset hierarchy cleaned up");
            push_work(&mut v, Work::CleanupHugepages);
            push_info(&mut v, "hugepages: teardown completed for VM instance");
            push_work(&mut v, Work::PeripheralsDown);
            push_info(&mut v, "peripherals: VM down hooks applied successfully");
            VmState::Cleanup
        },
        VmState::Cleanup => {
            push_system(&mut v, "state=Idle (VM shutdown sequence completed)");
            VmState::Idle
        },
        VmState::Idle => {
            push_system(&mut v, "state=Idle (shutdown already completed)");
            VmState::Idle
        },
        _ => {
            let mut m = lit("state=Shutdown (from ");
            m.append(state.name());
            m.append(")");
            let ghost before = actions_view(v@);
            v.push(LifecycleAction::System(m));
            assert(actions_view(v@) =~= before.push(
                ActionView::System("state=Shutdown (from "@ + state_name(state) + ")"@),
            ));
            push_work(&mut v, Work::StopQemu);
            push_info(&mut v, "qemu: shutdown requested for VM instance (from non-steady state)");
            VmState::Shutdown
        },
    };
    LifecycleStep { actions: v, next }
}

// ---------------------------------------------------------------------------
// Convergence
// ---------------------------------------------------------------------------

/// Whether a bring-up step is defined in `s`.
pub open spec fn is_bring_up_state(s: VmState) -> bool {
    bring_up_spec(s) is Some
}

/// The state after `n` successful bring-up steps from `s`.
pub open spec fn after_bring_up(s: VmState, n: nat) -> VmState
    decreases n,
{
    if n == 0 {
        s
    } else {
        match bring_up_spec(s) {
            Some((_, next)) => after_bring_up(next, (n - 1) as nat),
            None => s,
        }
    }
}

/// The state after `n` successful shutdown steps from `s`.
pub open spec fn after_shutdown(s: VmState, n: nat) -> VmState
    decreases n,
{
    if n == 0 {
        s
    } else {
        after_shutdown(shutdown_spec(s).1, (n - 1) as nat)
    }
}

/// Bring-up converges: from every state where a bring-up step is defined,
/// eleven successful steps reach Steady, and a step from Steady stays
/// there. From Init, Steady is first reached at the eleventh step.
pub proof fn lemma_bring_up_converges(s: VmState)
    requires
        is_bring_up_state(s),
    ensures
        after_bring_up(s, 11) == VmState::Steady,
        bring_up_spec(VmState::Steady) matches Some((_, n)) && n == VmState::Steady,
        after_bring_up(VmState::Init, 10) != VmState::Steady,
{
    reveal_with_fuel(after_bring_up, 12);
}

/// The position of a state in the lifecycle order
/// Init, Validate, ..., Steady, Shutdown, Cleanup, Idle.
pub open spec fn state_rank(s: VmState) -> int {
    match s {
        VmState::Init => 0,
        VmState::Validate => 1,
        VmState::PrepareHugepages => 2,
        VmState::PreparePci => 3,
        VmState::ReserveCpus => 4,
        VmState::LaunchQemu => 5,
        VmState::DetectThreads => 6,
        VmState::PinVcpus => 7,
        VmState::DetectMsi => 8,
        VmState::PinIrqs => 9,
        VmState::PeripheralHooks => 10,
        VmState::Steady => 11,
        VmState::Shutdown => 12,
        VmState::Cleanup => 13,
        VmState::Idle => 14,
    }
}

/// Bring-up never goes back or skips a phase: each successful step
/// before Steady moves to the next state in the lifecycle order.
/// Shutdown only moves forward too: from any state before Idle a step
/// reaches a later state, never returning into bring-up.
pub proof fn lemma_steps_advance(s: VmState)
    ensures
        s != VmState::Steady ==> (bring_up_spec(s) matches Some((_, n)) ==> state_rank(n)
            == state_rank(s) + 1),
        s != VmState::Idle ==> state_rank(shutdown_spec(s).1) > state_rank(s),
        state_rank(shutdown_spec(s).1) >= 12,
{
}

/// Shutdown converges: from every state, three successful shutdown steps
/// reach Idle, and a step from Idle stays there.
pub proof fn lemma_shutdown_converges(s: VmState)
    ensures
        after_shutdown(s, 3) == VmState::Idle,
        shutdown_spec(VmState::Idle).1 == VmState::Idle,
{
    reveal_with_fuel(after_shutdown, 4);
}

/// The state after a step from `state` whose actions were carried out
/// with outcome `actions`: the step's next state, reported, when every
/// action succeeded; otherwise the state it started from and the error.
/// A failed step never moves the machine.
pub fn settle_step(state: VmState, next: VmState, actions: Result<()>) -> (r: (VmState, Result<VmState>))
    ensures
        match actions {
            Ok(_) => r == (next, Ok::<VmState, ChalybsError>(next)),
            Err(e) => r == (state, Err::<VmState, ChalybsError>(e)),
        },
{
    match actions {
        Ok(_) => (next, Ok(next)),
        Err(e) => (state, Err(e)),
    }
}

/// One bring-up step from `s` whose actions had outcome `actions`, then
/// settled: it fails from Shutdown, Cleanup and Idle; otherwise a success
/// moves exactly one phase forward in lifecycle order (Steady stays
/// Steady), and a failure leaves the state as it was.
pub open spec fn bring_up_settled(s: VmState, actions: Result<()>) -> Option<(VmState, Result<VmState>)> {
    match bring_up_spec(s) {
        None => None,
        Some((_, n)) => Some(
            match actions {
                Ok(_) => (n, Ok::<VmState, ChalybsError>(n)),
                Err(e) => (s, Err::<VmState, ChalybsError>(e)),
            },
        ),
    }
}

/// A bring-up step settles one phase forward on success and stays put on
/// failure; no bring-up step exists from Shutdown, Cleanup or Idle.
pub proof fn lemma_bring_up_step_settles(s: VmState, actions: Result<()>)
    ensures
        (s == VmState::Shutdown || s == VmState::Cleanup || s == VmState::Idle) <==> bring_up_settled(
            s,
            actions,
        ) is None,
        bring_up_settled(s, actions) matches Some((t, r)) ==> match actions {
            Ok(_) => r == Ok::<VmState, ChalybsError>(t) && (if s == VmState::Steady {
                t == VmState::Steady
            } else {
                state_rank(t) == state_rank(s) + 1
            }),
            Err(e) => t == s && r == Err::<VmState, ChalybsError>(e),
        },
{
    lemma_steps_advance(s);
}

// ---------------------------------------------------------------------------
// CPU plan during Validate
// ---------------------------------------------------------------------------

/// Outcome of the CPU-plan part of validation.
#[derive(Debug)]
pub enum CpuPlanOutcome {
    /// A consistent plan; recorded on the runtime with an info event.
    Planned(CpuPlan),
    /// Structural findings; recorded as an error event and bring-up aborts
    /// with a state error carrying the same text.
    Rejected(String),
    /// Host signals missing; recorded as a warning and bring-up goes on
    /// without a plan.
    Skipped(String),
}

pub open spec fn finding_text(f: CpuPlanValidationError) -> Seq<char> {
    match f {
        CpuPlanValidationError::HostCpuOutsideTopology { cpu } => "host CPU "@ + dec(cpu as nat)
            + " listed in host_cpus is not present in any discovered NUMA node"@,
        CpuPlanValidationError::VmCpuOutsideTopology { cpu } => "VM CPU "@ + dec(cpu as nat)
            + " listed in vm_cpus is not present in any discovered NUMA node"@,
    }
}

pub open spec fn rejection_text(fs: Seq<CpuPlanValidationError>) -> Seq<char> {
    "cpuplan: structural CPU plan validation failed; VM bring-up aborted. Findings: "@ + join(
        fs.map_values(|f: CpuPlanValidationError| finding_text(f)),
        "; "@,
    )
}

/// The findings validation gives for a layout against a topology.
pub open spec fn plan_findings(t: HostNumaTopology, layout: VmCpuLayout) -> Seq<
    CpuPlanValidationError,
> {
    if t.nodes@.len() == 0 {
        Seq::empty()
    } else {
        outside(t.nodes@, layout.host.cpus@, true) + outside(t.nodes@, layout.vm.cpus@, false)
    }
}

fn finding_message(f: CpuPlanValidationError) -> (r: String)
    ensures
        r@ == finding_text(f),
{
    match f {
        CpuPlanValidationError::HostCpuOutsideTopology { cpu } => {
            let mut m = lit("host CPU ");
            m.append(u64_to_dec(cpu as u64).as_str());
            m.append(" listed in host_cpus is not present in any discovered NUMA node");
            m
        },
        CpuPlanValidationError::VmCpuOutsideTopology { cpu } => {
            let mut m = lit("VM CPU ");
            m.append(u64_to_dec(cpu as u64).as_str());
            m.append(" listed in vm_cpus is not present in any discovered NUMA node");
            m
        },
    }
}

/// The error text for a non-empty list of findings.
pub fn rejection_message(findings: &Vec<CpuPlanValidationError>) -> (r: String)
    ensures
        r@ == rejection_text(findings@),
{
    let mut msgs: Vec<String> = Vec::new();
    let mut i: usize = 0;
    while i < findings.len()
        invariant
            i <= findings@.len(),
            views(msgs@) == findings@.take(i as int).map_values(
                |f: CpuPlanValidationError| finding_text(f),
            ),
        decreases findings@.len() - i,
    {
        let m = finding_message(findings[i]);
        proof {
            lemma_views_push(msgs@, m);
        }
        msgs.push(m);
        assert(findings@.take(i + 1).map_values(|f: CpuPlanValidationError| finding_text(f))
            =~= findings@.take(i as int).map_values(
            |f: CpuPlanValidationError| finding_text(f),
        ).push(finding_text(findings@[i as int])));
        i = i + 1;
    }
    assert(findings@.take(findings@.len() as int) =~= findings@);
    let mut r = lit("cpuplan: structural CPU plan validation failed; VM bring-up aborted. Findings: ");
    r.append(join_strings(&msgs, "; ").as_str());
    r
}

/// The warning when the host CPU identity is unavailable (no CPUID).
pub fn cpu_identity_missing() -> (r: CpuPlanOutcome)
    ensures
        r matches CpuPlanOutcome::Skipped(m) && m@
            == "cpuplan: host CPU identity could not be detected via CPUID; skipping CPU plan construction for this VM"@,
{
    CpuPlanOutcome::Skipped(
        lit(
            "cpuplan: host CPU identity could not be detected via CPUID; skipping CPU plan construction for this VM",
        ),
    )
}

/// Build and check the CPU plan from the host identity, the topology read
/// from sysfs (or why it could not be read) and the VM's CPU layout.
pub fn plan_cpus(
    ident: CpuIdentity,
    topology: core::result::Result<HostNumaTopology, String>,
    layout: VmCpuLayout,
) -> (r: CpuPlanOutcome)
    ensures
        match topology {
            Err(e) => r matches CpuPlanOutcome::Skipped(m) && m@
                == "cpuplan: failed to read host NUMA topology from sysfs; skipping CPU plan construction for this VM: "@
                + e@,
            Ok(t) => {
                &&& (r is Planned <==> plan_findings(t, layout).len() == 0)
                &&& (r matches CpuPlanOutcome::Rejected(m) ==> m@ == rejection_text(
                    plan_findings(t, layout),
                ))
                &&& r is Planned || r is Rejected
                &&& (r matches CpuPlanOutcome::Planned(p) ==> {
                    &&& p.ident == ident
                    &&& p.arch == arch_of(ident.vendor, ident.family, ident.model)
                    &&& p.topology == t
                    &&& p.vm_layout == layout
                    &&& p.nodes@.len() == t.nodes@.len()
                    &&& forall|i: int|
                        0 <= i < p.nodes@.len() ==> node_matches(
                            #[trigger] p.nodes@[i],
                            t.nodes@[i],
                            layout.vm.cpus@,
                        )
                    &&& p.vm_spans_nodes == (vm_node_count(p.nodes@) > 1)
                    &&& p.dominant_node == dominant(p.nodes@).0
                })
            },
        },
{
    match topology {
        Err(e) => {
            let mut m = lit(
                "cpuplan: failed to read host NUMA topology from sysfs; skipping CPU plan construction for this VM: ",
            );
            m.append(e.as_str());
            CpuPlanOutcome::Skipped(m)
        },
        Ok(t) => {
            let arch = classify_cpu(&ident);
            let plan = build_cpu_plan(CpuPlanInputs::new(ident, arch, t, layout));
            let findings = validate_cpu_plan(&plan);
            if findings.len() > 0 {
                CpuPlanOutcome::Rejected(rejection_message(&findings))
            } else {
                CpuPlanOutcome::Planned(plan)
            }
        },
    }
}

/// The event recorded after QEMU was launched: its pid, or a warning when
/// no pid was recorded.
pub fn qemu_launch_event(pid: Option<i32>) -> (r: (bool, String))
    ensures
        match pid {
            Some(p) => !r.0 && r.1@ == "qemu: launched with pid "@ + int_text(p as int),
            None => r.0 && r.1@ == "qemu: launch completed but QemuState pid not recorded"@,
        },
{
    match pid {
        Some(p) => {
            let mut m = lit("qemu: launched with pid ");
            m.append(i64_to_dec(p as i64).as_str());
            (false, m)
        },
        None => (true, lit("qemu: launch completed but QemuState pid not recorded")),
    }
}

/// `format!("{}", n)` for a signed integer.
pub open spec fn int_text(n: int) -> Seq<char> {
    if n < 0 {
        "-"@ + dec((-n) as nat)
    } else {
        dec(n as nat)
    }
}

/// `format!("{}", n)` for an `i64`.
pub fn i64_to_dec(n: i64) -> (r: String)
    ensures
        r@ == int_text(n as int),
{
    if n < 0 {
        let m: u64 = if n == i64::MIN {
            9223372036854775808u64
        } else {
            (-n) as u64
        };
        let mut r = lit("-");
        r.append(u64_to_dec(m).as_str());
        r
    } else {
        u64_to_dec(n as u64)
    }
}

} // verus!
