//! VM lifecycle peripherals: relay power, monitor input, Looking Glass and
//! SPICE.
//!
//! `vm_up_steps` and `vm_down_steps` decide which hooks run, in which
//! order; the application runs them.
use vstd::prelude::*;
use crate::config::PeripheralConfig;

pub mod ddc;
pub mod looking_glass;
pub mod spice;
pub mod tasmota;

verus! {

/// One hook invocation; the flag is true for VM start, false for stop.
#[derive(Debug, Clone, Copy, PartialEq, Eq, Structural)]
pub enum PeripheralStep {
    Tasmota(bool),
    Ddc(bool),
    /// DDC at VM start held back until IRQ pinning has completed.
    DdcDeferred,
    LookingGlass(bool),
    Spice(bool),
}

pub open spec fn when(b: bool, s: PeripheralStep) -> Seq<PeripheralStep> {
    if b {
        seq![s]
    } else {
        Seq::empty()
    }
}

/// VM start: relay, then monitor input (only once IRQ pinning has
/// completed), then Looking Glass, then SPICE, each if configured.
pub open spec fn up_steps(cfg: Option<PeripheralConfig>, irq_pinning_complete: bool) -> Seq<
    PeripheralStep,
> {
    match cfg {
        None => Seq::empty(),
        Some(c) => when(c.tasmota is Some, PeripheralStep::Tasmota(true)) + when(
            c.ddc is Some,
            if irq_pinning_complete {
                PeripheralStep::Ddc(true)
            } else {
                PeripheralStep::DdcDeferred
            },
        ) + when(c.looking_glass is Some, PeripheralStep::LookingGlass(true)) + when(
            c.spice is Some,
            PeripheralStep::Spice(true),
        ),
    }
}

/// VM stop: the same hooks in the same order, DDC unconditionally.
pub open spec fn down_steps(cfg: Option<PeripheralConfig>) -> Seq<PeripheralStep> {
    match cfg {
        None => Seq::empty(),
        Some(c) => when(c.tasmota is Some, PeripheralStep::Tasmota(false)) + when(
            c.ddc is Some,
            PeripheralStep::Ddc(false),
        ) + when(c.looking_glass is Some, PeripheralStep::LookingGlass(false)) + when(
            c.spice is Some,
            PeripheralStep::Spice(false),
        ),
    }
}

/// The relay is switched on at start and off at stop exactly when one is
/// configured, before any other hook; the monitor is switched to the VM
/// at start only once IRQ pinning has completed; and stopping never
/// switches anything on.
pub proof fn lemma_peripheral_order(cfg: Option<PeripheralConfig>, irq_pinning_complete: bool)
    ensures
        up_steps(cfg, irq_pinning_complete).contains(PeripheralStep::Tasmota(true)) <==> (cfg matches Some(
            c,
        ) && c.tasmota is Some),
        down_steps(cfg).contains(PeripheralStep::Tasmota(false)) <==> (cfg matches Some(c)
            && c.tasmota is Some),
        (cfg matches Some(c) && c.tasmota is Some) ==> up_steps(cfg, irq_pinning_complete)[0]
            == PeripheralStep::Tasmota(true) && down_steps(cfg)[0] == PeripheralStep::Tasmota(false),
        !irq_pinning_complete ==> !up_steps(cfg, irq_pinning_complete).contains(PeripheralStep::Ddc(true)),
        forall|i: int|
            0 <= i < down_steps(cfg).len() ==> !(#[trigger] down_steps(cfg)[i] matches PeripheralStep::Tasmota(
                true,
            )) && down_steps(cfg)[i] != PeripheralStep::Ddc(true) && down_steps(cfg)[i]
                != PeripheralStep::LookingGlass(true) && down_steps(cfg)[i] != PeripheralStep::Spice(true)
                && down_steps(cfg)[i] != PeripheralStep::DdcDeferred,
{
    match cfg {
        None => {},
        Some(c) => {
            let t = when(c.tasmota is Some, PeripheralStep::Tasmota(true));
            let d = when(
                c.ddc is Some,
                if irq_pinning_complete {
                    PeripheralStep::Ddc(true)
                } else {
                    PeripheralStep::DdcDeferred
                },
            );
            let l = when(c.looking_glass is Some, PeripheralStep::LookingGlass(true));
            let s = when(c.spice is Some, PeripheralStep::Spice(true));
            let up = up_steps(cfg, irq_pinning_complete);
            assert(up == t + d + l + s);
            assert forall|x: PeripheralStep| #[trigger] up.contains(x) implies t.contains(x) || d.contains(x)
                || l.contains(x) || s.contains(x) by {
                let i = choose|i: int| 0 <= i < up.len() && up[i] == x;
                if i < t.len() {
                    assert(t[i] == x);
                } else if i < t.len() + d.len() {
                    assert(d[i - t.len()] == x);
                } else if i < t.len() + d.len() + l.len() {
                    assert(l[i - t.len() - d.len()] == x);
                } else {
                    assert(s[i - t.len() - d.len() - l.len()] == x);
                }
            }
            if c.tasmota is Some {
                assert(up[0] == PeripheralStep::Tasmota(true));
                assert(down_steps(cfg)[0] == PeripheralStep::Tasmota(false));
            }
            let dt = when(c.tasmota is Some, PeripheralStep::Tasmota(false));
            let dd = when(c.ddc is Some, PeripheralStep::Ddc(false));
            let dl = when(c.looking_glass is Some, PeripheralStep::LookingGlass(false));
            let ds = when(c.spice is Some, PeripheralStep::Spice(false));
            let down = down_steps(cfg);
            assert(down == dt + dd + dl + ds);
            assert forall|i: int| 0 <= i < down.len() implies (#[trigger] down[i] == PeripheralStep::Tasmota(
                false,
            ) || down[i] == PeripheralStep::Ddc(false) || down[i] == PeripheralStep::LookingGlass(false)
                || down[i] == PeripheralStep::Spice(false)) by {
                if i < dt.len() {
                    assert(down[i] == dt[i]);
                } else if i < dt.len() + dd.len() {
                    assert(down[i] == dd[i - dt.len()]);
                } else if i < dt.len() + dd.len() + dl.len() {
                    assert(down[i] == dl[i - dt.len() - dd.len()]);
                } else {
                    assert(down[i] == ds[i - dt.len() - dd.len() - dl.len()]);
                }
            }
            if c.tasmota is Some {
                assert(down[0] == PeripheralStep::Tasmota(false));
                assert(down.contains(PeripheralStep::Tasmota(false)));
                assert(up.contains(PeripheralStep::Tasmota(true)));
            } else {
                if down.contains(PeripheralStep::Tasmota(false)) {
                    let i = choose|i: int| 0 <= i < down.len() && down[i] == PeripheralStep::Tasmota(false);
                    assert(down[i] == PeripheralStep::Tasmota(false));
                }
            }
        },
    }
}

fn push_when(v: &mut Vec<PeripheralStep>, b: bool, s: PeripheralStep)
    ensures
        final(v)@ == old(v)@ + when(b, s),
{
    if b {
        v.push(s);
        assert(final(v)@ =~= old(v)@ + when(b, s));
    } else {
        assert(old(v)@ + when(b, s) =~= old(v)@);
    }
}

/// The hooks to run at VM start.
pub fn vm_up_steps(cfg: &Option<PeripheralConfig>, irq_pinning_complete: bool) -> (r: Vec<
    PeripheralStep,
>)
    ensures
        r@ == up_steps(*cfg, irq_pinning_complete),
{
    let mut v: Vec<PeripheralStep> = Vec::new();
    match cfg {
        None => {
            assert(v@ =~= up_steps(*cfg, irq_pinning_complete));
        },
        Some(c) => {
            push_when(&mut v, c.tasmota.is_some(), PeripheralStep::Tasmota(true));
            let d = if irq_pinning_complete {
                PeripheralStep::Ddc(true)
            } else {
                PeripheralStep::DdcDeferred
            };
            push_when(&mut v, c.ddc.is_some(), d);
            push_when(&mut v, c.looking_glass.is_some(), PeripheralStep::LookingGlass(true));
            push_when(&mut v, c.spice.is_some(), PeripheralStep::Spice(true));
            assert(v@ =~= up_steps(*cfg, irq_pinning_complete));
        },
    }
    v
}

/// The hooks to run at VM stop.
pub fn vm_down_steps(cfg: &Option<PeripheralConfig>) -> (r: Vec<PeripheralStep>)
    ensures
        r@ == down_steps(*cfg),
{
    let mut v: Vec<PeripheralStep> = Vec::new();
    match cfg {
        None => {
            assert(v@ =~= down_steps(*cfg));
        },
        Some(c) => {
            push_when(&mut v, c.tasmota.is_some(), PeripheralStep::Tasmota(false));
            push_when(&mut v, c.ddc.is_some(), PeripheralStep::Ddc(false));
            push_when(&mut v, c.looking_glass.is_some(), PeripheralStep::LookingGlass(false));
            push_when(&mut v, c.spice.is_some(), PeripheralStep::Spice(false));
            assert(v@ =~= down_steps(*cfg));
        },
    }
    v
}

} // verus!
