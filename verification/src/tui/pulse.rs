//! The pulsing state indicator and the isolation badge of a VM row.
use vstd::prelude::*;
use crate::text::{lit, str_eq};

verus! {

/// The pulse phase: one of four, each held for four ticks.
pub open spec fn pulse_phase(tick: u64) -> u64 {
    (tick / 4) % 4
}

/// The state glyph and whether it is bold: with pulsing on, the glyph
/// breathes • ● ◉ ● and is bold at its peak (◉); with pulsing off it is a
/// steady ●.
pub open spec fn pulse_spec(tick: u64, pulse: bool) -> (Seq<char>, bool) {
    if !pulse {
        ("●"@, false)
    } else {
        let p = pulse_phase(tick);
        if p == 0 {
            ("•"@, false)
        } else if p == 2 {
            ("◉"@, true)
        } else {
            ("●"@, false)
        }
    }
}

/// The state glyph of a VM row at `tick`, and whether it is drawn bold.
pub fn pulse_glyph(tick: u64, pulse: bool) -> (r: (&'static str, bool))
    ensures
        (r.0@, r.1) == pulse_spec(tick, pulse),
{
    if !pulse {
        return ("●", false);
    }
    let p = (tick / 4) % 4;
    if p == 0 {
        ("•", false)
    } else if p == 2 {
        ("◉", true)
    } else {
        ("●", false)
    }
}

/// How strongly a VM's isolation is enforced, as its badge shows it.
#[derive(Debug, Clone, Copy, PartialEq, Eq, Structural)]
pub enum IsoBadgeLevel {
    /// Neutral: isolation disabled, or a mode the UI does not know.
    Neutral,
    /// Audit only.
    Warn,
    /// Enforced.
    Good,
}

/// The isolation badge of a mode name: `[iso-]` for disabled (neutral)
/// and audit (warn), `[ISO]` for enforce, `[iso:<mode>]` (neutral) for
/// anything else.
pub open spec fn iso_badge_spec(mode: Seq<char>) -> (Seq<char>, IsoBadgeLevel) {
    if mode == "disabled"@ {
        ("[iso-]"@, IsoBadgeLevel::Neutral)
    } else if mode == "audit"@ {
        ("[iso-]"@, IsoBadgeLevel::Warn)
    } else if mode == "enforce"@ {
        ("[ISO]"@, IsoBadgeLevel::Good)
    } else {
        ("[iso:"@ + mode + "]"@, IsoBadgeLevel::Neutral)
    }
}

/// The isolation badge text and level of a VM row.
pub fn iso_badge(mode: &str) -> (r: (String, IsoBadgeLevel))
    ensures
        (r.0@, r.1) == iso_badge_spec(mode@),
{
    if str_eq(mode, "disabled") {
        (lit("[iso-]"), IsoBadgeLevel::Neutral)
    } else if str_eq(mode, "audit") {
        (lit("[iso-]"), IsoBadgeLevel::Warn)
    } else if str_eq(mode, "enforce") {
        (lit("[ISO]"), IsoBadgeLevel::Good)
    } else {
        let mut s = lit("[iso:");
        s.append(mode);
        s.append("]");
        (s, IsoBadgeLevel::Neutral)
    }
}

} // verus!
