//! Deterministic cosmetic glitches for the terminal UI.
//!
//! A rare, short glitch window is derived from the tick counter alone;
//! the same tick stream always gives the same glitches. Nothing here
//! changes application state.
use vstd::prelude::*;
use crate::text::push_char;

verus! {

#[derive(Clone, Copy, Debug, PartialEq, Eq, Structural)]
pub enum GlitchMode {
    ColorInvert,
    PhaseJitter,
    GhostFrame,
    JunkInjection,
    SpatialJitter,
}

#[derive(Clone, Copy, Debug, PartialEq, Eq, Structural)]
pub struct GlitchProfile {
    pub active: bool,
    /// 1..=3 while active.
    pub strength: u8,
    pub mode: GlitchMode,
    /// Bit mask of the `REGION_*` constants.
    pub regions: u8,
    /// Position 0..=2 within the burst.
    pub phase: u8,
}

pub const REGION_HEADER: u8 = 0b0000_0001;
pub const REGION_VMS: u8 = 0b0000_0010;
pub const REGION_EVENTS: u8 = 0b0000_0100;
pub const REGION_SHELL: u8 = 0b0000_1000;
pub const REGION_BORDERS: u8 = 0b0001_0000;
pub const REGION_SPARK: u8 = 0b0010_0000;

/// Frequency setting: a burst opportunity arises once in 256 >> this
/// many coarse ticks.
pub const GLITCH_DEBUG_MULTIPLIER: u8 = 4;

pub open spec fn inactive_profile() -> GlitchProfile {
    GlitchProfile { active: false, strength: 0, mode: GlitchMode::PhaseJitter, regions: 0, phase: 0 }
}

impl GlitchProfile {
    pub fn inactive() -> (r: Self)
        ensures
            r == inactive_profile(),
    {
        GlitchProfile { active: false, strength: 0, mode: GlitchMode::PhaseJitter, regions: 0, phase: 0 }
    }
}

/// The 64-bit mixing function behind every pseudo-random choice.
pub open spec fn mix(x: u64) -> u64 {
    let a = x ^ (x >> 12u64);
    let b = a ^ (a << 25u64);
    let c = b ^ (b >> 27u64);
    c.wrapping_mul(0x2545_F491_4F6C_DD1Du64)
}

pub fn mix64(x: u64) -> (r: u64)
    ensures
        r == mix(x),
{
    let a = x ^ (x >> 12u64);
    let b = a ^ (a << 25u64);
    let c = b ^ (b >> 27u64);
    c.wrapping_mul(0x2545_F491_4F6C_DD1Du64)
}

pub open spec fn mode_of(i: u64) -> GlitchMode {
    if i == 0 {
        GlitchMode::ColorInvert
    } else if i == 1 {
        GlitchMode::PhaseJitter
    } else if i == 2 {
        GlitchMode::GhostFrame
    } else if i == 3 {
        GlitchMode::JunkInjection
    } else {
        GlitchMode::SpatialJitter
    }
}

/// Regions from the mask bits: header, VMs, events, borders, spark line;
/// never the shell; the events panel when no bit is set.
pub open spec fn regions_of(rbits: u64) -> u8 {
    let r = (if rbits & 1 != 0 { REGION_HEADER } else { 0u8 }) | (if rbits & 2 != 0 {
        REGION_VMS
    } else {
        0u8
    }) | (if rbits & 4 != 0 { REGION_EVENTS } else { 0u8 }) | (if rbits & 8 != 0 {
        REGION_BORDERS
    } else {
        0u8
    }) | (if rbits & 16 != 0 { REGION_SPARK } else { 0u8 });
    if r == 0 {
        REGION_EVENTS
    } else {
        r
    }
}

/// The glitch profile of a tick: nothing in the first 128 ticks; after
/// that a burst spans a coarse window of three ticks and happens when the
/// mixed window number has its low bits clear. Its strength is two mixed
/// bits plus one, at most 3.
pub open spec fn glitch_spec(tick: u64) -> GlitchProfile {
    if tick < 128 {
        inactive_profile()
    } else {
        let seed = mix(tick / 3);
        if seed & (0xFFu64 >> 4u64) != 0 {
            inactive_profile()
        } else {
            GlitchProfile {
                active: true,
                strength: if (seed >> 8u64) & 3 == 3 { 3u8 } else { (((seed >> 8u64) & 3) + 1) as u8 },
                mode: mode_of((seed >> 16u64) % 5),
                regions: regions_of((seed >> 24u64) & 0xFF),
                phase: (tick % 3) as u8,
            }
        }
    }
}

pub fn glitch_profile(tick: u64) -> (r: GlitchProfile)
    ensures
        r == glitch_spec(tick),
{
    if tick < 128 {
        return GlitchProfile::inactive();
    }
    let seed = mix64(tick / 3);
    let effective_mask = 0xFFu64 >> 4u64;
    if seed & effective_mask != 0 {
        return GlitchProfile::inactive();
    }
    assert((seed >> 8u64) & 3 <= 3) by (bit_vector);
    let raw = (seed >> 8u64) & 3;
    let strength: u8 = if raw == 3 { 3 } else { (raw + 1) as u8 };
    let mi = (seed >> 16u64) % 5;
    let mode = if mi == 0 {
        GlitchMode::ColorInvert
    } else if mi == 1 {
        GlitchMode::PhaseJitter
    } else if mi == 2 {
        GlitchMode::GhostFrame
    } else if mi == 3 {
        GlitchMode::JunkInjection
    } else {
        GlitchMode::SpatialJitter
    };
    let rbits = (seed >> 24u64) & 0xFF;
    let a: u8 = if rbits & 1 != 0 { REGION_HEADER } else { 0u8 };
    let b: u8 = if rbits & 2 != 0 { REGION_VMS } else { 0u8 };
    let c: u8 = if rbits & 4 != 0 { REGION_EVENTS } else { 0u8 };
    let d: u8 = if rbits & 8 != 0 { REGION_BORDERS } else { 0u8 };
    let e: u8 = if rbits & 16 != 0 { REGION_SPARK } else { 0u8 };
    let mut regions: u8 = a | b | c | d | e;
    if regions == 0 {
        regions = REGION_EVENTS;
    }
    GlitchProfile { active: true, strength, mode, regions, phase: (tick % 3) as u8 }
}

pub open spec fn affects(p: GlitchProfile, mask: u8) -> bool {
    p.active && (p.regions & mask) != 0
}

/// Whether the glitch touches any of the regions in `region_mask`.
pub fn affects_region(profile: &GlitchProfile, region_mask: u8) -> (r: bool)
    ensures
        r == affects(*profile, region_mask),
{
    profile.active && (profile.regions & region_mask) != 0
}

/// The animation tick a region uses: phase jitter pushes it forward,
/// ghost frames pull it back (not below zero).
pub open spec fn tick_for_spec(base: u64, p: GlitchProfile, mask: u8) -> u64 {
    if !affects(p, mask) {
        base
    } else {
        match p.mode {
            GlitchMode::PhaseJitter => base.wrapping_add(
                ((p.phase + 1) * (3 + p.strength * 2)) as u64,
            ),
            GlitchMode::GhostFrame => {
                let back: u64 = if p.phase + 1 < 3 { (p.phase + 1) as u64 } else { 3 };
                if base >= back { (base - back) as u64 } else { 0 }
            },
            _ => base,
        }
    }
}

pub fn tick_for_region(base_tick: u64, profile: &GlitchProfile, region_mask: u8) -> (r: u64)
    ensures
        r == tick_for_spec(base_tick, *profile, region_mask),
{
    if !affects_region(profile, region_mask) {
        return base_tick;
    }
    match profile.mode {
        GlitchMode::PhaseJitter => {
            let ph = profile.phase as u64 + 1;
            let st = 3 + profile.strength as u64 * 2;
            assert(ph * st <= 256 * 513) by (nonlinear_arith)
                requires
                    ph <= 256,
                    st <= 513,
            ;
            let delta = ph * st;
            base_tick.wrapping_add(delta)
        },
        GlitchMode::GhostFrame => {
            let back: u64 = if (profile.phase as u64 + 1) < 3 {
                profile.phase as u64 + 1
            } else {
                3
            };
            base_tick.saturating_sub(back)
        },
        _ => base_tick,
    }
}

/// A horizontal offset in -1..=1 for `lane`, only in spatial-jitter mode
/// for an affected region.
pub open spec fn jitter_spec(p: GlitchProfile, mask: u8, lane: u16) -> i8 {
    if !affects(p, mask) || p.mode != GlitchMode::SpatialJitter {
        0i8
    } else {
        let local = mix((lane as u64).wrapping_mul(0x9E37_79B1_85EB_CA87u64).wrapping_add(
            (p.phase as u64 * 31) as u64,
        ));
        if local & 3 == 0 {
            -1i8
        } else if local & 3 == 1 {
            1i8
        } else {
            0i8
        }
    }
}

pub fn space_jitter(profile: &GlitchProfile, region_mask: u8, lane: u16) -> (r: i8)
    ensures
        r == jitter_spec(*profile, region_mask, lane),
{
    if !affects_region(profile, region_mask) {
        return 0;
    }
    if profile.mode != GlitchMode::SpatialJitter {
        return 0;
    }
    let local = mix64(
        (lane as u64).wrapping_mul(0x9E37_79B1_85EB_CA87u64).wrapping_add(profile.phase as u64 * 31),
    );
    if local & 3 == 0 {
        -1
    } else if local & 3 == 1 {
        1
    } else {
        0
    }
}

/// The junk glyphs.
pub open spec fn glyph(i: int) -> char {
    if i == 0 {
        '░'
    } else if i == 1 {
        '▒'
    } else if i == 2 {
        '▓'
    } else if i == 3 {
        '█'
    } else if i == 4 {
        '▀'
    } else if i == 5 {
        '▄'
    } else if i == 6 {
        '▌'
    } else if i == 7 {
        '▐'
    } else if i == 8 {
        '≡'
    } else if i == 9 {
        '≣'
    } else if i == 10 {
        '◆'
    } else if i == 11 {
        '◈'
    } else if i == 12 {
        '▪'
    } else {
        '▫'
    }
}

fn glyph_exec(i: u64) -> (c: char)
    requires
        i < 14,
    ensures
        c == glyph(i as int),
{
    if i == 0 {
        '░'
    } else if i == 1 {
        '▒'
    } else if i == 2 {
        '▓'
    } else if i == 3 {
        '█'
    } else if i == 4 {
        '▀'
    } else if i == 5 {
        '▄'
    } else if i == 6 {
        '▌'
    } else if i == 7 {
        '▐'
    } else if i == 8 {
        '≡'
    } else if i == 9 {
        '≣'
    } else if i == 10 {
        '◆'
    } else if i == 11 {
        '◈'
    } else if i == 12 {
        '▪'
    } else {
        '▫'
    }
}

/// The seed of a row's junk decision.
pub open spec fn junk_seed(row: usize, tick: u64, p: GlitchProfile) -> u64 {
    mix((row as u64).wrapping_add(tick.wrapping_mul(17)).wrapping_add((p.phase as u64 * 37) as u64))
}

/// Junk for an events row during a junk-injection burst over the events
/// panel, for about one row in eight: two to four glyphs.
pub open spec fn junk_spec(row: usize, tick: u64, p: GlitchProfile) -> Option<Seq<char>> {
    let seed = junk_seed(row, tick, p);
    if !affects(p, REGION_EVENTS) || p.mode != GlitchMode::JunkInjection || seed & 7 != 0 {
        None
    } else {
        Some(
            Seq::new(
                (2 + (seed >> 8u64) % 3) as nat,
                |i: int| glyph((((seed >> ((12 + i * 4) as u64)) & 0xF) % 14) as int),
            ),
        )
    }
}

pub fn junk_prefix(row_index: usize, tick: u64, profile: &GlitchProfile) -> (r: Option<String>)
    ensures
        match junk_spec(row_index, tick, *profile) {
            Some(s) => r matches Some(x) && x@ == s,
            None => r is None,
        },
{
    if !affects_region(profile, REGION_EVENTS) {
        return None;
    }
    if profile.mode != GlitchMode::JunkInjection {
        return None;
    }
    let key = (row_index as u64).wrapping_add(tick.wrapping_mul(17)).wrapping_add(
        profile.phase as u64 * 37,
    );
    let seed = mix64(key);
    if seed & 7 != 0 {
        return None;
    }
    let count: u64 = 2 + (seed >> 8u64) % 3;
    let mut out = String::new();
    let mut i: u64 = 0;
    while i < count
        invariant
            i <= count <= 4,
            seed == junk_seed(row_index, tick, *profile),
            out@ == Seq::new(
                i as nat,
                |k: int| glyph((((seed >> ((12 + k * 4) as u64)) & 0xF) % 14) as int),
            ),
        decreases count - i,
    {
        let idx = (seed >> (12 + i * 4)) & 0xF;
        push_char(&mut out, glyph_exec(idx % 14));
        i = i + 1;
        assert(out@ =~= Seq::new(
            i as nat,
            |k: int| glyph((((seed >> ((12 + k * 4) as u64)) & 0xF) % 14) as int),
        ));
    }
    Some(out)
}

} // verus!
