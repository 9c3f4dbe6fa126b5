//! The terminal UI's settings from the global configuration.
//!
//! Precedence: the `CHALYBS_TUI_LOGO_HALO` environment variable, then
//! `[tui].logo_halo` in `/etc/chalybs/chalybs.toml`, then nothing (the
//! caller's default). The application reads the variable and the file's
//! text; the file is parsed here.
use vstd::prelude::*;
use crate::text::{chars_of, opt_view, trim, trim_str};

verus! {

/// Halo drawn around the PNG logo.
#[derive(Clone, Copy, Debug, PartialEq, Eq, Structural)]
pub enum LogoHaloProfile {
    Off,
    C3,
    C3Narrow,
    C3Wide,
    C3ExtraWide,
}

pub open spec fn lower(c: char) -> char {
    if 'A' <= c && c <= 'Z' {
        ((c as u32) + 32) as char
    } else {
        c
    }
}

/// `to_ascii_lowercase`.
pub open spec fn lower_seq(s: Seq<char>) -> Seq<char> {
    s.map_values(|c: char| lower(c))
}

/// The profile a name stands for, ignoring ASCII case; older names are
/// accepted too ("none", "basic", "c3d").
pub open spec fn halo_of(s: Seq<char>) -> Option<LogoHaloProfile> {
    let l = lower_seq(s);
    if l == "off"@ || l == "none"@ {
        Some(LogoHaloProfile::Off)
    } else if l == "c3"@ || l == "basic"@ {
        Some(LogoHaloProfile::C3)
    } else if l == "c3narrow"@ || l == "narrow"@ || l == "c3_narrow"@ || l == "s1"@ {
        Some(LogoHaloProfile::C3Narrow)
    } else if l == "c3wide"@ || l == "wide"@ || l == "c3_wide"@ || l == "s2"@ {
        Some(LogoHaloProfile::C3Wide)
    } else if l == "c3extrawide"@ || l == "extrawide"@ || l == "c3_xwide"@ || l == "c3xwide"@ || l
        == "s3"@ || l == "c3d"@ {
        Some(LogoHaloProfile::C3ExtraWide)
    } else {
        None
    }
}

fn lower_exec(s: &str) -> (r: Vec<char>)
    ensures
        r@ == lower_seq(s@),
{
    let v = chars_of(s);
    let mut out: Vec<char> = Vec::new();
    let mut i: usize = 0;
    while i < v.len()
        invariant
            i <= v@.len(),
            v@ == s@,
            out@ == lower_seq(v@.take(i as int)),
        decreases v@.len() - i,
    {
        let c = v[i];
        let l = if 'A' <= c && c <= 'Z' {
            ((c as u32) + 32) as u8 as char
        } else {
            c
        };
        proof {
            if 'A' <= c && c <= 'Z' {
                assert(((c as u32) + 32) as u8 as char == lower(c));
            }
        }
        out.push(l);
        assert(lower_seq(v@.take(i + 1)) =~= lower_seq(v@.take(i as int)).push(lower(c)));
        i = i + 1;
    }
    assert(v@.take(v@.len() as int) =~= v@);
    out
}

fn is(v: &Vec<char>, s: &str) -> (r: bool)
    ensures
        r == (v@ == s@),
{
    let w = chars_of(s);
    crate::text::chars_eq(v.as_slice(), w.as_slice())
}

impl LogoHaloProfile {
    /// The profile a name stands for, ignoring ASCII case.
    pub fn from_str_kind(s: &str) -> (r: Option<Self>)
        ensures
            r == halo_of(s@),
    {
        let l = lower_exec(s);
        if is(&l, "off") || is(&l, "none") {
            Some(LogoHaloProfile::Off)
        } else if is(&l, "c3") || is(&l, "basic") {
            Some(LogoHaloProfile::C3)
        } else if is(&l, "c3narrow") || is(&l, "narrow") || is(&l, "c3_narrow") || is(&l, "s1") {
            Some(LogoHaloProfile::C3Narrow)
        } else if is(&l, "c3wide") || is(&l, "wide") || is(&l, "c3_wide") || is(&l, "s2") {
            Some(LogoHaloProfile::C3Wide)
        } else if is(&l, "c3extrawide") || is(&l, "extrawide") || is(&l, "c3_xwide") || is(
            &l,
            "c3xwide",
        ) || is(&l, "s3") || is(&l, "c3d") {
            Some(LogoHaloProfile::C3ExtraWide)
        } else {
            None
        }
    }

    /// The profile's canonical lower-case name.
    pub fn as_str(&self) -> (r: &'static str)
        ensures
            r@ == halo_name(*self),
    {
        match self {
            LogoHaloProfile::Off => "off",
            LogoHaloProfile::C3 => "c3",
            LogoHaloProfile::C3Narrow => "c3narrow",
            LogoHaloProfile::C3Wide => "c3wide",
            LogoHaloProfile::C3ExtraWide => "c3extrawide",
        }
    }
}

pub open spec fn halo_name(p: LogoHaloProfile) -> Seq<char> {
    match p {
        LogoHaloProfile::Off => "off"@,
        LogoHaloProfile::C3 => "c3"@,
        LogoHaloProfile::C3Narrow => "c3narrow"@,
        LogoHaloProfile::C3Wide => "c3wide"@,
        LogoHaloProfile::C3ExtraWide => "c3extrawide"@,
    }
}

/// Reading a profile's canonical name gives the profile back.
pub proof fn lemma_halo_name_round_trip(p: LogoHaloProfile)
    ensures
        halo_of(halo_name(p)) == Some(p),
{
    reveal_strlit("off");
    reveal_strlit("none");
    reveal_strlit("c3");
    reveal_strlit("basic");
    reveal_strlit("c3narrow");
    reveal_strlit("narrow");
    reveal_strlit("c3_narrow");
    reveal_strlit("s1");
    reveal_strlit("c3wide");
    reveal_strlit("wide");
    reveal_strlit("c3_wide");
    reveal_strlit("s2");
    reveal_strlit("c3extrawide");
    reveal_strlit("extrawide");
    reveal_strlit("c3_xwide");
    reveal_strlit("c3xwide");
    reveal_strlit("s3");
    reveal_strlit("c3d");
    assert(lower_seq(halo_name(p)) =~= halo_name(p));
    assert("c3wide"@[0] != "narrow"@[0]);
    assert("c3"@[0] != "s1"@[0]);
    assert("c3"@[0] != "s2"@[0]);
    assert("c3"@[0] != "s3"@[0]);
}

/// The terminal UI's settings.
#[derive(Clone, Copy, Debug, PartialEq, Eq, Structural)]
pub struct TuiConfig {
    pub logo_halo: LogoHaloProfile,
}

pub open spec fn halo_opt(o: Option<String>) -> Option<LogoHaloProfile> {
    match o {
        Some(s) => halo_of(trim(s@)),
        None => None,
    }
}

impl TuiConfig {
    /// The settings from the environment variable's value and the global
    /// file's `[tui].logo_halo`, each trimmed; the first that names a
    /// profile wins.
    pub fn load(env_value: Option<String>, file_value: Option<String>) -> (r: Option<Self>)
        ensures
            match halo_opt(env_value) {
                Some(p) => r == Some(TuiConfig { logo_halo: p }),
                None => match halo_opt(file_value) {
                    Some(p) => r == Some(TuiConfig { logo_halo: p }),
                    None => r is None,
                },
            },
    {
        match env_value {
            Some(s) => {
                let t = trim_str(s.as_str());
                match LogoHaloProfile::from_str_kind(crate::text::string_of(t.as_slice()).as_str()) {
                    Some(p) => return Some(TuiConfig { logo_halo: p }),
                    None => {},
                }
            },
            None => {},
        }
        match file_value {
            Some(s) => {
                let t = trim_str(s.as_str());
                match LogoHaloProfile::from_str_kind(crate::text::string_of(t.as_slice()).as_str()) {
                    Some(p) => Some(TuiConfig { logo_halo: p }),
                    None => None,
                }
            },
            None => None,
        }
    }
}

/// What parsing a TOML document gives for its `[tui].logo_halo` string:
/// nothing when the text is not TOML, has no `tui` table, or no string
/// `logo_halo` in it.
pub uninterp spec fn toml_tui_logo_halo(text: Seq<char>) -> Option<Seq<char>>;

/// `toml::from_str` into a `toml::Table`, then the `tui` entry's
/// `logo_halo` entry as a string (`Table::get`, `Value::get`,
/// `Value::as_str`). The result is a function of the text alone, named
/// `toml_tui_logo_halo`; nothing more is claimed of it.
#[verifier::external_body]
fn logo_halo_of_toml(text: &str) -> (r: Option<String>)
    ensures
        opt_view(r) == toml_tui_logo_halo(text@),
{
    let root: toml::Table = toml::from_str(text).ok()?;
    root.get("tui")?.get("logo_halo")?.as_str().map(str::to_string)
}

/// The halo profile a configured name gives, trimmed.
pub open spec fn halo_opt_seq(o: Option<Seq<char>>) -> Option<LogoHaloProfile> {
    match o {
        Some(s) => halo_of(trim(s)),
        None => None,
    }
}

impl TuiConfig {
    /// The settings from the environment variable's value and the global
    /// configuration file's text: the variable wins when it names a
    /// profile, else the file's `[tui].logo_halo` when that names one.
    pub fn load_from_text(env_value: Option<String>, toml_text: Option<String>) -> (r: Option<Self>)
        ensures
            match halo_opt(env_value) {
                Some(p) => r == Some(TuiConfig { logo_halo: p }),
                None => match toml_text {
                    Some(t) => match halo_opt_seq(toml_tui_logo_halo(t@)) {
                        Some(p) => r == Some(TuiConfig { logo_halo: p }),
                        None => r is None,
                    },
                    None => r is None,
                },
            },
    {
        let file_value = match &toml_text {
            Some(t) => logo_halo_of_toml(t.as_str()),
            None => None,
        };
        TuiConfig::load(env_value, file_value)
    }
}

} // verus!
