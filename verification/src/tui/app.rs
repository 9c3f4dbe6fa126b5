//! The terminal UI's application model: VM list, event stream, shell
//! prompt, visual effects and the daemon's health as the UI sees it.
use vstd::prelude::*;
use crate::daemon::ipc::{IpcEvent, IpcEventKind, IpcVmEvents, IpcVmState, IpcVmStatus};
use crate::fmt::{dec, lemma_views_push, u64_to_dec, views};
use crate::text::{
    chars_of, contains_sub, contains_sub_exec, copy_string, lit, path_join, path_join_exec, push_char,
    seqs_of, slice_chars, split_on, split_on_exec, split_once, split_once_exec, split_ws, split_ws_exec,
    string_of, trim, trim_chars, trim_str, is_ws, lemma_split_on_single, lemma_split_on_append,
    lemma_trim_unchanged, lemma_trim_trailing_space, lemma_trim_leading_space, lemma_split_once_at,
};

verus! {

/// The daemon's health as the UI sees it.
#[derive(Clone, Copy, Debug, PartialEq, Eq, Structural)]
pub enum DaemonHealth {
    Disconnected,
    Degraded,
    Healthy,
}

#[derive(Clone, Copy, Debug, PartialEq, Eq, Structural)]
pub enum VmState {
    Stopped,
    Starting,
    Running,
    ShuttingDown,
}

/// A VM row.
#[derive(Clone, Debug)]
pub struct VmStatus {
    pub name: String,
    pub state: VmState,
    pub cpu_pinned: bool,
    pub irq_pinned: bool,
    pub tasmota_on: bool,
    pub isolation_mode: String,
    pub hugepages: bool,
}

/// Visual effect switches; all on by default.
#[derive(Clone, Copy, Debug, PartialEq, Eq, Structural)]
pub struct VisualEffects {
    pub pulse: bool,
    pub scanlines: bool,
    pub matrix: bool,
    pub border_noise: bool,
    pub badges: bool,
    pub logo_reactive: bool,
    pub load_index: bool,
}

pub open spec fn all_effects(v: bool) -> VisualEffects {
    VisualEffects {
        pulse: v,
        scanlines: v,
        matrix: v,
        border_noise: v,
        badges: v,
        logo_reactive: v,
        load_index: v,
    }
}

/// The effects after setting the flag called `name` (some flags have a
/// short name too); unknown names change nothing.
pub open spec fn with_flag(e: VisualEffects, name: Seq<char>, v: bool) -> VisualEffects {
    if name == "pulse"@ {
        VisualEffects { pulse: v, ..e }
    } else if name == "scanlines"@ {
        VisualEffects { scanlines: v, ..e }
    } else if name == "matrix"@ {
        VisualEffects { matrix: v, ..e }
    } else if name == "border"@ || name == "border_noise"@ {
        VisualEffects { border_noise: v, ..e }
    } else if name == "badges"@ {
        VisualEffects { badges: v, ..e }
    } else if name == "logo"@ || name == "logo_reactive"@ {
        VisualEffects { logo_reactive: v, ..e }
    } else if name == "load"@ || name == "load_index"@ {
        VisualEffects { load_index: v, ..e }
    } else {
        e
    }
}

pub open spec fn bool_text(b: bool) -> Seq<char> {
    if b {
        "true"@
    } else {
        "false"@
    }
}

fn bool_str(b: bool) -> (r: &'static str)
    ensures
        r@ == bool_text(b),
{
    if b {
        "true"
    } else {
        "false"
    }
}

fn eq_word(v: &[char], s: &str) -> (r: bool)
    ensures
        r == (v@ == s@),
{
    let w = chars_of(s);
    crate::text::chars_eq(v, w.as_slice())
}

/// A configuration value: "true", "on" or "1"; "false", "off" or "0".
pub open spec fn bool_word(s: Seq<char>) -> Option<bool> {
    if s == "true"@ || s == "on"@ || s == "1"@ {
        Some(true)
    } else if s == "false"@ || s == "off"@ || s == "0"@ {
        Some(false)
    } else {
        None
    }
}

/// One line of the effects file: `key = value`, blank lines and `#`
/// comments ignored, as are unknown values.
pub open spec fn apply_line(e: VisualEffects, line: Seq<char>) -> VisualEffects {
    let t = trim(line);
    if t.len() == 0 || t[0] == '#' {
        e
    } else {
        match split_once(t, '=') {
            None => e,
            Some((k, v)) => match bool_word(trim(v)) {
                Some(b) => with_flag(e, trim(k), b),
                None => e,
            },
        }
    }
}

pub open spec fn apply_lines(e: VisualEffects, lines: Seq<Seq<char>>) -> VisualEffects
    decreases lines.len(),
{
    if lines.len() == 0 {
        e
    } else {
        apply_line(apply_lines(e, lines.drop_last()), lines.last())
    }
}

/// The effects an effects file sets, starting from all on.
pub open spec fn parse_effects(text: Seq<char>) -> VisualEffects {
    apply_lines(all_effects(true), split_on(text, '\n'))
}

/// The text the effects file is written with.
pub open spec fn effects_text(e: VisualEffects) -> Seq<char> {
    join_lines(effects_lines(e))
}

/// Where the effects file lives: under `$XDG_CONFIG_HOME`, else under
/// `$HOME/.config`; nothing when neither is set (or both are empty).
pub open spec fn effects_path(xdg: Option<Seq<char>>, home: Option<Seq<char>>) -> Option<Seq<char>> {
    match xdg {
        Some(x) if x.len() > 0 => Some(path_join(path_join(x, "chalybs"@), "tui.conf"@)),
        _ => match home {
            Some(h) if h.len() > 0 => Some(
                path_join(path_join(path_join(h, ".config"@), "chalybs"@), "tui.conf"@),
            ),
            _ => None,
        },
    }
}

/// One `key = value` line of the effects file.
pub open spec fn kv_line(key: Seq<char>, b: bool) -> Seq<char> {
    key + " = "@ + bool_text(b)
}

/// Lines joined by newlines.
pub open spec fn join_lines(ls: Seq<Seq<char>>) -> Seq<char>
    decreases ls.len(),
{
    if ls.len() == 0 {
        Seq::empty()
    } else if ls.len() == 1 {
        ls[0]
    } else {
        join_lines(ls.drop_last()) + seq!['\n'] + ls.last()
    }
}

/// The lines of the effects file written for `e`.
pub open spec fn effects_lines(e: VisualEffects) -> Seq<Seq<char>> {
    seq![
        "# Chalybs TUI visual effects configuration"@,
        "# All values are boolean: true/false"@,
        Seq::empty(),
        kv_line("pulse"@, e.pulse),
        kv_line("scanlines"@, e.scanlines),
        kv_line("matrix"@, e.matrix),
        kv_line("border_noise"@, e.border_noise),
        kv_line("badges"@, e.badges),
        kv_line("logo_reactive"@, e.logo_reactive),
        kv_line("load_index"@, e.load_index),
        Seq::empty(),
    ]
}

proof fn lemma_split_join_push(a: Seq<Seq<char>>, l: Seq<char>)
    requires
        a.len() >= 1,
        split_on(join_lines(a), '\n') == a,
        forall|j: int| 0 <= j < l.len() ==> #[trigger] l[j] != '\n',
    ensures
        split_on(join_lines(a.push(l)), '\n') == a.push(l),
{
    assert(a.push(l).drop_last() =~= a);
    lemma_split_on_single(l, '\n');
    lemma_split_on_append(join_lines(a), l, '\n');
    assert(a + seq![l] =~= a.push(l));
}

/// A key the effects file can hold on a `key = value` line.
pub open spec fn plain_key(key: Seq<char>) -> bool {
    &&& key.len() > 0
    &&& !is_ws(key[0])
    &&& !is_ws(key.last())
    &&& key[0] != '#'
    &&& forall|i: int| 0 <= i < key.len() ==> #[trigger] key[i] != '=' && key[i] != '\n'
}

proof fn lemma_plain_keys()
    ensures
        plain_key("pulse"@),
        plain_key("scanlines"@),
        plain_key("matrix"@),
        plain_key("border_noise"@),
        plain_key("badges"@),
        plain_key("logo_reactive"@),
        plain_key("load_index"@),
{
    reveal_strlit("pulse");
    reveal_strlit("scanlines");
    reveal_strlit("matrix");
    reveal_strlit("border_noise");
    reveal_strlit("badges");
    reveal_strlit("logo_reactive");
    reveal_strlit("load_index");
}

proof fn lemma_kv_line(x: VisualEffects, key: Seq<char>, b: bool)
    requires
        plain_key(key),
    ensures
        apply_line(x, kv_line(key, b)) == with_flag(x, key, b),
        forall|i: int| 0 <= i < kv_line(key, b).len() ==> #[trigger] kv_line(key, b)[i] != '\n',
{
    reveal_strlit(" = ");
    reveal_strlit("true");
    reveal_strlit("false");
    reveal_strlit("on");
    reveal_strlit("off");
    reveal_strlit("1");
    reveal_strlit("0");
    let v = bool_text(b);
    let l = kv_line(key, b);
    let n = key.len() as int;
    assert(v.len() > 0 && !is_ws(v[0]) && !is_ws(v.last()));
    assert(l[0] == key[0]);
    assert(l.last() == v.last());
    lemma_trim_unchanged(l);
    assert(l[n + 1] == '=');
    assert forall|k: int| 0 <= k < n + 1 implies #[trigger] l[k] != '=' by {
        if k < n {
            assert(l[k] == key[k]);
        }
    }
    lemma_split_once_at(l, '=', n + 1);
    assert(l.take(n + 1) =~= key + seq![' ']);
    assert(l.skip(n + 2) =~= seq![' '] + v);
    lemma_trim_trailing_space(key);
    lemma_trim_leading_space(v);
    assert(bool_word(v) == Some(b));
    assert forall|i: int| 0 <= i < l.len() implies #[trigger] l[i] != '\n' by {
        if i < n {
            assert(l[i] == key[i]);
        } else if i >= n + 3 {
            assert(l[i] == v[i - n - 3]);
        }
    }
}

pub open spec fn line_prefix(e: VisualEffects, k: int) -> Seq<Seq<char>> {
    effects_lines(e).take(k)
}

proof fn lemma_prefix_step(e: VisualEffects, k: int)
    requires
        1 <= k < 11,
    ensures
        line_prefix(e, k + 1) == line_prefix(e, k).push(effects_lines(e)[k]),
        line_prefix(e, k + 1).drop_last() == line_prefix(e, k),
        line_prefix(e, k + 1).last() == effects_lines(e)[k],
        line_prefix(e, k + 1).len() == k + 1,
{
    assert(line_prefix(e, k + 1) =~= line_prefix(e, k).push(effects_lines(e)[k]));
}

fn append_line(s: &mut String, line: &str)
    ensures
        final(s)@ == old(s)@ + seq!['\n'] + line@,
{
    proof {
        reveal_strlit("\n");
    }
    s.append("\n");
    s.append(line);
    assert(final(s)@ =~= old(s)@ + seq!['\n'] + line@);
}

fn append_kv(s: &mut String, key: &str, b: bool)
    ensures
        final(s)@ == old(s)@ + seq!['\n'] + kv_line(key@, b),
{
    proof {
        reveal_strlit("\n");
    }
    s.append("\n");
    s.append(key);
    s.append(" = ");
    s.append(bool_str(b));
    assert(final(s)@ =~= old(s)@ + seq!['\n'] + kv_line(key@, b));
}

proof fn lemma_join_step(e: VisualEffects, k: int)
    requires
        1 <= k < 11,
    ensures
        join_lines(line_prefix(e, k + 1)) == join_lines(line_prefix(e, k)) + seq!['\n']
            + effects_lines(e)[k],
{
    lemma_prefix_step(e, k);
}

proof fn lemma_comment_lines()
    ensures
        ({
            let c = "# Chalybs TUI visual effects configuration"@;
            &&& c.len() > 0 && c[0] == '#' && !is_ws(c.last())
            &&& forall|j: int| 0 <= j < c.len() ==> #[trigger] c[j] != '\n'
        }),
        ({
            let c = "# All values are boolean: true/false"@;
            &&& c.len() > 0 && c[0] == '#' && !is_ws(c.last())
            &&& forall|j: int| 0 <= j < c.len() ==> #[trigger] c[j] != '\n'
        }),
{
    reveal_strlit("# Chalybs TUI visual effects configuration");
    reveal_strlit("# All values are boolean: true/false");
}

/// Setting every flag in file order, starting from all on, gives `e`.
proof fn lemma_flags_rebuild(e: VisualEffects)
    ensures
        with_flag(with_flag(with_flag(with_flag(with_flag(with_flag(with_flag(
            all_effects(true),
            "pulse"@,
            e.pulse,
        ), "scanlines"@, e.scanlines), "matrix"@, e.matrix), "border_noise"@, e.border_noise),
        "badges"@, e.badges), "logo_reactive"@, e.logo_reactive), "load_index"@, e.load_index) == e,
{
    reveal_strlit("pulse");
    reveal_strlit("scanlines");
    reveal_strlit("matrix");
    reveal_strlit("border");
    reveal_strlit("border_noise");
    reveal_strlit("badges");
    reveal_strlit("logo");
    reveal_strlit("logo_reactive");
    reveal_strlit("load");
    reveal_strlit("load_index");
    assert("pulse"@.len() == 5 && "scanlines"@.len() == 9 && "matrix"@.len() == 6);
    assert("border"@.len() == 6 && "border_noise"@.len() == 12 && "badges"@.len() == 6);
    assert("logo"@.len() == 4 && "logo_reactive"@.len() == 13 && "load"@.len() == 4);
    assert("load_index"@.len() == 10);
    assert("matrix"@[0] != "border"@[0] && "badges"@[1] != "border"@[1]);
    assert("badges"@[0] != "matrix"@[0] && "load"@[2] != "logo"@[2]);
    assert("matrix"@ != "border"@ && "badges"@ != "border"@ && "badges"@ != "matrix"@);
    assert("load"@ != "logo"@);
    let t = all_effects(true);
    let e3 = with_flag(t, "pulse"@, e.pulse);
    let e4 = with_flag(e3, "scanlines"@, e.scanlines);
    let e5 = with_flag(e4, "matrix"@, e.matrix);
    let e6 = with_flag(e5, "border_noise"@, e.border_noise);
    let e7 = with_flag(e6, "badges"@, e.badges);
    let e8 = with_flag(e7, "logo_reactive"@, e.logo_reactive);
    let e9 = with_flag(e8, "load_index"@, e.load_index);
    assert(e3 == VisualEffects { pulse: e.pulse, ..t });
    assert(e4 == VisualEffects { scanlines: e.scanlines, ..e3 });
    assert(e5 == VisualEffects { matrix: e.matrix, ..e4 });
    assert(e6 == VisualEffects { border_noise: e.border_noise, ..e5 });
    assert(e7 == VisualEffects { badges: e.badges, ..e6 });
    assert(e8 == VisualEffects { logo_reactive: e.logo_reactive, ..e7 });
    assert(e9 == VisualEffects { load_index: e.load_index, ..e8 });
}

proof fn lemma_effects_split(e: VisualEffects)
    ensures
        split_on(effects_text(e), '\n') == effects_lines(e),
{
    let l = effects_lines(e);
    lemma_comment_lines();
    lemma_plain_keys();
    let t = all_effects(true);
    lemma_kv_line(t, "pulse"@, e.pulse);
    lemma_kv_line(t, "scanlines"@, e.scanlines);
    lemma_kv_line(t, "matrix"@, e.matrix);
    lemma_kv_line(t, "border_noise"@, e.border_noise);
    lemma_kv_line(t, "badges"@, e.badges);
    lemma_kv_line(t, "logo_reactive"@, e.logo_reactive);
    lemma_kv_line(t, "load_index"@, e.load_index);
    assert(line_prefix(e, 1) =~= seq![l[0]]);
    lemma_split_on_single(l[0], '\n');
    lemma_prefix_step(e, 1);
    lemma_split_join_push(line_prefix(e, 1), l[1]);
    lemma_prefix_step(e, 2);
    lemma_split_join_push(line_prefix(e, 2), l[2]);
    lemma_prefix_step(e, 3);
    lemma_split_join_push(line_prefix(e, 3), l[3]);
    lemma_prefix_step(e, 4);
    lemma_split_join_push(line_prefix(e, 4), l[4]);
    lemma_prefix_step(e, 5);
    lemma_split_join_push(line_prefix(e, 5), l[5]);
    lemma_prefix_step(e, 6);
    lemma_split_join_push(line_prefix(e, 6), l[6]);
    lemma_prefix_step(e, 7);
    lemma_split_join_push(line_prefix(e, 7), l[7]);
    lemma_prefix_step(e, 8);
    lemma_split_join_push(line_prefix(e, 8), l[8]);
    lemma_prefix_step(e, 9);
    lemma_split_join_push(line_prefix(e, 9), l[9]);
    lemma_prefix_step(e, 10);
    lemma_split_join_push(line_prefix(e, 10), l[10]);
    assert(line_prefix(e, 11) =~= l);
}

proof fn lemma_effects_apply(e: VisualEffects)
    ensures
        apply_lines(all_effects(true), effects_lines(e)) == e,
{
    let l = effects_lines(e);
    let t = all_effects(true);
    let e3 = with_flag(t, "pulse"@, e.pulse);
    let e4 = with_flag(e3, "scanlines"@, e.scanlines);
    let e5 = with_flag(e4, "matrix"@, e.matrix);
    let e6 = with_flag(e5, "border_noise"@, e.border_noise);
    let e7 = with_flag(e6, "badges"@, e.badges);
    let e8 = with_flag(e7, "logo_reactive"@, e.logo_reactive);
    let e9 = with_flag(e8, "load_index"@, e.load_index);
    lemma_plain_keys();
    lemma_kv_line(t, "pulse"@, e.pulse);
    lemma_kv_line(e3, "scanlines"@, e.scanlines);
    lemma_kv_line(e4, "matrix"@, e.matrix);
    lemma_kv_line(e5, "border_noise"@, e.border_noise);
    lemma_kv_line(e6, "badges"@, e.badges);
    lemma_kv_line(e7, "logo_reactive"@, e.logo_reactive);
    lemma_kv_line(e8, "load_index"@, e.load_index);
    lemma_flags_rebuild(e);
    lemma_comment_lines();
    lemma_trim_unchanged(l[0]);
    lemma_trim_unchanged(l[1]);
    assert(trim(l[2]) =~= l[2]);
    assert(line_prefix(e, 1) =~= seq![l[0]]);
    assert(line_prefix(e, 1).drop_last() =~= Seq::<Seq<char>>::empty());
    assert(line_prefix(e, 1).last() == l[0]);
    assert(l[0] == "# Chalybs TUI visual effects configuration"@);
    assert(trim(l[0])[0] == '#');
    assert(apply_line(t, l[0]) == t);
    assert(apply_lines(t, Seq::<Seq<char>>::empty()) == t);
    assert(apply_lines(t, line_prefix(e, 1)) == t);
    lemma_prefix_step(e, 1);
    assert(apply_lines(t, line_prefix(e, 2)) == t);
    lemma_prefix_step(e, 2);
    assert(apply_lines(t, line_prefix(e, 3)) == t);
    lemma_prefix_step(e, 3);
    assert(apply_lines(t, line_prefix(e, 4)) == e3);
    lemma_prefix_step(e, 4);
    assert(apply_lines(t, line_prefix(e, 5)) == e4);
    lemma_prefix_step(e, 5);
    assert(apply_lines(t, line_prefix(e, 6)) == e5);
    lemma_prefix_step(e, 6);
    assert(apply_lines(t, line_prefix(e, 7)) == e6);
    lemma_prefix_step(e, 7);
    assert(apply_lines(t, line_prefix(e, 8)) == e7);
    lemma_prefix_step(e, 8);
    assert(apply_lines(t, line_prefix(e, 9)) == e8);
    lemma_prefix_step(e, 9);
    assert(apply_lines(t, line_prefix(e, 10)) == e9);
    lemma_prefix_step(e, 10);
    assert(apply_lines(t, line_prefix(e, 11)) == e9);
    assert(line_prefix(e, 11) =~= l);
}

/// The effects file round-trips: reading back the text written for any
/// set of switches gives exactly those switches.
pub proof fn lemma_effects_round_trip(e: VisualEffects)
    ensures
        parse_effects(effects_text(e)) == e,
{
    lemma_effects_split(e);
    lemma_effects_apply(e);
}

impl VisualEffects {
    /// Everything on.
    pub fn default_enabled() -> (r: Self)
        ensures
            r == all_effects(true),
    {
        VisualEffects {
            pulse: true,
            scanlines: true,
            matrix: true,
            border_noise: true,
            badges: true,
            logo_reactive: true,
            load_index: true,
        }
    }

    /// Switch everything on or off.
    pub fn set_all(&mut self, value: bool)
        ensures
            *final(self) == all_effects(value),
    {
        self.pulse = value;
        self.scanlines = value;
        self.matrix = value;
        self.border_noise = value;
        self.badges = value;
        self.logo_reactive = value;
        self.load_index = value;
    }

    /// Set one flag by name: pulse, scanlines, matrix, border or
    /// border_noise, badges, logo or logo_reactive, load or load_index.
    pub fn set_flag(&mut self, name: &str, value: bool)
        ensures
            *final(self) == with_flag(*old(self), name@, value),
    {
        let n = chars_of(name);
        proof {
            reveal_strlit("pulse");
            reveal_strlit("scanlines");
            reveal_strlit("matrix");
            reveal_strlit("border");
            reveal_strlit("border_noise");
            reveal_strlit("badges");
            reveal_strlit("logo");
            reveal_strlit("logo_reactive");
            reveal_strlit("load");
            reveal_strlit("load_index");
        }
        if eq_word(n.as_slice(), "pulse") {
            self.pulse = value;
        } else if eq_word(n.as_slice(), "scanlines") {
            self.scanlines = value;
        } else if eq_word(n.as_slice(), "matrix") {
            self.matrix = value;
        } else if eq_word(n.as_slice(), "border") || eq_word(n.as_slice(), "border_noise") {
            self.border_noise = value;
        } else if eq_word(n.as_slice(), "badges") {
            self.badges = value;
        } else if eq_word(n.as_slice(), "logo") || eq_word(n.as_slice(), "logo_reactive") {
            self.logo_reactive = value;
        } else if eq_word(n.as_slice(), "load") || eq_word(n.as_slice(), "load_index") {
            self.load_index = value;
        }
    }

    /// The effects set by the text of an effects file, starting from all
    /// on.
    pub fn from_config_text(text: &str) -> (r: Self)
        ensures
            r == parse_effects(text@),
    {
        let mut e = VisualEffects::default_enabled();
        let lines = split_on_exec(chars_of(text).as_slice(), '\n');
        let ghost all = seqs_of(lines@);
        let mut i: usize = 0;
        while i < lines.len()
            invariant
                i <= lines@.len(),
                all == seqs_of(lines@),
                all == split_on(text@, '\n'),
                e == apply_lines(all_effects(true), all.take(i as int)),
            decreases lines@.len() - i,
        {
            assert(all.take(i + 1).drop_last() =~= all.take(i as int));
            assert(all.take(i + 1).last() == lines@[i as int]@);
            let t = trim_chars(lines[i].as_slice());
            if t.len() > 0 && t[0] != '#' {
                match split_once_exec(t.as_slice(), '=') {
                    Some((k, v)) => {
                        let key = trim_chars(k.as_slice());
                        let val = trim_chars(v.as_slice());
                        let b = if eq_word(val.as_slice(), "true") || eq_word(val.as_slice(), "on")
                            || eq_word(val.as_slice(), "1") {
                            Some(true)
                        } else if eq_word(val.as_slice(), "false") || eq_word(val.as_slice(), "off")
                            || eq_word(val.as_slice(), "0") {
                            Some(false)
                        } else {
                            None
                        };
                        match b {
                            Some(b) => e.set_flag(string_of(key.as_slice()).as_str(), b),
                            None => {},
                        }
                    },
                    None => {},
                }
            }
            i = i + 1;
        }
        assert(all.take(lines@.len() as int) =~= all);
        e
    }

    /// The text to write to the effects file.
    pub fn config_text(&self) -> (r: String)
        ensures
            r@ == effects_text(*self),
    {
        let ghost e = *self;
        let ghost l = effects_lines(e);
        let mut s = lit("# Chalybs TUI visual effects configuration");
        proof {
            assert(line_prefix(e, 1) =~= seq![l[0]]);
            lemma_join_step(e, 1);
        }
        append_line(&mut s, "# All values are boolean: true/false");
        proof {
            lemma_join_step(e, 2);
        }
        append_line(&mut s, "");
        proof {
            reveal_strlit("");
            assert(""@ =~= Seq::<char>::empty());
            lemma_join_step(e, 3);
        }
        append_kv(&mut s, "pulse", self.pulse);
        proof {
            lemma_join_step(e, 4);
        }
        append_kv(&mut s, "scanlines", self.scanlines);
        proof {
            lemma_join_step(e, 5);
        }
        append_kv(&mut s, "matrix", self.matrix);
        proof {
            lemma_join_step(e, 6);
        }
        append_kv(&mut s, "border_noise", self.border_noise);
        proof {
            lemma_join_step(e, 7);
        }
        append_kv(&mut s, "badges", self.badges);
        proof {
            lemma_join_step(e, 8);
        }
        append_kv(&mut s, "logo_reactive", self.logo_reactive);
        proof {
            lemma_join_step(e, 9);
        }
        append_kv(&mut s, "load_index", self.load_index);
        proof {
            lemma_join_step(e, 10);
        }
        append_line(&mut s, "");
        proof {
            assert(line_prefix(e, 11) =~= l);
        }
        s
    }

    /// The effects file's path from `$XDG_CONFIG_HOME` and `$HOME`.
    pub fn config_path(xdg: Option<String>, home: Option<String>) -> (r: Option<String>)
        ensures
            opt_str(r) == effects_path(opt_str(xdg), opt_str(home)),
    {
        match xdg {
            Some(x) => {
                if chars_of(x.as_str()).len() > 0 {
                    let a = path_join_exec(x.as_str(), "chalybs");
                    return Some(path_join_exec(a.as_str(), "tui.conf"));
                }
            },
            None => {},
        }
        match home {
            Some(h) => {
                if chars_of(h.as_str()).len() > 0 {
                    let a = path_join_exec(h.as_str(), ".config");
                    let b = path_join_exec(a.as_str(), "chalybs");
                    Some(path_join_exec(b.as_str(), "tui.conf"))
                } else {
                    None
                }
            },
            None => None,
        }
    }
}

pub open spec fn opt_str(o: Option<String>) -> Option<Seq<char>> {
    match o {
        Some(s) => Some(s@),
        None => None,
    }
}

#[derive(Clone, Copy, Debug, PartialEq, Eq, Structural)]
pub enum AppEventKind {
    Info,
    Warning,
    Error,
    Shell,
    System,
}

/// A line of the events panel.
#[derive(Clone, Debug)]
pub struct AppEvent {
    pub kind: AppEventKind,
    pub message: String,
}

pub open spec fn ev_views(v: Seq<AppEvent>) -> Seq<(AppEventKind, Seq<char>)> {
    v.map_values(|e: AppEvent| (e.kind, e.message@))
}

fn event(kind: AppEventKind, m: String) -> (r: AppEvent)
    ensures
        r.kind == kind && r.message@ == m@,
{
    AppEvent { kind, message: m }
}

fn push_ev(v: &mut Vec<AppEvent>, kind: AppEventKind, m: String)
    ensures
        ev_views(final(v)@) == ev_views(old(v)@).push((kind, m@)),
{
    let ghost mm = m@;
    v.push(AppEvent { kind, message: m });
    assert(ev_views(final(v)@) =~= ev_views(old(v)@).push((kind, mm)));
}

/// What the UI needs from a control plane: VM rows, their refresh, new
/// events, and shell commands.
pub trait ChalybsBackend {
    fn initial_vms(&self) -> Vec<VmStatus>;

    /// Called on every tick with the UI's VM rows.
    fn refresh_status(&mut self, vms: &mut Vec<VmStatus>);

    /// Events that arrived since the last call.
    fn poll_events(&mut self) -> Vec<AppEvent>;

    /// Submit a shell command; returns the events it produced.
    fn handle_shell_command(&mut self, command: &str) -> Vec<AppEvent>;
}

/// A simulated control plane with three VMs.
#[derive(Debug)]
pub struct MockBackend {
    pub tick: u64,
}

pub open spec fn mock_poll(tick: u64) -> Seq<(AppEventKind, Seq<char>)> {
    (if tick == 1 {
        seq![(AppEventKind::System, "chalybs-tui: attached to mock backend"@)]
    } else {
        Seq::empty()
    }) + (if tick % 40 == 0 {
        seq![(AppEventKind::Info, "heartbeat: tick="@ + dec(tick as nat))]
    } else {
        Seq::empty()
    }) + (if tick % 90 == 0 {
        seq![(AppEventKind::Warning, "win11-gpu: GPU isolation in audit-only mode (mock)"@)]
    } else {
        Seq::empty()
    })
}

/// The mock's reply to a command (trimmed): the echo, then the answer.
pub open spec fn mock_reply(cmd: Seq<char>) -> Seq<(AppEventKind, Seq<char>)> {
    let c = trim(cmd);
    if c.len() == 0 {
        Seq::empty()
    } else {
        seq![
            (AppEventKind::Shell, "chalybs> "@ + c),
            if c == "help"@ || c == "?"@ {
                (AppEventKind::Info, "mock backend: available commands: help, list, status, clear"@)
            } else if c == "list"@ {
                (AppEventKind::Info, "mock backend: VMs = win11-gpu, linux-lab, baremetal-sim"@)
            } else if c == "status"@ {
                (AppEventKind::Info, "mock backend: PCI phases 1–8 nominal (simulated)"@)
            } else if c == "clear"@ {
                (
                    AppEventKind::System,
                    "mock backend: UI event buffer clear requested (not yet wired)"@,
                )
            } else {
                (
                    AppEventKind::Error,
                    "mock backend: `"@ + c + "` is not a recognized command (try `help`)"@,
                )
            },
        ]
    }
}

fn vm_row(
    name: &str,
    state: VmState,
    cpu: bool,
    irq: bool,
    tasmota: bool,
    iso: &str,
    hp: bool,
) -> (r: VmStatus)
    ensures
        r.name@ == name@,
        r.state == state,
        r.cpu_pinned == cpu,
        r.irq_pinned == irq,
        r.tasmota_on == tasmota,
        r.isolation_mode@ == iso@,
        r.hugepages == hp,
{
    VmStatus {
        name: lit(name),
        state,
        cpu_pinned: cpu,
        irq_pinned: irq,
        tasmota_on: tasmota,
        isolation_mode: lit(iso),
        hugepages: hp,
    }
}

/// The mock's VMs: win11-gpu (running, all pinned, relay on, enforce,
/// hugepages), linux-lab (stopped, audit) and baremetal-sim (running,
/// vCPUs pinned, disabled, hugepages).
pub open spec fn mock_vms_ok(v: Seq<VmStatus>) -> bool {
    &&& v.len() == 3
    &&& v[0].name@ == "win11-gpu"@ && v[0].state == VmState::Running && v[0].cpu_pinned
        && v[0].irq_pinned && v[0].tasmota_on && v[0].isolation_mode@ == "enforce"@
        && v[0].hugepages
    &&& v[1].name@ == "linux-lab"@ && v[1].state == VmState::Stopped && !v[1].cpu_pinned
        && !v[1].irq_pinned && !v[1].tasmota_on && v[1].isolation_mode@ == "audit"@
        && !v[1].hugepages
    &&& v[2].name@ == "baremetal-sim"@ && v[2].state == VmState::Running && v[2].cpu_pinned
        && !v[2].irq_pinned && !v[2].tasmota_on && v[2].isolation_mode@ == "disabled"@
        && v[2].hugepages
}

impl MockBackend {
    pub fn new() -> (r: Self)
        ensures
            r.tick == 0,
    {
        MockBackend { tick: 0 }
    }

    /// The three simulated VMs.
    pub fn mock_vms(&self) -> (r: Vec<VmStatus>)
        ensures
            mock_vms_ok(r@),
    {
        let mut v: Vec<VmStatus> = Vec::new();
        v.push(vm_row("win11-gpu", VmState::Running, true, true, true, "enforce", true));
        v.push(vm_row("linux-lab", VmState::Stopped, false, false, false, "audit", false));
        v.push(vm_row("baremetal-sim", VmState::Running, true, false, false, "disabled", true));
        v
    }

    /// One heartbeat: every 32 ticks the first VM's relay flips, every 64
    /// the third VM's IRQ pinning flips.
    pub fn refresh(&mut self, vms: &mut Vec<VmStatus>)
        ensures
            final(self).tick == old(self).tick.wrapping_add(1),
            final(vms)@.len() == old(vms)@.len(),
            forall|i: int|
                0 <= i < old(vms)@.len() ==> {
                    let a = #[trigger] final(vms)@[i];
                    let b = old(vms)@[i];
                    &&& a.name == b.name && a.state == b.state && a.cpu_pinned == b.cpu_pinned
                    &&& a.isolation_mode == b.isolation_mode && a.hugepages == b.hugepages
                    &&& a.tasmota_on == (if i == 0 && final(self).tick % 32 == 0 {
                        !b.tasmota_on
                    } else {
                        b.tasmota_on
                    })
                    &&& a.irq_pinned == (if i == 2 && final(self).tick % 64 == 0 {
                        !b.irq_pinned
                    } else {
                        b.irq_pinned
                    })
                },
    {
        self.tick = self.tick.wrapping_add(1);
        if self.tick % 32 == 0 && vms.len() > 0 {
            let mut v = vms.remove(0);
            v.tasmota_on = !v.tasmota_on;
            vms.insert(0, v);
        }
        if self.tick % 64 == 0 && vms.len() > 2 {
            let mut v = vms.remove(2);
            v.irq_pinned = !v.irq_pinned;
            vms.insert(2, v);
        }
    }

    /// Events for the current tick.
    pub fn poll(&self) -> (r: Vec<AppEvent>)
        ensures
            ev_views(r@) == mock_poll(self.tick),
    {
        let mut out: Vec<AppEvent> = Vec::new();
        assert(ev_views(out@) =~= Seq::<(AppEventKind, Seq<char>)>::empty());
        if self.tick == 1 {
            push_ev(&mut out, AppEventKind::System, lit("chalybs-tui: attached to mock backend"));
        }
        if self.tick % 40 == 0 {
            let mut m = lit("heartbeat: tick=");
            m.append(u64_to_dec(self.tick).as_str());
            push_ev(&mut out, AppEventKind::Info, m);
        }
        if self.tick % 90 == 0 {
            push_ev(
                &mut out,
                AppEventKind::Warning,
                lit("win11-gpu: GPU isolation in audit-only mode (mock)"),
            );
        }
        assert(ev_views(out@) =~= mock_poll(self.tick));
        out
    }

    /// The reply to a shell command.
    pub fn reply(&self, command: &str) -> (r: Vec<AppEvent>)
        ensures
            ev_views(r@) == mock_reply(command@),
    {
        let c = trim_str(command);
        let mut out: Vec<AppEvent> = Vec::new();
        if c.len() == 0 {
            assert(ev_views(out@) =~= mock_reply(command@));
            return out;
        }
        let cs = string_of(c.as_slice());
        let mut echo = lit("chalybs> ");
        echo.append(cs.as_str());
        push_ev(&mut out, AppEventKind::Shell, echo);
        if eq_word(c.as_slice(), "help") || eq_word(c.as_slice(), "?") {
            push_ev(
                &mut out,
                AppEventKind::Info,
                lit("mock backend: available commands: help, list, status, clear"),
            );
        } else if eq_word(c.as_slice(), "list") {
            push_ev(
                &mut out,
                AppEventKind::Info,
                lit("mock backend: VMs = win11-gpu, linux-lab, baremetal-sim"),
            );
        } else if eq_word(c.as_slice(), "status") {
            push_ev(
                &mut out,
                AppEventKind::Info,
                lit("mock backend: PCI phases 1–8 nominal (simulated)"),
            );
        } else if eq_word(c.as_slice(), "clear") {
            push_ev(
                &mut out,
                AppEventKind::System,
                lit("mock backend: UI event buffer clear requested (not yet wired)"),
            );
        } else {
            let mut m = lit("mock backend: `");
            m.append(cs.as_str());
            m.append("` is not a recognized command (try `help`)");
            push_ev(&mut out, AppEventKind::Error, m);
        }
        assert(ev_views(out@) =~= mock_reply(command@));
        out
    }
}

impl ChalybsBackend for MockBackend {
    fn initial_vms(&self) -> (r: Vec<VmStatus>)
        ensures
            mock_vms_ok(r@),
    {
        self.mock_vms()
    }

    fn refresh_status(&mut self, vms: &mut Vec<VmStatus>)
        ensures
            final(self).tick == old(self).tick.wrapping_add(1),
            final(vms)@.len() == old(vms)@.len(),
            forall|i: int|
                0 <= i < old(vms)@.len() ==> {
                    let a = #[trigger] final(vms)@[i];
                    let b = old(vms)@[i];
                    &&& a.name == b.name && a.state == b.state && a.cpu_pinned == b.cpu_pinned
                    &&& a.isolation_mode == b.isolation_mode && a.hugepages == b.hugepages
                    &&& a.tasmota_on == (if i == 0 && final(self).tick % 32 == 0 {
                        !b.tasmota_on
                    } else {
                        b.tasmota_on
                    })
                    &&& a.irq_pinned == (if i == 2 && final(self).tick % 64 == 0 {
                        !b.irq_pinned
                    } else {
                        b.irq_pinned
                    })
                },
    {
        self.refresh(vms)
    }

    fn poll_events(&mut self) -> (r: Vec<AppEvent>)
        ensures
            *final(self) == *old(self),
            ev_views(r@) == mock_poll(old(self).tick),
    {
        self.poll()
    }

    fn handle_shell_command(&mut self, command: &str) -> (r: Vec<AppEvent>)
        ensures
            *final(self) == *old(self),
            ev_views(r@) == mock_reply(command@),
    {
        self.reply(command)
    }
}

/// Most events kept in the panel.
pub const MAX_EVENTS: usize = 256;

/// The application model.
pub struct App {
    pub running: bool,
    pub vms: Vec<VmStatus>,
    pub selected_vm: usize,
    pub events: Vec<AppEvent>,
    pub shell_input: String,
    pub shell_history: Vec<String>,
    pub tick_count: u64,
    /// The events panel stops following the newest entries.
    pub events_scroll_locked: bool,
    /// How far back from the newest event the panel shows (0 = newest).
    pub events_scroll_offset: usize,
    pub vm_detail_open: bool,
    pub effects: VisualEffects,
    pub daemon_health: DaemonHealth,
    /// Consecutive event batches without a daemon complaint.
    pub daemon_health_clean_runs: u8,
}

/// An event that says the daemon went away.
pub open spec fn is_disconnect(m: Seq<char>) -> bool {
    contains_sub(m, "daemon unavailable"@) || contains_sub(m, "daemon closed IPC connection"@)
        || contains_sub(m, "failed to connect to"@)
}

/// A warning or error about the daemon or its IPC link.
pub open spec fn is_complaint(k: AppEventKind, m: Seq<char>) -> bool {
    (k == AppEventKind::Error || k == AppEventKind::Warning) && (contains_sub(m, "chalybsd"@)
        || contains_sub(m, "daemon"@) || contains_sub(m, "IPC"@))
}

pub open spec fn any_disconnect(evs: Seq<(AppEventKind, Seq<char>)>) -> bool {
    exists|i: int| 0 <= i < evs.len() && is_disconnect(#[trigger] evs[i].1)
}

pub open spec fn any_complaint(evs: Seq<(AppEventKind, Seq<char>)>) -> bool {
    exists|i: int| 0 <= i < evs.len() && is_complaint(#[trigger] evs[i].0, evs[i].1)
}

pub open spec fn sat_inc(c: u8) -> u8 {
    if c == 255 {
        255
    } else {
        (c + 1) as u8
    }
}

/// A clean batch (or no batch): unless disconnected, the run of clean
/// batches grows and six of them heal a degraded daemon.
pub open spec fn clean_step(h: DaemonHealth, c: u8) -> (DaemonHealth, u8) {
    if h == DaemonHealth::Disconnected {
        (h, c)
    } else {
        let c2 = sat_inc(c);
        (if h == DaemonHealth::Degraded && c2 >= 6 { DaemonHealth::Healthy } else { h }, c2)
    }
}

/// How a batch of events moves the daemon's health: a disconnect message
/// disconnects; a complaint degrades a healthy daemon and restarts the
/// clean run; anything else is a clean step.
pub open spec fn health_step(h: DaemonHealth, c: u8, evs: Seq<(AppEventKind, Seq<char>)>) -> (
    DaemonHealth,
    u8,
) {
    if evs.len() == 0 {
        clean_step(h, c)
    } else if any_disconnect(evs) {
        (DaemonHealth::Disconnected, 0)
    } else if any_complaint(evs) {
        (if h == DaemonHealth::Healthy { DaemonHealth::Degraded } else { h }, 0)
    } else {
        clean_step(h, c)
    }
}

/// Once disconnected, the UI stays disconnected whatever events arrive:
/// only a new connection makes the daemon healthy again.
pub proof fn lemma_disconnected_stays(h: DaemonHealth, c: u8, evs: Seq<(AppEventKind, Seq<char>)>)
    requires
        h == DaemonHealth::Disconnected,
    ensures
        health_step(h, c, evs).0 == DaemonHealth::Disconnected,
{
}

/// A degraded daemon heals after clean batches: from a run of five, one
/// more clean batch (or an empty one) makes it healthy; a healthy daemon
/// stays healthy on clean batches.
pub proof fn lemma_clean_batches_heal(h: DaemonHealth, c: u8, evs: Seq<(AppEventKind, Seq<char>)>)
    requires
        !any_disconnect(evs),
        !any_complaint(evs),
        h == DaemonHealth::Healthy || (h == DaemonHealth::Degraded && c >= 5),
    ensures
        health_step(h, c, evs).0 == DaemonHealth::Healthy,
{
}

/// The panel after appending events: the newest `MAX_EVENTS`.
pub open spec fn appended(old: Seq<(AppEventKind, Seq<char>)>, new: Seq<(AppEventKind, Seq<char>)>) -> Seq<
    (AppEventKind, Seq<char>),
> {
    let all = old + new;
    if new.len() == 0 {
        old
    } else if all.len() > MAX_EVENTS {
        all.skip(all.len() - MAX_EVENTS)
    } else {
        all
    }
}

/// What a shell line did locally.
#[derive(Debug)]
pub enum LocalCommand {
    /// Not a local command: send it to the backend.
    Forward,
    /// Handled; these are its events.
    Handled(Vec<AppEvent>),
    /// `effects save`: the application writes the file, then reports
    /// through `App::effects_saved`.
    Save,
}

/// What submitting the prompt asks of the application.
#[derive(Debug, Clone, Copy, PartialEq, Eq, Structural)]
pub enum SubmitOutcome {
    Done,
    /// Write the effects file, then call `App::effects_saved`.
    SaveEffects,
}

pub open spec fn effects_status_text(e: VisualEffects) -> Seq<char> {
    "effects: pulse="@ + bool_text(e.pulse) + ", scanlines="@ + bool_text(e.scanlines)
        + ", matrix="@ + bool_text(e.matrix) + ", border_noise="@ + bool_text(e.border_noise)
        + ", badges="@ + bool_text(e.badges) + ", logo_reactive="@ + bool_text(e.logo_reactive)
        + ", load_index="@ + bool_text(e.load_index)
}

pub open spec fn on_off(b: bool) -> Seq<char> {
    if b {
        "on"@
    } else {
        "off"@
    }
}

/// A local `effects` command's events and the effects it leaves: `status`
/// (the default), `on`/`off` for all, `<flag> <on|off>` for one; `save`
/// is handled apart.
pub open spec fn local_spec(e: VisualEffects, parts: Seq<Seq<char>>) -> (Seq<(AppEventKind, Seq<char>)>, VisualEffects) {
    let sub = if parts.len() > 1 { parts[1] } else { "status"@ };
    if sub == "status"@ {
        (seq![(AppEventKind::Info, effects_status_text(e))], e)
    } else if sub == "on"@ || sub == "off"@ {
        (seq![(AppEventKind::System, "effects: all="@ + sub)], all_effects(sub == "on"@))
    } else if parts.len() < 3 {
        (
            seq![
                (
                    AppEventKind::Error,
                    "effects: usage: effects <pulse|scanlines|matrix|border|badges|logo|load> <on|off>"@,
                ),
            ],
            e,
        )
    } else if parts[2] != "on"@ && parts[2] != "off"@ {
        (seq![(AppEventKind::Error, "effects: expected `on` or `off`"@)], e)
    } else {
        (
            seq![(AppEventKind::System, "effects: "@ + sub + "="@ + parts[2])],
            with_flag(e, sub, parts[2] == "on"@),
        )
    }
}

pub open spec fn is_effects_cmd(parts: Seq<Seq<char>>) -> bool {
    parts.len() > 0 && parts[0] == "effects"@
}

pub open spec fn is_save(parts: Seq<Seq<char>>) -> bool {
    is_effects_cmd(parts) && parts.len() > 1 && parts[1] == "save"@
}

/// `new` is `old` after a batch of events `evs` went to the panel: the
/// daemon's health follows the batch, the panel keeps the newest
/// `MAX_EVENTS`, and an unlocked panel jumps back to the newest entry.
pub open spec fn after_batch(old: App, new: App, evs: Seq<(AppEventKind, Seq<char>)>) -> bool {
    &&& (new.daemon_health, new.daemon_health_clean_runs) == health_step(
        old.daemon_health,
        old.daemon_health_clean_runs,
        evs,
    )
    &&& ev_views(new.events@) == appended(ev_views(old.events@), evs)
    &&& new.events_scroll_offset == if evs.len() > 0 && !old.events_scroll_locked {
        0
    } else {
        old.events_scroll_offset
    }
    &&& new.events_scroll_locked == old.events_scroll_locked
}

/// The panel and the daemon's health as they were.
pub open spec fn panel_unchanged(old: App, new: App) -> bool {
    &&& new.events == old.events
    &&& new.daemon_health == old.daemon_health
    &&& new.daemon_health_clean_runs == old.daemon_health_clean_runs
    &&& new.events_scroll_offset == old.events_scroll_offset
    &&& new.events_scroll_locked == old.events_scroll_locked
}

impl App {
    pub fn new(initial_vms: Vec<VmStatus>, effects: VisualEffects) -> (r: Self)
        ensures
            r.running,
            r.vms@ == initial_vms@,
            r.selected_vm == 0,
            r.events@.len() == 0,
            r.shell_input@.len() == 0,
            r.shell_history@.len() == 0,
            r.tick_count == 0,
            !r.events_scroll_locked,
            r.events_scroll_offset == 0,
            !r.vm_detail_open,
            r.effects == effects,
            r.daemon_health == DaemonHealth::Disconnected,
            r.daemon_health_clean_runs == 0,
    {
        App {
            running: true,
            vms: initial_vms,
            selected_vm: 0,
            events: Vec::new(),
            shell_input: String::new(),
            shell_history: Vec::new(),
            tick_count: 0,
            events_scroll_locked: false,
            events_scroll_offset: 0,
            vm_detail_open: false,
            effects,
            daemon_health: DaemonHealth::Disconnected,
            daemon_health_clean_runs: 0,
        }
    }

    fn update_daemon_health(&mut self, new_events: &Vec<AppEvent>)
        ensures
            (final(self).daemon_health, final(self).daemon_health_clean_runs) == health_step(
                old(self).daemon_health,
                old(self).daemon_health_clean_runs,
                ev_views(new_events@),
            ),
            final(self).events == old(self).events,
            final(self).events_scroll_offset == old(self).events_scroll_offset,
            final(self).events_scroll_locked == old(self).events_scroll_locked,
            final(self).vms == old(self).vms,
            final(self).selected_vm == old(self).selected_vm,
            final(self).shell_input == old(self).shell_input,
            final(self).shell_history == old(self).shell_history,
            final(self).tick_count == old(self).tick_count,
            final(self).effects == old(self).effects,
            final(self).running == old(self).running,
            final(self).vm_detail_open == old(self).vm_detail_open,
    {
        let ghost evs = ev_views(new_events@);
        let mut complaint = false;
        let mut i: usize = 0;
        let p1 = chars_of("daemon unavailable");
        let p2 = chars_of("daemon closed IPC connection");
        let p3 = chars_of("failed to connect to");
        let q1 = chars_of("chalybsd");
        let q2 = chars_of("daemon");
        let q3 = chars_of("IPC");
        while i < new_events.len()
            invariant
                i <= new_events@.len(),
                evs == ev_views(new_events@),
                p1@ == "daemon unavailable"@,
                p2@ == "daemon closed IPC connection"@,
                p3@ == "failed to connect to"@,
                q1@ == "chalybsd"@,
                q2@ == "daemon"@,
                q3@ == "IPC"@,
                *self == *old(self),
                forall|k: int| 0 <= k < i ==> !is_disconnect(#[trigger] evs[k].1),
                complaint <==> exists|k: int|
                    0 <= k < i && is_complaint(#[trigger] evs[k].0, evs[k].1),
            decreases new_events@.len() - i,
        {
            let m = chars_of(new_events[i].message.as_str());
            assert(evs[i as int] == (new_events@[i as int].kind, new_events@[i as int].message@));
            let d = contains_sub_exec(m.as_slice(), p1.as_slice()) || contains_sub_exec(
                m.as_slice(),
                p2.as_slice(),
            ) || contains_sub_exec(m.as_slice(), p3.as_slice());
            if d {
                assert(is_disconnect(evs[i as int].1));
                assert(any_disconnect(evs));
                self.daemon_health = DaemonHealth::Disconnected;
                self.daemon_health_clean_runs = 0;
                return;
            }
            let k = new_events[i].kind;
            let c = (k == AppEventKind::Error || k == AppEventKind::Warning) && (contains_sub_exec(
                m.as_slice(),
                q1.as_slice(),
            ) || contains_sub_exec(m.as_slice(), q2.as_slice()) || contains_sub_exec(
                m.as_slice(),
                q3.as_slice(),
            ));
            assert(c == is_complaint(evs[i as int].0, evs[i as int].1));
            if c {
                complaint = true;
            }
            i = i + 1;
        }
        assert(!any_disconnect(evs));
        if new_events.len() > 0 && complaint {
            assert(any_complaint(evs));
            if self.daemon_health == DaemonHealth::Healthy {
                self.daemon_health = DaemonHealth::Degraded;
            }
            self.daemon_health_clean_runs = 0;
            return;
        }
        assert(new_events@.len() > 0 ==> !any_complaint(evs));
        if self.daemon_health != DaemonHealth::Disconnected {
            self.daemon_health_clean_runs = if self.daemon_health_clean_runs == 255 {
                255
            } else {
                self.daemon_health_clean_runs + 1
            };
            if self.daemon_health == DaemonHealth::Degraded && self.daemon_health_clean_runs >= 6 {
                self.daemon_health = DaemonHealth::Healthy;
            }
        }
    }

    /// Append a batch of events: the daemon's health follows the batch,
    /// the panel keeps the newest `MAX_EVENTS`, and an unlocked panel
    /// jumps back to the newest entry.
    pub fn push_events(&mut self, new_events: Vec<AppEvent>)
        ensures
            (final(self).daemon_health, final(self).daemon_health_clean_runs) == health_step(
                old(self).daemon_health,
                old(self).daemon_health_clean_runs,
                ev_views(new_events@),
            ),
            ev_views(final(self).events@) == appended(ev_views(old(self).events@), ev_views(new_events@)),
            final(self).events_scroll_offset == if new_events@.len() > 0
                && !old(self).events_scroll_locked {
                0
            } else {
                old(self).events_scroll_offset
            },
            final(self).events_scroll_locked == old(self).events_scroll_locked,
            final(self).vms == old(self).vms,
            final(self).selected_vm == old(self).selected_vm,
            final(self).shell_input == old(self).shell_input,
            final(self).shell_history == old(self).shell_history,
            final(self).tick_count == old(self).tick_count,
            final(self).effects == old(self).effects,
            final(self).running == old(self).running,
            final(self).vm_detail_open == old(self).vm_detail_open,
    {
        self.update_daemon_health(&new_events);
        if new_events.len() == 0 {
            return;
        }
        let ghost o = ev_views(self.events@);
        let ghost n = ev_views(new_events@);
        let mut ne = new_events;
        self.events.append(&mut ne);
        assert(ev_views(self.events@) =~= o + n);
        if self.events.len() > MAX_EVENTS {
            let overflow = self.events.len() - MAX_EVENTS;
            let kept = self.events.split_off(overflow);
            self.events = kept;
            assert(ev_views(self.events@) =~= (o + n).skip((o + n).len() - MAX_EVENTS));
        }
        if !self.events_scroll_locked {
            self.events_scroll_offset = 0;
        }
    }

    /// One tick: refresh the VM rows from the backend and take its new
    /// events.
    pub fn on_tick<B: ChalybsBackend>(&mut self, backend: &mut B)
        ensures
            final(self).tick_count == old(self).tick_count.wrapping_add(1),
            exists|evs: Seq<(AppEventKind, Seq<char>)>| #[trigger] after_batch(*old(self), *final(self), evs),
            final(self).selected_vm == old(self).selected_vm,
            final(self).vm_detail_open == old(self).vm_detail_open,
            final(self).running == old(self).running,
            final(self).effects == old(self).effects,
            final(self).shell_input == old(self).shell_input,
            final(self).shell_history == old(self).shell_history,
    {
        self.tick_count = self.tick_count.wrapping_add(1);
        backend.refresh_status(&mut self.vms);
        let new_events = backend.poll_events();
        let ghost evs = ev_views(new_events@);
        self.push_events(new_events);
        assert(after_batch(*old(self), *self, evs));
    }

    pub fn push_shell_char(&mut self, c: char)
        ensures
            final(self).shell_input@ == old(self).shell_input@.push(c),
    {
        push_char(&mut self.shell_input, c);
    }

    /// Remove the prompt's last character, if any.
    pub fn pop_shell_char(&mut self)
        ensures
            final(self).shell_input@ == if old(self).shell_input@.len() > 0 {
                old(self).shell_input@.drop_last()
            } else {
                old(self).shell_input@
            },
    {
        let v = chars_of(self.shell_input.as_str());
        if v.len() > 0 {
            let w = slice_chars(v.as_slice(), 0, v.len() - 1);
            self.shell_input = string_of(w.as_slice());
            assert(w@ =~= v@.drop_last());
        }
    }

    pub fn clear_shell_input(&mut self)
        ensures
            final(self).shell_input@.len() == 0,
    {
        self.shell_input = String::new();
    }

    /// Handle `effects ...` locally; anything else is forwarded.
    pub fn handle_local_command(&mut self, cmd: &str) -> (r: LocalCommand)
        ensures
            !is_effects_cmd(split_ws(cmd@)) ==> r is Forward && final(self).effects == old(self).effects,
            is_save(split_ws(cmd@)) ==> r is Save && final(self).effects == old(self).effects,
            is_effects_cmd(split_ws(cmd@)) && !is_save(split_ws(cmd@)) ==> {
                let (evs, e) = local_spec(old(self).effects, split_ws(cmd@));
                &&& r matches LocalCommand::Handled(v)
                &&& ev_views(v@) == evs
                &&& final(self).effects == e
            },
            final(self).events == old(self).events,
            final(self).daemon_health == old(self).daemon_health,
            final(self).daemon_health_clean_runs == old(self).daemon_health_clean_runs,
            final(self).events_scroll_offset == old(self).events_scroll_offset,
            final(self).events_scroll_locked == old(self).events_scroll_locked,
            final(self).shell_input == old(self).shell_input,
            final(self).shell_history == old(self).shell_history,
            final(self).vms == old(self).vms,
            final(self).selected_vm == old(self).selected_vm,
            final(self).tick_count == old(self).tick_count,
            final(self).running == old(self).running,
            final(self).vm_detail_open == old(self).vm_detail_open,
    {
        let cv = chars_of(cmd);
        let parts = split_ws_exec(cv.as_slice());
        let ghost p = seqs_of(parts@);
        if parts.len() == 0 || !eq_word(parts[0].as_slice(), "effects") {
            proof {
                if parts@.len() > 0 {
                    assert(p[0] == parts@[0]@);
                }
            }
            return LocalCommand::Forward;
        }
        assert(p[0] == parts@[0]@);
        proof {
            reveal_strlit("status");
            reveal_strlit("on");
            reveal_strlit("off");
            reveal_strlit("save");
        }
        let status = chars_of("status");
        let sub: &[char] = if parts.len() > 1 {
            assert(p[1] == parts@[1]@);
            parts[1].as_slice()
        } else {
            status.as_slice()
        };
        assert(parts@.len() <= 1 ==> sub@ == "status"@);
        assert(parts@.len() > 1 ==> sub@ == p[1]);
        assert("status"@.len() == 6);
        assert("save"@.len() == 4);
        assert("status"@ != "save"@);
        let mut out: Vec<AppEvent> = Vec::new();
        assert(ev_views(out@) =~= Seq::<(AppEventKind, Seq<char>)>::empty());
        if eq_word(sub, "save") {
            assert(parts@.len() > 1);
            assert(is_save(p));
            return LocalCommand::Save;
        }
        if eq_word(sub, "status") {
            let e = self.effects;
            let mut m = lit("effects: pulse=");
            m.append(bool_str(e.pulse));
            m.append(", scanlines=");
            m.append(bool_str(e.scanlines));
            m.append(", matrix=");
            m.append(bool_str(e.matrix));
            m.append(", border_noise=");
            m.append(bool_str(e.border_noise));
            m.append(", badges=");
            m.append(bool_str(e.badges));
            m.append(", logo_reactive=");
            m.append(bool_str(e.logo_reactive));
            m.append(", load_index=");
            m.append(bool_str(e.load_index));
            push_ev(&mut out, AppEventKind::Info, m);
            return LocalCommand::Handled(out);
        }
        if eq_word(sub, "on") || eq_word(sub, "off") {
            let enable = eq_word(sub, "on");
            self.effects.set_all(enable);
            let mut m = lit("effects: all=");
            m.append(if enable { "on" } else { "off" });
            push_ev(&mut out, AppEventKind::System, m);
            return LocalCommand::Handled(out);
        }
        if parts.len() < 3 {
            push_ev(
                &mut out,
                AppEventKind::Error,
                lit("effects: usage: effects <pulse|scanlines|matrix|border|badges|logo|load> <on|off>"),
            );
            return LocalCommand::Handled(out);
        }
        assert(p[2] == parts@[2]@);
        let on = eq_word(parts[2].as_slice(), "on");
        let off = eq_word(parts[2].as_slice(), "off");
        if !on && !off {
            push_ev(&mut out, AppEventKind::Error, lit("effects: expected `on` or `off`"));
            return LocalCommand::Handled(out);
        }
        let field = string_of(sub);
        self.effects.set_flag(field.as_str(), on);
        let mut m = lit("effects: ");
        m.append(field.as_str());
        m.append("=");
        m.append(if on { "on" } else { "off" });
        push_ev(&mut out, AppEventKind::System, m);
        LocalCommand::Handled(out)
    }

    /// Submit the prompt: local `effects` commands are handled here,
    /// anything else goes to the backend; the command joins the history.
    pub fn submit_shell_command<B: ChalybsBackend>(&mut self, backend: &mut B) -> (r: SubmitOutcome)
        ensures
            final(self).shell_input@.len() == 0,
            trim(old(self).shell_input@).len() == 0 ==> r == SubmitOutcome::Done
                && final(self).shell_history == old(self).shell_history,
            trim(old(self).shell_input@).len() > 0 ==> {
                &&& views(final(self).shell_history@) == views(old(self).shell_history@).push(
                    trim(old(self).shell_input@),
                )
                &&& (r == SubmitOutcome::SaveEffects <==> is_save(split_ws(trim(old(self).shell_input@))))
            },
            trim(old(self).shell_input@).len() == 0 ==> panel_unchanged(*old(self), *final(self))
                && final(self).effects == old(self).effects && *final(backend) == *old(backend),
            is_save(split_ws(trim(old(self).shell_input@))) ==> panel_unchanged(*old(self), *final(self))
                && final(self).effects == old(self).effects && *final(backend) == *old(backend),
            is_effects_cmd(split_ws(trim(old(self).shell_input@))) && !is_save(
                split_ws(trim(old(self).shell_input@)),
            ) ==> {
                let (evs, e) = local_spec(old(self).effects, split_ws(trim(old(self).shell_input@)));
                &&& after_batch(*old(self), *final(self), evs)
                &&& final(self).effects == e
                &&& *final(backend) == *old(backend)
            },
            trim(old(self).shell_input@).len() > 0 && !is_effects_cmd(split_ws(trim(old(self).shell_input@)))
                ==> final(self).effects == old(self).effects && exists|evs: Seq<(AppEventKind, Seq<char>)>|
                #[trigger] after_batch(*old(self), *final(self), evs),
            final(self).vms == old(self).vms,
            final(self).selected_vm == old(self).selected_vm,
            final(self).tick_count == old(self).tick_count,
            final(self).running == old(self).running,
            final(self).vm_detail_open == old(self).vm_detail_open,
    {
        let raw = chars_of(self.shell_input.as_str());
        self.shell_input = String::new();
        let t = trim_chars(raw.as_slice());
        if t.len() == 0 {
            return SubmitOutcome::Done;
        }
        let cmd = string_of(t.as_slice());
        match self.handle_local_command(cmd.as_str()) {
            LocalCommand::Handled(events) => {
                let ghost evs = ev_views(events@);
                let ghost before = *self;
                proof {
                    lemma_views_push(self.shell_history@, cmd);
                }
                self.shell_history.push(cmd);
                self.push_events(events);
                assert(after_batch(before, *self, evs));
                SubmitOutcome::Done
            },
            LocalCommand::Save => {
                proof {
                    lemma_views_push(self.shell_history@, cmd);
                }
                self.shell_history.push(cmd);
                SubmitOutcome::SaveEffects
            },
            LocalCommand::Forward => {
                let events = backend.handle_shell_command(cmd.as_str());
                let ghost evs = ev_views(events@);
                proof {
                    lemma_views_push(self.shell_history@, cmd);
                }
                self.shell_history.push(cmd);
                self.push_events(events);
                assert(after_batch(*old(self), *self, evs));
                SubmitOutcome::Done
            },
        }
    }

    /// Report the outcome of writing the effects file: where it went, or
    /// why it could not be written.
    pub fn effects_saved(&mut self, result: core::result::Result<String, String>)
        ensures
            ({
                let ev = match result {
                    Ok(p) => (AppEventKind::System, "effects: configuration saved to "@ + p@),
                    Err(e) => (AppEventKind::Error, "effects: failed to save configuration: "@ + e@),
                };
                ev_views(final(self).events@) == appended(ev_views(old(self).events@), seq![ev])
            }),
    {
        let mut v: Vec<AppEvent> = Vec::new();
        assert(ev_views(v@) =~= Seq::<(AppEventKind, Seq<char>)>::empty());
        match result {
            Ok(p) => {
                let mut m = lit("effects: configuration saved to ");
                m.append(p.as_str());
                push_ev(&mut v, AppEventKind::System, m);
            },
            Err(e) => {
                let mut m = lit("effects: failed to save configuration: ");
                m.append(e.as_str());
                push_ev(&mut v, AppEventKind::Error, m);
            },
        }
        self.push_events(v);
    }

    pub fn select_next_vm(&mut self)
        ensures
            final(self).selected_vm == if old(self).vms@.len() == 0 {
                old(self).selected_vm
            } else if old(self).selected_vm + 1 <= old(self).vms@.len() - 1 {
                (old(self).selected_vm + 1) as usize
            } else {
                (old(self).vms@.len() - 1) as usize
            },
            final(self).vms == old(self).vms,
    {
        if self.vms.len() == 0 {
            return;
        }
        let last = self.vms.len() - 1;
        self.selected_vm = if self.selected_vm < last {
            self.selected_vm + 1
        } else {
            last
        };
    }

    pub fn select_previous_vm(&mut self)
        ensures
            final(self).selected_vm == if old(self).vms@.len() > 0 && old(self).selected_vm > 0 {
                (old(self).selected_vm - 1) as usize
            } else {
                old(self).selected_vm
            },
            final(self).vms == old(self).vms,
    {
        if self.vms.len() == 0 {
            return;
        }
        if self.selected_vm > 0 {
            self.selected_vm = self.selected_vm - 1;
        }
    }

    pub fn lock_events_scroll(&mut self)
        ensures
            final(self).events_scroll_locked,
            final(self).events_scroll_offset == old(self).events_scroll_offset,
    {
        self.events_scroll_locked = true;
    }

    pub fn unlock_events_scroll(&mut self)
        ensures
            !final(self).events_scroll_locked,
            final(self).events_scroll_offset == 0,
    {
        self.events_scroll_locked = false;
        self.events_scroll_offset = 0;
    }

    /// Scroll towards older events, no further than the oldest.
    pub fn scroll_events_up(&mut self, lines: usize)
        ensures
            final(self).events_scroll_offset == if old(self).events@.len() == 0 {
                old(self).events_scroll_offset as int
            } else {
                let want = if old(self).events_scroll_offset + lines > usize::MAX {
                    usize::MAX as int
                } else {
                    old(self).events_scroll_offset + lines
                };
                if want < old(self).events@.len() - 1 {
                    want
                } else {
                    old(self).events@.len() - 1
                }
            },
            final(self).events == old(self).events,
    {
        if self.events.len() == 0 {
            return;
        }
        let want = self.events_scroll_offset.saturating_add(lines);
        let max = self.events.len() - 1;
        self.events_scroll_offset = if want < max {
            want
        } else {
            max
        };
    }

    /// Scroll towards newer events, no further than the newest.
    pub fn scroll_events_down(&mut self, lines: usize)
        ensures
            final(self).events_scroll_offset == if old(self).events@.len() == 0 {
                old(self).events_scroll_offset as int
            } else if old(self).events_scroll_offset >= lines {
                old(self).events_scroll_offset - lines
            } else {
                0
            },
            final(self).events == old(self).events,
    {
        if self.events.len() == 0 {
            return;
        }
        self.events_scroll_offset = self.events_scroll_offset.saturating_sub(lines);
    }

    pub fn toggle_vm_detail(&mut self)
        ensures
            *final(self) == (App { vm_detail_open: !old(self).vm_detail_open, ..*old(self) }),
    {
        self.vm_detail_open = !self.vm_detail_open;
    }

    /// The selected VM row, if the selection is in range.
    pub fn selected_vm(&self) -> (r: Option<&VmStatus>)
        ensures
            self.selected_vm < self.vms@.len() ==> r == Some(&self.vms@[self.selected_vm as int]),
            self.selected_vm >= self.vms@.len() ==> r is None,
    {
        if self.selected_vm < self.vms.len() {
            Some(&self.vms[self.selected_vm])
        } else {
            None
        }
    }
}

// ---------------------------------------------------------------------------
// Daemon snapshots
// ---------------------------------------------------------------------------

/// A VM row's contents.
pub open spec fn row_view(r: VmStatus) -> (Seq<char>, VmState, bool, bool, bool, Seq<char>, bool) {
    (r.name@, r.state, r.cpu_pinned, r.irq_pinned, r.tasmota_on, r.isolation_mode@, r.hugepages)
}

pub open spec fn rows_view(v: Seq<VmStatus>) -> Seq<(Seq<char>, VmState, bool, bool, bool, Seq<char>, bool)> {
    v.map_values(|r: VmStatus| row_view(r))
}

pub open spec fn ui_state(s: IpcVmState) -> VmState {
    match s {
        IpcVmState::Stopped => VmState::Stopped,
        IpcVmState::Starting => VmState::Starting,
        IpcVmState::Running => VmState::Running,
        IpcVmState::ShuttingDown => VmState::ShuttingDown,
    }
}

/// The row the UI shows for a VM of a daemon snapshot.
pub fn vm_row_from_ipc(s: &IpcVmStatus) -> (r: VmStatus)
    ensures
        row_view(r) == (s.name@, ui_state(s.state), s.cpu_pinned, s.irq_pinned, s.tasmota_on,
            s.isolation_mode@, s.hugepages),
{
    VmStatus {
        name: copy_string(&s.name),
        state: match s.state {
            IpcVmState::Stopped => VmState::Stopped,
            IpcVmState::Starting => VmState::Starting,
            IpcVmState::Running => VmState::Running,
            IpcVmState::ShuttingDown => VmState::ShuttingDown,
        },
        cpu_pinned: s.cpu_pinned,
        irq_pinned: s.irq_pinned,
        tasmota_on: s.tasmota_on,
        isolation_mode: copy_string(&s.isolation_mode),
        hugepages: s.hugepages,
    }
}

/// The rows of a snapshot, in its order.
pub fn vm_rows_from_ipc(vms: &Vec<IpcVmStatus>) -> (r: Vec<VmStatus>)
    ensures
        r@.len() == vms@.len(),
        forall|i: int| 0 <= i < vms@.len() ==> row_view(#[trigger] r@[i]) == row_view(
            vm_row_spec(vms@[i]),
        ),
{
    let mut out: Vec<VmStatus> = Vec::new();
    let mut i: usize = 0;
    while i < vms.len()
        invariant
            i <= vms@.len(),
            out@.len() == i,
            forall|k: int| 0 <= k < i ==> row_view(#[trigger] out@[k]) == row_view(vm_row_spec(vms@[k])),
        decreases vms@.len() - i,
    {
        out.push(vm_row_from_ipc(&vms[i]));
        i = i + 1;
    }
    out
}

pub open spec fn vm_row_spec(s: IpcVmStatus) -> VmStatus {
    VmStatus {
        name: s.name,
        state: ui_state(s.state),
        cpu_pinned: s.cpu_pinned,
        irq_pinned: s.irq_pinned,
        tasmota_on: s.tasmota_on,
        isolation_mode: s.isolation_mode,
        hugepages: s.hugepages,
    }
}

pub open spec fn ui_kind(k: IpcEventKind) -> AppEventKind {
    match k {
        IpcEventKind::Info => AppEventKind::Info,
        IpcEventKind::Warning => AppEventKind::Warning,
        IpcEventKind::Error => AppEventKind::Error,
        IpcEventKind::Shell => AppEventKind::Shell,
        IpcEventKind::System => AppEventKind::System,
    }
}

fn ui_kind_exec(k: IpcEventKind) -> (r: AppEventKind)
    ensures
        r == ui_kind(k),
{
    match k {
        IpcEventKind::Info => AppEventKind::Info,
        IpcEventKind::Warning => AppEventKind::Warning,
        IpcEventKind::Error => AppEventKind::Error,
        IpcEventKind::Shell => AppEventKind::Shell,
        IpcEventKind::System => AppEventKind::System,
    }
}

pub open spec fn global_views(v: Seq<IpcEvent>) -> Seq<(AppEventKind, Seq<char>)> {
    v.map_values(|e: IpcEvent| (ui_kind(e.kind), e.message@))
}

pub open spec fn batch_views(vm: Seq<char>, v: Seq<IpcEvent>) -> Seq<(AppEventKind, Seq<char>)> {
    v.map_values(|e: IpcEvent| (ui_kind(e.kind), vm + ": "@ + e.message@))
}

/// Per-VM batches flattened, each message prefixed with its VM's name.
pub open spec fn batches_views(b: Seq<IpcVmEvents>) -> Seq<(AppEventKind, Seq<char>)>
    decreases b.len(),
{
    if b.len() == 0 {
        Seq::empty()
    } else {
        batches_views(b.drop_last()) + batch_views(b.last().vm_name@, b.last().events@)
    }
}

/// The events a snapshot brings to the panel: the global events, then
/// each VM's events as "<vm>: <message>".
pub fn snapshot_events(events_global: &Vec<IpcEvent>, events_vm: &Vec<IpcVmEvents>) -> (r: Vec<AppEvent>)
    ensures
        ev_views(r@) == global_views(events_global@) + batches_views(events_vm@),
{
    let mut out: Vec<AppEvent> = Vec::new();
    let mut i: usize = 0;
    while i < events_global.len()
        invariant
            i <= events_global@.len(),
            ev_views(out@) == global_views(events_global@.take(i as int)),
        decreases events_global@.len() - i,
    {
        let e = &events_global[i];
        push_ev(&mut out, ui_kind_exec(e.kind), copy_string(&e.message));
        assert(global_views(events_global@.take(i + 1)) =~= global_views(events_global@.take(i as int)).push(
            (ui_kind(e.kind), e.message@),
        ));
        i = i + 1;
    }
    assert(events_global@.take(events_global@.len() as int) =~= events_global@);
    let ghost g = ev_views(out@);
    let mut j: usize = 0;
    assert(batches_views(events_vm@.take(0)) =~= Seq::<(AppEventKind, Seq<char>)>::empty());
    while j < events_vm.len()
        invariant
            j <= events_vm@.len(),
            ev_views(out@) == g + batches_views(events_vm@.take(j as int)),
        decreases events_vm@.len() - j,
    {
        let b = &events_vm[j];
        let ghost before = ev_views(out@);
        let mut k: usize = 0;
        while k < b.events.len()
            invariant
                k <= b.events@.len(),
                ev_views(out@) == before + batch_views(b.vm_name@, b.events@.take(k as int)),
            decreases b.events@.len() - k,
        {
            let e = &b.events[k];
            let mut m = copy_string(&b.vm_name);
            m.append(": ");
            m.append(e.message.as_str());
            push_ev(&mut out, ui_kind_exec(e.kind), m);
            assert(batch_views(b.vm_name@, b.events@.take(k + 1)) =~= batch_views(
                b.vm_name@,
                b.events@.take(k as int),
            ).push((ui_kind(e.kind), b.vm_name@ + ": "@ + e.message@)));
            k = k + 1;
        }
        assert(b.events@.take(b.events@.len() as int) =~= b.events@);
        assert(events_vm@.take(j + 1).drop_last() =~= events_vm@.take(j as int));
        j = j + 1;
    }
    assert(events_vm@.take(events_vm@.len() as int) =~= events_vm@);
    out
}

fn copy_row(r: &VmStatus) -> (c: VmStatus)
    ensures
        row_view(c) == row_view(*r),
{
    VmStatus {
        name: copy_string(&r.name),
        state: r.state,
        cpu_pinned: r.cpu_pinned,
        irq_pinned: r.irq_pinned,
        tasmota_on: r.tasmota_on,
        isolation_mode: copy_string(&r.isolation_mode),
        hugepages: r.hugepages,
    }
}

/// Refresh the UI's rows from the latest snapshot's: with no snapshot
/// rows nothing changes; with as many rows they replace the UI's; with a
/// different count the rows stay and a warning says so.
pub fn refresh_rows(vms: &mut Vec<VmStatus>, latest: &Vec<VmStatus>) -> (r: Option<AppEvent>)
    ensures
        latest@.len() == 0 ==> r is None && final(vms)@ == old(vms)@,
        latest@.len() > 0 && latest@.len() == old(vms)@.len() ==> r is None && rows_view(final(vms)@)
            == rows_view(latest@),
        latest@.len() > 0 && latest@.len() != old(vms)@.len() ==> final(vms)@ == old(vms)@ && (r matches Some(
            e,
        ) && e.kind == AppEventKind::Warning && e.message@ == "chalybs-tui: daemon snapshot VM count "@
            + dec(latest@.len() as nat) + " != local VM count "@ + dec(old(vms)@.len() as nat)
            + " (ignoring)"@),
{
    if latest.len() == 0 {
        return None;
    }
    if latest.len() != vms.len() {
        let mut m = lit("chalybs-tui: daemon snapshot VM count ");
        m.append(u64_to_dec(latest.len() as u64).as_str());
        m.append(" != local VM count ");
        m.append(u64_to_dec(vms.len() as u64).as_str());
        m.append(" (ignoring)");
        return Some(AppEvent { kind: AppEventKind::Warning, message: m });
    }
    let mut out: Vec<VmStatus> = Vec::new();
    let mut i: usize = 0;
    while i < latest.len()
        invariant
            i <= latest@.len(),
            rows_view(out@) == rows_view(latest@.take(i as int)),
        decreases latest@.len() - i,
    {
        let ghost before = out@;
        let c = copy_row(&latest[i]);
        out.push(c);
        assert(rows_view(out@) =~= rows_view(before).push(row_view(c)));
        assert(rows_view(latest@.take(i + 1)) =~= rows_view(latest@.take(i as int)).push(
            row_view(latest@[i as int]),
        ));
        i = i + 1;
    }
    assert(latest@.take(latest@.len() as int) =~= latest@);
    *vms = out;
    None
}

/// The slice `[start, end)` of the events panel's entries that fit in
/// `height` rows: the newest ones, or, while scrolling is locked, the
/// ones `offset` entries back from the newest, clamped so the view stays
/// full.
pub open spec fn event_window_spec(total: nat, height: nat, locked: bool, offset: nat) -> (nat, nat) {
    let view_len = if total < height { total } else { height };
    let max_offset = (total - view_len) as nat;
    let off = if !locked { 0 } else if offset < max_offset { offset } else { max_offset };
    let end = (total - off) as nat;
    ((end - view_len) as nat, end)
}

/// Which of `total` events the panel shows in `height` rows.
pub fn event_window(total: usize, height: usize, locked: bool, offset: usize) -> (r: (usize, usize))
    ensures
        (r.0 as nat, r.1 as nat) == event_window_spec(total as nat, height as nat, locked, offset as nat),
        r.0 <= r.1 <= total,
{
    let view_len = if total < height { total } else { height };
    let max_offset = total - view_len;
    let off = if !locked { 0 } else if offset < max_offset { offset } else { max_offset };
    let end = total - off;
    (end - view_len, end)
}

/// The application over the mock backend.
pub fn create_mock_app(effects: VisualEffects) -> (r: (App, MockBackend))
    ensures
        mock_vms_ok(r.0.vms@),
        r.0.events@.len() == 0,
        r.0.daemon_health == DaemonHealth::Disconnected,
        r.0.effects == effects,
        r.1.tick == 0,
{
    let backend = MockBackend::new();
    let vms = backend.mock_vms();
    (App::new(vms, effects), backend)
}

/// The application for the outcome of connecting to the daemon: its VM
/// rows (then the daemon backend is used and the daemon is healthy), or
/// the connection error (then the mock backend, returned here, is used
/// and the daemon is disconnected). Either way one system event says so.
pub fn create_app_autodetect(
    connection: core::result::Result<Vec<VmStatus>, String>,
    effects: VisualEffects,
) -> (r: (App, Option<MockBackend>))
    ensures
        r.0.effects == effects,
        match connection {
            Ok(vms) => {
                &&& r.1 is None
                &&& r.0.vms@ == vms@
                &&& r.0.daemon_health == health_step(
                    DaemonHealth::Healthy,
                    0,
                    seq![(AppEventKind::System, "chalybs-tui: connected to daemon backend"@)],
                ).0
                &&& ev_views(r.0.events@) == seq![
                    (AppEventKind::System, "chalybs-tui: connected to daemon backend"@),
                ]
            },
            Err(err) => {
                &&& r.1 matches Some(m) && m.tick == 0
                &&& mock_vms_ok(r.0.vms@)
                &&& r.0.daemon_health == DaemonHealth::Disconnected
                &&& ev_views(r.0.events@) == seq![
                    (
                        AppEventKind::System,
                        "chalybs-tui: daemon unavailable ("@ + err@ + "); using mock backend"@,
                    ),
                ]
            },
        },
{
    match connection {
        Ok(vms) => {
            let mut app = App::new(vms, effects);
            app.daemon_health = DaemonHealth::Healthy;
            app.daemon_health_clean_runs = 0;
            let mut v: Vec<AppEvent> = Vec::new();
            assert(ev_views(v@) =~= Seq::<(AppEventKind, Seq<char>)>::empty());
            push_ev(&mut v, AppEventKind::System, lit("chalybs-tui: connected to daemon backend"));
            app.push_events(v);
            assert(ev_views(app.events@) =~= seq![
                (AppEventKind::System, "chalybs-tui: connected to daemon backend"@),
            ]);
            (app, None)
        },
        Err(err) => {
            let (mut app, mock) = create_mock_app(effects);
            app.daemon_health = DaemonHealth::Disconnected;
            app.daemon_health_clean_runs = 0;
            let mut m = lit("chalybs-tui: daemon unavailable (");
            m.append(err.as_str());
            m.append("); using mock backend");
            let mut v: Vec<AppEvent> = Vec::new();
            assert(ev_views(v@) =~= Seq::<(AppEventKind, Seq<char>)>::empty());
            push_ev(&mut v, AppEventKind::System, m);
            app.push_events(v);
            proof {
                lemma_disconnected_stays(DaemonHealth::Disconnected, 0, ev_views(v@));
            }
            assert(ev_views(app.events@) =~= seq![
                (
                    AppEventKind::System,
                    "chalybs-tui: daemon unavailable ("@ + err@ + "); using mock backend"@,
                ),
            ]);
            (app, Some(mock))
        },
    }
}

} // verus!
