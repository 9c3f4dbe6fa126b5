use chalybs::daemon::ipc::{
    IpcEvent, IpcEventKind, IpcVmCpuLayout, IpcVmEvents, IpcVmHugepages, IpcVmState, IpcVmStatus,
};
use chalybs::tui::app::{refresh_rows, snapshot_events, vm_row_from_ipc, vm_rows_from_ipc};
use chalybs::tui::app::{
    create_app_autodetect, create_mock_app, event_window, App, AppEvent, AppEventKind, DaemonHealth,
    LocalCommand, MockBackend, SubmitOutcome, VisualEffects, VmState, VmStatus, MAX_EVENTS,
};
use chalybs::tui::config::{LogoHaloProfile, TuiConfig};
use chalybs::tui::glitch::{
    affects_region, glitch_profile, junk_prefix, mix64, tick_for_region, GlitchMode,
    GlitchProfile, REGION_EVENTS, REGION_HEADER,
};

fn reference_mix(mut x: u64) -> u64 {
    x ^= x >> 12;
    x ^= x << 25;
    x ^= x >> 27;
    x.wrapping_mul(0x2545_F491_4F6C_DD1D)
}

fn ev(kind: AppEventKind, m: &str) -> AppEvent {
    AppEvent { kind, message: m.to_string() }
}

fn row(name: &str) -> VmStatus {
    VmStatus {
        name: name.to_string(),
        state: VmState::Stopped,
        cpu_pinned: false,
        irq_pinned: false,
        tasmota_on: false,
        isolation_mode: "disabled".to_string(),
        hugepages: false,
    }
}

#[test]
fn mixing_function_matches_xorshift_multiply() {
    for x in [0u64, 1, 42, 0xdead_beef, u64::MAX] {
        assert_eq!(mix64(x), reference_mix(x));
    }
}

#[test]
fn glitch_profiles_are_quiet_early_and_well_formed() {
    for t in 0..128u64 {
        assert!(!glitch_profile(t).active);
    }
    let mut seen_active = false;
    for t in 128..20_000u64 {
        let p = glitch_profile(t);
        if p.active {
            seen_active = true;
            assert!((1..=3).contains(&p.strength));
            assert!(p.regions != 0);
            assert_eq!(p.phase as u64, t % 3);
        } else {
            assert_eq!(p, GlitchProfile::inactive());
        }
    }
    assert!(seen_active);
}

#[test]
fn glitch_region_helpers() {
    let p = GlitchProfile { active: true, strength: 2, mode: GlitchMode::JunkInjection, regions: REGION_EVENTS, phase: 1 };
    assert!(affects_region(&p, REGION_EVENTS));
    assert!(!affects_region(&p, REGION_HEADER));
    assert!(!affects_region(&GlitchProfile::inactive(), REGION_EVENTS));
    assert_eq!(tick_for_region(1000, &GlitchProfile::inactive(), REGION_EVENTS), 1000);
    assert_eq!(junk_prefix(3, 1000, &GlitchProfile::inactive()), None);
    let any = (0..200usize).any(|row| junk_prefix(row, 77, &p).is_some());
    assert!(any);
    for row in 0..200usize {
        if let Some(s) = junk_prefix(row, 77, &p) {
            let n = s.chars().count();
            assert!((2..=4).contains(&n));
        }
    }
}

#[test]
fn halo_names_round_trip() {
    for p in [
        LogoHaloProfile::Off,
        LogoHaloProfile::C3,
        LogoHaloProfile::C3Narrow,
        LogoHaloProfile::C3Wide,
        LogoHaloProfile::C3ExtraWide,
    ] {
        assert_eq!(LogoHaloProfile::from_str_kind(p.as_str()), Some(p));
    }
    assert_eq!(LogoHaloProfile::from_str_kind("C3D"), Some(LogoHaloProfile::C3ExtraWide));
    assert_eq!(LogoHaloProfile::from_str_kind("none"), Some(LogoHaloProfile::Off));
    assert_eq!(LogoHaloProfile::from_str_kind("sparkly"), None);
}

#[test]
fn tui_config_env_wins_over_file() {
    assert_eq!(
        TuiConfig::load(Some(" wide ".to_string()), Some("off".to_string())),
        Some(TuiConfig { logo_halo: LogoHaloProfile::C3Wide })
    );
    assert_eq!(
        TuiConfig::load(Some("bogus".to_string()), Some("basic".to_string())),
        Some(TuiConfig { logo_halo: LogoHaloProfile::C3 })
    );
    assert_eq!(TuiConfig::load(None, None), None);
}

#[test]
fn effects_file_round_trip() {
    let mut e = VisualEffects::default_enabled();
    e.set_flag("border", false);
    e.set_flag("load_index", false);
    assert!(!e.border_noise && !e.load_index && e.pulse);
    assert_eq!(VisualEffects::from_config_text(&e.config_text()), e);
    let mut off = e;
    off.set_all(false);
    assert_eq!(VisualEffects::from_config_text(&off.config_text()), off);
    let parsed = VisualEffects::from_config_text("# x\n matrix = off\nbadges=0\nunknown = true\npulse = maybe\n");
    let mut want = VisualEffects::default_enabled();
    want.matrix = false;
    want.badges = false;
    assert_eq!(parsed, want);
}

#[test]
fn effects_config_path() {
    assert_eq!(
        VisualEffects::config_path(Some("/xdg".to_string()), Some("/home/u".to_string())),
        Some("/xdg/chalybs/tui.conf".to_string())
    );
    assert_eq!(
        VisualEffects::config_path(Some(String::new()), Some("/home/u".to_string())),
        Some("/home/u/.config/chalybs/tui.conf".to_string())
    );
    assert_eq!(VisualEffects::config_path(None, None), None);
}

#[test]
fn mock_backend_replies() {
    let (app, backend) = create_mock_app(VisualEffects::default_enabled());
    assert_eq!(app.vms.len(), 3);
    assert_eq!(app.vms[0].name, "win11-gpu");
    let r = backend.reply("  list ");
    assert_eq!(r.len(), 2);
    assert_eq!(r[0].message, "chalybs> list");
    assert_eq!(r[1].message, "mock backend: VMs = win11-gpu, linux-lab, baremetal-sim");
    let r = backend.reply("frob");
    assert_eq!(r[1].kind, AppEventKind::Error);
    assert_eq!(r[1].message, "mock backend: `frob` is not a recognized command (try `help`)");
    assert!(backend.reply("   ").is_empty());
}

#[test]
fn ticks_refresh_and_poll() {
    let (mut app, mut backend) = create_mock_app(VisualEffects::default_enabled());
    app.on_tick(&mut backend);
    assert_eq!(app.tick_count, 1);
    assert_eq!(app.events.len(), 1);
    assert_eq!(app.events[0].message, "chalybs-tui: attached to mock backend");
    let relay = app.vms[0].tasmota_on;
    for _ in 1..32 {
        app.on_tick(&mut backend);
    }
    assert_eq!(backend.tick, 32);
    assert_eq!(app.vms[0].tasmota_on, !relay);
}

#[test]
fn health_follows_events() {
    let mut app = App::new(vec![], VisualEffects::default_enabled());
    assert_eq!(app.daemon_health, DaemonHealth::Disconnected);
    app.daemon_health = DaemonHealth::Healthy;
    app.push_events(vec![ev(AppEventKind::Warning, "chalybsd: slow")]);
    assert_eq!(app.daemon_health, DaemonHealth::Degraded);
    for _ in 0..5 {
        app.push_events(vec![ev(AppEventKind::Info, "ok")]);
        assert_eq!(app.daemon_health, DaemonHealth::Degraded);
    }
    app.push_events(vec![]);
    assert_eq!(app.daemon_health, DaemonHealth::Healthy);
    app.push_events(vec![ev(AppEventKind::Info, "daemon unavailable (gone)")]);
    assert_eq!(app.daemon_health, DaemonHealth::Disconnected);
    for _ in 0..10 {
        app.push_events(vec![ev(AppEventKind::Info, "fine")]);
    }
    assert_eq!(app.daemon_health, DaemonHealth::Disconnected);
}

#[test]
fn events_panel_keeps_the_newest() {
    let mut app = App::new(vec![], VisualEffects::default_enabled());
    let batch: Vec<AppEvent> = (0..MAX_EVENTS + 10).map(|i| ev(AppEventKind::Info, &i.to_string())).collect();
    app.push_events(batch);
    assert_eq!(app.events.len(), MAX_EVENTS);
    assert_eq!(app.events[0].message, "10");
    app.scroll_events_up(1000);
    assert_eq!(app.events_scroll_offset, MAX_EVENTS - 1);
    app.scroll_events_down(5);
    assert_eq!(app.events_scroll_offset, MAX_EVENTS - 6);
    app.lock_events_scroll();
    app.push_events(vec![ev(AppEventKind::Info, "new")]);
    assert_eq!(app.events_scroll_offset, MAX_EVENTS - 6);
    app.unlock_events_scroll();
    assert_eq!(app.events_scroll_offset, 0);
}

#[test]
fn shell_prompt_and_local_effects() {
    let (mut app, mut backend) = create_mock_app(VisualEffects::default_enabled());
    for c in "effects matrix off".chars() {
        app.push_shell_char(c);
    }
    app.push_shell_char('x');
    app.pop_shell_char();
    assert_eq!(app.submit_shell_command(&mut backend), SubmitOutcome::Done);
    assert!(!app.effects.matrix);
    assert_eq!(app.shell_history, vec!["effects matrix off".to_string()]);
    assert_eq!(app.events.last().unwrap().message, "effects: matrix=off");
    match app.handle_local_command("effects") {
        LocalCommand::Handled(v) => assert_eq!(
            v[0].message,
            "effects: pulse=true, scanlines=true, matrix=false, border_noise=true, badges=true, logo_reactive=true, load_index=true"
        ),
        other => panic!("unexpected: {other:?}"),
    }
    assert!(matches!(app.handle_local_command("effects pulse maybe"), LocalCommand::Handled(_)));
    assert!(matches!(app.handle_local_command("vm list"), LocalCommand::Forward));
    for c in " effects save ".chars() {
        app.push_shell_char(c);
    }
    assert_eq!(app.submit_shell_command(&mut backend), SubmitOutcome::SaveEffects);
    app.effects_saved(Err("disk full".to_string()));
    assert_eq!(app.events.last().unwrap().message, "effects: failed to save configuration: disk full");
    for c in "help".chars() {
        app.push_shell_char(c);
    }
    app.submit_shell_command(&mut backend);
    assert_eq!(app.events.last().unwrap().message, "mock backend: available commands: help, list, status, clear");
    app.push_shell_char(' ');
    assert_eq!(app.submit_shell_command(&mut backend), SubmitOutcome::Done);
    assert_eq!(app.shell_history.len(), 3);
}

#[test]
fn vm_selection_stays_in_range() {
    let mut app = App::new(vec![row("a"), row("b")], VisualEffects::default_enabled());
    app.select_previous_vm();
    assert_eq!(app.selected_vm, 0);
    app.select_next_vm();
    app.select_next_vm();
    assert_eq!(app.selected_vm, 1);
    assert_eq!(app.selected_vm().unwrap().name, "b");
    app.toggle_vm_detail();
    assert!(app.vm_detail_open);
}

#[test]
fn autodetect_picks_backend() {
    let (app, mock) = create_app_autodetect(Ok(vec![row("a")]), VisualEffects::default_enabled());
    assert!(mock.is_none());
    assert_eq!(app.daemon_health, DaemonHealth::Healthy);
    assert_eq!(app.events[0].message, "chalybs-tui: connected to daemon backend");
    let (app, mock) = create_app_autodetect(Err("no socket".to_string()), VisualEffects::default_enabled());
    let mock: MockBackend = mock.unwrap();
    assert_eq!(mock.tick, 0);
    assert_eq!(app.vms.len(), 3);
    assert_eq!(app.daemon_health, DaemonHealth::Disconnected);
    assert_eq!(app.events[0].message, "chalybs-tui: daemon unavailable (no socket); using mock backend");
}

#[test]
fn snapshot_rows_and_events() {
    let ipc = IpcVmStatus {
        name: "win".to_string(),
        state: IpcVmState::ShuttingDown,
        cpu_pinned: true,
        irq_pinned: false,
        tasmota_on: true,
        isolation_mode: "enforce".to_string(),
        hugepages: true,
        cpu_layout: IpcVmCpuLayout { host: vec![0], vm: vec![1] },
        hugepages_detail: IpcVmHugepages { active: false, node: None, pages: 0, bytes: 0 },
        cpu_sample: None,
    };
    let r0 = vm_row_from_ipc(&ipc);
    assert_eq!(r0.state, VmState::ShuttingDown);
    assert_eq!(r0.isolation_mode, "enforce");
    assert!(r0.cpu_pinned && r0.tasmota_on && !r0.irq_pinned);
    let rows = vm_rows_from_ipc(&vec![ipc.clone(), ipc]);
    assert_eq!(rows.len(), 2);

    let global = vec![IpcEvent { kind: IpcEventKind::Shell, message: "chalybs> vm list".to_string() }];
    let per_vm = vec![IpcVmEvents {
        vm_name: "win".to_string(),
        events: vec![IpcEvent { kind: IpcEventKind::Error, message: "boom".to_string() }],
    }];
    let evs = snapshot_events(&global, &per_vm);
    assert_eq!(evs.len(), 2);
    assert_eq!(evs[0].kind, AppEventKind::Shell);
    assert_eq!(evs[1].message, "win: boom");
    assert_eq!(evs[1].kind, AppEventKind::Error);

    let mut ui = vec![row("a"), row("b")];
    assert!(refresh_rows(&mut ui, &vec![]).is_none());
    assert_eq!(ui[0].name, "a");
    let w = refresh_rows(&mut ui, &rows[..1].to_vec()).unwrap();
    assert_eq!(w.message, "chalybs-tui: daemon snapshot VM count 1 != local VM count 2 (ignoring)");
    assert!(refresh_rows(&mut ui, &rows).is_none());
    assert_eq!(ui[1].name, "win");
}

#[test]
fn event_window_follows_newest_or_locked_offset() {
    // Following: the newest entries that fit.
    assert_eq!(event_window(10, 4, false, 3), (6, 10));
    // Locked: three back from the newest.
    assert_eq!(event_window(10, 4, true, 3), (3, 7));
    // Locked past the oldest: clamped so the view stays full.
    assert_eq!(event_window(10, 4, true, 50), (0, 4));
    // Fewer entries than rows.
    assert_eq!(event_window(2, 5, true, 1), (0, 2));
    assert_eq!(event_window(0, 5, false, 0), (0, 0));
}
