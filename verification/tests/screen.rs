use arieltune::cores::{CoreSnapshot, CoreState};
use arieltune::cores_page;
use arieltune::cpu::CpuOc;
use arieltune::cpu_page;
use arieltune::cu_page;
use arieltune::curoute::{FACTORY_MASK, FULL_MASK};
use arieltune::cutest::KatResult;
use arieltune::detect::{report, KernelFacts, State};
use arieltune::double::{show_thousandth, Double};
use arieltune::dpm::{GovernorConfig, PowerConfig, SetpointError};
use arieltune::gather::{
    cpu_temp_mc, enter, gather, gpu_power_w, telemetry_lines, Readings, Sensor,
    TempSensor,
};
use arieltune::gpuctl::ForceOutcome;
use arieltune::pages;
use arieltune::refresh::{
    apply_bench, apply_health, cores_applied, cores_done, cpu_applied, cpu_restored, fan_done,
    follow_masks, force_done, gpu_temp_done, job_failed, refresh_masks, route_done, release_done, tick_refresh, tier_done,
    verify_done, voltage_done, CoresAction, Elapsed, Job, Worker,
};
use arieltune::screen::{
    core_changes, core_live_draft, cores_key, cpu_key, cu_key, dispatch_key, fan_key, gpu_key,
    handle_key, popup_key, set_tier, Action, ApuScreen, BenchShown, CoresPanel, CpuPanel, CuPanel,
    Edit, Editor, FanFacts, Focus, GpuFacts, GpuPanel, Key, KeyPress, Outcome, PatchPopup,
    Snapshot,
};
use arieltune::status::Status;
use arieltune::telemetry::{Carrier, OdRanges};
use arieltune::ui::{bar, key_line, panel, Ink, KeyHint, Line, Page};

fn carrier(duty_pct: Option<u32>) -> Carrier {
    Carrier {
        soc_mc: Some(61_000),
        board_mc: None,
        fan_rpm: Some(1800),
        duty_pct,
    }
}

fn number(x: f64) -> Double {
    Double::from_bits(x.to_bits())
}

fn readings() -> Readings {
    Readings {
        kernel: Some("6.12.4-aputune\n".to_string()),
        gfxclk: Some(1500),
        temp_mc: Some(number(75_500.0)),
        unit_active: true,
        unit_installed: true,
        gov: GovernorConfig::default(),
        carrier: carrier(Some(42)),
        fan_writable: true,
        fan_enable: Some(2),
        od: Some((1500, 906)),
        ranges: OdRanges {
            vddc: Some((700, 1129)),
            sclk: None,
        },
        vid: Some(906),
        power_w: Some(90),
        cores: Some(cores(0x77, CoreState::Locked)),
        cores_unit: false,
    }
}

fn cores(mask: u8, state: CoreState) -> CoreSnapshot {
    CoreSnapshot {
        state,
        mask,
        cores: 2,
        threads: 4,
        offline: 1,
        per_core: vec![
            (0, vec![(0, true), (1, true)]),
            (1, vec![(2, true), (3, false)]),
        ],
    }
}

fn snap_with(cfg: PowerConfig) -> Snapshot {
    let facts = KernelFacts {
        modparams: vec![],
        debugfs: Some(vec![]),
        sclk_max: Some(1000),
        active_cu: Some(24),
    };
    gather(&report(&facts, None, true), &cfg, readings())
}

fn app() -> ApuScreen {
    ApuScreen::new(snap_with(PowerConfig::default()), CpuOc::default())
}

fn text_of(l: &Line) -> String {
    l.spans.iter().map(|s| s.text.as_str()).collect()
}

fn texts(p: &Page) -> Vec<String> {
    p.lines.iter().map(text_of).collect()
}

// ---------------------------------------------------------------------------
// Gathering

#[test]
fn snapshot_takes_the_mode_from_the_setpoints() {
    let s = snap_with(PowerConfig::default());
    assert_eq!(s.kernel, "6.12.4-aputune");
    assert!(s.gpu.governor_on);
    assert_eq!((s.present, s.total, s.fully), (0, 24, false));
    assert_eq!((s.gpu.od_sclk, s.gpu.od_vddc), (Some(1500), Some(906)));
    let pinned = snap_with(PowerConfig {
        force_mhz: Some(350),
        ..Default::default()
    });
    assert!(!pinned.gpu.governor_on);
}

fn sensor(name: &str, node: &str) -> Sensor {
    Sensor {
        name: name.to_string(),
        node: Some(node.to_string()),
    }
}

#[test]
fn meters_read_their_own_sensor() {
    let power = vec![sensor("nvme\n", "9000000\n"), sensor("amdgpu\n", "90999999\n")];
    assert_eq!(gpu_power_w(&power), Some(90));
    let temp = |name: &str, mc: Option<f64>| TempSensor {
        name: name.to_string(),
        temp_mc: mc.map(number),
    };
    let temps = vec![
        temp("amdgpu\n", Some(70_000.0)),
        temp("k10temp\n", None),
        temp("k10temp\n", Some(61_250.25)),
    ];
    assert_eq!(cpu_temp_mc(&temps), Some(number(61_250.25)));
    assert_eq!(cpu_temp_mc(&vec![]), None);
    assert_eq!(gpu_power_w(&vec![]), None);
    assert_eq!(
        telemetry_lines(Some("=== SMU ===\nGfxClk: 1490\n")),
        vec!["GfxClk: 1490"]
    );
    assert!(telemetry_lines(None).is_empty());
}

#[test]
fn entering_seeds_from_the_real_state() {
    let a = app();
    let (g, c) = enter(a.gpu, a.cu, &a.snap.gpu, Some([7, 7, 7, 7]), None);
    assert_eq!(g.force, 2230);
    assert_eq!((c.live, c.draft, c.ok), ([7; 4], [7; 4], true));
}

// ---------------------------------------------------------------------------
// Keys

fn fan(writable: bool, duty: Option<u32>) -> FanFacts {
    FanFacts {
        carrier: carrier(duty),
        writable,
        enable: Some(2),
    }
}

#[test]
fn fan_dial_starts_from_the_current_duty() {
    let f = fan(true, Some(42));
    assert_eq!(fan_key(None, &f, Key::Up).target, Some(42));
    assert_eq!(fan_key(None, &fan(true, Some(5)), Key::Up).target, Some(20));
    assert_eq!(fan_key(Some(98), &f, Key::Up).target, Some(100));
    assert_eq!(fan_key(Some(25), &f, Key::Down).target, Some(20));
    // Below the lowest duty is the automatic curve.
    assert_eq!(fan_key(Some(22), &f, Key::Down).target, None);
    assert_eq!(fan_key(Some(20), &f, Key::Down).target, None);
    assert_eq!(
        fan_key(Some(40), &f, Key::Enter).action,
        Action::SetFan { pct: Some(40) }
    );
    assert_eq!(
        fan_key(Some(40), &f, Key::Char('a')).action,
        Action::SetFan { pct: None }
    );
    let dead = fan_key(None, &fan(false, None), Key::Up);
    assert_eq!(
        dead.status.unwrap().message(),
        "fan not writable — nct6687 driver not bound"
    );
}

fn idle() -> Editor {
    Editor {
        edit: Edit::Idle,
        typed: false,
    }
}

fn gpu_panel(sel: usize) -> GpuPanel {
    GpuPanel {
        sel,
        force: 2230,
        armed: false,
    }
}

fn facts() -> GpuFacts {
    snap_with(PowerConfig::default()).gpu
}

fn type_gpu(sel: usize, keys: &[Key]) -> (GpuPanel, Editor, Action) {
    let g = facts();
    let mut p = gpu_panel(sel);
    let mut e = idle();
    let mut action = Action::Nothing;
    for k in keys {
        let s = gpu_key(p, e, CpuOc::default(), &g, *k);
        p = s.panel;
        e = s.editor;
        action = s.action;
    }
    (p, e, action)
}

#[test]
fn double_enter_changes_nothing() {
    for sel in [4, 6] {
        let (_, e, action) = type_gpu(sel, &[Key::Enter, Key::Enter]);
        assert_eq!(e.edit, Edit::Idle);
        assert_eq!(action, Action::Nothing);
    }
}

#[test]
fn typed_clock_is_applied_in_range() {
    let keys = [
        Key::Enter,
        Key::Char('1'),
        Key::Char('8'),
        Key::Char('0'),
        Key::Char('0'),
        Key::Enter,
    ];
    assert_eq!(type_gpu(4, &keys).2, Action::ForceClock { mhz: 1800 });
    assert_eq!(
        type_gpu(0, &keys).2,
        Action::SetTier {
            tier: 0,
            mhz: 1800
        }
    );
    let high = [
        Key::Enter,
        Key::Char('9'),
        Key::Char('9'),
        Key::Char('9'),
        Key::Char('9'),
        Key::Enter,
    ];
    assert_eq!(type_gpu(4, &high).2, Action::ForceClock { mhz: 2500 });
    let low = [Key::Enter, Key::Char('5'), Key::Enter];
    assert_eq!(type_gpu(4, &low).2, Action::ForceClock { mhz: 350 });
}

#[test]
fn voltage_never_goes_below_the_floor() {
    let keys = [
        Key::Enter,
        Key::Char('7'),
        Key::Char('0'),
        Key::Char('0'),
        Key::Enter,
    ];
    // The floor at the 2230 MHz setpoint.
    assert_eq!(type_gpu(6, &keys).2, Action::SetVoltage { mv: 1018 });
    assert_eq!(
        type_gpu(6, &[Key::Enter, Key::Left, Key::Esc]).1.edit,
        Edit::Idle
    );
}

#[test]
fn release_takes_two_presses() {
    let g = facts();
    let s = gpu_key(gpu_panel(0), idle(), CpuOc::default(), &g, Key::Char('u'));
    assert!(s.panel.armed);
    assert_eq!(s.action, Action::Nothing);
    assert!(matches!(s.status, Some(Status::VoltageActive { mv: 906 })));
    let other = gpu_key(s.panel, idle(), CpuOc::default(), &g, Key::Down);
    assert!(!other.panel.armed);
    let s = gpu_key(s.panel, idle(), CpuOc::default(), &g, Key::Char('u'));
    assert_eq!(s.action, Action::Release);
}

#[test]
fn gpu_temperature_cap_keeps_its_range() {
    let keys = [Key::Enter, Key::Char('9'), Key::Char('5'), Key::Enter];
    match type_gpu(5, &keys).2 {
        Action::SetGpuTemp { c, point } => assert_eq!((c, point.gpu_temp_c), (95, 95)),
        other => panic!("{other:?}"),
    }
}

#[test]
fn tiers_are_checked_before_they_are_set() {
    let g = GovernorConfig::default();
    assert_eq!(set_tier(g, 0, 2000).unwrap().high_mhz, 2000);
    assert!(matches!(
        set_tier(g, 0, 400),
        Err(SetpointError::LadderInverted { .. })
    ));
}

fn cpu_panel(sel: usize, mailbox: bool) -> CpuPanel {
    CpuPanel {
        point: CpuOc::default(),
        sel,
        mailbox,
    }
}

#[test]
fn curve_is_typed_as_a_depth() {
    let mut p = cpu_panel(1, true);
    let mut e = idle();
    let mut action = Action::Nothing;
    for k in [Key::Enter, Key::Char('2'), Key::Char('0'), Key::Enter] {
        let s = cpu_key(p, e, k);
        p = s.panel;
        e = s.editor;
        action = s.action;
    }
    assert_eq!(p.point.curve_scale, -20);
    match action {
        Action::ApplyCpu { point, prev } => {
            assert_eq!((point.curve_scale, prev.curve_scale), (-20, 0))
        }
        other => panic!("{other:?}"),
    }
    // Left goes towards more undervolt.
    let s = cpu_key(cpu_panel(1, true), idle(), Key::Enter);
    let s = cpu_key(s.panel, s.editor, Key::Left);
    assert_eq!(s.editor.edit, Edit::Value(1));
}

#[test]
fn nothing_is_sent_without_the_mailbox() {
    let s = cpu_key(cpu_panel(0, false), idle(), Key::Char('r'));
    assert_eq!(s.action, Action::Nothing);
    assert_eq!(s.status.unwrap().message(), "no queue-3 mailbox");
    let s = cpu_key(cpu_panel(0, true), idle(), Key::Char('r'));
    assert_eq!(s.action, Action::RestoreCpu);
}

fn cores_panel(sel: usize) -> CoresPanel {
    CoresPanel {
        sel,
        draft: None,
        verifying: false,
        force_confirm: false,
    }
}

#[test]
fn cores_are_drafted_then_applied() {
    let live = core_live_draft(&Some(cores(0x77, CoreState::Locked)));
    assert_eq!(live, [true, true, false, false, false, false, false, false]);
    let s = cores_key(cores_panel(1), live, None, Key::Char(' '));
    let want = s.panel.draft.unwrap();
    assert!(!want[1]);
    let s = cores_key(s.panel, live, None, Key::Char('a'));
    assert_eq!(s.action, Action::ApplyCores { want, live });
    assert_eq!(core_changes(&want, &live), vec![(1, false)]);
    let s = cores_key(cores_panel(0), live, None, Key::Char(' '));
    assert!(s.panel.draft.unwrap()[0]);
    assert_eq!(
        s.status.unwrap().message(),
        "core 0 cannot be offlined (kernel keeps cpu0)"
    );
    assert_eq!(cores_key(cores_panel(0), live, None, Key::Left).panel.sel, 7);
}

#[test]
fn unlock_depends_on_the_state() {
    let live = [true; 8];
    let key = |state, k| cores_key(cores_panel(0), live, Some(state), Key::Char(k));
    assert_eq!(key(CoreState::Locked, 'u').action, Action::Unlock);
    assert_eq!(key(CoreState::Unlocked, 'u').action, Action::Nothing);
    assert_eq!(key(CoreState::Abnormal(0x3F), 'u').action, Action::Nothing);
    assert!(key(CoreState::Abnormal(0x3F), 'F').panel.force_confirm);
    assert!(!key(CoreState::Locked, 'F').panel.force_confirm);
}

#[test]
fn empty_draft_is_neither_applied_nor_measured() {
    let mut p = app().cu;
    p.draft = [FULL_MASK, 0, FULL_MASK, FULL_MASK];
    assert_eq!(cu_key(p, true, Key::Char('a')).action, Action::Nothing);
    assert!(!cu_key(p, true, Key::Char('b')).panel.bench);
    p.draft = [FACTORY_MASK; 4];
    assert_eq!(
        cu_key(p, true, Key::Char('a')).action,
        Action::ApplyRoute {
            masks: [FACTORY_MASK; 4]
        }
    );
    assert!(cu_key(p, true, Key::Char('b')).panel.bench);
    assert!(!cu_key(p, false, Key::Char('b')).panel.bench);
    let t = cu_key(p, true, Key::Char(' ')).panel;
    assert_eq!(t.draft, [0x06, 7, 7, 7]);
    assert!(t.dirty);
    let back = cu_key(t, true, Key::Esc).panel;
    assert_eq!(back.draft, back.live);
    assert_eq!(cu_key(p, true, Key::Char('f')).panel.draft, [FULL_MASK; 4]);
    assert_eq!(cu_key(p, true, Key::Down).panel.sel, 5);
}

fn press(key: Key) -> KeyPress {
    KeyPress {
        key,
        ctrl: false,
        alt: false,
    }
}

#[test]
fn open_page_keeps_its_keys() {
    let mut a = app();
    a.patch_popup = Some(PatchPopup {
        scroll: 0,
        states: vec![State::Present; 24],
    });
    assert!(a.modal());
    let (a, out, action) = handle_key(a, true, press(Key::Char('q')));
    assert!(matches!(out, Outcome::Consumed));
    assert_eq!(action, Action::Nothing);
    let _ = a;
    let pop = PatchPopup {
        scroll: 3,
        states: vec![State::Present; 24],
    };
    let pop = popup_key(pop, Key::Up).unwrap();
    assert_eq!(pop.scroll, 2);
    assert!(popup_key(pop, Key::Esc).is_none());
}

#[test]
fn shell_keys_pass_through() {
    let (_, out, _) = handle_key(app(), true, press(Key::Char('1')));
    assert!(matches!(out, Outcome::Ignored));
    let (_, out, _) = handle_key(
        app(),
        true,
        KeyPress {
            key: Key::Char('c'),
            ctrl: true,
            alt: false,
        },
    );
    assert!(matches!(out, Outcome::Ignored));
    let (a, _) = dispatch_key(app(), true, Key::Tab);
    assert_ne!(a.focus, Focus::Fan);
}

#[test]
fn forced_unlock_waits_for_its_answer() {
    let mut a = app();
    a.focus = Focus::Cores;
    a.snap.cores = Some(cores(0x3F, CoreState::Abnormal(0x3F)));
    let (a, action) = dispatch_key(a, true, Key::Char('F'));
    assert_eq!(action, Action::Nothing);
    assert!(a.cores.force_confirm);
    let (a, action) = dispatch_key(a, true, Key::Char('x'));
    assert_eq!(action, Action::Nothing);
    let (a, action) = dispatch_key(a, true, Key::Char('y'));
    assert_eq!(action, Action::ForceUnlock);
    assert!(!a.cores.force_confirm);
}

// ---------------------------------------------------------------------------
// Refresh

const S: u64 = 1_000_000_000;

fn elapsed(s: u64) -> Elapsed {
    Elapsed {
        snap_ns: s * S,
        meters_ns: s * S,
        masks_ns: s * S,
        cpu_ns: s * S,
    }
}

#[test]
fn test_starts_on_the_second_tick() {
    let mut p = app().cu;
    p.test = true;
    let (p, plan) = tick_refresh(p, Focus::Cu, idle(), elapsed(0));
    assert_eq!(plan.start, None);
    assert!(p.test_armed && !p.test);
    let (p, plan) = tick_refresh(p, Focus::Cu, idle(), elapsed(0));
    assert_eq!(plan.start, Some(Worker::Health));
    assert!(p.testing);
}

#[test]
fn worker_is_left_alone() {
    let mut p = app().cu;
    p.benching = true;
    let (_, plan) = tick_refresh(p, Focus::Gpu, idle(), elapsed(9));
    assert!(plan.snapshot && plan.meters && plan.cpu_live);
    assert!(!plan.telemetry && !plan.masks);
    p.benching = false;
    let (_, plan) = tick_refresh(p, Focus::Gpu, idle(), elapsed(9));
    assert!(plan.telemetry && plan.masks);
    let (_, plan) = tick_refresh(p, Focus::Cu, idle(), elapsed(0));
    assert!(!plan.snapshot && !plan.meters);
}

#[test]
fn draft_follows_the_route_until_it_is_edited() {
    let p = app().cu;
    let q = follow_masks(p, Some([7; 4]), None);
    assert_eq!(q.draft, [7; 4]);
    let dirty = CuPanel { dirty: true, ..p };
    assert_eq!(follow_masks(dirty, Some([7; 4]), None).draft, p.draft);
    assert!(!refresh_masks(p, None, None).ok);
}

fn said(s: Status) -> String {
    s.message()
}

#[test]
fn outcomes_are_reported() {
    assert_eq!(said(fan_done(true, None)), "fan → auto (EC curve)");
    assert_eq!(said(fan_done(true, Some(40))), "fan → manual 40%");
    assert_eq!(said(fan_done(false, None)), "fan set failed (need root?)");
    assert_eq!(
        said(release_done(Ok(arieltune::dpm::AutoMode::Governor))),
        "auto mode — clock + voltage released, governor resumed"
    );
    assert_eq!(
        said(voltage_done(900, Ok(true), true)),
        "GPU voltage 900 mV (high clock) — persisted"
    );
    assert_eq!(
        said(gpu_temp_done(85, Ok(()))),
        "GPU temp cap 85 C — persisted"
    );
    let outcome = ForceOutcome {
        set_mhz: 2230,
        held: true,
        vid_raised: Some((860, 1018)),
    };
    assert_eq!(
        said(force_done(Ok(outcome))),
        "forced 2230 MHz (undervolt raised 860 -> 1018 mV) — manual, sticks across reboots"
    );
    assert!(said(force_done(Err("no".to_string()))).contains("no"));
    assert!(said(tier_done(1, 1300, Ok(()))).ends_with(" tier = 1300 MHz (persisted)"));
    assert_eq!(
        said(cpu_applied(&CpuOc::default(), Ok(true))),
        "applied: 3500 MHz, scale 0 (~1158 mV) — persisted"
    );
    let (p, _) = cpu_restored(cpu_panel(0, true), Ok(()));
    assert_eq!(p.point.boost_mhz, 3500);
    assert_eq!(
        said(cores_applied(2, None)),
        "applied 2 core change(s) (OS layer, instant)"
    );
    assert_eq!(
        said(cores_applied(0, Some((3, "busy".to_string())))),
        "apply stopped: core 3: busy"
    );
    assert!(said(cores_done(CoresAction::Unlock, Err("no".to_string()))).contains("no"));
}

#[test]
fn jobs_end_with_a_line() {
    assert_eq!(
        said(job_failed(Job::Bench, Some("no device".to_string()))),
        "bench error: no device"
    );
    assert_eq!(
        said(job_failed(Job::Health, None)),
        "health-test worker panicked"
    );
    let lines = vec!["a".to_string(), "fine".to_string()];
    assert_eq!(said(verify_done(&lines)), "cores verify done — fine");
    let mut p = app().cu;
    p.draft = [7; 4];
    p.dirty = true;
    let (q, status) = route_done(p, Ok(false), Some([7; 4]), None);
    assert_eq!((q.draft, q.dirty), ([7; 4], false));
    assert_eq!(said(status), "routed 24 CUs live — live only");
}

fn kat(label: &str, ok: bool) -> KatResult {
    KatResult {
        label: label.to_string(),
        cu_count: 40,
        ok,
        mismatches: if ok { 0 } else { 5 },
        elapsed_ns: 4_900_000,
        hung: false,
    }
}

#[test]
fn health_test_names_the_bad_unit() {
    let (rows, _) = apply_health(&kat("40-CU", true), &None);
    assert!(rows.iter().all(|r| r.1));
    // Without the bad unit the test passes.
    let sweep = vec![kat("-SE0.SH0/WGP0", false), kat("-SE0.SH0/WGP1", true)];
    let (rows, status) = apply_health(&kat("40-CU", false), &Some(sweep));
    assert!(rows.iter().any(|r| !r.1));
    assert!(said(status.unwrap()).contains("SE0.SH0/WGP1"));
}

#[test]
fn bench_is_shown_with_its_route() {
    let mut p = app().cu;
    p.bench_draft = [0x1f, 0x1f, 1, 1];
    p.benching = true;
    let (q, status) = apply_bench(p, &kat("bench", true), Some([7; 4]), None);
    assert_eq!(
        q.bench_result,
        Some(BenchShown {
            cu: 24,
            effective: 8,
            elapsed_ns: 4_900_000,
            hung: false,
            ok: true
        })
    );
    assert!(said(status).starts_with("bench: 24 CU routed / 8 effective — 1753 GFLOPS"));
}

// ---------------------------------------------------------------------------
// Pages

#[test]
fn system_card() {
    let s = snap_with(PowerConfig::default());
    assert_eq!(
        texts(&pages::system_lines(&s, false)),
        vec![
            "  device    BC-250 (Cyan Skillfish)",
            "  kernel    6.12.4-aputune",
            "  liberation 0/24 patches  [p: patch details]",
        ]
    );
    assert_eq!(
        texts(&pages::sensor_row(&s, None, false)),
        vec!["SoC 61°C", "GPU 76°C", "Board —", "Fan 1800 rpm", "Cool Auto 42%"]
    );
    assert_eq!(
        texts(&pages::sensor_row(&s, Some(40), true))[4],
        "Cool set 40%"
    );
    let cell = pages::cooling_cell(&fan(false, None), None, true);
    assert_eq!(cell.value, "read-only");
    let manual = FanFacts {
        enable: Some(1),
        ..fan(true, Some(42))
    };
    assert_eq!(pages::cooling_cell(&manual, None, false).value, "Manual 42%");
    assert_eq!(pages::temp_color(number(90_000.0)), Ink::Bad);
    assert_eq!(pages::temp_color(number(89_999.999)), Ink::Warn);
    assert_eq!(pages::temp_color(number(74_999.5)), Ink::Good);
    assert_eq!(pages::temp_color(number(f64::NAN)), Ink::Good);
}

#[test]
fn degrees_are_shown_as_doubles_print() {
    let mut all = vec![
        0.0, -0.0, 0.1, 499.9, 500.0, 500.1, 1500.0, 2500.0, -1500.0, -400.0, 45000.5, 75499.999,
        9007199254740993.0, 1e22, 1e300, -1e300, f64::MAX, f64::MIN_POSITIVE, 5e-324,
        f64::INFINITY, f64::NEG_INFINITY, f64::NAN,
    ];
    let mut n: u64 = 7;
    for _ in 0..2000 {
        n = n.wrapping_mul(6364136223846793005).wrapping_add(1442695040888963407);
        all.push((n >> 40) as f64 / 16.0);
        all.push(f64::from_bits(n % 0x4400_0000_0000_0000));
    }
    for x in all {
        assert_eq!(show_thousandth(number(x)), format!("{:.0}", x / 1000.0), "{x}");
    }
    for m in [0, -400, 61_500, 62_500, i64::MAX, i64::MIN] {
        assert_eq!(
            show_thousandth(Double::from_i64(m)),
            format!("{:.0}", m as f64 / 1000.0)
        );
    }
}

#[test]
fn numbers_order_as_doubles_do() {
    let all = [
        0.0,
        -0.0,
        1.0,
        -1.0,
        0.5,
        1e-320,
        -1e-320,
        3.25e17,
        f64::MAX,
        f64::MIN,
        f64::INFINITY,
        f64::NEG_INFINITY,
        f64::NAN,
    ];
    for a in all {
        for b in all {
            assert_eq!(number(a).reaches(number(b)), a >= b, "{a} {b}");
            if a != b {
                let m = number(a).max(number(b));
                assert_eq!(m == Double::Nan, a.is_nan() && b.is_nan());
                if !(a.is_nan() && b.is_nan()) {
                    assert_eq!(m, number(a.max(b)), "{a} {b}");
                }
            }
        }
    }
}

#[test]
fn footer_shows_the_keys_that_count() {
    assert_eq!(pages::footer_hints(true, true, true, Focus::Fan)[0].key, "[y]");
    assert_eq!(
        pages::footer_hints(false, true, true, Focus::Fan)[3].label,
        "close"
    );
    assert_eq!(
        pages::footer_hints(false, false, true, Focus::Gpu)[0].label,
        "adjust"
    );
    assert_eq!(pages::footer_hints(false, false, false, Focus::Cu).len(), 9);
    assert!(text_of(&pages::header()).contains("arieltune apu"));
    let hints = [KeyHint {
        key: "[q]",
        label: "quit",
    }];
    assert_eq!(text_of(&key_line(&hints.to_vec())), "[q] quit");
    assert_eq!(panel("CPU", true).text, " ▸ CPU ");
}

#[test]
fn gpu_page() {
    let g = facts();
    let lines = texts(&pages::gpu_lines(&g, &gpu_panel(4), &idle(), 90, None, true));
    assert_eq!(lines[0], "   mode  auto (governor)");
    assert_eq!(lines[1], "   high   1500 MHz");
    assert_eq!(lines[5], " ▸ force  2230 MHz");
    assert_eq!(lines[6], "   temp cap 90 C");
    assert_eq!(lines[7], "   voltage  906 mV @ 1500 MHz");
    assert_eq!(lines[9], "   gfxclk████░░░░ 1500 MHz");
    assert_eq!(lines[10], "   power ███░░░░░ 90 W");
    assert_eq!(lines[11], "   vdd   ████░░░░ 906 mV");
    let edit = Editor {
        edit: Edit::Value(1800),
        typed: true,
    };
    let lines = texts(&pages::gpu_lines(&g, &gpu_panel(4), &edit, 90, None, true));
    assert_eq!(lines[5], " ▸ force  1800 MHz");
    let dead = GpuFacts {
        unit_active: false,
        force_mhz: Some(350),
        gfxclk: None,
        ..g
    };
    let lines = texts(&pages::gpu_lines(&dead, &gpu_panel(0), &idle(), 90, Some(351), false));
    assert_eq!(lines[0], "   mode  manual 350 MHz (unit NOT running!)");
    assert_eq!(lines[9], "   gfxclk░░░░░░░░ 351 MHz");
    let tele = vec!["x".to_string(), "  GfxClk: 1490 MHz".to_string()];
    assert_eq!(pages::telemetry_gfxclk(&tele), Some(1490));
}

#[test]
fn cpu_pages() {
    let p = cpu_panel(0, true);
    let lines = texts(&cpu_page::controls_lines(&p, &idle(), Some(1100), true));
    assert_eq!(lines[0], "overclock");
    assert_eq!(lines[1], " ▸ boost clk 3500 MHz");
    assert_eq!(lines[2], "   curve     0 (stock)");
    assert_eq!(lines[4], "   Vid now  1100 mV");
    assert_eq!(lines[5], "   pred Vid 1158 mV / 1325 cap");
    let edit = Editor {
        edit: Edit::Value(4000),
        typed: true,
    };
    let lines = texts(&cpu_page::controls_lines(&p, &edit, None, true));
    assert_eq!(lines[1], " ▸ boost clk 4000 MHz");
    assert_eq!(lines[5], "   pred Vid 1524 mV — undervolt more");
    let shown = cpu_page::preview(&cpu_panel(1, true), &edit, true);
    assert_eq!(shown.curve_scale, -4000);
    let curve = texts(&cpu_page::curve_lines(&CpuOc {
        boost_mhz: 3550,
        ..Default::default()
    }));
    assert_eq!(curve.len(), 8);
    // 3550 MHz is marked at the step above it.
    assert!(curve[2].contains("▸3600 "), "{}", curve[2]);
    assert!(curve[1].contains(" 3500 ███░░ 1158"), "{}", curve[1]);
    let threads = texts(&cpu_page::threads_lines(&vec![100, 50, 7], &vec![3500, 3400]));
    assert_eq!(threads[0], "   threads  util% + core MHz");
    assert_eq!(threads[1], "CPU0  █████ 100  CPU2  ░░░░░   7");
    assert_eq!(threads[2], "CPU1  ███░░  50  ");
    assert_eq!(threads[3], "           3500 3400");
    assert_eq!(cpu_page::top_pad(20, 6, 8, 10), 5);
    assert_eq!(cpu_page::top_pad(5, 6, 8, 10), 0);
}

#[test]
fn core_map_page() {
    let s = Some(cores(0x77, CoreState::Locked));
    let page = cores_page::cores_lines(&s, false, &None, &None, Some(1), 100);
    let lines = texts(&page);
    assert_eq!(
        lines[0],
        " LOCKED mask 0x77 · 2C/4T · 1 offline · unit not installed"
    );
    assert!(lines[2].starts_with("  │  core 0 │  core 1 │"));
    assert!(lines[3].starts_with("  │  fw ██  │  fw ██  │  fw ██  │  fw ··  │"));
    assert!(lines[4].starts_with("  │  os ██  │  os █·  │  os ··  │"));
    let widths: Vec<usize> = lines[1..6].iter().map(|l| l.chars().count()).collect();
    assert_eq!(widths, vec![83; 5]);
    let draft = Some([true, false, false, false, false, false, false, false]);
    let page = cores_page::cores_lines(&s, true, &draft, &None, None, 100);
    assert!(texts(&page)[4].starts_with("  │  os ██  │  os ··  │"));
    assert!(texts(&page)[0].ends_with(" · draft [a] apply [esc] cancel"));
    let report = Some(vec!["a".to_string(), "fine".to_string()]);
    let narrow = texts(&cores_page::cores_lines(&s, true, &None, &report, None, 80));
    assert!(narrow[1].starts_with(" c0#██  c1#█·  c2#··  c3.·· "));
    assert_eq!(narrow[2], " verify: fine");
    assert_eq!(
        texts(&cores_page::cores_lines(&None, true, &None, &None, None, 80)),
        vec![" core map unavailable (need root + BC-250)"]
    );
    assert_eq!(
        texts(&cores_page::force_lines(&s))[0],
        "Current mask 0x77 is NOT the known stock 0x77 — the safety gate"
    );
}

#[test]
fn cu_pages() {
    let mut p = app().cu;
    p.draft = [0x1f, 0x1f, 0x01, 0x01];
    p.driver = Some([0x1f, 0x1f, 0x1f, 0x0f]);
    p.health_shown = true;
    let map = texts(&cu_page::map_lines(&p, true));
    assert_eq!(map[1], "  SH0  ██  ██  ██  ██  ██   10 CU");
    assert_eq!(map[4], "  SH0  ██  ··  ··  ··  ··    2 CU");
    let health = vec![("40-CU ok".to_string(), true)];
    let lines = texts(&cu_page::details_lines(&p, &health));
    assert_eq!(
        lines[1],
        " 24/40 CU routed · 8 effective  (live 40 — [a] apply)"
    );
    assert_eq!(
        lines[2],
        " · unequal lanes cost a little efficiency — [b] to compare"
    );
    assert_eq!(
        lines[3],
        "at boot: 38/40 CU came up   broken: SE1.SH1/WGP4"
    );
    assert_eq!(lines[4], "health-test:");
    assert_eq!(lines[5], "  40-CU ok");
    p.draft = [0x1f, 0, 0x1f, 0];
    let lines = texts(&cu_page::details_lines(&p, &vec![]));
    assert_eq!(lines[2], " ! 2 array(s) empty — can hang compute (unsafe)");
    assert_eq!(cu_page::cu_title(&p), "compute units — umr unavailable");
    assert_eq!(cu_page::note_lines().len(), 2);
    let shown = BenchShown {
        cu: 40,
        effective: 40,
        elapsed_ns: 4_900_000,
        hung: false,
        ok: true,
    };
    let bench = texts(&cu_page::bench_lines(Some(shown)));
    assert_eq!(bench[2], "1753");
    assert_eq!(bench[4], "43.8 /CU");
    assert_eq!(bench[5], "40 CU ok");
    // A twentieth each, which double precision holds a hair too high.
    let slow = BenchShown {
        cu: 32,
        elapsed_ns: 5_368_709_120,
        ..shown
    };
    assert_eq!(texts(&cu_page::bench_lines(Some(slow)))[4], "0.1 /CU");
    assert_eq!(texts(&cu_page::bench_lines(None))[3], "[b]");
    assert_eq!(bar(1, 2, 5, Ink::Good).text, "███░░");
    assert_eq!(bar(-3, 2, 4, Ink::Good).text, "░░░░");
}
