use arieltune::double::Double;
use arieltune::dpm::{
    boot_plan, load_for_boot, AutoMode, Autosleep, BootLoad, BootPlan, ClockAction, GovState,
    Governor, GovernorConfig, PowerConfig, Sample, SetpointError,
};
use arieltune::gpuctl::{force, mode_name, required_vid_raise, unforce, Force, ReleaseStep};
use arieltune::telemetry;
use arieltune::telemetry::{
    parse_active_sclk, DriverStep, ModuleStep, OdRanges, OdStage, OverdriveError, SensorDir,
};

const NO_TABLE: OdRanges = OdRanges {
    vddc: None,
    sclk: None,
};

#[test]
fn corrupt_power_json_fails_safe_not_governor() {
    let plan = boot_plan(&BootLoad::Corrupt);
    assert_eq!(plan, BootPlan::FailSafePin(350));
    assert!(!matches!(plan, BootPlan::Auto(_)));
}

#[test]
fn boot_plan_manual_pin_wins() {
    let cfg = PowerConfig {
        force_mhz: Some(350),
        ..Default::default()
    };
    assert_eq!(boot_plan(&BootLoad::Loaded(cfg)), BootPlan::Manual(350));
    assert_eq!(
        boot_plan(&BootLoad::Missing),
        BootPlan::Auto(AutoMode::Governor)
    );
}

#[test]
fn inverted_tier_ladder_rejected() {
    let mut g = GovernorConfig::default();
    assert!(g.validate_ladder().is_ok());
    g.idle_mhz = 2000; // idle above mid/high — demotion would upclock
    assert!(g.validate_ladder().is_err());
    let g2 = GovernorConfig {
        high_mhz: 300, // high below deep
        ..Default::default()
    };
    assert!(g2.validate_ladder().is_err());
}

#[test]
fn force_above_undervolt_requires_raise() {
    // an undervolt sized for ~1500 MHz
    let mut cfg = PowerConfig {
        force_vid_mv: Some(860),
        ..Default::default()
    };
    let raise = required_vid_raise(&cfg, 2230, &NO_TABLE);
    let floor = telemetry::min_gfx_vddc(2230, &NO_TABLE);
    assert!(floor > 860, "floor for 2230 MHz should exceed 860 mV");
    assert_eq!(raise, Some((860, floor)));
    // No persisted undervolt -> nothing to raise.
    cfg.force_vid_mv = None;
    assert_eq!(required_vid_raise(&cfg, 2230, &NO_TABLE), None);
    // A generous voltage needs no raise at the low clock.
    cfg.force_vid_mv = Some(1100);
    assert_eq!(required_vid_raise(&cfg, 1000, &NO_TABLE), None);
}

#[test]
fn parse_active_sclk_real_format() {
    let txt = "0: 350Mhz\n1: 2500Mhz *\n2: 1500Mhz\n";
    assert_eq!(parse_active_sclk(txt), Some(2500));
    // Star on the first line, no trailing newline.
    assert_eq!(parse_active_sclk("0: 350Mhz *"), Some(350));
    // A non-matching starred line must not abort the scan.
    assert_eq!(parse_active_sclk("garbage *\n1: 1000Mhz *\n"), Some(1000));
    assert_eq!(parse_active_sclk("0: 350Mhz\n1: 2500Mhz\n"), None);
}

#[test]
fn missing_and_broken_setpoints_differ() {
    let cfg = PowerConfig::default();
    assert_eq!(load_for_boot(false, None), BootLoad::Missing);
    assert_eq!(load_for_boot(true, None), BootLoad::Corrupt);
    assert_eq!(load_for_boot(true, Some(cfg)), BootLoad::Loaded(cfg));
    let sleeping = PowerConfig {
        auto_mode: AutoMode::Autosleep,
        ..cfg
    };
    assert_eq!(
        boot_plan(&BootLoad::Loaded(sleeping)),
        BootPlan::Auto(AutoMode::Autosleep)
    );
}

#[test]
fn setpoints_are_checked() {
    let mut c = PowerConfig::default();
    assert_eq!((c.top_mhz, c.deep_mhz), (2230, 350));
    assert_eq!(c.set_top(2600), Err(SetpointError::TopRange { mhz: 2600 }));
    assert!(c.set_top(2000).is_ok());
    assert!(c.set_deep(1000).is_ok());
    assert_eq!(
        c.set_top(900),
        Err(SetpointError::TopBelowDeep {
            mhz: 900,
            deep: 1000
        })
    );
    assert_eq!(
        c.set_deep(2001),
        Err(SetpointError::DeepRange {
            mhz: 2001,
            top: 2000
        })
    );
    assert_eq!((c.top_mhz, c.deep_mhz), (2000, 1000));
    assert_eq!(
        c.set_top(2600).unwrap_err().message(),
        "top 2600 outside 350-2500 MHz"
    );
    let g = GovernorConfig {
        deep_mhz: 300,
        ..Default::default()
    };
    assert_eq!(g.validate_ladder(), Err(SetpointError::LadderRange));
}

#[test]
fn daemon_acts_on_changes_only() {
    let cfg = PowerConfig::default();
    let (mut d, first) = Autosleep::start(cfg, false);
    assert_eq!(first, ClockAction::Release);
    let ten = number(10.0);
    assert_eq!(d.look(None, ten), None);
    assert_eq!(d.look(Some(5 * S), ten), Some(ClockAction::Force(2230)));
    assert_eq!(d.look(Some(10 * S - 1), ten), None);
    assert_eq!(d.look(Some(10 * S), ten), Some(ClockAction::Release));
    assert_eq!(d.look(Some(0), number(0.0)), None);
    assert_eq!(d.look(Some(0), number(f64::NAN)), None);
    assert_eq!(d.look(Some(u64::MAX), number(f64::INFINITY)), Some(ClockAction::Force(2230)));
    let (_, first) = Autosleep::start(cfg, true);
    assert_eq!(first, ClockAction::Force(350));
}

const S: u64 = 1_000_000_000;

fn sample(now_s: u64, fences: u64, temp_centi: Option<u16>) -> Sample {
    Sample {
        now_ns: now_s * S,
        fences: Some(fences),
        cap_c: 85,
        temp_centi,
    }
}

#[test]
fn governor_follows_the_load() {
    let mut g = Governor::start(GovernorConfig::default(), Some(0), 0);
    assert_eq!(g.cur, GovState::Idle);
    // 1000 fences in 3 s are over the working rate of 100 per second.
    let t = g.tick(sample(3, 1000, Some(6000))).unwrap();
    assert_eq!((t.from, t.to, t.mhz), (GovState::Idle, GovState::High, 1500));
    g.landed(GovState::High, 3 * S);
    // No work: held, then down a tier at a time.
    assert_eq!(g.tick(sample(6, 1000, Some(6000))), None);
    let t = g.tick(sample(9, 1000, Some(6000))).unwrap();
    assert_eq!(t.to, GovState::Mid);
    let t = g.tick(sample(33, 1000, Some(6000))).unwrap();
    assert_eq!(t.to, GovState::Idle);
    let t = g.tick(sample(123, 1000, Some(6000))).unwrap();
    assert_eq!((t.to, t.mhz), (GovState::Deep, 350));
}

fn number(x: f64) -> Double {
    Double::from_bits(x.to_bits())
}

fn works(fences: u64, ns: u64, rate: f64) -> bool {
    let cfg = GovernorConfig {
        work_rate: number(rate),
        hold_s: 0,
        idle_after_s: 0,
        deep_after_s: 0,
        ..Default::default()
    };
    let mut g = Governor::start(cfg, Some(0), 0);
    g.landed(GovState::Mid, 0);
    // Past the dwell, so that the tier that is asked for shows.
    g.prev_ns = 100 * S;
    let s = Sample {
        now_ns: 100 * S + ns,
        fences: Some(fences),
        cap_c: 0,
        temp_centi: None,
    };
    g.tick(s).unwrap().to == GovState::High
}

#[test]
fn rates_are_compared_in_double_precision() {
    // 0.55 s is a hair more than it says: the rate stays below 100.
    assert!(!works(55, 550_000_000, 100.0));
    assert!(works(50, 500_000_000, 100.0));
    assert!(works(56, 550_000_000, 100.0));
    assert!(!works(0, 1_000_000, 0.5));
    assert!(works(0, 1_000_000, 0.0));
    assert!(works(0, 1_000_000, -3.5));
    assert!(!works(u64::MAX, 1, f64::INFINITY));
    assert!(!works(1, 1, f64::NAN));
    let mut n: u64 = 99;
    for _ in 0..3000 {
        n = n.wrapping_mul(6364136223846793005).wrapping_add(1442695040888963407);
        let (fences, ns) = (n % 1000, (n >> 20) % 3_000_000_000);
        let dt = std::time::Duration::from_nanos(ns).as_secs_f64().max(0.001);
        let rate = fences as f64 / dt;
        assert!(works(fences, ns, rate), "{fences} in {ns}");
        let above = f64::from_bits(rate.to_bits() + 1);
        assert!(!works(fences, ns, above), "{fences} in {ns}");
        assert_eq!(works(fences, ns, 100.0), rate >= 100.0, "{fences} in {ns}");
    }
}

#[test]
fn hot_die_is_held_off_the_top_tier() {
    let mut g = Governor::start(GovernorConfig::default(), Some(0), 0);
    g.landed(GovState::High, 0);
    let t = g.tick(sample(3, 1000, Some(8500))).unwrap();
    assert_eq!((t.to, t.capped), (GovState::Idle, true));
    g.landed(GovState::Idle, 3 * S);
    // Four degrees below the cap lift the block, not less.
    assert_eq!(g.tick(sample(6, 2000, Some(8101))), None);
    assert_eq!(g.tick(sample(9, 3000, None)), None);
    let t = g.tick(sample(12, 4000, Some(8100))).unwrap();
    assert_eq!((t.to, t.capped), (GovState::High, false));
}

#[test]
fn inverted_ladder_falls_back() {
    let bad = GovernorConfig {
        idle_mhz: 2000,
        ..Default::default()
    };
    assert_eq!(
        Governor::start(bad, None, 0).cfg,
        GovernorConfig::default()
    );
    assert_eq!(GovernorConfig::default().clock(GovState::Mid), 1250);
}

#[test]
fn pin_raises_the_voltage_first() {
    let cfg = PowerConfig {
        force_vid_mv: Some(860),
        ..Default::default()
    };
    let f = force(2230, cfg, &NO_TABLE);
    assert!(matches!(f, Force::CheckOverdrive { .. }));
    let f = f.overdrive_checked(None);
    assert!(matches!(f, Force::RaiseVid { .. }));
    let f = f.vid_written(true);
    assert!(matches!(f, Force::ForceClock { .. }));
    let f = f.clock_forced(2230);
    match f {
        Force::Save { set, cfg, raised } => {
            assert_eq!(set, 2230);
            assert_eq!(cfg.force_mhz, Some(2230));
            assert_eq!(cfg.force_vid_mv, raised.map(|r| r.1));
        }
        other => panic!("{other:?}"),
    }
}

#[test]
fn failed_raise_leaves_the_clock_alone() {
    let cfg = PowerConfig {
        force_vid_mv: Some(860),
        ..Default::default()
    };
    match force(2230, cfg, &NO_TABLE).overdrive_checked(Some("no node".to_string())) {
        Force::Failed(e) => assert!(e.message().contains("no node — clock left UNCHANGED")),
        other => panic!("{other:?}"),
    }
    match force(2230, cfg, &NO_TABLE).overdrive_checked(None).vid_written(false) {
        Force::Failed(e) => assert!(e.message().contains("overdrive write failed")),
        other => panic!("{other:?}"),
    }
    // Without an undervolt the clock is forced at once.
    assert!(matches!(
        force(2230, PowerConfig::default(), &NO_TABLE),
        Force::ForceClock { raised: None, .. }
    ));
}

#[test]
fn release_forgets_pin_and_voltage() {
    let cfg = PowerConfig {
        force_mhz: Some(350),
        force_vid_mv: Some(900),
        auto_mode: AutoMode::Autosleep,
        ..Default::default()
    };
    let (steps, next, mode) = unforce(cfg);
    assert_eq!(steps[0], ReleaseStep::CheckOverdrive);
    assert_eq!((next.force_mhz, next.force_vid_mv), (None, None));
    assert_eq!(mode, AutoMode::Autosleep);
    assert_eq!(mode_name(AutoMode::Released), "released (BAPM)");
}

#[test]
fn voltage_floor_follows_the_clock() {
    // 906 mV at 1500 MHz, 1129 mV at 2500 MHz, 50 mV below that line.
    assert_eq!(telemetry::min_gfx_vddc(1500, &NO_TABLE), 856);
    assert_eq!(telemetry::min_gfx_vddc(2500, &NO_TABLE), 1079);
    assert_eq!(telemetry::min_gfx_vddc(2230, &NO_TABLE), 1018);
    assert_eq!(telemetry::min_gfx_vddc(350, &NO_TABLE), 700);
    let bad = OdRanges {
        vddc: Some((900, 800)),
        sclk: None,
    };
    assert!(!bad.is_ordered() && NO_TABLE.is_ordered());
    // The floor goes by the upper end of the clock range alone.
    let clocks = OdRanges {
        vddc: None,
        sclk: Some((3000, 2500)),
    };
    assert!(!clocks.is_ordered() && clocks.has_ordered_vddc());
    assert_eq!(telemetry::min_gfx_vddc(2230, &clocks), 1018);
    let cfg = PowerConfig {
        force_vid_mv: Some(860),
        ..Default::default()
    };
    assert_eq!(required_vid_raise(&cfg, 2230, &clocks), Some((860, 1018)));
    assert_eq!(required_vid_raise(&PowerConfig::default(), 2230, &bad), None);
}

#[test]
fn staged_voltage_is_held_in_range() {
    assert_eq!(telemetry::od_set_vddc(1500, 700, &NO_TABLE), "vc 0 1500 856\n");
    assert_eq!(
        telemetry::od_set_vddc(1500, 2000, &NO_TABLE),
        "vc 0 1500 1325\n"
    );
    let r = OdRanges {
        vddc: Some((700, 1129)),
        sclk: Some((1000, 2000)),
    };
    assert_eq!(telemetry::od_set_vddc(2500, 2000, &r), "vc 0 2000 1129\n");
    assert_eq!(telemetry::od_set_after(OdStage::Stage, true), OdStage::Commit);
    assert_eq!(
        telemetry::od_set_after(OdStage::Commit, false),
        OdStage::Discard
    );
    assert_eq!(telemetry::od_reset(), vec!["r\n", "c\n"]);
}

const TABLE: &str = "\
OD_SCLK:
0: 1500Mhz
OD_VDDC:
0: 906mV
OD_RANGE:
SCLK:    1000Mhz       2000Mhz
VDDC:     700mV        1129mV
";

#[test]
fn overdrive_table_is_read() {
    assert_eq!(telemetry::od_point(TABLE), Some((1500, 906)));
    assert_eq!(telemetry::od_point("OD_SCLK:\n0: 1500Mhz\n"), None);
    assert_eq!(telemetry::od_vddc_range(TABLE), Some((700, 1129)));
    assert_eq!(telemetry::od_sclk_range(TABLE), Some((1000, 2000)));
    assert_eq!(telemetry::od_sclk_range(""), None);
}

#[test]
fn overdrive_needs_mask_and_node() {
    assert!(telemetry::ensure_overdrive(Some("0xfff7ffff\n"), true).is_ok());
    assert!(matches!(
        telemetry::ensure_overdrive(None, true),
        Err(OverdriveError::NoModule)
    ));
    assert!(matches!(
        telemetry::ensure_overdrive(Some("zz"), true),
        Err(OverdriveError::BadMask { .. })
    ));
    let e = telemetry::ensure_overdrive(Some("0xfff7bfff"), true).unwrap_err();
    assert!(e.message().contains("0xfff7ffff (current | 0x4000)"));
    assert!(matches!(
        telemetry::ensure_overdrive(Some("0x4000"), false),
        Err(OverdriveError::NoNode)
    ));
}

#[test]
fn fences_are_summed() {
    assert_eq!(
        telemetry::fence_sum("ring 0: 0x00000010\nring 1 0x2 x0x3 0xzz\n"),
        0x12
    );
    assert_eq!(telemetry::fence_sum("0xffffffffffffffff 0x2"), 1);
}

#[test]
fn hottest_sensor_of_the_gpu_counts() {
    let dir = |name: &str, files: &[(&str, &str)]| SensorDir {
        name: name.to_string(),
        files: files
            .iter()
            .map(|(n, t)| (n.to_string(), t.trim().parse().ok().map(number)))
            .collect(),
    };
    let dirs = vec![
        dir("k10temp\n", &[("temp1_input", "99000\n")]),
        dir("amdgpu\n", &[("temp1_input", "hot\n")]),
        dir(
            "amdgpu\n",
            &[
                ("temp0_input", "nan\n"),
                ("temp1_input", "61000\n"),
                ("temp2_input", "75500.5\n"),
                ("temp2_label", "90000\n"),
            ],
        ),
    ];
    assert_eq!(telemetry::junction_temp_mc(&dirs), Some(number(75500.5)));
    let dirs = vec![dir("amdgpu", &[("temp1_input", "45000.5")])];
    assert_eq!(telemetry::junction_temp_mc(&dirs), Some(number(45000.5)));
    assert!(telemetry::is_temp_input("temp12_input"));
    assert!(!telemetry::is_temp_input("temp1_crit"));
    assert_eq!(telemetry::junction_temp_mc(&vec![]), None);
    let rails = vec![
        ("nvme\n".to_string(), Some("1\n".to_string())),
        ("amdgpu\n".to_string(), Some("906\n".to_string())),
    ];
    assert_eq!(telemetry::vddgfx_mv(&rails), Some(906));
    assert_eq!(telemetry::read_num(" -5\n"), Some(-5));
}

#[test]
fn die_temperature_must_be_plausible() {
    let table = |t: u16| {
        let b = t.to_le_bytes();
        vec![0, 0, 0, 0, b[0], b[1]]
    };
    assert_eq!(telemetry::gfx_temp_centi(&table(9400)), Some(9400));
    assert_eq!(telemetry::gfx_temp_centi(&table(499)), None);
    assert_eq!(telemetry::gfx_temp_centi(&table(13000)), None);
    assert_eq!(telemetry::gfx_temp_centi(&vec![0; 5]), None);
}

#[test]
fn fastest_fan_is_shown_with_its_duty() {
    let c = telemetry::carrier(
        Some(61000),
        &vec![Some(40000), None, Some(45000)],
        &vec![Some(0), Some(1800), Some(1800)],
        &vec![Some(255), Some(128), Some(10)],
    );
    assert_eq!((c.soc_mc, c.board_mc), (Some(61000), Some(45000)));
    assert_eq!((c.fan_rpm, c.duty_pct), (Some(1800), Some(50)));
    let still = telemetry::carrier(None, &vec![], &vec![Some(0)], &vec![Some(128)]);
    assert_eq!((still.fan_rpm, still.duty_pct), (None, None));
    assert_eq!(telemetry::fan_enable(Some(1)), Some(1));
    assert_eq!(telemetry::fan_enable(Some(300)), None);
}

#[test]
fn fan_duty_is_written_behind_manual_mode() {
    let texts = |w: Vec<telemetry::NodeWrite>| {
        w.into_iter()
            .map(|n| (n.node, n.text))
            .collect::<Vec<(String, String)>>()
    };
    let w = texts(telemetry::set_fan_duty(true, 2, Some(50)).unwrap());
    assert_eq!(
        w,
        vec![
            ("pwm2_enable".to_string(), "1\n".to_string()),
            ("pwm2".to_string(), "127\n".to_string()),
        ]
    );
    let w = texts(telemetry::set_fan_duty(true, 2, None).unwrap());
    assert_eq!(w, vec![("pwm2_enable".to_string(), "2\n".to_string())]);
    assert!(telemetry::set_fan_duty(false, 2, None).is_none());
}

#[test]
fn clock_comes_from_the_table_where_it_is_plausible() {
    let tables = vec!["0: 350Mhz\n".to_string(), "1: 1500Mhz *\n".to_string()];
    assert_eq!(telemetry::current_sclk_mhz(&tables), Some(1500));
    assert_eq!(telemetry::smu_gfxclk_mhz("x\nGfxClk: 1490 MHz\n"), Some(1490));
    assert_eq!(telemetry::smu_gfxclk_mhz("GfxClk: ?"), None);
    assert!(telemetry::needs_smu_query(None));
    assert_eq!(telemetry::gfxclk_mhz(Some(1500), Some(10)), Some(1500));
    assert_eq!(telemetry::gfxclk_mhz(None, Some(10)), Some(10));
}

#[test]
fn writable_fan_driver_replaces_the_read_only_one() {
    let names = vec!["amdgpu\n".to_string(), "nct6686\n".to_string()];
    assert_eq!(telemetry::nct6686_dir(&names), Some(1));
    assert!(telemetry::carrier_present(&names));
    assert!(telemetry::fan_writable(true, Some("nct6687")));
    assert!(!telemetry::fan_writable(true, Some("nct6683")));
    assert!(!telemetry::fan_writable(true, None));
    assert_eq!(
        telemetry::writable_module_step(false, false, "6.12"),
        ModuleStep::Unavailable
    );
    assert_eq!(
        telemetry::writable_module_step(false, false, telemetry::NCT6687_KVER),
        ModuleStep::Install
    );
    assert_eq!(
        telemetry::writable_module_step(true, false, "6.12"),
        ModuleStep::Available
    );
    assert_eq!(
        telemetry::carrier_bring_up(true, true, true),
        vec![DriverStep::PersistPolicy]
    );
    let up = telemetry::carrier_bring_up(false, true, true);
    assert!(up.contains(&DriverStep::LoadWritable));
    assert!(telemetry::carrier_bring_up(false, false, true).is_empty());
    assert_eq!(
        telemetry::carrier_settle(true, true),
        vec![DriverStep::PersistPolicy]
    );
    assert!(telemetry::carrier_settle(false, false).contains(&DriverStep::LoadReadOnly));
}
