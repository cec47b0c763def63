use arieltune::cpu::{
    restore_stock, safe_scale_for, CpuError, CpuOc, Stage, Sweep, SweepOpts, SweepStep,
};
use arieltune::double::Double;
use arieltune::ocq3;
use arieltune::stress::{worker_count, StressResult, ThermalWatch};

fn oc(boost: u32, scale: i32) -> CpuOc {
    CpuOc {
        boost_mhz: boost,
        curve_scale: scale,
        cpu_temp_c: 90,
        gpu_temp_c: 90,
    }
}

fn predict(boost: u32, scale: i32) -> f64 {
    ocq3::vid_predict(boost, scale) as f64 / 2f64.powi(64)
}

#[test]
fn stock_3500_is_safe() {
    assert!(oc(3500, 0).validate().is_ok());
    assert!(oc(3500, 0).predicted_vid_mv() < ocq3::VID_CEILING_MV);
}

#[test]
fn high_boost_without_undervolt_refused() {
    assert!(oc(4000, 0).validate().is_err());
}

#[test]
fn boost_above_cap_refused() {
    assert!(oc(4300, ocq3::SCALE_MIN).validate().is_err());
    assert!(oc(ocq3::BOOST_MAX_MHZ + 100, -30).validate().is_err());
}

#[test]
fn max_boost_needs_undervolt() {
    assert!(oc(ocq3::BOOST_MAX_MHZ, 0).validate().is_err());
    let s = safe_scale_for(ocq3::BOOST_MAX_MHZ, ocq3::VID_CEILING_MV);
    assert!(oc(ocq3::BOOST_MAX_MHZ, s).validate().is_ok());
}

#[test]
fn positive_scale_is_rejected() {
    assert!(oc(3500, 5).validate().is_err());
}

#[test]
fn safe_scale_keeps_under_cap() {
    for boost in [3500u32, 3800, 4000, 4200] {
        let s = safe_scale_for(boost, 1275);
        // Either it hit the cap, or it bottomed out at SCALE_MIN.
        let vid = predict(boost, s);
        assert!(
            vid <= 1275.0 || s == ocq3::SCALE_MIN,
            "boost {boost} scale {s} -> {vid} mV"
        );
    }
}

#[test]
fn curve_undervolt_lowers_vid() {
    let base = predict(3800, 0);
    let uv = predict(3800, -20);
    assert!(uv < base, "{uv} !< {base}");
}

fn assert_staging_safe(from: &CpuOc, to: &CpuOc, prev: Option<&CpuOc>) {
    let (mut boost, mut scale) = (from.boost_mhz, from.curve_scale);
    for st in to.staged_writes(prev) {
        match st {
            Stage::Scale(s) => scale = s,
            Stage::Boost(b) => boost = b,
        }
        let vid = predict(boost, scale);
        assert!(
            vid <= ocq3::VID_CEILING_MV as f64,
            "transient overvolt: {boost} MHz @ scale {scale} -> {vid:.0} mV (from {}/{} to {}/{})",
            from.boost_mhz,
            from.curve_scale,
            to.boost_mhz,
            to.curve_scale
        );
    }
    assert_eq!((boost, scale), (to.boost_mhz, to.curve_scale));
}

#[test]
fn staged_writes_never_transit_over_ceiling() {
    let hi = oc(4000, -35);
    let lo = oc(3500, 0);
    assert_staging_safe(&hi, &lo, Some(&hi));
    assert_staging_safe(&hi, &lo, None);
    let up = oc(4000, safe_scale_for(4000, ocq3::VID_CEILING_MV));
    assert_staging_safe(&lo, &up, Some(&lo));
    assert_staging_safe(&lo, &up, None);
    for (fb, fs) in [(3500, 0), (3800, -20), (4000, -35), (4100, -50)] {
        for (tb, ts_cap) in [(3500u32, 1325u32), (3800, 1275), (4000, 1275), (4100, 1275)] {
            let from = oc(fb, fs);
            let to = oc(tb, safe_scale_for(tb, ts_cap));
            assert_staging_safe(&from, &to, Some(&from));
            assert_staging_safe(&from, &to, None);
        }
    }
}

#[test]
fn temp_floor_enforced() {
    let mut c = oc(3500, 0);
    c.cpu_temp_c = 30; // below the 50C floor — a poisoned cap
    assert!(c.validate().is_err());
    c.cpu_temp_c = 90;
    c.gpu_temp_c = 0; // 0 would disable the soft cap
    assert!(c.validate().is_err());
}

#[test]
fn each_refusal_has_its_error() {
    assert_eq!(
        oc(2700, 0).validate(),
        Err(CpuError::BoostRange { boost: 2700 })
    );
    assert_eq!(
        oc(3500, -51).validate(),
        Err(CpuError::ScaleRange { scale: -51 })
    );
    let mut c = oc(3500, 0);
    c.cpu_temp_c = 101;
    assert_eq!(c.validate(), Err(CpuError::TempHigh));
    c.cpu_temp_c = 49;
    assert_eq!(c.validate(), Err(CpuError::TempLow));
    match oc(4000, 0).validate() {
        Err(CpuError::OverCeiling {
            boost: 4000,
            scale: 0,
            predicted,
            need,
        }) => {
            assert!(predicted > ocq3::VID_CEILING_MV);
            assert!(oc(4000, need).validate().is_ok());
            assert!(oc(4000, need + 1).validate().is_err());
        }
        other => panic!("{other:?}"),
    }
    assert_eq!(
        oc(2700, 0).validate().unwrap_err().message(),
        "boost 2700 MHz outside 2800-4100 MHz"
    );
}

#[test]
fn predicted_voltages() {
    assert_eq!(oc(3500, 0).predicted_vid_mv(), 1158);
    assert_eq!(oc(4000, 0).predicted_vid_mv(), 1524);
}

#[test]
fn apply_sends_limits_then_the_staged_writes() {
    let to = oc(3500, 0);
    let sent = to.apply_from(Some(&to)).unwrap();
    let msgs: Vec<(u16, u32)> = sent.iter().map(|r| (r.msg, r.arg)).collect();
    assert_eq!(msgs, vec![(0x8B, 90), (0x8C, 95), (0x9A, 1), (0x8F, 3500)]);
    assert!(oc(4000, 0).apply().is_err());
    let unknown = to.apply().unwrap();
    // From an unknown state the scale goes down before the boost moves.
    assert_eq!(unknown[3].msg, 0x50);
    assert_eq!(unknown[4].msg, 0x8F);
    assert_eq!(unknown.last().unwrap().arg, 0);
}

#[test]
fn defaults_are_stock() {
    let d = CpuOc::default();
    assert_eq!((d.boost_mhz, d.curve_scale), (3500, 0));
    assert_eq!(CpuOc::load_or_default(None), d);
    assert_eq!(CpuOc::load_or_default(Some(oc(3800, -20))), oc(3800, -20));
    assert!(!restore_stock().is_empty());
}

#[test]
fn curve_samples_cover_the_boost_range() {
    let s = arieltune::cpu::curve_samples(0);
    assert_eq!(s.len(), 14);
    assert_eq!(s[0].0, 2800);
    assert_eq!(s[13].0, 4100);
    assert_eq!(s[7], (3500, 1158));
}

#[test]
fn safe_scale_goes_by_double_precision() {
    let near = |freq: u32, cap: u32| {
        let mut scale = 0;
        while scale > ocq3::SCALE_MIN && predict(freq, scale) > cap as f64 {
            scale -= 1;
        }
        scale
    };
    for freq in (2800..=4100).step_by(7) {
        for cap in (900..=1325).step_by(9) {
            assert_eq!(safe_scale_for(freq, cap), near(freq, cap), "{freq} MHz, {cap} mV");
        }
    }
    assert_eq!(safe_scale_for(3750, 1223), -17);
    assert_eq!(safe_scale_for(3672, 985), -49);
    assert_eq!(oc(3500, 80).predicted_vid_mv(), 1569);
    assert_eq!(arieltune::cpu::curve_samples(80)[7], (3500, 1569));
}

fn run(stable: bool, thermal_abort: bool) -> StressResult {
    StressResult {
        stable,
        thermal_abort,
        max_temp_mc: Double::from_u32(81500),
        blocks: 10,
    }
}

#[test]
fn sweep_climbs_and_always_restores() {
    let mut s = Sweep::new(SweepOpts {
        target_mhz: 3700,
        ..Default::default()
    })
    .unwrap();
    for want in [3500, 3600, 3700] {
        match s.next(false) {
            SweepStep::Test { point, .. } => assert_eq!(point.boost_mhz, want),
            SweepStep::Restore { .. } => panic!("ended at {want}"),
        }
        s.report(Some(1100), run(true, false));
    }
    assert!(matches!(s.next(false), SweepStep::Restore { refused: None }));
    assert_eq!(s.points.len(), 3);
    assert_eq!(s.best.unwrap().boost_mhz, 3700);
    assert_eq!(s.points[0].note.message(), "ok");
}

#[test]
fn sweep_ends_on_a_bad_point() {
    let mut s = Sweep::new(SweepOpts::default()).unwrap();
    assert!(matches!(s.next(false), SweepStep::Test { .. }));
    s.report(None, run(false, true));
    assert!(matches!(s.next(false), SweepStep::Restore { .. }));
    assert!(s.best.is_none());
    assert_eq!(s.points[0].note.message(), "THERMAL >= 90C");

    let mut s = Sweep::new(SweepOpts::default()).unwrap();
    assert!(matches!(s.next(false), SweepStep::Test { .. }));
    s.failed();
    assert!(matches!(s.next(false), SweepStep::Restore { .. }));

    let mut s = Sweep::new(SweepOpts::default()).unwrap();
    assert!(matches!(s.next(true), SweepStep::Restore { .. }));
    assert_eq!(s.points[0].note.message(), "interrupted");
}

#[test]
fn sweep_options_are_checked() {
    let base = SweepOpts::default();
    assert!(matches!(
        Sweep::new(SweepOpts {
            target_mhz: 5000,
            ..base
        }),
        Err(CpuError::TargetRange { target: 5000 })
    ));
    assert!(matches!(
        Sweep::new(SweepOpts { step: 0, ..base }),
        Err(CpuError::ZeroStep)
    ));
    assert!(matches!(
        Sweep::new(SweepOpts {
            vid_cap_mv: 1326,
            ..base
        }),
        Err(CpuError::CapOverCeiling { cap: 1326 })
    ));
}

#[test]
fn thermal_watch_stops_at_the_ceiling() {
    let mut w = ThermalWatch::new();
    let mc = |x: f64| Some(Double::from_bits(x.to_bits()));
    assert!(!w.sample(mc(89_999.5), 90));
    assert!(!w.sample(None, 90));
    assert!(!w.sample(mc(f64::NAN), 90));
    assert!(!w.sample(mc(-1e300), 90));
    assert_eq!(w.max_temp_mc, Double::from_bits(89_999.5f64.to_bits()));
    assert!(w.sample(mc(90_000.0), 90));
    let r = w.finish(false, 7);
    assert!(!r.stable && r.thermal_abort);
    assert_eq!(r.max_temp_mc, Double::from_bits(90_000f64.to_bits()));
    assert!(ThermalWatch::new().sample(mc(f64::INFINITY), u32::MAX));
    assert_eq!(ThermalWatch::new().max_temp_mc, Double::from_u32(0));
    assert!(ThermalWatch::new().finish(false, 1).stable);
    assert!(!ThermalWatch::new().finish(true, 1).stable);
    assert_eq!(worker_count(0), 1);
    assert_eq!(worker_count(12), 12);
}

#[test]
fn unanswered_queries_are_left_out() {
    let l = arieltune::cpu::live(
        Some(1100),
        &vec![Some(3500), None, Some(3400)],
        &vec![None],
        Some(90),
    );
    assert_eq!(l.cores, vec![3500, 3400]);
    assert!(l.pstates.is_empty());
}

#[test]
fn restore_lowers_the_boost_before_it_relaxes_the_curve() {
    let sent: Vec<(u16, u32)> = restore_stock().iter().map(|r| (r.msg, r.arg)).collect();
    assert_eq!(
        sent,
        vec![
            (0x8F, 3500),
            (0x50, 0),
            (0x10, 0),
            (0x9A, 0),
            (0x8B, 100),
            (0x8C, 100)
        ]
    );
}
