use arieltune::ocq3::{
    clamp_u32, enabled_core_ids, mv_to_vid, vid_predict, vid_predict_mv, vid_to_mv, Access,
    CoreUnlock, CpuEntry, OcQ3, Progress, Q3Error, Request, Transfer, UnlockStep, POLL_LIMIT,
    Q3_ARG, Q3_ARG_HIGH, Q3_CMD, Q3_RSP, SMU_OK, SMU_REJECTED_BUSY, SMU_REJECTED_PREREQ,
    SMU_UNKNOWN, VID_CEILING_CODE, VID_CEILING_MV,
};
use arieltune::smu::{set_performance_level, GfxVidError, Smu};

#[test]
fn vid_codec_roundtrips() {
    for mv in [800u32, 1000, 1158, 1200, 1325] {
        let back = vid_to_mv(mv_to_vid(mv));
        assert!((back as i64 - mv as i64).abs() <= 7, "{mv} -> {back}");
    }
}

#[test]
fn vid_codec_matches_bc250_reference() {
    assert_eq!(vid_to_mv(56), 1200); // 56*-6.25+1550 = 1200
}

#[test]
fn mv_to_vid_out_of_range_clamps_to_ceiling_not_zero() {
    for mv in [1326u32, 1500, 1550, 2000, u32::MAX] {
        let code = mv_to_vid(mv);
        assert!(code >= VID_CEILING_CODE, "{mv} mV -> code {code}");
        assert!(vid_to_mv(code) <= VID_CEILING_MV, "{mv} mV -> code {code}");
    }
    assert_eq!(mv_to_vid(VID_CEILING_MV), VID_CEILING_CODE);
    assert_eq!(vid_to_mv(VID_CEILING_CODE), VID_CEILING_MV);
}

#[test]
fn curve_is_monotonic_in_clock() {
    let mut prev = 0.0;
    for c in (3500..=4500).step_by(100) {
        let v = vid_predict(c, 0) as f64 / 2f64.powi(64);
        assert!(v > prev, "not monotonic at {c}");
        prev = v;
    }
}

#[test]
fn stock_3500_matches_known_vid() {
    let v = vid_predict(3500, 0) as f64 / 2f64.powi(64);
    assert!((1130.0..1190.0).contains(&v), "3500@0 = {v}");
}

#[test]
fn codes_are_steps_of_a_quarter_volt_per_forty() {
    assert_eq!(mv_to_vid(1200), 56);
    assert_eq!(mv_to_vid(0), 248);
    assert_eq!(vid_to_mv(0), 1550);
    assert_eq!(vid_predict_mv(3500, 0), 1158);
    assert_eq!(clamp_u32(7, 8, 10), 8);
    assert_eq!(clamp_u32(11, 8, 10), 10);
}

fn curve(clock: u32, scale: i32) -> f64 {
    let c = clock as f64;
    let s = scale as f64;
    0.0003 * c * c + (-1.519 + 0.004325 * s) * c + (2800.0 - 10.0 * s)
}

#[test]
fn curve_is_the_one_of_double_precision() {
    let mut n: u32 = 12345;
    for _ in 0..4000 {
        n = n.wrapping_mul(1664525).wrapping_add(1013904223);
        let (clock, scale) = (n >> (n % 24), (n as i32) >> (n % 31));
        let units = vid_predict(clock, scale);
        assert_eq!(units as f64, curve(clock, scale) * 2f64.powi(64), "{clock} at {scale}");
        assert_eq!(
            vid_predict_mv(clock, scale),
            curve(clock, scale).round() as u32,
            "{clock} at {scale}"
        );
    }
    for clock in 2800..=4100 {
        for scale in -50..=90 {
            assert_eq!(vid_predict_mv(clock, scale), curve(clock, scale).round() as u32);
        }
    }
    // A half by the formula, a hair below it in double precision.
    assert_eq!(vid_predict_mv(3500, 80), 1569);
}

#[test]
fn codes_decode_as_in_double_precision() {
    for vid in (0..5000u32).chain([65535, 1 << 20, u32::MAX]) {
        let mv = (((vid as f64 * -0.00625) + 1.55) * 1000.0).round().max(0.0) as u32;
        assert_eq!(vid_to_mv(vid), mv, "code {vid}");
    }
    for mv in (0..3000u32).chain([u32::MAX]) {
        let code = (((1.55 - (mv as f64 / 1000.0)) / 0.00625).round() as i64)
            .clamp(VID_CEILING_CODE as i64, 0xFFFF) as u32;
        assert_eq!(mv_to_vid(mv), code, "{mv} mV");
    }
}

fn next(t: Transfer, value: u32) -> Transfer {
    match t.advance(value) {
        Progress::Next(n) => n,
        other => panic!("{other:?}"),
    }
}

fn written(r: Request) -> Transfer {
    let mut t = Transfer::new(r);
    let mut seen = Vec::new();
    for _ in 0..4 {
        seen.push(t.access());
        t = next(t, 0);
    }
    assert_eq!(
        seen,
        vec![
            Access::Write { reg: Q3_RSP, value: 0 },
            Access::Write { reg: Q3_ARG, value: r.arg },
            Access::Write { reg: Q3_ARG_HIGH, value: r.arg_high },
            Access::Write { reg: Q3_CMD, value: r.msg as u32 },
        ]
    );
    t
}

#[test]
fn message_is_written_then_polled() {
    let t = written(OcQ3::test());
    assert_eq!(t.access(), Access::Read { reg: Q3_RSP });
    let t = next(t, 0);
    let t = next(t, SMU_OK);
    assert_eq!(t.access(), Access::Read { reg: Q3_ARG });
    assert_eq!(
        t.advance(124),
        Progress::Answered {
            status: SMU_OK,
            arg: 124
        }
    );
    assert!(OcQ3::test_answer(124).is_ok());
    assert!(matches!(
        OcQ3::test_answer(123),
        Err(Q3Error::Echo { got: 123 })
    ));
}

#[test]
fn silent_mailbox_times_out() {
    let mut t = written(OcQ3::cpu_voltage_mv());
    for _ in 1..POLL_LIMIT {
        t = next(t, 0);
    }
    assert_eq!(t.advance(0), Progress::TimedOut { status: 0 });
}

#[test]
fn refused_messages_say_why() {
    assert!(matches!(OcQ3::send_ok(0x8F, SMU_OK, 5), Ok(5)));
    assert!(matches!(
        OcQ3::send_ok(0x8F, SMU_UNKNOWN, 0),
        Err(Q3Error::Unknown { msg: 0x8F })
    ));
    assert!(matches!(
        OcQ3::send_ok(0x8F, SMU_REJECTED_PREREQ, 0),
        Err(Q3Error::Prerequisite { .. })
    ));
    assert!(matches!(
        OcQ3::send_ok(0x8F, SMU_REJECTED_BUSY, 0),
        Err(Q3Error::Busy { .. })
    ));
    let e = OcQ3::send_ok(0x8F, 0x42, 0).unwrap_err();
    assert_eq!(e.message(), "q3 msg 0x8f: status 0x42");
    let e = Q3Error::TimedOut { msg: 1, status: 0 };
    assert!(e.message().contains("MAY STILL BE IN FLIGHT"));
    let e = Q3Error::Io {
        msg: 1,
        cause: "gone".to_string(),
    };
    assert_eq!(e.message(), "q3 msg 0x01: SMN I/O failed (gone)");
}

#[test]
fn only_the_stock_mask_is_unlocked() {
    assert_eq!(
        OcQ3::unlock_cores(0xFF).unwrap(),
        UnlockStep::Done(CoreUnlock::AlreadyUnlocked)
    );
    assert!(matches!(
        OcQ3::unlock_cores(0x77),
        Ok(UnlockStep::Send(Request { msg: 0x98, .. }))
    ));
    assert_eq!(
        OcQ3::unlock_cores(0x3F).unwrap_err().message(),
        "refusing: unexpected core mask 0x3F (expected 0x77)"
    );
    assert!(matches!(OcQ3::unlock_cores_any(0x3F), UnlockStep::Send(_)));
    assert_eq!(
        OcQ3::unlock_cores_any(0xFF),
        UnlockStep::Done(CoreUnlock::AlreadyUnlocked)
    );
    assert!(OcQ3::unlock_sent(SMU_OK).is_ok());
    assert!(matches!(
        OcQ3::unlock_sent(0xFC),
        Err(Q3Error::UnlockStatus { status: 0xFC })
    ));
    assert_eq!(OcQ3::unlock_verified(0xFF).unwrap(), CoreUnlock::Unlocked);
    assert!(matches!(
        OcQ3::unlock_verified(0x77),
        Err(Q3Error::UnlockReadback { mask: 0x77 })
    ));
    assert_eq!(OcQ3::core_mask(0xABCD_0077), 0x77);
}

#[test]
fn setters_hold_their_ranges() {
    assert_eq!(OcQ3::set_max_boost_clk(5000).arg, 4100);
    assert_eq!(OcQ3::set_max_boost_clk(100).arg, 2800);
    assert_eq!(OcQ3::scale_vid_curve(-20).unwrap().arg, 0xFFEC);
    assert_eq!(OcQ3::scale_vid_curve(-80).unwrap().arg, 0xFFCE);
    assert!(matches!(
        OcQ3::scale_vid_curve(1),
        Err(Q3Error::PositiveScale { scale: 1 })
    ));
    assert_eq!(OcQ3::set_cpu_max_temp(0).arg, 50);
    assert_eq!(OcQ3::set_gpu_max_temp(50).arg, 95);
    assert!(matches!(
        OcQ3::force_cpu_vid_mv(1326),
        Err(Q3Error::OverCeiling { mv: 1326 })
    ));
    assert_eq!(OcQ3::force_cpu_vid_mv(1200).unwrap().arg, 56);
}

#[test]
fn gpu_messages_are_lines() {
    assert_eq!(Smu::send_raw(0x39, 2230, 0), "39 8b6 0\n");
    assert_eq!(Smu::force_gfx_freq(9000), ("39 9c4 0\n".to_string(), 2500));
    assert_eq!(Smu::unforce_gfx_freq(), "3a 0 0\n");
    assert_eq!(Smu::force_gfx_vid(1000).unwrap(), "3b 3e8 0\n");
    assert_eq!(
        Smu::force_gfx_vid(1326),
        Err(GfxVidError::OverCeiling { mv: 1326 })
    );
    assert_eq!(
        Smu::force_gfx_vid(649),
        Err(GfxVidError::UnderFloor { mv: 649 })
    );
    assert_eq!(Smu::unforce_gfx_vid(), "3c 0 0\n");
    assert_eq!(set_performance_level("manual"), "manual\n");
}

#[test]
fn core_ids_are_unique_and_rising() {
    let e = |n: &str, id: &str| CpuEntry {
        name: n.to_string(),
        core_id: Some(id.to_string()),
    };
    let ids = enabled_core_ids(&vec![
        e("cpu3", "5\n"),
        e("cpu0", "0\n"),
        e("cpu1", "0\n"),
        e("cpufreq", "9\n"),
    ]);
    assert_eq!(ids, vec![0, 5]);
    assert_eq!(enabled_core_ids(&vec![]), vec![0, 1, 2, 3, 4, 5]);
}
