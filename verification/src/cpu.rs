//! CPU overclock and undervolt operating points.
//!
//! The SMU governs the CPU by an F/Vid curve. A point raises the boost clock
//! and scales the curve down; the SMU then picks the voltage. A point that the
//! curve predicts over the voltage ceiling is refused, and moving from one
//! point to another is staged so that no state on the way is over it either.
use vstd::prelude::*;

use crate::double::Double;
use crate::ocq3;
use crate::ocq3::{OcQ3, Request};
use crate::stress::StressResult;
use crate::text;

verus! {

/// Where the saved point lives.
pub const CONFIG_PATH: &'static str = "/var/lib/aputune/cpu.json";

/// A CPU operating point.
#[derive(Clone, Copy, Debug, PartialEq, Eq, Structural)]
pub struct CpuOc {
    /// Boost clock in MHz.
    pub boost_mhz: u32,
    /// F/Vid curve scale; 0 is stock, more negative a deeper undervolt.
    pub curve_scale: i32,
    /// CPU temperature limit in degrees.
    pub cpu_temp_c: u32,
    /// GPU temperature limit in degrees.
    pub gpu_temp_c: u32,
}

/// One write of the boost clock or the curve scale.
#[derive(Clone, Copy, Debug, PartialEq, Eq, Structural)]
pub enum Stage {
    Scale(i32),
    Boost(u32),
}

/// Why a point or a sweep is refused.
#[derive(Clone, Copy, Debug, PartialEq, Eq, Structural)]
pub enum CpuError {
    BoostRange { boost: u32 },
    ScaleRange { scale: i32 },
    TempHigh,
    TempLow,
    /// Over the ceiling even at the deepest undervolt.
    Unreachable { boost: u32, floor: u32 },
    /// Over the ceiling; `need` is the mildest scale that is not.
    OverCeiling { boost: u32, scale: i32, predicted: u32, need: i32 },
    TargetRange { target: u32 },
    ZeroStep,
    CapOverCeiling { cap: u32 },
}

impl CpuError {
    /// The message shown to the operator.
    pub open spec fn text(&self) -> Seq<char> {
        match self {
            CpuError::BoostRange { boost } => "boost "@ + text::dec(*boost as nat)
                + " MHz outside 2800-4100 MHz"@,
            CpuError::ScaleRange { scale } => "curve scale "@ + text::dec_int(*scale as int)
                + " outside -50..0 (undervolt only)"@,
            CpuError::TempHigh => "temp limit > 100C"@,
            CpuError::TempLow => "temp limit < 50C floor"@,
            CpuError::Unreachable { boost, floor } => "boost "@ + text::dec(*boost as nat)
                + " MHz predicts "@ + text::dec(*floor as nat)
                + " mV even at max undervolt (scale -50) — over the 1325 mV ceiling. Lower the boost clock."@,
            CpuError::OverCeiling { boost, scale, predicted, need } => "boost "@ + text::dec(
                *boost as nat,
            ) + " MHz at scale "@ + text::dec_int(*scale as int) + " predicts "@ + text::dec(
                *predicted as nat,
            ) + " mV (> 1325 mV ceiling) — undervolt more: use scale <= "@ + text::dec_int(
                *need as int,
            ),
            CpuError::TargetRange { target } => "target "@ + text::dec(*target as nat)
                + " MHz outside 2800-4100 MHz"@,
            CpuError::ZeroStep => "step must be > 0"@,
            CpuError::CapOverCeiling { cap } => "vid cap "@ + text::dec(*cap as nat)
                + " mV exceeds 1325 mV ceiling"@,
        }
    }

    /// The message shown to the operator.
    pub fn message(&self) -> (r: String)
        ensures
            r@ == self.text(),
    {
        match self {
            CpuError::BoostRange { boost } => text::join3(
                "boost ",
                text::decimal(*boost as u64).as_str(),
                " MHz outside 2800-4100 MHz",
            ),
            CpuError::ScaleRange { scale } => text::join3(
                "curve scale ",
                text::decimal_signed(*scale as i64).as_str(),
                " outside -50..0 (undervolt only)",
            ),
            CpuError::TempHigh => "temp limit > 100C".to_owned(),
            CpuError::TempLow => "temp limit < 50C floor".to_owned(),
            CpuError::Unreachable { boost, floor } => {
                let mut r = text::join3(
                    "boost ",
                    text::decimal(*boost as u64).as_str(),
                    " MHz predicts ",
                );
                r.append(text::decimal(*floor as u64).as_str());
                r.append(
                    " mV even at max undervolt (scale -50) — over the 1325 mV ceiling. Lower the boost clock.",
                );
                r
            },
            CpuError::OverCeiling { boost, scale, predicted, need } => {
                let mut r = text::join3(
                    "boost ",
                    text::decimal(*boost as u64).as_str(),
                    " MHz at scale ",
                );
                r.append(text::decimal_signed(*scale as i64).as_str());
                r.append(" predicts ");
                r.append(text::decimal(*predicted as u64).as_str());
                r.append(" mV (> 1325 mV ceiling) — undervolt more: use scale <= ");
                r.append(text::decimal_signed(*need as i64).as_str());
                r
            },
            CpuError::TargetRange { target } => text::join3(
                "target ",
                text::decimal(*target as u64).as_str(),
                " MHz outside 2800-4100 MHz",
            ),
            CpuError::ZeroStep => "step must be > 0".to_owned(),
            CpuError::CapOverCeiling { cap } => text::join3(
                "vid cap ",
                text::decimal(*cap as u64).as_str(),
                " mV exceeds 1325 mV ceiling",
            ),
        }
    }
}

// ---------------------------------------------------------------------------
// The mildest safe scale

/// `scale` keeps the curve at `freq` at or under `cap_mv`.
pub open spec fn under_cap(freq: int, scale: int, cap_mv: int) -> bool {
    ocq3::curve_units(freq, scale) <= cap_mv * ocq3::CURVE_MV
}

/// `scale` is the mildest in the range that keeps the curve under the cap, or
/// the deepest where none does.
pub open spec fn mildest_safe(freq: int, cap_mv: int, scale: int) -> bool {
    &&& ocq3::SCALE_MIN <= scale <= 0
    &&& under_cap(freq, scale, cap_mv) || scale == ocq3::SCALE_MIN
    &&& forall|s: int| scale < s <= 0 ==> !under_cap(freq, s, cap_mv)
}

/// The mildest safe scale; there is exactly one.
pub open spec fn safe_scale(freq: int, cap_mv: int) -> int {
    choose|s: int| mildest_safe(freq, cap_mv, s)
}

/// The mildest curve scale that keeps the predicted Vid at `freq` at or under
/// the cap; the deepest one where none does.
pub fn safe_scale_for(freq: u32, vid_cap_mv: u32) -> (r: i32)
    ensures
        r == safe_scale(freq as int, vid_cap_mv as int),
        mildest_safe(freq as int, vid_cap_mv as int, r as int),
{
    let cap: i128 = (vid_cap_mv as i128) * ocq3::CURVE_MV;
    let mut scale: i32 = 0;
    while scale > ocq3::SCALE_MIN && ocq3::vid_predict(freq, scale) > cap
        invariant
            cap == vid_cap_mv * ocq3::CURVE_MV,
            ocq3::SCALE_MIN <= scale <= 0,
            forall|s: int| scale < s <= 0 ==> !under_cap(freq as int, s, vid_cap_mv as int),
        decreases scale - ocq3::SCALE_MIN,
    {
        scale -= 1;
    }
    proof {
        let s = safe_scale(freq as int, vid_cap_mv as int);
        assert(mildest_safe(freq as int, vid_cap_mv as int, scale as int));
        mildest_safe_is_unique(freq as int, vid_cap_mv as int, scale as int, s);
    }
    scale
}

/// There is one mildest safe scale.
pub proof fn mildest_safe_is_unique(freq: int, cap_mv: int, a: int, b: int)
    requires
        mildest_safe(freq, cap_mv, a),
        mildest_safe(freq, cap_mv, b),
    ensures
        a == b,
{
}

// ---------------------------------------------------------------------------
// Points

/// The smaller of two numbers.
pub open spec fn least(a: int, b: int) -> int {
    if a < b { a } else { b }
}

impl CpuOc {
    /// Predicted Vid at the boost clock, in mV.
    pub open spec fn predicted(&self) -> int {
        ocq3::curve_mv(self.boost_mhz as int, self.curve_scale as int)
    }

    /// Within every range and predicted at or under the ceiling.
    pub open spec fn valid(&self) -> bool {
        &&& ocq3::BOOST_MIN_MHZ <= self.boost_mhz <= ocq3::BOOST_MAX_MHZ
        &&& ocq3::SCALE_MIN <= self.curve_scale <= ocq3::SCALE_MAX
        &&& ocq3::TEMP_MIN_C <= self.cpu_temp_c <= ocq3::TEMP_MAX_C
        &&& ocq3::TEMP_MIN_C <= self.gpu_temp_c <= ocq3::TEMP_MAX_C
        &&& self.predicted() <= ocq3::VID_CEILING_MV
    }

    /// What is wrong with a point that is not valid: the first of the range
    /// checks that fails, else the ceiling.
    pub open spec fn refusal(&self) -> CpuError {
        if !(ocq3::BOOST_MIN_MHZ <= self.boost_mhz <= ocq3::BOOST_MAX_MHZ) {
            CpuError::BoostRange { boost: self.boost_mhz }
        } else if !(ocq3::SCALE_MIN <= self.curve_scale <= ocq3::SCALE_MAX) {
            CpuError::ScaleRange { scale: self.curve_scale }
        } else if self.cpu_temp_c > ocq3::TEMP_MAX_C || self.gpu_temp_c > ocq3::TEMP_MAX_C {
            CpuError::TempHigh
        } else if self.cpu_temp_c < ocq3::TEMP_MIN_C || self.gpu_temp_c < ocq3::TEMP_MIN_C {
            CpuError::TempLow
        } else {
            let floor = ocq3::curve_mv(self.boost_mhz as int, ocq3::SCALE_MIN as int);
            if floor > ocq3::VID_CEILING_MV {
                CpuError::Unreachable { boost: self.boost_mhz, floor: floor as u32 }
            } else {
                CpuError::OverCeiling {
                    boost: self.boost_mhz,
                    scale: self.curve_scale,
                    predicted: self.predicted() as u32,
                    need: safe_scale(self.boost_mhz as int, ocq3::VID_CEILING_MV as int) as i32,
                }
            }
        }
    }

    /// Accepts a point within the envelope and says why it refuses another.
    pub fn validate(&self) -> (r: Result<(), CpuError>)
        ensures
            self.valid() ==> r is Ok,
            !self.valid() ==> r == Err::<(), CpuError>(self.refusal()),
    {
        if self.boost_mhz < ocq3::BOOST_MIN_MHZ || self.boost_mhz > ocq3::BOOST_MAX_MHZ {
            return Err(CpuError::BoostRange { boost: self.boost_mhz });
        }
        if self.curve_scale < ocq3::SCALE_MIN || self.curve_scale > ocq3::SCALE_MAX {
            return Err(CpuError::ScaleRange { scale: self.curve_scale });
        }
        if self.cpu_temp_c > ocq3::TEMP_MAX_C || self.gpu_temp_c > ocq3::TEMP_MAX_C {
            return Err(CpuError::TempHigh);
        }
        if self.cpu_temp_c < ocq3::TEMP_MIN_C || self.gpu_temp_c < ocq3::TEMP_MIN_C {
            return Err(CpuError::TempLow);
        }
        let predicted: u32 = self.predicted_vid_mv();
        if predicted > ocq3::VID_CEILING_MV {
            let floor: u32 = ocq3::vid_predict_mv(self.boost_mhz, ocq3::SCALE_MIN);
            if floor > ocq3::VID_CEILING_MV {
                return Err(CpuError::Unreachable { boost: self.boost_mhz, floor });
            }
            let need: i32 = safe_scale_for(self.boost_mhz, ocq3::VID_CEILING_MV);
            return Err(
                CpuError::OverCeiling {
                    boost: self.boost_mhz,
                    scale: self.curve_scale,
                    predicted,
                    need,
                },
            );
        }
        Ok(())
    }

    /// Predicted Vid in mV at the boost clock for this curve scale.
    pub fn predicted_vid_mv(&self) -> (r: u32)
        ensures
            r == self.predicted(),
    {
        ocq3::vid_predict_mv(self.boost_mhz, self.curve_scale)
    }

    /// The boost and curve writes that reach this point from `prev` (`None`
    /// where the point applied last is unknown): the scale goes down to one
    /// that is safe at both clocks, the boost moves, the scale relaxes.
    pub fn staged_writes(&self, prev: Option<&CpuOc>) -> (r: Vec<Stage>)
        ensures
            r@ == staging(*self, prev),
    {
        let old_boost: u32 = match prev {
            Some(p) => p.boost_mhz,
            None => ocq3::BOOST_MAX_MHZ,
        };
        let old_scale: i32 = match prev {
            Some(p) => p.curve_scale,
            None => 0,
        };
        let hi_boost: u32 = if old_boost > self.boost_mhz {
            old_boost
        } else {
            self.boost_mhz
        };
        let safe: i32 = safe_scale_for(hi_boost, ocq3::VID_CEILING_MV);
        let both: i32 = if old_scale < self.curve_scale {
            old_scale
        } else {
            self.curve_scale
        };
        let stage_scale: i32 = if both < safe {
            both
        } else {
            safe
        };
        let mut out: Vec<Stage> = Vec::new();
        if stage_scale != old_scale {
            out.push(Stage::Scale(stage_scale));
        }
        out.push(Stage::Boost(self.boost_mhz));
        if self.curve_scale != stage_scale {
            out.push(Stage::Scale(self.curve_scale));
        }
        assert(out@ =~= staging(*self, prev));
        out
    }
}

/// The clock that was applied last: the highest offered where that is unknown.
pub open spec fn old_boost(prev: Option<&CpuOc>) -> int {
    match prev {
        Some(p) => p.boost_mhz as int,
        None => ocq3::BOOST_MAX_MHZ as int,
    }
}

/// The scale that was applied last: stock where that is unknown.
pub open spec fn old_scale(prev: Option<&CpuOc>) -> int {
    match prev {
        Some(p) => p.curve_scale as int,
        None => 0,
    }
}

/// The higher of the clock before and the clock to reach.
pub open spec fn highest_boost(to: CpuOc, prev: Option<&CpuOc>) -> int {
    if old_boost(prev) > to.boost_mhz { old_boost(prev) } else { to.boost_mhz as int }
}

/// The scale held while the boost moves: the deepest of the old one, the new
/// one and the mildest that is safe at the higher clock.
pub open spec fn mid_scale(to: CpuOc, prev: Option<&CpuOc>) -> int {
    least(
        least(old_scale(prev), to.curve_scale as int),
        safe_scale(highest_boost(to, prev), ocq3::VID_CEILING_MV as int),
    )
}

/// The writes: the scale in between, the boost, the final scale. A scale that
/// is there already is not written.
pub open spec fn staging(to: CpuOc, prev: Option<&CpuOc>) -> Seq<Stage> {
    let mid = mid_scale(to, prev);
    (if mid != old_scale(prev) { seq![Stage::Scale(mid as i32)] } else { seq![] })
        + seq![Stage::Boost(to.boost_mhz)]
        + (if to.curve_scale != mid { seq![Stage::Scale(to.curve_scale)] } else { seq![] })
}

impl Default for CpuOc {
    fn default() -> (r: CpuOc)
        ensures
            r == stock_point(),
    {
        CpuOc {
            boost_mhz: ocq3::BOOST_STOCK_MHZ,
            curve_scale: 0,
            cpu_temp_c: 90,
            gpu_temp_c: 90,
        }
    }
}

/// Stock clock and curve, both temperature limits at 90 degrees.
pub open spec fn stock_point() -> CpuOc {
    CpuOc { boost_mhz: ocq3::BOOST_STOCK_MHZ, curve_scale: 0, cpu_temp_c: 90, gpu_temp_c: 90 }
}

// ---------------------------------------------------------------------------
// Applying a point

/// The message of one staged write.
pub open spec fn stage_request(w: Stage) -> Request {
    match w {
        Stage::Scale(s) => Request {
            msg: 0x50,
            arg: ocq3::packed_scale(
                ocq3::clamp(s as int, ocq3::SCALE_MIN as int, ocq3::SCALE_MAX as int),
            ) as u32,
            arg_high: 0,
        },
        Stage::Boost(b) => Request {
            msg: 0x8F,
            arg: ocq3::clamp(
                b as int,
                ocq3::BOOST_MIN_MHZ as int,
                ocq3::BOOST_MAX_MHZ as int,
            ) as u32,
            arg_high: 0,
        },
    }
}

/// The messages that apply a valid point: both temperature limits, the extra
/// voltage padding off, then the staged writes.
pub open spec fn apply_requests(to: CpuOc, prev: Option<&CpuOc>) -> Seq<Request> {
    seq![
        Request { msg: 0x8B, arg: to.cpu_temp_c, arg_high: 0 },
        Request {
            msg: 0x8C,
            arg: ocq3::clamp(
                to.gpu_temp_c as int,
                ocq3::HW_TEMP_FLOOR_C as int,
                ocq3::TEMP_MAX_C as int,
            ) as u32,
            arg_high: 0,
        },
        Request { msg: 0x9A, arg: 1, arg_high: 0 },
    ] + staging(to, prev).map_values(|w: Stage| stage_request(w))
}

impl CpuOc {
    /// The messages that apply this point, given the point applied last
    /// (`None` where that is unknown). Nothing is sent for an invalid point.
    pub fn apply_from(&self, prev: Option<&CpuOc>) -> (r: Result<Vec<Request>, CpuError>)
        ensures
            self.valid() ==> r is Ok && (r->Ok_0)@ == apply_requests(*self, prev),
            !self.valid() ==> r == Err::<Vec<Request>, CpuError>(self.refusal()),
    {
        match self.validate() {
            Ok(()) => {},
            Err(e) => {
                return Err(e);
            },
        }
        let mut out: Vec<Request> = Vec::new();
        out.push(OcQ3::set_cpu_max_temp(self.cpu_temp_c));
        out.push(OcQ3::set_gpu_max_temp(self.gpu_temp_c));
        out.push(OcQ3::disable_extra_voltage(true));
        let stages = self.staged_writes(prev);
        let ghost head = out@;
        proof {
            safe_scale_in_range(highest_boost(*self, prev), ocq3::VID_CEILING_MV as int);
        }
        let mut i: usize = 0;
        assert(out@ =~= head + stages@.take(0).map_values(|w: Stage| stage_request(w)));
        while i < stages.len()
            invariant
                i <= stages@.len(),
                stages@ == staging(*self, prev),
                forall|k: int|
                    0 <= k < stages@.len() ==> ((#[trigger] stages@[k]) matches Stage::Scale(s)
                        ==> s <= ocq3::SCALE_MAX),
                out@ == head + stages@.take(i as int).map_values(|w: Stage| stage_request(w)),
            decreases stages@.len() - i,
        {
            let w: Stage = stages[i];
            let request: Request = match w {
                Stage::Boost(b) => OcQ3::set_max_boost_clk(b),
                Stage::Scale(s) => OcQ3::undervolt(s),
            };
            out.push(request);
            i += 1;
            assert(stages@.take(i as int) =~= stages@.take(i - 1).push(w));
            assert(out@ =~= head + stages@.take(i as int).map_values(|w: Stage| stage_request(w)));
        }
        assert(stages@.take(i as int) =~= stages@);
        assert(out@ =~= apply_requests(*self, prev));
        Ok(out)
    }

    /// [`CpuOc::apply_from`] with an unknown prior state.
    pub fn apply(&self) -> (r: Result<Vec<Request>, CpuError>)
        ensures
            self.valid() ==> r is Ok && (r->Ok_0)@ == apply_requests(*self, None),
            !self.valid() ==> r == Err::<Vec<Request>, CpuError>(self.refusal()),
    {
        self.apply_from(None)
    }

    /// The saved point, or the stock one where none could be read.
    pub fn load_or_default(saved: Option<CpuOc>) -> (r: CpuOc)
        ensures
            r == (match saved {
                Some(p) => p,
                None => stock_point(),
            }),
    {
        match saved {
            Some(p) => p,
            None => CpuOc::default(),
        }
    }
}

/// The messages that bring the CPU back to firmware defaults.
pub fn restore_stock() -> (r: Vec<Request>)
    ensures
        r@ == ocq3::restore_requests(),
{
    OcQ3::restore_defaults()
}

/// Live CPU telemetry; what could not be read is absent.
#[derive(Debug)]
pub struct CpuLive {
    pub cur_vid_mv: Option<u32>,
    pub cores: Vec<u32>,
    pub pstates: Vec<u32>,
    pub cpu_temp_max: Option<u32>,
}

/// The answers that came, in order.
pub open spec fn answered(answers: Seq<Option<u32>>) -> Seq<u32>
    decreases answers.len(),
{
    if answers.len() == 0 {
        seq![]
    } else {
        match answers.last() {
            Some(v) => answered(answers.drop_last()).push(v),
            None => answered(answers.drop_last()),
        }
    }
}

fn keep_answered(answers: &Vec<Option<u32>>) -> (r: Vec<u32>)
    ensures
        r@ == answered(answers@),
{
    let mut r: Vec<u32> = Vec::new();
    let mut i: usize = 0;
    while i < answers.len()
        invariant
            i <= answers@.len(),
            r@ == answered(answers@.take(i as int)),
        decreases answers@.len() - i,
    {
        assert(answers@.take(i + 1).drop_last() =~= answers@.take(i as int));
        if let Some(v) = answers[i] {
            r.push(v);
        }
        i += 1;
    }
    assert(answers@.take(i as int) =~= answers@);
    r
}

/// Live CPU state from the answers of the mailbox: per enabled core and per
/// P-state, those that failed left out.
pub fn live(
    cur_vid_mv: Option<u32>,
    cores: &Vec<Option<u32>>,
    pstates: &Vec<Option<u32>>,
    cpu_temp_max: Option<u32>,
) -> (r: CpuLive)
    ensures
        r.cur_vid_mv == cur_vid_mv,
        r.cores@ == answered(cores@),
        r.pstates@ == answered(pstates@),
        r.cpu_temp_max == cpu_temp_max,
{
    CpuLive {
        cur_vid_mv,
        cores: keep_answered(cores),
        pstates: keep_answered(pstates),
        cpu_temp_max,
    }
}

/// The predicted curve over the boost range in steps of 100 MHz, as pairs of
/// clock and millivolts.
pub fn curve_samples(scale: i32) -> (r: Vec<(u32, u32)>)
    ensures
        r@.len() == 14,
        forall|i: int|
            0 <= i < 14 ==> (#[trigger] r@[i]).0 == 2800 + 100 * i && r@[i].1 == ocq3::curve_mv(
                2800 + 100 * i,
                scale as int,
            ),
{
    let mut r: Vec<(u32, u32)> = Vec::new();
    let mut c: u32 = ocq3::BOOST_MIN_MHZ;
    while c <= ocq3::BOOST_MAX_MHZ
        invariant
            c == 2800 + 100 * r@.len(),
            r@.len() <= 14,
            forall|i: int|
                0 <= i < r@.len() ==> (#[trigger] r@[i]).0 == 2800 + 100 * i && r@[i].1
                    == ocq3::curve_mv(2800 + 100 * i, scale as int),
        decreases 4200 - c,
    {
        r.push((c, ocq3::vid_predict_mv(c, scale)));
        c += 100;
    }
    r
}

// ---------------------------------------------------------------------------
// The stability sweep

/// What a sweep is to do.
#[derive(Clone, Copy, Debug, PartialEq, Eq, Structural)]
pub struct SweepOpts {
    /// Boost clock to climb to, in MHz.
    pub target_mhz: u32,
    /// Cap on the predicted CPU Vid, in mV.
    pub vid_cap_mv: u32,
    /// Temperature limit in degrees, also the thermal abort.
    pub temp_c: u32,
    /// Step between boost points, in MHz.
    pub step: u32,
    /// Seconds of load per point.
    pub dwell_s: u64,
}

impl Default for SweepOpts {
    fn default() -> (r: SweepOpts)
        ensures
            r == (SweepOpts {
                target_mhz: 4100,
                vid_cap_mv: 1275,
                temp_c: 90,
                step: 100,
                dwell_s: 8,
            }),
    {
        SweepOpts { target_mhz: 4100, vid_cap_mv: 1275, temp_c: 90, step: 100, dwell_s: 8 }
    }
}

/// How a point of a sweep went.
#[derive(Clone, Copy, Debug, PartialEq, Eq, Structural)]
pub enum SweepNote {
    Interrupted,
    Thermal { ceiling_c: u32 },
    Unstable,
    Good,
}

impl SweepNote {
    /// The note as it is logged.
    pub open spec fn text(&self) -> Seq<char> {
        match self {
            SweepNote::Interrupted => "interrupted"@,
            SweepNote::Thermal { ceiling_c } => "THERMAL >= "@ + text::dec(*ceiling_c as nat)
                + "C"@,
            SweepNote::Unstable => "UNSTABLE"@,
            SweepNote::Good => "ok"@,
        }
    }

    /// The note as it is logged.
    pub fn message(&self) -> (r: String)
        ensures
            r@ == self.text(),
    {
        match self {
            SweepNote::Interrupted => "interrupted".to_owned(),
            SweepNote::Thermal { ceiling_c } => text::join3(
                "THERMAL >= ",
                text::decimal(*ceiling_c as u64).as_str(),
                "C",
            ),
            SweepNote::Unstable => "UNSTABLE".to_owned(),
            SweepNote::Good => "ok".to_owned(),
        }
    }
}

/// One logged point of a sweep.
#[derive(Clone, Copy, Debug, PartialEq, Eq, Structural)]
pub struct SweepPoint {
    pub boost_mhz: u32,
    pub scale: i32,
    pub measured_vid_mv: Option<u32>,
    pub stable: bool,
    /// Highest temperature seen, in thousandths of a degree.
    pub max_temp_mc: Double,
    pub note: SweepNote,
}

/// What the sweep wants done next.
#[derive(Debug)]
pub enum SweepStep {
    /// Apply `point` by `requests`, let it settle, run the load and report.
    Test { point: CpuOc, requests: Vec<Request> },
    /// The climb is over: restore the firmware defaults. `refused` says why,
    /// where a point could not be applied.
    Restore { refused: Option<CpuError> },
}

/// A climb of the boost clock towards a target, undervolting each step to stay
/// under the Vid cap. However it ends, it ends with [`SweepStep::Restore`].
#[derive(Debug)]
pub struct Sweep {
    pub opts: SweepOpts,
    /// Boost clock of the point to test next.
    pub freq: u32,
    /// The point applied last.
    pub prev: CpuOc,
    pub points: Vec<SweepPoint>,
    pub best: Option<CpuOc>,
    /// No further point is to be tested.
    pub over: bool,
}

/// The first of the options' checks that fails.
pub open spec fn sweep_refusal(o: SweepOpts) -> Option<CpuError> {
    if !(ocq3::BOOST_MIN_MHZ <= o.target_mhz <= ocq3::BOOST_MAX_MHZ) {
        Some(CpuError::TargetRange { target: o.target_mhz })
    } else if o.step == 0 {
        Some(CpuError::ZeroStep)
    } else if o.vid_cap_mv > ocq3::VID_CEILING_MV {
        Some(CpuError::CapOverCeiling { cap: o.vid_cap_mv })
    } else {
        None
    }
}

/// A sweep before and after its next step.
pub open spec fn stepped(s: Sweep, stop: bool, n: Sweep, step: SweepStep) -> bool {
    let tested = !s.over && s.freq <= s.opts.target_mhz && !stop && s.candidate().valid();
    if tested {
        &&& step matches SweepStep::Test { point, requests }
        &&& point == s.candidate()
        &&& requests@ == apply_requests(point, Some(&s.prev))
        &&& !n.over
        &&& n.prev == point
        &&& n.points == s.points
    } else {
        &&& step is Restore
        &&& n.over
        &&& n.prev == s.prev
        &&& n.points@.len() == s.points@.len() + (if !s.over && s.freq <= s.opts.target_mhz && stop {
            1int
        } else {
            0
        })
    }
}

/// A sweep before and after the report on its point.
pub open spec fn reported(s: Sweep, result: StressResult, n: Sweep) -> bool {
    &&& n.points@.len() == s.points@.len() + 1
    &&& n.points@.last().boost_mhz == s.prev.boost_mhz
    &&& n.points@.last().scale == s.prev.curve_scale
    &&& n.points@.last().stable == result.stable
    &&& n.points@.last().max_temp_mc == result.max_temp_mc
    &&& n.best == (if result.stable { Some(s.prev) } else { s.best })
    &&& n.over == (s.over || !result.stable)
    &&& n.freq == (if result.stable {
        ocq3::clamp(s.freq + s.opts.step, 0, u32::MAX as int)
    } else {
        s.freq as int
    })
}

impl Sweep {
    /// The options have passed their checks, and neither the point applied
    /// last nor the best one is outside the envelope.
    pub open spec fn wf(&self) -> bool {
        &&& sweep_refusal(self.opts) is None
        &&& self.prev.valid()
        &&& self.best is Some ==> self.best->0.valid()
    }

    /// The point that the climb tests at its current clock.
    pub open spec fn candidate(&self) -> CpuOc {
        CpuOc {
            boost_mhz: self.freq,
            curve_scale: safe_scale(self.freq as int, self.opts.vid_cap_mv as int) as i32,
            cpu_temp_c: self.opts.temp_c,
            gpu_temp_c: self.opts.temp_c,
        }
    }

    /// A sweep from firmware defaults, starting at the stock clock.
    pub fn new(opts: SweepOpts) -> (r: Result<Sweep, CpuError>)
        ensures
            match sweep_refusal(opts) {
                Some(e) => r == Err::<Sweep, CpuError>(e),
                None => {
                    &&& r is Ok
                    &&& (r->Ok_0).wf()
                    &&& (r->Ok_0).opts == opts
                    &&& (r->Ok_0).freq == ocq3::BOOST_STOCK_MHZ
                    &&& (r->Ok_0).prev == stock_point()
                    &&& (r->Ok_0).points@ == Seq::<SweepPoint>::empty()
                    &&& (r->Ok_0).best is None
                    &&& !(r->Ok_0).over
                },
            },
    {
        if opts.target_mhz < ocq3::BOOST_MIN_MHZ || opts.target_mhz > ocq3::BOOST_MAX_MHZ {
            return Err(CpuError::TargetRange { target: opts.target_mhz });
        }
        if opts.step == 0 {
            return Err(CpuError::ZeroStep);
        }
        if opts.vid_cap_mv > ocq3::VID_CEILING_MV {
            return Err(CpuError::CapOverCeiling { cap: opts.vid_cap_mv });
        }
        proof {
            curve_in_envelope(3500, 0);
        }
        Ok(
            Sweep {
                opts,
                freq: ocq3::BOOST_STOCK_MHZ,
                prev: CpuOc::default(),
                points: Vec::new(),
                best: None,
                over: false,
            },
        )
    }

    /// The next step. `stop` says that the operator interrupted the sweep,
    /// which is logged where a point was still to come.
    pub fn next(&mut self, stop: bool) -> (r: SweepStep)
        requires
            old(self).wf(),
        ensures
            final(self).wf(),
            final(self).opts == old(self).opts,
            final(self).freq == old(self).freq,
            final(self).best == old(self).best,
            ({
                let ended = old(self).over || old(self).freq > old(self).opts.target_mhz;
                let point = old(self).candidate();
                if ended {
                    &&& r == SweepStep::Restore { refused: None }
                    &&& final(self).over
                    &&& final(self).points == old(self).points
                    &&& final(self).prev == old(self).prev
                } else if stop {
                    &&& r == SweepStep::Restore { refused: None }
                    &&& final(self).over
                    &&& final(self).points@ == old(self).points@.push(
                        SweepPoint {
                            boost_mhz: old(self).freq,
                            scale: 0,
                            measured_vid_mv: None,
                            stable: false,
                            max_temp_mc: Double::small(0),
                            note: SweepNote::Interrupted,
                        },
                    )
                    &&& final(self).prev == old(self).prev
                } else if !point.valid() {
                    &&& r == SweepStep::Restore { refused: Some(point.refusal()) }
                    &&& final(self).over
                    &&& final(self).points == old(self).points
                    &&& final(self).prev == old(self).prev
                } else {
                    &&& r matches SweepStep::Test { point: p, requests }
                    &&& p == point
                    &&& requests@ == apply_requests(point, Some(&old(self).prev))
                    &&& !final(self).over
                    &&& final(self).points == old(self).points
                    &&& final(self).prev == point
                }
            }),
            stepped(*old(self), stop, *final(self), r),
    {
        if self.over || self.freq > self.opts.target_mhz {
            self.over = true;
            return SweepStep::Restore { refused: None };
        }
        if stop {
            self.points.push(
                SweepPoint {
                    boost_mhz: self.freq,
                    scale: 0,
                    measured_vid_mv: None,
                    stable: false,
                    max_temp_mc: Double::from_u32(0),
                    note: SweepNote::Interrupted,
                },
            );
            self.over = true;
            return SweepStep::Restore { refused: None };
        }
        let point = CpuOc {
            boost_mhz: self.freq,
            curve_scale: safe_scale_for(self.freq, self.opts.vid_cap_mv),
            cpu_temp_c: self.opts.temp_c,
            gpu_temp_c: self.opts.temp_c,
        };
        match point.apply_from(Some(&self.prev)) {
            Ok(requests) => {
                self.prev = point;
                SweepStep::Test { point, requests }
            },
            Err(e) => {
                self.over = true;
                SweepStep::Restore { refused: Some(e) }
            },
        }
    }

    /// The mailbox refused a message of the point under test: nothing more is
    /// tested and nothing is logged.
    pub fn failed(&mut self)
        ensures
            final(self).over,
            final(self).opts == old(self).opts,
            final(self).freq == old(self).freq,
            final(self).prev == old(self).prev,
            final(self).points == old(self).points,
            final(self).best == old(self).best,
    {
        self.over = true;
    }

    /// Logs the point under test. A stable one is the best so far and the
    /// climb goes on; any other ends it.
    pub fn report(&mut self, measured_vid_mv: Option<u32>, result: StressResult)
        requires
            old(self).wf(),
        ensures
            final(self).wf(),
            final(self).opts == old(self).opts,
            final(self).prev == old(self).prev,
            final(self).points@ == old(self).points@.push(
                SweepPoint {
                    boost_mhz: old(self).prev.boost_mhz,
                    scale: old(self).prev.curve_scale,
                    measured_vid_mv,
                    stable: result.stable,
                    max_temp_mc: result.max_temp_mc,
                    note: if result.thermal_abort {
                        SweepNote::Thermal { ceiling_c: old(self).opts.temp_c }
                    } else if !result.stable {
                        SweepNote::Unstable
                    } else {
                        SweepNote::Good
                    },
                },
            ),
            result.stable ==> final(self).best == Some(old(self).prev) && final(self).freq
                == ocq3::clamp(old(self).freq + old(self).opts.step, 0, u32::MAX as int)
                && final(self).over == old(self).over,
            !result.stable ==> final(self).best == old(self).best && final(self).freq == old(
                self,
            ).freq && final(self).over,
            reported(*old(self), result, *final(self)),
    {
        let note: SweepNote = if result.thermal_abort {
            SweepNote::Thermal { ceiling_c: self.opts.temp_c }
        } else if !result.stable {
            SweepNote::Unstable
        } else {
            SweepNote::Good
        };
        self.points.push(
            SweepPoint {
                boost_mhz: self.prev.boost_mhz,
                scale: self.prev.curve_scale,
                measured_vid_mv,
                stable: result.stable,
                max_temp_mc: result.max_temp_mc,
                note,
            },
        );
        if result.stable {
            self.best = Some(self.prev);
            self.freq = self.freq.saturating_add(self.opts.step);
        } else {
            self.over = true;
        }
    }
}

// ---------------------------------------------------------------------------
// Laws

/// The boost clock and curve scale that the hardware holds.
pub struct Applied {
    pub boost: int,
    pub scale: int,
}

/// The state after one write.
pub open spec fn written(at: Applied, w: Stage) -> Applied {
    match w {
        Stage::Scale(s) => Applied { boost: at.boost, scale: s as int },
        Stage::Boost(b) => Applied { boost: b as int, scale: at.scale },
    }
}

/// The state after all of the writes.
pub open spec fn replayed(at: Applied, writes: Seq<Stage>) -> Applied
    decreases writes.len(),
{
    if writes.len() == 0 {
        at
    } else {
        written(replayed(at, writes.drop_last()), writes.last())
    }
}

/// Every state from the first write on is predicted at or under the ceiling.
pub open spec fn never_over_ceiling(at: Applied, writes: Seq<Stage>) -> bool {
    forall|n: int|
        1 <= n <= writes.len() ==> {
            let now = #[trigger] replayed(at, writes.take(n));
            ocq3::curve_mv(now.boost, now.scale) <= ocq3::VID_CEILING_MV
        }
}

/// A deeper scale never predicts a higher whole-millivolt Vid over the ceiling:
/// what is at or under it stays there.
proof fn deeper_stays_under(clock: int, deeper: int, milder: int)
    requires
        ocq3::BOOST_MIN_MHZ <= clock <= ocq3::BOOST_MAX_MHZ,
        i32::MIN <= deeper <= milder <= i32::MAX,
        ocq3::curve_mv(clock, milder) <= ocq3::VID_CEILING_MV,
    ensures
        ocq3::curve_mv(clock, deeper) <= ocq3::VID_CEILING_MV,
{
    if deeper < milder {
        ocq3::undervolt_lowers_vid(clock, deeper, milder);
    }
}

/// In the envelope the curve is near its unrounded form, and that lies under the
/// chord between the lowest and the highest clock.
pub proof fn curve_in_envelope(clock: int, scale: int)
    requires
        ocq3::BOOST_MIN_MHZ <= clock <= ocq3::BOOST_MAX_MHZ,
        ocq3::SCALE_MIN <= scale <= ocq3::SCALE_MAX,
    ensures
        -300_000_000 <= ocq3::curve_units(clock, scale) - ocq3::unrounded(clock, scale)
            <= 300_000_000,
        ocq3::unrounded(clock, scale) <= 5_534_023_222_112_865 * (6900 * clock - 11480000) + 16 * ((
        4_986_385_507_424_613 * scale - 256 * 6_840_967_833_975_783) * clock) + (2800 - 10 * scale)
            * 0x1_0000_0000_0000_0000,
{
    ocq3::curve_is_near(clock, scale);
    assert(clock * clock <= 6900 * clock - 11480000 && clock * clock <= 16810000)
        by (nonlinear_arith)
        requires
            2800 <= clock <= 4100,
    ;
    let s = -scale;
    assert(s * clock <= 50 * 4100) by (nonlinear_arith)
        requires
            0 <= s <= 50,
            0 <= clock <= 4100,
    ;
}

/// What the messages have set in the CPU.
pub struct CpuState {
    pub cpu_limit_c: int,
    pub gpu_limit_c: int,
    pub padding: bool,
    pub forced_vid: bool,
    pub boost_mhz: int,
    pub scale: int,
}

/// What the firmware does on a message: the limits and the clock are taken as
/// they are, the scale from sixteen bits with a sign.
pub open spec fn obeyed(s: CpuState, r: Request) -> CpuState {
    if r.msg == 0x8B {
        CpuState { cpu_limit_c: r.arg as int, ..s }
    } else if r.msg == 0x8C {
        CpuState { gpu_limit_c: r.arg as int, ..s }
    } else if r.msg == 0x9A {
        CpuState { padding: r.arg == 0, ..s }
    } else if r.msg == 0x10 {
        CpuState { forced_vid: false, ..s }
    } else if r.msg == 0x8F {
        CpuState { boost_mhz: r.arg as int, ..s }
    } else if r.msg == 0x50 {
        CpuState { scale: if r.arg < 0x8000 { r.arg as int } else { r.arg - 0x1_0000 }, ..s }
    } else {
        s
    }
}

/// What it has set after all of the messages.
pub open spec fn obeyed_all(s: CpuState, rs: Seq<Request>) -> CpuState
    decreases rs.len(),
{
    if rs.len() == 0 {
        s
    } else {
        obeyed(obeyed_all(s, rs.drop_last()), rs.last())
    }
}

proof fn obeyed_step(s: CpuState, rs: Seq<Request>, n: int)
    requires
        0 <= n < rs.len(),
    ensures
        obeyed_all(s, rs.take(n + 1)) == obeyed(obeyed_all(s, rs.take(n)), rs[n]),
{
    assert(rs.take(n + 1).drop_last() =~= rs.take(n));
}

/// Applying a valid point sets every part of it: the CPU limit, the GPU limit or
/// 95 degrees where that is more, no padding, the boost clock and the scale.
/// From a known point on, the predicted Vid is never over 1325 mV on the way.
pub proof fn applied_point_is_set(s: CpuState, to: CpuOc, from: CpuOc)
    requires
        to.valid(),
        from.valid(),
        s.boost_mhz == from.boost_mhz,
        s.scale == from.curve_scale,
    ensures
        obeyed_all(s, apply_requests(to, Some(&from))) == (CpuState {
            cpu_limit_c: to.cpu_temp_c as int,
            gpu_limit_c: if to.gpu_temp_c < 95 { 95 } else { to.gpu_temp_c as int },
            padding: false,
            forced_vid: s.forced_vid,
            boost_mhz: to.boost_mhz as int,
            scale: to.curve_scale as int,
        }),
        forall|n: int|
            0 <= n <= apply_requests(to, Some(&from)).len() ==> {
                let now = #[trigger] obeyed_all(s, apply_requests(to, Some(&from)).take(n));
                ocq3::curve_mv(now.boost_mhz, now.scale) <= 1325
            },
{
    let prev = Some(&from);
    let mid = mid_scale(to, prev);
    safe_scale_in_range(highest_boost(to, prev), ocq3::VID_CEILING_MV as int);
    deeper_stays_under(from.boost_mhz as int, mid, from.curve_scale as int);
    deeper_stays_under(to.boost_mhz as int, mid, to.curve_scale as int);
    obeyed_stages(s, to, prev);
}

/// From an unknown point the same is set, whatever the CPU had before.
pub proof fn applied_point_is_set_from_anywhere(s: CpuState, to: CpuOc)
    requires
        to.valid(),
    ensures
        obeyed_all(s, apply_requests(to, None)) == (CpuState {
            cpu_limit_c: to.cpu_temp_c as int,
            gpu_limit_c: if to.gpu_temp_c < 95 { 95 } else { to.gpu_temp_c as int },
            padding: false,
            forced_vid: s.forced_vid,
            boost_mhz: to.boost_mhz as int,
            scale: to.curve_scale as int,
        }),
{
    let top = ocq3::BOOST_MAX_MHZ as int;
    safe_scale_in_range(top, ocq3::VID_CEILING_MV as int);
    assert(mid_scale(to, None) != 0) by {
        curve_in_envelope(top, 0);
        assert(ocq3::curve_mv(top, 0) > ocq3::VID_CEILING_MV);
    }
    obeyed_stages(s, to, None);
}

/// Each temperature limit is set once, the CPU's as it is and the GPU's to no less
/// than 95 degrees, and after the limits and the padding
/// only the clock and the curve are touched, the clock once.
pub proof fn limits_are_set_once(to: CpuOc, prev: Option<&CpuOc>, i: int)
    requires
        to.valid(),
        0 <= i < apply_requests(to, prev).len(),
    ensures
        apply_requests(to, prev)[i].msg == 0x8B <==> i == 0,
        apply_requests(to, prev)[i].msg == 0x8C <==> i == 1,
        apply_requests(to, prev)[i].msg == 0x9A <==> i == 2,
        i == 0 ==> apply_requests(to, prev)[i].arg == to.cpu_temp_c,
        i == 1 ==> apply_requests(to, prev)[i].arg == (if to.gpu_temp_c < 95 {
            95
        } else {
            to.gpu_temp_c
        }),
        i == 2 ==> apply_requests(to, prev)[i].arg == 1,
        i > 2 ==> apply_requests(to, prev)[i].msg == 0x50 || apply_requests(to, prev)[i].msg == 0x8F,
        apply_requests(to, prev)[i].arg_high == 0,
{
    if i > 2 {
        assert(apply_requests(to, prev)[i] == stage_request(staging(to, prev)[i - 3]));
    }
}

proof fn obeyed_stages(s: CpuState, to: CpuOc, prev: Option<&CpuOc>)
    requires
        to.valid(),
        prev matches Some(p) ==> p.valid() && s.boost_mhz == p.boost_mhz && s.scale
            == p.curve_scale,
        prev is None ==> mid_scale(to, prev) != 0,
    ensures
        ({
            let rs = apply_requests(to, prev);
            let end = CpuState {
                cpu_limit_c: to.cpu_temp_c as int,
                gpu_limit_c: if to.gpu_temp_c < 95 { 95 } else { to.gpu_temp_c as int },
                padding: false,
                forced_vid: s.forced_vid,
                boost_mhz: to.boost_mhz as int,
                scale: to.curve_scale as int,
            };
            &&& obeyed_all(s, rs) == end
            &&& forall|n: int|
                0 <= n <= rs.len() ==> {
                    let now = #[trigger] obeyed_all(s, rs.take(n));
                    ||| now.boost_mhz == s.boost_mhz && (now.scale == s.scale || now.scale
                        == mid_scale(to, prev))
                    ||| now.boost_mhz == to.boost_mhz && (now.scale == mid_scale(to, prev)
                        || now.scale == to.curve_scale)
                }
        }),
{
    let rs = apply_requests(to, prev);
    let mid = mid_scale(to, prev);
    safe_scale_in_range(highest_boost(to, prev), ocq3::VID_CEILING_MV as int);
    let w = staging(to, prev);
    assert(rs.len() == 3 + w.len());
    assert(rs.take(0) =~= seq![]);
    obeyed_step(s, rs, 0);
    obeyed_step(s, rs, 1);
    obeyed_step(s, rs, 2);
    obeyed_step(s, rs, 3);
    assert(rs[3] == stage_request(w[0]));
    if w.len() >= 2 {
        obeyed_step(s, rs, 4);
        assert(rs[4] == stage_request(w[1]));
    }
    if w.len() >= 3 {
        obeyed_step(s, rs, 5);
        assert(rs[5] == stage_request(w[2]));
    }
    assert(rs.take(rs.len() as int) =~= rs);
    assert forall|n: int| 0 <= n <= rs.len() implies ({
        let now = #[trigger] obeyed_all(s, rs.take(n));
        ||| now.boost_mhz == s.boost_mhz && (now.scale == s.scale || now.scale == mid)
        ||| now.boost_mhz == to.boost_mhz && (now.scale == mid || now.scale == to.curve_scale)
    }) by {
        assert(n == 0 || n == 1 || n == 2 || n == 3 || n == 4 || n == 5 || n == 6);
    }
}

/// Restoring sets the firmware defaults, whatever was set before: limits of 100
/// degrees, the padding, no forced Vid, 3500 MHz on the stock curve.
pub proof fn restoring_sets_the_defaults(s: CpuState)
    ensures
        obeyed_all(s, ocq3::restore_requests()) == (CpuState {
            cpu_limit_c: 100,
            gpu_limit_c: 100,
            padding: true,
            forced_vid: false,
            boost_mhz: 3500,
            scale: 0,
        }),
{
    let rs = ocq3::restore_requests();
    reveal_with_fuel(obeyed_all, 8);
    assert(rs.drop_last() =~= rs.take(5));
    assert(rs.take(5).drop_last() =~= rs.take(4));
    assert(rs.take(4).drop_last() =~= rs.take(3));
    assert(rs.take(3).drop_last() =~= rs.take(2));
    assert(rs.take(2).drop_last() =~= rs.take(1));
    assert(rs.take(1).drop_last() =~= seq![]);
}

/// A point is valid exactly where it lies in the envelope: 2800 to 4100 MHz, a
/// scale from -50 to 0, limits from 50 to 100 degrees, and a predicted Vid of
/// 1325 mV at most.
pub proof fn envelope_of_a_point(c: CpuOc)
    ensures
        c.valid() <==> 2800 <= c.boost_mhz <= 4100 && -50 <= c.curve_scale <= 0 && 50
            <= c.cpu_temp_c <= 100 && 50 <= c.gpu_temp_c <= 100 && ocq3::curve_mv(
            c.boost_mhz as int,
            c.curve_scale as int,
        ) <= 1325,
{
}

/// The predicted Vid is, to the millivolt, the curve of clock and scale:
/// `0.0003 c^2 + (0.004325 s - 1.519) c + 2800 - 10 s`.
pub proof fn predicted_vid_is_on_the_curve(clock: int, scale: int)
    requires
        2800 <= clock <= 4100,
        -50 <= scale <= 0,
    ensures
        ({
            let exact = 300 * (clock * clock) + (4325 * scale - 1_519_000) * clock + 1_000_000 * (
            2800 - 10 * scale);
            -500_001 <= 1_000_000 * ocq3::curve_mv(clock, scale) - exact <= 500_001
        }),
{
    curve_in_envelope(clock, scale);
    let cc = clock * clock;
    let sc = scale * clock;
    assert((4325 * scale - 1_519_000) * clock == 4325 * sc - 1_519_000 * clock)
        by (nonlinear_arith)
        requires
            sc == scale * clock,
    ;
    assert((4_986_385_507_424_613 * scale - 256 * 6_840_967_833_975_783) * clock
        == 4_986_385_507_424_613 * sc - (256 * 6_840_967_833_975_783) * clock)
        by (nonlinear_arith)
        requires
            sc == scale * clock,
    ;
    assert(2800 * 2800 <= cc <= 4100 * 4100 && -50 * 4100 <= sc <= 0) by (nonlinear_arith)
        requires
            2800 <= clock <= 4100,
            -50 <= scale <= 0,
            cc == clock * clock,
            sc == scale * clock,
    ;
    assert((256 * 6_840_967_833_975_783) * clock == 1_751_287_765_497_800_448 * clock);
    assert(300 * cc - 1_519_000 * clock + 2_800_000_000 >= 800_000_000) by (nonlinear_arith)
        requires
            cc == clock * clock,
            2800 <= clock <= 4100,
    ;
    assert(4325 * sc - 10_000_000 * scale >= -400_000_000) by (nonlinear_arith)
        requires
            sc == scale * clock,
            2800 <= clock <= 4100,
            -50 <= scale <= 0,
    ;
    let exact = 300 * cc + 4325 * sc - 1_519_000 * clock + 1_000_000 * (2800 - 10 * scale);
    let bare = ocq3::unrounded(clock, scale);
    assert(bare == 5_534_023_222_112_865 * cc + 16 * (4_986_385_507_424_613 * sc
        - 1_751_287_765_497_800_448 * clock) + (2800 - 10 * scale) * 0x1_0000_0000_0000_0000);
    assert(-20_000_000_000_000 <= 1_000_000 * bare - exact * 0x1_0000_0000_0000_0000
        <= 20_000_000_000_000);
    assert(exact >= 400_000_000);
    assert(exact <= 300 * 16_810_000 + 1_000_000 * 3300);
}

/// At the mildest scale that is safe at the top clock, every clock of the
/// envelope is at or under the ceiling.
proof fn top_scale_is_safe_everywhere(clock: int, scale: int)
    requires
        ocq3::BOOST_MIN_MHZ <= clock <= ocq3::BOOST_MAX_MHZ,
        i32::MIN <= scale,
        scale <= safe_scale(ocq3::BOOST_MAX_MHZ as int, ocq3::VID_CEILING_MV as int),
    ensures
        ocq3::curve_mv(clock, scale) <= ocq3::VID_CEILING_MV,
{
    let top = ocq3::BOOST_MAX_MHZ as int;
    let cap = ocq3::VID_CEILING_MV as int;
    assert(mildest_safe(top, cap, -38)) by {
        curve_in_envelope(top, -38);
        curve_in_envelope(top, -37);
        assert(under_cap(top, -38, cap));
        assert forall|s: int| -38 < s <= 0 implies !under_cap(top, s, cap) by {
            if s > -37 {
                ocq3::undervolt_lowers_vid(top, -37, s);
            }
        }
    }
    mildest_safe_is_unique(top, cap, -38, safe_scale(top, cap));
    curve_in_envelope(clock, -38);
    let k = 4_986_385_507_424_613 * (-38) - 256 * 6_840_967_833_975_783;
    assert(k * clock == -1_940_770_414_779_935_742 * clock) by (nonlinear_arith)
        requires
            k == -1_940_770_414_779_935_742,
    ;
    deeper_stays_under(clock, scale, -38);
}

/// Staged writes from a known valid point never pass over the ceiling, and
/// they end at the point asked for.
pub proof fn staging_is_safe(from: CpuOc, to: CpuOc)
    requires
        from.valid(),
        to.valid(),
    ensures
        ({
            let at = Applied { boost: from.boost_mhz as int, scale: from.curve_scale as int };
            let writes = staging(to, Some(&from));
            &&& never_over_ceiling(at, writes)
            &&& replayed(at, writes) == (Applied {
                boost: to.boost_mhz as int,
                scale: to.curve_scale as int,
            })
        }),
{
    let at = Applied { boost: from.boost_mhz as int, scale: from.curve_scale as int };
    let prev = Some(&from);
    let mid = mid_scale(to, prev);
    let writes = staging(to, prev);
    safe_scale_in_range(highest_boost(to, prev), ocq3::VID_CEILING_MV as int);
    deeper_stays_under(from.boost_mhz as int, mid, from.curve_scale as int);
    deeper_stays_under(to.boost_mhz as int, mid, to.curve_scale as int);
    walk(at, writes);
}

/// Staged writes from an unknown point never pass over the ceiling, wherever
/// in the envelope the hardware stands, and they end at the point asked for.
pub proof fn staging_is_safe_from_anywhere(at: Applied, to: CpuOc)
    requires
        ocq3::BOOST_MIN_MHZ <= at.boost <= ocq3::BOOST_MAX_MHZ,
        to.valid(),
    ensures
        never_over_ceiling(at, staging(to, None)),
        replayed(at, staging(to, None)) == (Applied {
            boost: to.boost_mhz as int,
            scale: to.curve_scale as int,
        }),
{
    let mid = mid_scale(to, None);
    let writes = staging(to, None);
    let top = ocq3::BOOST_MAX_MHZ as int;
    safe_scale_in_range(top, ocq3::VID_CEILING_MV as int);
    top_scale_is_safe_everywhere(at.boost, mid);
    top_scale_is_safe_everywhere(to.boost_mhz as int, mid);
    top_scale_is_safe_everywhere(top, mid);
    assert(mid != 0) by {
        curve_in_envelope(top, 0);
        assert(ocq3::curve_mv(top, 0) > ocq3::VID_CEILING_MV);
    }
    walk(at, writes);
}

/// Restoring the defaults never passes over the ceiling, at whatever clock and
/// undervolt the hardware stands: the boost comes down before the curve is
/// relaxed. It ends at the stock point.
pub proof fn restoring_is_safe(at: Applied)
    requires
        i32::MIN <= at.scale <= ocq3::SCALE_MAX,
    ensures
        ({
            let writes = seq![Stage::Boost(ocq3::BOOST_STOCK_MHZ), Stage::Scale(0)];
            &&& ocq3::restore_requests().take(2) == writes.map_values(|w: Stage| stage_request(w))
            &&& never_over_ceiling(at, writes)
            &&& replayed(at, writes) == (Applied { boost: 3500, scale: 0 })
        }),
{
    let writes = seq![Stage::Boost(ocq3::BOOST_STOCK_MHZ), Stage::Scale(0)];
    assert(ocq3::restore_requests().take(2) =~= writes.map_values(|w: Stage| stage_request(w)));
    curve_in_envelope(3500, 0);
    deeper_stays_under(3500, at.scale, 0);
    walk(at, writes);
}

proof fn safe_scale_in_range(freq: int, cap_mv: int)
    ensures
        mildest_safe(freq, cap_mv, safe_scale(freq, cap_mv)),
{
    mildest_safe_exists(freq, cap_mv, 0);
}

proof fn mildest_safe_exists(freq: int, cap_mv: int, from: int)
    requires
        ocq3::SCALE_MIN <= from <= 0,
        forall|s: int| from < s <= 0 ==> !under_cap(freq, s, cap_mv),
    ensures
        exists|s: int| mildest_safe(freq, cap_mv, s),
    decreases from - ocq3::SCALE_MIN,
{
    if under_cap(freq, from, cap_mv) || from == ocq3::SCALE_MIN {
        assert(mildest_safe(freq, cap_mv, from));
    } else {
        mildest_safe_exists(freq, cap_mv, from - 1);
    }
}

/// Unfolds the replay of up to three writes.
proof fn walk(at: Applied, writes: Seq<Stage>)
    requires
        1 <= writes.len() <= 3,
    ensures
        replayed(at, writes.take(1)) == written(at, writes[0]),
        writes.len() >= 2 ==> replayed(at, writes.take(2)) == written(
            written(at, writes[0]),
            writes[1],
        ),
        writes.len() >= 3 ==> replayed(at, writes.take(3)) == written(
            written(written(at, writes[0]), writes[1]),
            writes[2],
        ),
        writes.take(writes.len() as int) == writes,
{
    reveal_with_fuel(replayed, 5);
    assert(writes.take(1).drop_last() =~= Seq::empty());
    if writes.len() >= 2 {
        assert(writes.take(2).drop_last() =~= writes.take(1));
    }
    if writes.len() >= 3 {
        assert(writes.take(3).drop_last() =~= writes.take(2));
    }
    assert(writes.take(writes.len() as int) =~= writes);
}

/// The mildest safe scale keeps every clock of the envelope under a cap from
/// 1250 mV on: none of them needs the deepest scale for it.
pub proof fn safe_scale_is_safe(freq: int, cap_mv: int)
    requires
        ocq3::BOOST_MIN_MHZ <= freq <= ocq3::BOOST_MAX_MHZ,
        1250 <= cap_mv,
    ensures
        under_cap(freq, safe_scale(freq, cap_mv), cap_mv),
        ocq3::SCALE_MIN <= safe_scale(freq, cap_mv) <= ocq3::SCALE_MAX,
{
    safe_scale_in_range(freq, cap_mv);
    curve_in_envelope(freq, -50);
    let k = 4_986_385_507_424_613 * (-50) - 256 * 6_840_967_833_975_783;
    assert(k * freq == -2_000_607_040_869_031_098 * freq) by (nonlinear_arith)
        requires
            k == -2_000_607_040_869_031_098,
    ;
}

/// A sweep tests only points inside the envelope, at its current clock, up to its
/// target and at its own temperature limit; in any other case it restores and is
/// over, and an over sweep stays over.
pub proof fn sweep_tests_within_its_bounds(s: Sweep, stop: bool, n: Sweep, step: SweepStep)
    requires
        stepped(s, stop, n, step),
    ensures
        step matches SweepStep::Test { point, requests } ==> {
            &&& !stop && !s.over
            &&& point.valid()
            &&& point.boost_mhz == s.freq
            &&& point.boost_mhz <= s.opts.target_mhz
            &&& point.cpu_temp_c == s.opts.temp_c && point.gpu_temp_c == s.opts.temp_c
            &&& point.curve_scale == safe_scale(s.freq as int, s.opts.vid_cap_mv as int) as i32
            &&& n.prev == point
        },
        step is Test || step is Restore,
        step is Restore <==> n.over,
        s.over || stop || s.freq > s.opts.target_mhz ==> step is Restore,
        !stop ==> n.points@.len() == s.points@.len(),
{
}

/// A sweep climbs by its step while its points are stable, the last of which is
/// the best, and is over with the first that is not; each point is logged with
/// how it went.
pub proof fn sweep_climbs_while_stable(s: Sweep, result: StressResult, n: Sweep)
    requires
        reported(s, result, n),
    ensures
        result.stable ==> n.best == Some(s.prev) && n.over == s.over,
        result.stable && s.freq + s.opts.step <= u32::MAX ==> n.freq == s.freq + s.opts.step,
        !result.stable ==> n.best == s.best && n.over && n.freq == s.freq,
        n.points@.len() == s.points@.len() + 1,
        n.points@.last().stable == result.stable,
        n.points@.last().boost_mhz == s.prev.boost_mhz,
        n.points@.last().scale == s.prev.curve_scale,
{
}

/// The options of a sweep are good exactly where its target is a boost clock, 2800
/// to 4100 MHz, its step is not zero and its voltage cap is at most 1325 mV.
pub proof fn good_options_of_a_sweep(o: SweepOpts)
    ensures
        sweep_refusal(o) is None <==> 2800 <= o.target_mhz <= 4100 && o.step > 0 && o.vid_cap_mv
            <= 1325,
        !(2800 <= o.target_mhz <= 4100) ==> sweep_refusal(o) == Some(
            CpuError::TargetRange { target: o.target_mhz },
        ),
        2800 <= o.target_mhz <= 4100 && o.step == 0 ==> sweep_refusal(o) == Some(CpuError::ZeroStep),
{
}

/// The stock point is the stock clock on the stock curve, with both temperature
/// limits at 90 degrees.
pub proof fn stock_point_is_stock()
    ensures
        stock_point().boost_mhz == 3500,
        stock_point().curve_scale == 0,
        stock_point().cpu_temp_c == 90,
        stock_point().gpu_temp_c == 90,
{
}

/// The scale held while the clock moves is no milder than the old one, the new one
/// or the mildest safe one, and is one of them; from an unknown state the highest
/// clock and the stock curve are taken for what was.
pub proof fn held_scale_is_the_deepest(to: CpuOc, prev: CpuOc)
    ensures
        ({
            let top = if prev.boost_mhz > to.boost_mhz { prev.boost_mhz } else { to.boost_mhz };
            let mild = safe_scale(top as int, 1325);
            let held = mid_scale(to, Some(&prev));
            &&& held <= prev.curve_scale && held <= to.curve_scale && held <= mild
            &&& held == prev.curve_scale || held == to.curve_scale || held == mild
        }),
        ({
            let top = if 4100 > to.boost_mhz { 4100 } else { to.boost_mhz };
            let mild = safe_scale(top as int, 1325);
            let held = mid_scale(to, None);
            &&& held <= 0 && held <= to.curve_scale && held <= mild
            &&& held == 0 || held == to.curve_scale || held == mild
        }),
{
}

/// The answers that came are kept in order, and the others left out.
pub proof fn answers_come_in_order(answers: Seq<Option<u32>>, v: u32)
    ensures
        answered(answers.push(Some(v))) == answered(answers).push(v),
        answered(answers.push(None)) == answered(answers),
        answered(seq![]) == Seq::<u32>::empty(),
{
    assert(answers.push(Some(v)).drop_last() =~= answers);
    assert(answers.push(None).drop_last() =~= answers);
}

/// A scale keeps the curve under a cap where the curve is at the cap or below, and
/// then under every higher cap.
pub proof fn cap_may_be_reached(freq: int, scale: int, cap_mv: int, higher: int)
    ensures
        curve_at(freq, scale, cap_mv) ==> under_cap(freq, scale, cap_mv),
        under_cap(freq, scale, cap_mv) && cap_mv <= higher ==> under_cap(freq, scale, higher),
        under_cap(freq, scale, cap_mv) ==> ocq3::curve_mv(freq, scale) <= cap_mv || cap_mv < 0,
{
}

/// The curve is exactly at a voltage.
pub open spec fn curve_at(freq: int, scale: int, mv: int) -> bool {
    ocq3::curve_units(freq, scale) == mv * 0x1_0000_0000_0000_0000
}

} // verus!
