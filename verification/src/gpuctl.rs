//! Pinning and releasing the GPU clock: the one implementation of the order in
//! which voltage, clock and saved setpoints move.
//!
//! A pin raises a saved undervolt to the new clock's floor before the clock
//! moves; where that fails, the clock is left alone. A release clears only the
//! pin and the forced voltage: the automatic mode stays what it was.
use vstd::prelude::*;

use crate::dpm::{AutoMode, PowerConfig};
use crate::ocq3::clamp_u32;
use crate::smu;
use crate::telemetry;
use crate::telemetry::OdRanges;
use crate::text;

verus! {

/// Result of a pin.
#[derive(Clone, Copy, Debug, PartialEq, Eq)]
pub struct ForceOutcome {
    /// The clock pinned, in MHz.
    pub set_mhz: u32,
    /// Whether the boot unit holds the pin.
    pub held: bool,
    /// A saved undervolt that was raised: old and new, in mV.
    pub vid_raised: Option<(u32, u32)>,
}

/// The raise that a saved undervolt needs at a clock, as old voltage and floor.
pub open spec fn raise_for(cfg: PowerConfig, mhz: int, ranges: OdRanges) -> Option<(u32, u32)> {
    match cfg.force_vid_mv {
        Some(v) if v < telemetry::safe_floor(mhz, ranges) => Some(
            (v, telemetry::safe_floor(mhz, ranges) as u32),
        ),
        _ => None,
    }
}

/// The raise that a saved undervolt needs at a clock: its voltage and the
/// floor, where it is below. Nothing where no voltage is saved.
pub fn required_vid_raise(cfg: &PowerConfig, target_mhz: u32, ranges: &OdRanges) -> (r: Option<
    (u32, u32),
>)
    requires
        cfg.force_vid_mv is Some ==> ranges.vddc_ordered(),
    ensures
        r == raise_for(*cfg, target_mhz as int, *ranges),
{
    match cfg.force_vid_mv {
        Some(v) => {
            let floor: u32 = telemetry::min_gfx_vddc(target_mhz, ranges);
            if v < floor {
                Some((v, floor))
            } else {
                None
            }
        },
        None => None,
    }
}

/// Why a pin was given up before the clock moved.
#[derive(Debug)]
pub enum ForceError {
    /// Voltage writes would be inert.
    Overdrive { old: u32, floor: u32, target: u32, cause: String },
    /// The voltage write failed.
    VidWrite { old: u32, floor: u32, target: u32 },
}

impl ForceError {
    /// The message shown to the operator.
    pub open spec fn text(&self) -> Seq<char> {
        match self {
            ForceError::Overdrive { old, floor, target, cause } => raise_text(*old, *floor)
                + " mV (safe floor for "@ + text::dec(*target as nat) + " MHz): "@ + cause@
                + " — clock left UNCHANGED."@,
            ForceError::VidWrite { old, floor, target } => raise_text(*old, *floor)
                + " mV (safe floor for "@ + text::dec(*target as nat)
                + " MHz): overdrive write failed — clock left UNCHANGED. Release the voltage first, or retry as root."@,
        }
    }

    /// The message shown to the operator.
    pub fn message(&self) -> (r: String)
        ensures
            r@ == self.text(),
    {
        match self {
            ForceError::Overdrive { old, floor, target, cause } => {
                let mut r = raise_prefix(*old, *floor);
                r.append(" mV (safe floor for ");
                r.append(text::decimal(*target as u64).as_str());
                r.append(" MHz): ");
                r.append(cause.as_str());
                r.append(" — clock left UNCHANGED.");
                r
            },
            ForceError::VidWrite { old, floor, target } => {
                let mut r = raise_prefix(*old, *floor);
                r.append(" mV (safe floor for ");
                r.append(text::decimal(*target as u64).as_str());
                r.append(
                    " MHz): overdrive write failed — clock left UNCHANGED. Release the voltage first, or retry as root.",
                );
                r
            },
        }
    }
}

/// How both messages begin.
pub open spec fn raise_text(old: u32, floor: u32) -> Seq<char> {
    "cannot raise the persisted GPU undervolt "@ + text::dec(old as nat) + " -> "@ + text::dec(
        floor as nat,
    )
}

fn raise_prefix(old: u32, floor: u32) -> (r: String)
    ensures
        r@ == raise_text(old, floor),
{
    let mut r = text::join3(
        "cannot raise the persisted GPU undervolt ",
        text::decimal(old as u64).as_str(),
        " -> ",
    );
    r.append(text::decimal(floor as u64).as_str());
    r
}

/// A pin on its way.
#[derive(Debug)]
pub enum Force {
    /// Ask whether voltage writes work, then [`Force::overdrive_checked`].
    CheckOverdrive { target: u32, cfg: PowerConfig, raise: (u32, u32) },
    /// Write the floor for the clock, then [`Force::vid_written`].
    RaiseVid { target: u32, cfg: PowerConfig, raise: (u32, u32) },
    /// Force the clock, then [`Force::clock_forced`].
    ForceClock { target: u32, cfg: PowerConfig, raised: Option<(u32, u32)> },
    /// Save the setpoints and have the boot unit enact them.
    Save { set: u32, cfg: PowerConfig, raised: Option<(u32, u32)> },
    /// Given up; the clock was not touched.
    Failed(ForceError),
}

impl Force {
    /// A pin forces the clock only where the voltage that goes with it is at
    /// the floor or left to the SMU.
    pub open spec fn safe(&self, ranges: OdRanges) -> bool {
        match self {
            Force::CheckOverdrive { target, cfg, raise } => {
                &&& smu::SCLK_MIN_MHZ <= *target <= smu::SCLK_MAX_MHZ
                &&& raise_for(*cfg, *target as int, ranges) == Some(*raise)
            },
            Force::RaiseVid { target, cfg, raise } => {
                &&& smu::SCLK_MIN_MHZ <= *target <= smu::SCLK_MAX_MHZ
                &&& raise_for(*cfg, *target as int, ranges) == Some(*raise)
            },
            Force::ForceClock { target, cfg, raised } => {
                &&& smu::SCLK_MIN_MHZ <= *target <= smu::SCLK_MAX_MHZ
                &&& raise_for(*cfg, *target as int, ranges) == *raised
            },
            Force::Save { set, cfg, raised } => {
                &&& cfg.force_mhz == Some(*set)
                &&& raise_for(*cfg, *set as int, ranges) is None
            },
            Force::Failed(_) => true,
        }
    }

    /// What follows the check of voltage writes, which `refusal` may fail.
    pub open spec fn after_check(self, refusal: Option<String>) -> Force {
        match self {
            Force::CheckOverdrive { target, cfg, raise } => match refusal {
                None => Force::RaiseVid { target, cfg, raise },
                Some(cause) => Force::Failed(
                    ForceError::Overdrive { old: raise.0, floor: raise.1, target, cause },
                ),
            },
            other => other,
        }
    }

    /// What follows the voltage write.
    pub open spec fn after_write(self, ok: bool) -> Force {
        match self {
            Force::RaiseVid { target, cfg, raise } => if ok {
                Force::ForceClock { target, cfg, raised: Some(raise) }
            } else {
                Force::Failed(ForceError::VidWrite { old: raise.0, floor: raise.1, target })
            },
            other => other,
        }
    }

    /// What follows the clock: the setpoints with the pin and, where the
    /// voltage was raised, the new voltage.
    pub open spec fn after_clock(self, set: u32) -> Force {
        match self {
            Force::ForceClock { target, cfg, raised } => Force::Save {
                set,
                cfg: PowerConfig {
                    force_mhz: Some(set),
                    force_vid_mv: match raised {
                        Some((old, floor)) => Some(floor),
                        None => cfg.force_vid_mv,
                    },
                    ..cfg
                },
                raised,
            },
            other => other,
        }
    }

    /// Voltage writes work, or `refusal` says why not: then the pin is given up.
    pub fn overdrive_checked(self, refusal: Option<String>) -> (r: Force)
        ensures
            r == self.after_check(refusal),
    {
        match self {
            Force::CheckOverdrive { target, cfg, raise } => match refusal {
                None => Force::RaiseVid { target, cfg, raise },
                Some(cause) => Force::Failed(
                    ForceError::Overdrive { old: raise.0, floor: raise.1, target, cause },
                ),
            },
            other => other,
        }
    }

    /// The voltage landed, or the pin is given up.
    pub fn vid_written(self, ok: bool) -> (r: Force)
        ensures
            r == self.after_write(ok),
    {
        match self {
            Force::RaiseVid { target, cfg, raise } => if ok {
                Force::ForceClock { target, cfg, raised: Some(raise) }
            } else {
                Force::Failed(ForceError::VidWrite { old: raise.0, floor: raise.1, target })
            },
            other => other,
        }
    }

    /// The clock was forced to `set`: the setpoints to save hold the pin and,
    /// where the voltage was raised, the new voltage.
    pub fn clock_forced(self, set: u32) -> (r: Force)
        ensures
            r == self.after_clock(set),
    {
        match self {
            Force::ForceClock { target: _, cfg, raised } => {
                let mut next: PowerConfig = cfg;
                next.force_mhz = Some(set);
                if let Some((_, floor)) = raised {
                    next.force_vid_mv = Some(floor);
                }
                Force::Save { set, cfg: next, raised }
            },
            other => other,
        }
    }

    /// The outcome once the setpoints are saved.
    pub fn outcome(&self, held: bool) -> (r: Option<ForceOutcome>)
        ensures
            r == (match *self {
                Force::Save { set, cfg, raised } => Some(
                    ForceOutcome { set_mhz: set, held, vid_raised: raised },
                ),
                _ => None,
            }),
    {
        match self {
            Force::Save { set, cfg: _, raised } => Some(
                ForceOutcome { set_mhz: *set, held, vid_raised: *raised },
            ),
            _ => None,
        }
    }
}

/// The first step of a pin.
pub open spec fn begun(mhz: u32, cfg: PowerConfig, ranges: OdRanges) -> Force {
    let target = smu::in_sclk_range(mhz as int) as u32;
    match raise_for(cfg, target as int, ranges) {
        Some(raise) => Force::CheckOverdrive { target, cfg, raise },
        None => Force::ForceClock { target, cfg, raised: None },
    }
}

/// Begins the pin of a clock, held in the clock range, with the saved setpoints.
pub fn force(mhz: u32, cfg: PowerConfig, ranges: &OdRanges) -> (r: Force)
    requires
        cfg.force_vid_mv is Some ==> ranges.vddc_ordered(),
    ensures
        r.safe(*ranges),
        ({
            let target = smu::in_sclk_range(mhz as int) as u32;
            r == (match raise_for(cfg, target as int, *ranges) {
                Some(raise) => Force::CheckOverdrive { target, cfg, raise },
                None => Force::ForceClock { target, cfg, raised: None },
            })
        }),
        r == begun(mhz, cfg, *ranges),
{
    let target: u32 = clamp_u32(mhz, smu::SCLK_MIN_MHZ, smu::SCLK_MAX_MHZ);
    match required_vid_raise(&cfg, target, ranges) {
        Some(raise) => Force::CheckOverdrive { target, cfg, raise },
        None => Force::ForceClock { target, cfg, raised: None },
    }
}

/// One step of a release.
#[derive(Clone, Copy, Debug, PartialEq, Eq, Structural)]
pub enum ReleaseStep {
    /// Voltage writes must work, else nothing is touched.
    CheckOverdrive,
    /// Release the clock.
    ReleaseClock,
    /// Restore the stock voltage curve, best-effort.
    ResetCurve,
    /// Save the setpoints.
    Save,
    /// Have the boot unit enact them, best-effort.
    ApplyMode,
}

/// The setpoints after a release: no pin, no forced voltage, all else kept.
pub open spec fn released(cfg: PowerConfig) -> PowerConfig {
    PowerConfig { force_mhz: None, force_vid_mv: None, ..cfg }
}

/// A release: its steps in order, the setpoints to save and the mode that
/// takes over.
pub fn unforce(cfg: PowerConfig) -> (r: (Vec<ReleaseStep>, PowerConfig, AutoMode))
    ensures
        r.0@ == seq![
            ReleaseStep::CheckOverdrive,
            ReleaseStep::ReleaseClock,
            ReleaseStep::ResetCurve,
            ReleaseStep::Save,
            ReleaseStep::ApplyMode,
        ],
        r.1 == released(cfg),
        r.2 == cfg.auto_mode,
{
    let mut steps: Vec<ReleaseStep> = Vec::new();
    steps.push(ReleaseStep::CheckOverdrive);
    steps.push(ReleaseStep::ReleaseClock);
    steps.push(ReleaseStep::ResetCurve);
    steps.push(ReleaseStep::Save);
    steps.push(ReleaseStep::ApplyMode);
    assert(steps@ =~= seq![
        ReleaseStep::CheckOverdrive,
        ReleaseStep::ReleaseClock,
        ReleaseStep::ResetCurve,
        ReleaseStep::Save,
        ReleaseStep::ApplyMode,
    ]);
    let mut next: PowerConfig = cfg;
    next.force_mhz = None;
    next.force_vid_mv = None;
    (steps, next, cfg.auto_mode)
}

/// The name of an automatic mode.
pub fn mode_name(m: AutoMode) -> (r: &'static str)
    ensures
        r@ == mode_text(m),
{
    match m {
        AutoMode::Governor => "governor",
        AutoMode::Autosleep => "autosleep",
        AutoMode::Released => "released (BAPM)",
    }
}

/// The name of an automatic mode.
pub open spec fn mode_text(m: AutoMode) -> Seq<char> {
    match m {
        AutoMode::Governor => "governor"@,
        AutoMode::Autosleep => "autosleep"@,
        AutoMode::Released => "released (BAPM)"@,
    }
}

// ---------------------------------------------------------------------------
// Laws

/// Every step of a pin keeps the clock behind the voltage: it is forced only
/// where no raise is needed or the raise has landed, and what is saved then has
/// no undervolt below the floor of the pinned clock.
pub proof fn pin_is_voltage_first(f: Force, ranges: OdRanges, refusal: Option<String>, ok: bool)
    requires
        f.safe(ranges),
    ensures
        f.after_check(refusal).safe(ranges),
        f.after_write(ok).safe(ranges),
        f is ForceClock ==> f.after_clock(f->ForceClock_target).safe(ranges),
{
}

/// Where voltage writes do not work, or the write of the floor fails, the pin
/// ends without forcing the clock.
pub proof fn failed_raise_leaves_the_clock(f: Force, refusal: Option<String>)
    ensures
        f is CheckOverdrive && refusal is Some ==> f.after_check(refusal) is Failed,
        f is RaiseVid ==> f.after_write(false) is Failed,
        f is CheckOverdrive ==> !(f.after_check(refusal) is ForceClock),
{
}

/// Releasing a pin keeps the automatic mode and the setpoints.
pub proof fn release_keeps_the_mode(cfg: PowerConfig)
    ensures
        released(cfg).auto_mode == cfg.auto_mode,
        released(cfg).top_mhz == cfg.top_mhz,
        released(cfg).deep_mhz == cfg.deep_mhz,
        released(released(cfg)) == released(cfg),
{
}

/// An undervolt is raised exactly where it lies under the floor of the clock:
/// then from what was saved to the floor. Where no voltage is saved, none is
/// raised.
pub proof fn undervolt_is_raised_to_the_floor(cfg: PowerConfig, mhz: int, ranges: OdRanges)
    requires
        0 <= telemetry::safe_floor(mhz, ranges) <= u32::MAX,
    ensures
        cfg.force_vid_mv is None ==> raise_for(cfg, mhz, ranges) is None,
        cfg.force_vid_mv matches Some(v) ==> {
            &&& raise_for(cfg, mhz, ranges) is Some <==> v < telemetry::safe_floor(mhz, ranges)
            &&& raise_for(cfg, mhz, ranges) matches Some((old, new)) ==> old == v && new
                == telemetry::safe_floor(mhz, ranges)
        },
{
}

/// A pin goes for the clock asked for, held in 350 to 2500 MHz. It goes at once
/// where no saved undervolt is in the way, and else checks voltage writes first.
pub proof fn pin_goes_for_the_asked_clock(mhz: u32, cfg: PowerConfig, ranges: OdRanges)
    ensures
        ({
            let f = begun(mhz, cfg, ranges);
            let target = match f {
                Force::CheckOverdrive { target, cfg, raise } => target,
                Force::ForceClock { target, cfg, raised } => target,
                _ => 0,
            };
            &&& f is CheckOverdrive || f is ForceClock
            &&& 350 <= mhz <= 2500 ==> target == mhz
            &&& mhz < 350 ==> target == 350
            &&& mhz > 2500 ==> target == 2500
            &&& f matches Force::ForceClock { raised, .. } ==> raised is None
            &&& cfg.force_vid_mv is None ==> f is ForceClock
            &&& cfg.force_vid_mv matches Some(v) ==> (f is CheckOverdrive <==> v
                < telemetry::safe_floor(target as int, ranges))
        }),
{
}

/// A pin that goes through saves the clock that was set. The saved voltage is
/// the floor where it had to be raised and else as before, and the automatic
/// mode and its clocks stay.
pub proof fn pin_saves_what_was_set(mhz: u32, cfg: PowerConfig, ranges: OdRanges, set: u32)
    requires
        ranges.vddc_ordered(),
    ensures
        ({
            let f = begun(mhz, cfg, ranges).after_check(None).after_write(true);
            let saved = f.after_clock(set);
            &&& f is ForceClock
            &&& saved is Save
            &&& saved->Save_set == set
            &&& saved->Save_raised == f->ForceClock_raised
            &&& saved->Save_cfg.force_mhz == Some(set)
            &&& saved->Save_cfg.auto_mode == cfg.auto_mode
            &&& saved->Save_cfg.top_mhz == cfg.top_mhz
            &&& saved->Save_cfg.deep_mhz == cfg.deep_mhz
            &&& saved->Save_cfg.force_vid_mv is Some <==> cfg.force_vid_mv is Some
            &&& cfg.force_vid_mv matches Some(v) ==> {
                let floor = telemetry::safe_floor(f->ForceClock_target as int, ranges);
                let now = saved->Save_cfg.force_vid_mv->Some_0;
                &&& now >= v
                &&& now >= floor
                &&& now == v || now == floor
                &&& saved->Save_raised is Some <==> now > v
                &&& saved->Save_raised matches Some((old, new)) ==> old == v && new == now
            }
        }),
{
}

/// A step that is not the one reported on is left as it is.
pub proof fn other_steps_are_left_alone(f: Force, refusal: Option<String>, ok: bool, set: u32)
    ensures
        !(f is CheckOverdrive) ==> f.after_check(refusal) == f,
        !(f is RaiseVid) ==> f.after_write(ok) == f,
        !(f is ForceClock) ==> f.after_clock(set) == f,
{
}

/// A release ends both the pin and the forced voltage.
pub proof fn release_ends_both(cfg: PowerConfig)
    ensures
        released(cfg).force_mhz is None,
        released(cfg).force_vid_mv is None,
{
}

} // verus!
