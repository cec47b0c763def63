//! GPU power control: setpoints, what a boot enacts, and the two daemons that
//! drive the clock.
//!
//! The governor counts ring fences to see whether the GPU works. Work takes the
//! top clock at once; quiet winds it down tier by tier. A temperature cap drops
//! the top tier while the die is hot. Clock changes are spaced out, and one that
//! the hardware did not take is not booked.
use vstd::prelude::*;

use crate::double;
use crate::double::Double;
use crate::ocq3;
use crate::smu;
use crate::text;

verus! {

pub const CONFIG_PATH: &'static str = "/var/lib/aputune/power.json";
pub const GOVERNOR_PATH: &'static str = "/var/lib/aputune/governor.json";
/// Directory of the poke file.
pub const RUN_DIR: &'static str = "/run/arieltune";
/// Touched on each unit of GPU work.
pub const POKE_PATH: &'static str = "/run/arieltune/poke";

/// Hundredths of a degree below the cap before the top tier is allowed again.
pub const THERM_HYST_CENTI: u32 = 400;
/// Least time between two clock changes.
pub const MIN_DWELL_NS: u64 = 2_000_000_000;

/// Which controller owns the GPU where no manual clock is set.
#[derive(Clone, Copy, Debug, PartialEq, Eq, Structural)]
pub enum AutoMode {
    /// The activity-driven governor.
    Governor,
    /// The poke-driven daemon.
    Autosleep,
    /// None: the clock is released.
    Released,
}

impl Default for AutoMode {
    fn default() -> (r: AutoMode)
        ensures
            r == AutoMode::Governor,
    {
        AutoMode::Governor
    }
}

/// GPU power setpoints and an optional manual clock.
#[derive(Clone, Copy, Debug, PartialEq, Eq, Structural)]
pub struct PowerConfig {
    /// Active clock in MHz.
    pub top_mhz: u32,
    /// Deep-sleep clock in MHz.
    pub deep_mhz: u32,
    /// Manual clock in MHz, pinned over reboots; `None` leaves it to `auto_mode`.
    pub force_mhz: Option<u32>,
    /// Forced GPU voltage in mV; `None` leaves it to the SMU.
    pub force_vid_mv: Option<u32>,
    pub auto_mode: AutoMode,
}

/// The setpoints of a fresh install.
pub open spec fn default_power() -> PowerConfig {
    PowerConfig {
        top_mhz: 2230,
        deep_mhz: 350,
        force_mhz: None,
        force_vid_mv: None,
        auto_mode: AutoMode::Governor,
    }
}

impl Default for PowerConfig {
    fn default() -> (r: PowerConfig)
        ensures
            r == default_power(),
    {
        PowerConfig {
            top_mhz: 2230,
            deep_mhz: 350,
            force_mhz: None,
            force_vid_mv: None,
            auto_mode: AutoMode::Governor,
        }
    }
}

/// The saved setpoints as a boot finds them.
#[derive(Clone, Copy, Debug, PartialEq, Eq, Structural)]
pub enum BootLoad {
    Missing,
    Loaded(PowerConfig),
    /// There was a file and it does not parse.
    Corrupt,
}

/// The saved setpoints from whether the file exists and what it parsed to.
pub fn load_for_boot(exists: bool, parsed: Option<PowerConfig>) -> (r: BootLoad)
    ensures
        r == (if !exists {
            BootLoad::Missing
        } else {
            match parsed {
                Some(c) => BootLoad::Loaded(c),
                None => BootLoad::Corrupt,
            }
        }),
{
    if !exists {
        return BootLoad::Missing;
    }
    match parsed {
        Some(c) => BootLoad::Loaded(c),
        None => BootLoad::Corrupt,
    }
}

/// What a boot enacts.
#[derive(Clone, Copy, Debug, PartialEq, Eq, Structural)]
pub enum BootPlan {
    /// Pin the manual clock.
    Manual(u32),
    /// Hand over to a controller.
    Auto(AutoMode),
    /// The setpoints are lost: pin a low clock, no controller.
    FailSafePin(u32),
}

/// The plan of a boot for the setpoints it found.
pub open spec fn planned(load: BootLoad) -> BootPlan {
    match load {
        BootLoad::Missing => BootPlan::Auto(AutoMode::Governor),
        BootLoad::Loaded(c) => match c.force_mhz {
            Some(m) => BootPlan::Manual(m),
            None => BootPlan::Auto(c.auto_mode),
        },
        BootLoad::Corrupt => BootPlan::FailSafePin(350),
    }
}

/// What a boot enacts for the setpoints it found. A manual clock wins over the
/// controllers. Lost setpoints may have been a heat pin, so they pin the deep
/// clock.
pub fn boot_plan(load: &BootLoad) -> (r: BootPlan)
    ensures
        r == planned(*load),
{
    match load {
        BootLoad::Missing => BootPlan::Auto(PowerConfig::default().auto_mode),
        BootLoad::Loaded(c) => match c.force_mhz {
            Some(m) => BootPlan::Manual(m),
            None => BootPlan::Auto(c.auto_mode),
        },
        BootLoad::Corrupt => BootPlan::FailSafePin(PowerConfig::default().deep_mhz),
    }
}

/// A setpoint that is refused.
#[derive(Clone, Copy, Debug, PartialEq, Eq, Structural)]
pub enum SetpointError {
    TopRange { mhz: u32 },
    TopBelowDeep { mhz: u32, deep: u32 },
    DeepRange { mhz: u32, top: u32 },
    /// The tiers are not in order.
    LadderInverted { deep: u32, idle: u32, mid: u32, high: u32 },
    /// A tier is outside the clock range.
    LadderRange,
}

impl SetpointError {
    /// The message shown to the operator.
    pub open spec fn text(&self) -> Seq<char> {
        match self {
            SetpointError::TopRange { mhz } => "top "@ + text::dec(*mhz as nat)
                + " outside 350-2500 MHz"@,
            SetpointError::TopBelowDeep { mhz, deep } => "top "@ + text::dec(*mhz as nat)
                + " below deep "@ + text::dec(*deep as nat),
            SetpointError::DeepRange { mhz, top } => "deep "@ + text::dec(*mhz as nat)
                + " outside 350-"@ + text::dec(*top as nat) + " MHz (must be <= top)"@,
            SetpointError::LadderInverted { deep, idle, mid, high } =>
                "tier ladder inverted: need deep <= idle <= mid <= high (got deep "@ + text::dec(
                *deep as nat,
            ) + " / idle "@ + text::dec(*idle as nat) + " / mid "@ + text::dec(*mid as nat)
                + " / high "@ + text::dec(*high as nat) + ")"@,
            SetpointError::LadderRange => "tier outside 350-2500 MHz"@,
        }
    }

    /// The message shown to the operator.
    pub fn message(&self) -> (r: String)
        ensures
            r@ == self.text(),
    {
        match self {
            SetpointError::TopRange { mhz } => text::join3(
                "top ",
                text::decimal(*mhz as u64).as_str(),
                " outside 350-2500 MHz",
            ),
            SetpointError::TopBelowDeep { mhz, deep } => {
                let mut r = text::join3("top ", text::decimal(*mhz as u64).as_str(), " below deep ");
                r.append(text::decimal(*deep as u64).as_str());
                r
            },
            SetpointError::DeepRange { mhz, top } => {
                let mut r = text::join3(
                    "deep ",
                    text::decimal(*mhz as u64).as_str(),
                    " outside 350-",
                );
                r.append(text::decimal(*top as u64).as_str());
                r.append(" MHz (must be <= top)");
                r
            },
            SetpointError::LadderInverted { deep, idle, mid, high } => {
                let mut r = text::join3(
                    "tier ladder inverted: need deep <= idle <= mid <= high (got deep ",
                    text::decimal(*deep as u64).as_str(),
                    " / idle ",
                );
                r.append(text::decimal(*idle as u64).as_str());
                r.append(" / mid ");
                r.append(text::decimal(*mid as u64).as_str());
                r.append(" / high ");
                r.append(text::decimal(*high as u64).as_str());
                r.append(")");
                r
            },
            SetpointError::LadderRange => "tier outside 350-2500 MHz".to_owned(),
        }
    }
}

/// The greater of two numbers.
pub open spec fn most(a: int, b: int) -> int {
    if a > b { a } else { b }
}

impl PowerConfig {
    /// The setpoints are ordered and in the clock range.
    pub open spec fn ordered(&self) -> bool {
        smu::SCLK_MIN_MHZ <= self.deep_mhz <= self.top_mhz <= smu::SCLK_MAX_MHZ
    }

    /// The saved setpoints, or the defaults where none could be read.
    pub fn load_or_default(saved: Option<PowerConfig>) -> (r: PowerConfig)
        ensures
            r == (match saved {
                Some(c) => c,
                None => default_power(),
            }),
    {
        match saved {
            Some(c) => c,
            None => PowerConfig::default(),
        }
    }

    /// The highest clock the setpoints can lead to. Voltage floors go by this
    /// one: a manual clock may be above the top setpoint.
    pub fn effective_top_mhz(&self) -> (r: u32)
        ensures
            r == most(
                self.top_mhz as int,
                match self.force_mhz {
                    Some(m) => m as int,
                    None => 0,
                },
            ),
    {
        match self.force_mhz {
            Some(m) => if m > self.top_mhz {
                m
            } else {
                self.top_mhz
            },
            None => self.top_mhz,
        }
    }

    /// The highest clock reachable with the governor's top tier counted in.
    pub fn effective_floor_clock(&self, gov: &GovernorConfig) -> (r: u32)
        ensures
            r == most(
                most(
                    self.top_mhz as int,
                    match self.force_mhz {
                        Some(m) => m as int,
                        None => 0,
                    },
                ),
                gov.high_mhz as int,
            ),
    {
        let top: u32 = self.effective_top_mhz();
        if gov.high_mhz > top {
            gov.high_mhz
        } else {
            top
        }
    }

    /// Sets the active clock: within the clock range and not below the deep one.
    pub fn set_top(&mut self, mhz: u32) -> (r: Result<(), SetpointError>)
        ensures
            !(smu::SCLK_MIN_MHZ <= mhz <= smu::SCLK_MAX_MHZ) ==> r == Err::<(), SetpointError>(
                SetpointError::TopRange { mhz },
            ),
            smu::SCLK_MIN_MHZ <= mhz <= smu::SCLK_MAX_MHZ && mhz < old(self).deep_mhz ==> r
                == Err::<(), SetpointError>(
                SetpointError::TopBelowDeep { mhz, deep: old(self).deep_mhz },
            ),
            smu::SCLK_MIN_MHZ <= mhz <= smu::SCLK_MAX_MHZ && mhz >= old(self).deep_mhz ==> r is Ok,
            r is Err ==> *final(self) == *old(self),
            r is Ok ==> *final(self) == (PowerConfig { top_mhz: mhz, ..*old(self) }),
            old(self).ordered() ==> final(self).ordered(),
    {
        if mhz < smu::SCLK_MIN_MHZ || mhz > smu::SCLK_MAX_MHZ {
            return Err(SetpointError::TopRange { mhz });
        }
        if mhz < self.deep_mhz {
            return Err(SetpointError::TopBelowDeep { mhz, deep: self.deep_mhz });
        }
        self.top_mhz = mhz;
        Ok(())
    }

    /// Sets the deep clock: within the clock range and not above the active one.
    pub fn set_deep(&mut self, mhz: u32) -> (r: Result<(), SetpointError>)
        ensures
            !(smu::SCLK_MIN_MHZ <= mhz <= old(self).top_mhz) ==> r == Err::<(), SetpointError>(
                SetpointError::DeepRange { mhz, top: old(self).top_mhz },
            ),
            smu::SCLK_MIN_MHZ <= mhz <= old(self).top_mhz ==> r is Ok,
            r is Err ==> *final(self) == *old(self),
            r is Ok ==> *final(self) == (PowerConfig { deep_mhz: mhz, ..*old(self) }),
            old(self).ordered() ==> final(self).ordered(),
    {
        if mhz < smu::SCLK_MIN_MHZ || mhz > self.top_mhz {
            return Err(SetpointError::DeepRange { mhz, top: self.top_mhz });
        }
        self.deep_mhz = mhz;
        Ok(())
    }
}

// ---------------------------------------------------------------------------
// The poke-driven daemon

/// What the daemon does to the clock.
#[derive(Clone, Copy, Debug, PartialEq, Eq, Structural)]
pub enum ClockAction {
    Force(u32),
    Release,
}

/// The idle action: release the clock or, where asked for, force the deep one.
pub open spec fn idle_action_of(cfg: PowerConfig, deep_force: bool) -> ClockAction {
    if deep_force { ClockAction::Force(cfg.deep_mhz) } else { ClockAction::Release }
}

/// A poke of an age is younger than the seconds that it stays fresh.
pub open spec fn fresh_at(age_ns: int, idle: Double) -> bool {
    !(idle is Nan) && !Double::positive(double::seconds_of(age_ns)).not_less(idle)
}

/// The poke-driven daemon: the active clock while pokes are fresh, the idle
/// action otherwise.
#[derive(Clone, Copy, Debug, PartialEq, Eq, Structural)]
pub struct Autosleep {
    pub cfg: PowerConfig,
    pub deep_force: bool,
    /// Pokes were fresh at the last look.
    pub active: bool,
}

impl Autosleep {
    /// Starts idle, with the action that takes the clock there.
    pub fn start(cfg: PowerConfig, deep_force: bool) -> (r: (Autosleep, ClockAction))
        ensures
            r.0 == (Autosleep { cfg, deep_force, active: false }),
            r.1 == idle_action_of(cfg, deep_force),
    {
        let d = Autosleep { cfg, deep_force, active: false };
        (d, d.idle_action())
    }

    fn idle_action(&self) -> (r: ClockAction)
        ensures
            r == idle_action_of(self.cfg, self.deep_force),
    {
        if self.deep_force {
            ClockAction::Force(self.cfg.deep_mhz)
        } else {
            ClockAction::Release
        }
    }

    /// Looks at the age of the last poke (`None` where there was none) against
    /// the seconds that a poke stays fresh. There is something to do only where
    /// freshness changed.
    pub fn look(&mut self, poke_age_ns: Option<u64>, idle: Double) -> (r: Option<ClockAction>)
        ensures
            ({
                let fresh = poke_age_ns is Some && fresh_at(poke_age_ns->0 as int, idle);
                &&& final(self).cfg == old(self).cfg
                &&& final(self).deep_force == old(self).deep_force
                &&& final(self).active == fresh
                &&& fresh == old(self).active ==> r is None
                &&& fresh && !old(self).active ==> r == Some(
                    ClockAction::Force(old(self).cfg.top_mhz),
                )
                &&& !fresh && old(self).active ==> r == Some(
                    idle_action_of(old(self).cfg, old(self).deep_force),
                )
            }),
    {
        let fresh: bool = match poke_age_ns {
            Some(age) => {
                let a = double::seconds(age);
                let known: bool = match idle {
                    Double::Nan => false,
                    _ => true,
                };
                known && !(Double::Finite { negative: false, mant: a.mant, exp: a.exp }).reaches(
                    idle,
                )
            },
            None => false,
        };
        if fresh == self.active {
            return None;
        }
        self.active = fresh;
        if fresh {
            Some(ClockAction::Force(self.cfg.top_mhz))
        } else {
            Some(self.idle_action())
        }
    }
}

// ---------------------------------------------------------------------------
// The governor

/// Clock tier of the governor.
#[derive(Clone, Copy, Debug, PartialEq, Eq, Structural)]
pub enum GovState {
    Deep,
    Idle,
    Mid,
    High,
}

/// Tiers and times of the governor.
#[derive(Clone, Copy, Debug, PartialEq, Eq, Structural)]
pub struct GovernorConfig {
    pub deep_mhz: u32,
    pub idle_mhz: u32,
    pub mid_mhz: u32,
    pub high_mhz: u32,
    /// Fences per second from which the GPU counts as working.
    pub work_rate: Double,
    /// Seconds at the top tier after work stops.
    pub hold_s: u64,
    /// Seconds of quiet after which the idle tier follows the middle one.
    pub idle_after_s: u64,
    /// Seconds of quiet after which the deep tier follows.
    pub deep_after_s: u64,
}

/// The calibrated tiers and times.
pub open spec fn default_governor() -> GovernorConfig {
    GovernorConfig {
        deep_mhz: 350,
        idle_mhz: 1000,
        mid_mhz: 1250,
        high_mhz: 1500,
        work_rate: Double::small(100),
        hold_s: 5,
        idle_after_s: 30,
        deep_after_s: 120,
    }
}

impl Default for GovernorConfig {
    fn default() -> (r: GovernorConfig)
        ensures
            r == default_governor(),
    {
        GovernorConfig {
            deep_mhz: 350,
            idle_mhz: 1000,
            mid_mhz: 1250,
            high_mhz: 1500,
            work_rate: Double::from_u32(100),
            hold_s: 5,
            idle_after_s: 30,
            deep_after_s: 120,
        }
    }
}

impl GovernorConfig {
    /// The tiers rise from deep to high.
    pub open spec fn rising(&self) -> bool {
        self.deep_mhz <= self.idle_mhz <= self.mid_mhz <= self.high_mhz
    }

    /// The tiers rise and lie in the clock range.
    pub open spec fn valid_ladder(&self) -> bool {
        &&& self.rising()
        &&& smu::SCLK_MIN_MHZ <= self.deep_mhz
        &&& self.high_mhz <= smu::SCLK_MAX_MHZ
    }

    /// The clock of a tier.
    pub open spec fn clock_of(&self, st: GovState) -> u32 {
        match st {
            GovState::Deep => self.deep_mhz,
            GovState::Idle => self.idle_mhz,
            GovState::Mid => self.mid_mhz,
            GovState::High => self.high_mhz,
        }
    }

    /// The saved configuration, or the defaults where none could be read.
    pub fn load_or_default(saved: Option<GovernorConfig>) -> (r: GovernorConfig)
        ensures
            r == (match saved {
                Some(c) => c,
                None => default_governor(),
            }),
    {
        match saved {
            Some(c) => c,
            None => GovernorConfig::default(),
        }
    }

    /// Accepts tiers that rise from deep to high within the clock range. Others
    /// would let a thermal demotion raise the clock.
    pub fn validate_ladder(&self) -> (r: Result<(), SetpointError>)
        ensures
            r is Ok <==> self.valid_ladder(),
            !self.rising() ==> r == Err::<(), SetpointError>(
                SetpointError::LadderInverted {
                    deep: self.deep_mhz,
                    idle: self.idle_mhz,
                    mid: self.mid_mhz,
                    high: self.high_mhz,
                },
            ),
            self.rising() && !self.valid_ladder() ==> r == Err::<(), SetpointError>(
                SetpointError::LadderRange,
            ),
    {
        if !(self.deep_mhz <= self.idle_mhz && self.idle_mhz <= self.mid_mhz && self.mid_mhz
            <= self.high_mhz) {
            return Err(
                SetpointError::LadderInverted {
                    deep: self.deep_mhz,
                    idle: self.idle_mhz,
                    mid: self.mid_mhz,
                    high: self.high_mhz,
                },
            );
        }
        if self.deep_mhz < smu::SCLK_MIN_MHZ || self.deep_mhz > smu::SCLK_MAX_MHZ || self.high_mhz
            > smu::SCLK_MAX_MHZ {
            return Err(SetpointError::LadderRange);
        }
        Ok(())
    }

    /// The clock of a tier in MHz.
    pub fn clock(&self, st: GovState) -> (r: u32)
        ensures
            r == self.clock_of(st),
    {
        match st {
            GovState::Deep => self.deep_mhz,
            GovState::Idle => self.idle_mhz,
            GovState::Mid => self.mid_mhz,
            GovState::High => self.high_mhz,
        }
    }

    /// The tier after so many seconds of quiet.
    pub open spec fn quiet_tier(&self, quiet_s: int) -> GovState {
        if quiet_s < self.hold_s {
            GovState::High
        } else if quiet_s < self.idle_after_s {
            GovState::Mid
        } else if quiet_s < self.deep_after_s {
            GovState::Idle
        } else {
            GovState::Deep
        }
    }
}

/// What the governor sees on a tick. Times are of one steady clock.
#[derive(Clone, Copy, Debug, PartialEq, Eq, Structural)]
pub struct Sample {
    pub now_ns: u64,
    /// Sum of the ring fences, `None` where unreadable.
    pub fences: Option<u64>,
    /// The configured GPU temperature cap in degrees.
    pub cap_c: u32,
    /// GPU die temperature in hundredths of a degree, `None` where unreadable.
    pub temp_centi: Option<u16>,
}

/// A clock change that the governor asks for.
#[derive(Clone, Copy, Debug, PartialEq, Eq, Structural)]
pub struct Transition {
    pub from: GovState,
    pub to: GovState,
    pub mhz: u32,
    /// The temperature cap holds the top tier off.
    pub capped: bool,
}

/// The governor between two ticks.
#[derive(Clone, Copy, Debug, PartialEq, Eq, Structural)]
pub struct Governor {
    pub cfg: GovernorConfig,
    pub prev_fences: u64,
    pub prev_ns: u64,
    /// The tier whose clock the hardware took last.
    pub cur: GovState,
    pub last_active_ns: u64,
    pub last_change_ns: u64,
    /// The die reached the cap and has not cooled down since.
    pub thermal_block: bool,
}

/// Time since `then`; none where the clock has not moved on.
pub open spec fn since(now: int, then: int) -> int {
    if now > then { now - then } else { 0 }
}

/// Fences since the last tick; none where the counter went back.
pub open spec fn fence_count(prev: int, now: int) -> int {
    if now > prev { now - prev } else { 0 }
}

/// Fences per second, in double precision. A tick counts for a millisecond at
/// least.
pub open spec fn fence_rate(fences: int, elapsed_ns: int) -> Double {
    Double::positive(
        double::over(
            double::nearest(fences, 1),
            double::seconds_of(most(elapsed_ns, 1_000_000)),
        ),
    )
}

/// The fence rate is at the working rate or above.
pub open spec fn working(fences: int, elapsed_ns: int, rate: Double) -> bool {
    fence_rate(fences, elapsed_ns).not_less(rate)
}

/// The thermal latch: set at the cap, cleared at the hysteresis below it, kept
/// between the two or without a reading, and clear where no cap applies.
pub open spec fn blocked(before: bool, cap_c: int, temp_centi: Option<u16>) -> bool {
    if 0 < cap_c < ocq3::TEMP_MAX_C {
        match temp_centi {
            Some(t) => if t >= 100 * cap_c {
                true
            } else if t <= 100 * cap_c - THERM_HYST_CENTI {
                false
            } else {
                before
            },
            None => before,
        }
    } else {
        false
    }
}

/// The tier to be at: while blocked, the top tier is the idle one.
pub open spec fn held_tier(tier: GovState, block: bool) -> GovState {
    if block && tier == GovState::High { GovState::Idle } else { tier }
}

impl Governor {
    /// The fence sum of a sample: the last one where it is unreadable.
    pub open spec fn fences_now(&self, s: Sample) -> u64 {
        match s.fences {
            Some(f) => f,
            None => self.prev_fences,
        }
    }

    /// The GPU worked since the last tick.
    pub open spec fn busy(&self, s: Sample) -> bool {
        working(
            fence_count(self.prev_fences as int, self.fences_now(s) as int),
            since(s.now_ns as int, self.prev_ns as int),
            self.cfg.work_rate,
        )
    }

    /// The tier that a sample asks for.
    pub open spec fn target(&self, s: Sample) -> GovState {
        let tier = if self.busy(s) {
            GovState::High
        } else {
            self.cfg.quiet_tier(since(s.now_ns as int, self.last_active_ns as int) / 1_000_000_000)
        };
        held_tier(tier, blocked(self.thermal_block, s.cap_c as int, s.temp_centi))
    }

    /// The governor after a sample. The tier stays: see [`Governor::landed`].
    pub open spec fn after(&self, s: Sample) -> Governor {
        Governor {
            prev_fences: self.fences_now(s),
            prev_ns: s.now_ns,
            last_active_ns: if self.busy(s) { s.now_ns } else { self.last_active_ns },
            thermal_block: blocked(self.thermal_block, s.cap_c as int, s.temp_centi),
            ..*self
        }
    }

    /// The clock change that a sample asks for: to the tier to be at, where
    /// that is not the current one and the last change is long enough ago.
    pub open spec fn asks(&self, s: Sample) -> Option<Transition> {
        if self.target(s) != self.cur && since(s.now_ns as int, self.last_change_ns as int)
            >= MIN_DWELL_NS {
            Some(
                Transition {
                    from: self.cur,
                    to: self.target(s),
                    mhz: self.cfg.clock_of(self.target(s)),
                    capped: blocked(self.thermal_block, s.cap_c as int, s.temp_centi),
                },
            )
        } else {
            None
        }
    }

    /// The governor's start: the idle tier, to be forced before the first tick.
    /// An invalid ladder is replaced by the default one.
    pub fn start(cfg: GovernorConfig, fences: Option<u64>, now_ns: u64) -> (r: Governor)
        ensures
            r.cfg == (if cfg.valid_ladder() { cfg } else { default_governor() }),
            r.cfg.valid_ladder(),
            r.prev_fences == (match fences {
                Some(f) => f,
                None => 0,
            }),
            r.prev_ns == now_ns,
            r.cur == GovState::Idle,
            r.last_active_ns == now_ns,
            r.last_change_ns == now_ns,
            !r.thermal_block,
    {
        let cfg: GovernorConfig = match cfg.validate_ladder() {
            Ok(()) => cfg,
            Err(_) => GovernorConfig::default(),
        };
        let prev_fences: u64 = match fences {
            Some(f) => f,
            None => 0,
        };
        Governor {
            cfg,
            prev_fences,
            prev_ns: now_ns,
            cur: GovState::Idle,
            last_active_ns: now_ns,
            last_change_ns: now_ns,
            thermal_block: false,
        }
    }

    /// Takes a sample. Asks for a clock change where the tier to be at is not
    /// the current one and the last change is long enough ago. The tier itself
    /// changes only by [`Governor::landed`].
    pub fn tick(&mut self, s: Sample) -> (r: Option<Transition>)
        ensures
            *final(self) == old(self).after(s),
            r == old(self).asks(s),
    {
        let now: u64 = match s.fences {
            Some(f) => f,
            None => self.prev_fences,
        };
        let count: u64 = now.saturating_sub(self.prev_fences);
        let elapsed: u64 = s.now_ns.saturating_sub(self.prev_ns);
        let dt: u64 = if elapsed < 1_000_000 {
            1_000_000
        } else {
            elapsed
        };
        let rate = double::quotient(double::divide(count as u128, 1), double::seconds(dt));
        let busy: bool = (Double::Finite { negative: false, mant: rate.mant, exp: rate.exp }).reaches(
            self.cfg.work_rate,
        );
        self.prev_fences = now;
        self.prev_ns = s.now_ns;
        let tier: GovState = if busy {
            self.last_active_ns = s.now_ns;
            GovState::High
        } else {
            let quiet: u64 = s.now_ns.saturating_sub(self.last_active_ns) / 1_000_000_000;
            if quiet < self.cfg.hold_s {
                GovState::High
            } else if quiet < self.cfg.idle_after_s {
                GovState::Mid
            } else if quiet < self.cfg.deep_after_s {
                GovState::Idle
            } else {
                GovState::Deep
            }
        };
        if s.cap_c > 0 && s.cap_c < ocq3::TEMP_MAX_C {
            if let Some(t) = s.temp_centi {
                if t as u32 >= 100 * s.cap_c {
                    self.thermal_block = true;
                } else if t as u32 + THERM_HYST_CENTI <= 100 * s.cap_c {
                    self.thermal_block = false;
                }
            }
        } else {
            self.thermal_block = false;
        }
        let target: GovState = if self.thermal_block && tier == GovState::High {
            GovState::Idle
        } else {
            tier
        };
        if target != self.cur && s.now_ns.saturating_sub(self.last_change_ns) >= MIN_DWELL_NS {
            Some(
                Transition {
                    from: self.cur,
                    to: target,
                    mhz: self.cfg.clock(target),
                    capped: self.thermal_block,
                },
            )
        } else {
            None
        }
    }

    /// The hardware took a clock change. One that it did not take is left
    /// alone, so that the next tick asks for it again.
    pub fn landed(&mut self, to: GovState, now_ns: u64)
        ensures
            *final(self) == (Governor { cur: to, last_change_ns: now_ns, ..*old(self) }),
    {
        self.cur = to;
        self.last_change_ns = now_ns;
    }
}

// ---------------------------------------------------------------------------
// Laws

/// Lost setpoints never boot into a controller, and a manual clock is always
/// what a boot enacts.
pub proof fn boot_is_heat_safe(load: BootLoad)
    ensures
        load is Corrupt ==> !(planned(load) is Auto) && planned(load) == BootPlan::FailSafePin(
            default_power().deep_mhz,
        ),
        load matches BootLoad::Loaded(c) ==> (c.force_mhz matches Some(m) ==> planned(load)
            == BootPlan::Manual(m)),
{
}

/// While the die is over its cap the governor never asks for the top tier.
pub proof fn hot_die_never_gets_the_top_tier(g: Governor, s: Sample)
    requires
        0 < s.cap_c < ocq3::TEMP_MAX_C,
        s.temp_centi is Some,
        s.temp_centi->0 >= 100 * s.cap_c,
    ensures
        g.target(s) != GovState::High,
{
}

/// Once blocked, the top tier stays off until the die has cooled past the
/// hysteresis, or the cap is lifted.
pub proof fn block_lasts_until_cool(g: Governor, s: Sample)
    requires
        g.thermal_block,
        0 < s.cap_c < ocq3::TEMP_MAX_C,
        s.temp_centi is None || s.temp_centi->0 > 100 * s.cap_c - THERM_HYST_CENTI,
    ensures
        g.target(s) != GovState::High,
        blocked(g.thermal_block, s.cap_c as int, s.temp_centi),
{
}

/// With a valid ladder a thermal demotion never raises the clock.
pub proof fn demotion_never_raises_the_clock(cfg: GovernorConfig, tier: GovState, block: bool)
    requires
        cfg.valid_ladder(),
    ensures
        cfg.clock_of(held_tier(tier, block)) <= cfg.clock_of(tier),
{
}

/// With a valid ladder longer quiet never means a higher clock.
pub proof fn quiet_winds_down(cfg: GovernorConfig, shorter: int, longer: int)
    requires
        cfg.valid_ladder(),
        shorter <= longer,
    ensures
        cfg.clock_of(cfg.quiet_tier(longer)) <= cfg.clock_of(cfg.quiet_tier(shorter)),
{
}

/// Two clock changes that the hardware took are never closer than the dwell.
pub proof fn changes_are_spaced(g: Governor, to: GovState, at_ns: u64, s: Sample)
    requires
        (Governor { cur: to, last_change_ns: at_ns, ..g }).asks(s) is Some,
    ensures
        s.now_ns >= at_ns + MIN_DWELL_NS,
{
}

/// A clock change that the hardware did not take is asked for again on the
/// next tick that wants the same tier.
pub proof fn failed_change_is_asked_again(g: Governor, s: Sample, next: Sample)
    requires
        g.asks(s) is Some,
        next.now_ns >= s.now_ns,
        g.after(s).target(next) == g.target(s),
    ensures
        g.after(s).asks(next) is Some,
        g.after(s).asks(next)->0.to == g.asks(s)->0.to,
        g.after(s).asks(next)->0.mhz == g.asks(s)->0.mhz,
{
}

/// A clock change leads from the current tier to another and asks for that
/// tier's own clock.
pub proof fn change_asks_for_the_clock_of_its_tier(g: Governor, s: Sample)
    ensures
        g.asks(s) matches Some(t) ==> {
            &&& t.from == g.cur
            &&& t.to != g.cur
            &&& t.to == GovState::Deep ==> t.mhz == g.cfg.deep_mhz
            &&& t.to == GovState::Idle ==> t.mhz == g.cfg.idle_mhz
            &&& t.to == GovState::Mid ==> t.mhz == g.cfg.mid_mhz
            &&& t.to == GovState::High ==> t.mhz == g.cfg.high_mhz
            &&& t.capped ==> t.to != GovState::High
        },
{
}

/// On a die that is cool enough, work takes the top tier and quiet winds down
/// by its length: the top tier while it is held, then the middle one, the idle
/// one and the deep one.
pub proof fn tiers_follow_work_and_quiet(g: Governor, s: Sample)
    requires
        !blocked(g.thermal_block, s.cap_c as int, s.temp_centi),
        s.now_ns >= g.last_active_ns,
    ensures
        ({
            let quiet_ns = s.now_ns - g.last_active_ns;
            let held = 1_000_000_000 * g.cfg.hold_s;
            let mid = 1_000_000_000 * g.cfg.idle_after_s;
            let idle = 1_000_000_000 * g.cfg.deep_after_s;
            &&& g.busy(s) ==> g.target(s) == GovState::High
            &&& !g.busy(s) && quiet_ns < held ==> g.target(s) == GovState::High
            &&& !g.busy(s) && held <= quiet_ns < mid ==> g.target(s) == GovState::Mid
            &&& !g.busy(s) && held <= quiet_ns && mid <= quiet_ns < idle ==> g.target(s)
                == GovState::Idle
            &&& !g.busy(s) && held <= quiet_ns && mid <= quiet_ns && idle <= quiet_ns ==> g.target(
                s,
            ) == GovState::Deep
        }),
{
}

/// A die over its cap runs a busy GPU at the idle tier; the tiers below the top
/// one are left as they are.
pub proof fn block_takes_the_top_tier_to_idle(g: Governor, s: Sample)
    requires
        blocked(g.thermal_block, s.cap_c as int, s.temp_centi),
    ensures
        g.busy(s) ==> g.target(s) == GovState::Idle,
        ({
            let free = Governor { thermal_block: false, ..g };
            let cool = Sample { cap_c: 0, ..s };
            &&& free.target(cool) == GovState::High ==> g.target(s) == GovState::Idle
            &&& free.target(cool) != GovState::High ==> g.target(s) == free.target(cool)
        }),
{
}

/// The latch goes by the reading: on at the cap, off four degrees below it, as
/// it was between the two and without a reading. A cap of 0 or of 100 degrees
/// and more does not count.
pub proof fn latch_goes_by_the_reading(before: bool, cap_c: u32, t: u16)
    ensures
        cap_c == 0 || cap_c >= 100 ==> !blocked(before, cap_c as int, Some(t)) && !blocked(
            before,
            cap_c as int,
            None,
        ),
        0 < cap_c < 100 ==> {
            &&& t >= 100 * cap_c ==> blocked(before, cap_c as int, Some(t))
            &&& t + 400 <= 100 * cap_c ==> !blocked(before, cap_c as int, Some(t))
            &&& t < 100 * cap_c < t + 400 ==> blocked(before, cap_c as int, Some(t)) == before
            &&& blocked(before, cap_c as int, None) == before
        },
{
}

/// A change that is due and two seconds from the last one is asked for; one that
/// is not due, or sooner, is not.
pub proof fn due_change_is_asked_for(g: Governor, s: Sample)
    ensures
        g.asks(s) is Some <==> g.target(s) != g.cur && s.now_ns >= g.last_change_ns
            + 2_000_000_000,
        g.asks(s) is Some ==> g.asks(s)->0.to == g.target(s),
{
}

/// A sample moves the times and the counter on, and nothing else: activity is
/// dated only by work, and the tier, the last change and the configuration stay.
pub proof fn sample_moves_only_its_own(g: Governor, s: Sample)
    ensures
        ({
            let n = g.after(s);
            &&& n.cfg == g.cfg && n.cur == g.cur && n.last_change_ns == g.last_change_ns
            &&& n.prev_ns == s.now_ns
            &&& s.fences matches Some(f) ==> n.prev_fences == f
            &&& s.fences is None ==> n.prev_fences == g.prev_fences
            &&& g.busy(s) ==> n.last_active_ns == s.now_ns
            &&& !g.busy(s) ==> n.last_active_ns == g.last_active_ns
        }),
{
}

/// Without a new fence the GPU works only where a rate of nothing counts as
/// work; an unreadable counter or one that went back has no new fence.
pub proof fn no_fence_is_no_work(g: Governor, s: Sample, rate: u32)
    requires
        g.cfg.work_rate == Double::small(rate),
        s.fences matches Some(f) ==> f <= g.prev_fences,
    ensures
        g.busy(s) <==> rate == 0,
{
    let d = fence_rate(0, since(s.now_ns as int, g.prev_ns as int));
    assert(d.magnitude().mant == 0);
    assert(double::two(0) == 1);
}

/// The calibrated tiers: 350, 1000, 1250 and 1500 MHz; a hundred fences a second
/// count as work; the top tier is held five seconds, the idle one follows after
/// thirty and the deep one after two minutes.
pub proof fn calibrated_tiers()
    ensures
        ({
            let c = default_governor();
            &&& c.deep_mhz == 350 && c.idle_mhz == 1000 && c.mid_mhz == 1250 && c.high_mhz == 1500
            &&& c.work_rate == Double::small(100)
            &&& c.hold_s == 5 && c.idle_after_s == 30 && c.deep_after_s == 120
            &&& c.valid_ladder()
        }),
{
}

/// A ladder is valid exactly where its tiers rise from 350 MHz at least to 2500
/// MHz at most.
pub proof fn ladder_rises_in_range(c: GovernorConfig)
    ensures
        c.valid_ladder() <==> 350 <= c.deep_mhz <= c.idle_mhz <= c.mid_mhz <= c.high_mhz <= 2500,
{
}

/// A boot without setpoints runs the governor; one with setpoints pins their
/// manual clock or else hands over to their own controller; one with lost
/// setpoints pins 350 MHz.
pub proof fn boot_enacts_what_was_saved(c: PowerConfig)
    ensures
        planned(BootLoad::Missing) == BootPlan::Auto(AutoMode::Governor),
        planned(BootLoad::Corrupt) == BootPlan::FailSafePin(350),
        c.force_mhz is None ==> planned(BootLoad::Loaded(c)) == BootPlan::Auto(c.auto_mode),
        c.force_mhz is Some ==> planned(BootLoad::Loaded(c)) == BootPlan::Manual(c.force_mhz->0),
        default_power() == (PowerConfig {
            top_mhz: 2230,
            deep_mhz: 350,
            force_mhz: None,
            force_vid_mv: None,
            auto_mode: AutoMode::Governor,
        }),
{
}

/// The daemon's idle action never takes the active clock: it releases, or forces
/// the deep one where that was asked for.
pub proof fn idle_is_released_or_deep(cfg: PowerConfig)
    ensures
        idle_action_of(cfg, false) == ClockAction::Release,
        idle_action_of(cfg, true) == ClockAction::Force(cfg.deep_mhz),
{
}

/// Setpoints are in order where the deep clock is no higher than the top one and
/// both are clocks of the GPU, 350 to 2500 MHz.
pub proof fn setpoints_in_order(c: PowerConfig)
    ensures
        c.ordered() <==> 350 <= c.deep_mhz && c.deep_mhz <= c.top_mhz && c.top_mhz <= 2500,
{
}

/// A poke of whole seconds is fresh while it is younger than the idle time; with
/// an idle time that is no number it never is, and without an end to it always.
pub proof fn poke_is_fresh_while_young(s: u32, idle: u32)
    requires
        s > 0,
    ensures
        fresh_at(s * 1_000_000_000, Double::small(idle)) <==> s < idle,
        !fresh_at(s * 1_000_000_000, Double::Nan),
        fresh_at(s * 1_000_000_000, Double::Infinite { negative: false }),
{
    let ns = s * 1_000_000_000;
    assert(ns % 1_000_000_000 == 0 && ns / 1_000_000_000 == s);
    let v = double::nearest(s as int, 1);
    double::fraction_is_nearest(s as int, 1);
    double::nearest_exponent(s as int, 1, 52);
    double::some_powers();
    assert(s * double::two(52) >= double::two(52)) by (nonlinear_arith)
        requires
            s >= 1,
            double::two(52) >= 0,
    ;
    double::nearest_exponent(s as int, 1, 0);
    assert(s * double::two(0) == s) by {
        assert(double::two(0) == 1);
    }
    assert(-52 <= v.exp < 0);
    let p = double::two((-v.exp) as nat);
    double::two_rises(0, (-v.exp) as nat);
    assert(v.mant * 1 == v.mant);
    assert(v.mant == s * p);
    assert(v.mant as u64 == v.mant && v.exp as i32 == v.exp);
    assert(s * p >= idle * p <==> s >= idle) by (nonlinear_arith)
        requires
            p >= 1,
    ;
}

/// A tick shorter than a millisecond counts for one, and one without fences has no
/// rate.
pub proof fn short_ticks_count_for_a_millisecond(fences: int, elapsed_ns: int)
    ensures
        elapsed_ns <= 1_000_000 ==> fence_rate(fences, elapsed_ns) == fence_rate(fences, 1_000_000),
        fence_rate(0, elapsed_ns) == (Double::Finite { negative: false, mant: 0, exp: 0 }),
        fence_count(fences, fences) == 0,
{
    assert(double::nearest(0, 1) == double::whole(0));
}

/// The rate of fences over a second is their number, so a second of work is told
/// from rest by the number of fences in it.
pub proof fn fences_of_a_second_are_its_rate(fences: u32, rate: u32)
    requires
        fences > 0,
    ensures
        working(fences as int, 1_000_000_000, Double::small(rate)) <==> fences >= rate,
{
    double::some_powers();
    assert(double::two(0) == 1);
    let a = double::nearest(fences as int, 1);
    let one = double::nearest(1, 1);
    whole_is_exact(fences as int);
    whole_is_exact(1);
    assert(double::two(51) * 2 == double::two(52));
    double::nearest_exponent(1, 1, 52);
    double::nearest_exponent(1, 1, 51);
    assert(one.exp == -52 && one.mant == 0x10_0000_0000_0000);
    assert(double::seconds_of(1_000_000_000) == one);
    let m = a.mant;
    let v = double::nearest(m, 0x10_0000_0000_0000);
    double::fraction_is_nearest(m, 0x10_0000_0000_0000);
    double::nearest_exponent(m, 0x10_0000_0000_0000, 52);
    double::nearest_exponent(m, 0x10_0000_0000_0000, 51);
    assert(m * double::two(52) >= 0x10_0000_0000_0000 * 0x10_0000_0000_0000) by (nonlinear_arith)
        requires
            m >= 0x10_0000_0000_0000,
            double::two(52) == 0x10_0000_0000_0000,
    ;
    assert(m * double::two(51) < 0x10_0000_0000_0000 * 0x10_0000_0000_0000) by (nonlinear_arith)
        requires
            0 < m < 0x20_0000_0000_0000,
            double::two(51) == 0x8_0000_0000_0000,
    ;
    assert(v.exp == -52);
    assert(v.mant == m);
    let q = double::over(a, one);
    assert(q.mant == m && q.exp == a.exp);
    let p = double::two((-a.exp) as nat);
    double::two_rises(0, (-a.exp) as nat);
    assert(q.mant as u64 == q.mant && q.exp as i32 == q.exp);
    assert(fences * p >= rate * p <==> fences >= rate) by (nonlinear_arith)
        requires
            p >= 1,
    ;
}

proof fn whole_is_exact(n: int)
    requires
        0 < n < 0x1_0000_0000,
    ensures
        ({
            let v = double::nearest(n, 1);
            &&& -52 <= v.exp < 0
            &&& 0x10_0000_0000_0000 <= v.mant < 0x20_0000_0000_0000
            &&& v.mant == n * double::two((-v.exp) as nat)
        }),
{
    double::some_powers();
    assert(double::two(0) == 1);
    let v = double::nearest(n, 1);
    double::fraction_is_nearest(n, 1);
    double::nearest_exponent(n, 1, 52);
    double::nearest_exponent(n, 1, 0);
    assert(n * double::two(52) >= double::two(52)) by (nonlinear_arith)
        requires
            n >= 1,
            double::two(52) >= 0,
    ;
    assert(n * double::two(0) == n);
    assert(-52 <= v.exp < 0);
    assert(v.mant * 1 == v.mant);
    if v.mant == 0x20_0000_0000_0000 {
        let k = (-v.exp - 1) as nat;
        double::nearest_exponent(n, 1, k);
        assert(double::two(k + 1) == 2 * double::two(k));
        assert(n * double::two(k + 1) == 2 * (n * double::two(k))) by (nonlinear_arith)
            requires
                double::two(k + 1) == 2 * double::two(k),
        ;
    }
}

} // verus!
