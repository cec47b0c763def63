//! The control screen: its state, what a key does to it, and what it refreshes.
//!
//! Keys never touch hardware here. A key changes the state and may ask for one
//! [`Action`]; what came of the action is told back to the screen. Edits are
//! drafts until they are applied.
use vstd::prelude::*;

use crate::cores::{CoreSnapshot, CoreState};
use crate::cpu::CpuOc;
use crate::curoute;
use crate::detect::State;
use crate::double::Double;
use crate::dpm::{most, GovernorConfig, SetpointError};
use crate::ocq3;
use crate::ocq3::{clamp, clamp_u32};
use crate::popup;
use crate::smu;
use crate::status::Status;
use crate::telemetry;
use crate::telemetry::{Carrier, OdRanges};
use crate::text;

verus! {

/// The fan channel of the main cooler.
pub const FAN_CHANNEL: u8 = 2;
/// Lowest manual fan duty in percent; below it is the automatic curve.
pub const FAN_MIN_PCT: u8 = 20;
/// Seconds of the advisory core sweep, per core.
pub const VERIFY_SECONDS: u64 = 20;

/// A panel of the screen.
#[derive(Clone, Copy, Debug, PartialEq, Eq, Structural)]
pub enum Focus {
    Fan,
    Cu,
    Cpu,
    Cores,
    Gpu,
}

/// A key.
#[derive(Clone, Copy, Debug, PartialEq, Eq, Structural)]
pub enum Key {
    Up,
    Down,
    Left,
    Right,
    Enter,
    Esc,
    Backspace,
    Tab,
    BackTab,
    PageUp,
    PageDown,
    Home,
    /// A function key.
    Function,
    Char(char),
    Other,
}

/// A key with its modifiers.
#[derive(Clone, Copy, Debug, PartialEq, Eq, Structural)]
pub struct KeyPress {
    pub key: Key,
    pub ctrl: bool,
    pub alt: bool,
}

/// What the surrounding shell does after a key.
#[derive(Debug)]
pub enum Outcome {
    /// Nothing: the screen had the key.
    Consumed,
    /// Apply its own bindings.
    Ignored,
    /// End the program.
    Quit,
    /// End the program and reboot, with a message.
    Reboot(String),
}

/// A field being edited, or none.
#[derive(Clone, Copy, Debug, PartialEq, Eq, Structural)]
pub enum Edit {
    Idle,
    Value(u32),
}

/// The field editor.
#[derive(Clone, Copy, Debug, PartialEq, Eq, Structural)]
pub struct Editor {
    pub edit: Edit,
    /// The edited value was changed; until it is, a first digit replaces it.
    pub typed: bool,
}

/// What a key asks to be done outside of the screen.
#[derive(Clone, Copy, Debug, PartialEq, Eq)]
pub enum Action {
    Nothing,
    /// Set the fan duty; `None` is the automatic curve.
    SetFan { pct: Option<u8> },
    /// Release the GPU clock and voltage.
    Release,
    SetVoltage { mv: u32 },
    SetGpuTemp { c: u32, point: CpuOc },
    ForceClock { mhz: u32 },
    SetTier { tier: usize, mhz: u32 },
    RestoreCpu,
    ApplyCpu { point: CpuOc, prev: CpuOc },
    /// Take the cores that differ online or offline.
    ApplyCores { want: [bool; 8], live: [bool; 8] },
    /// Bring every core online.
    ResetCores,
    /// Unlock the cores from the stock mask.
    Unlock,
    /// Unlock the cores from any mask.
    ForceUnlock,
    InstallUnit,
    StartVerify,
    ApplyRoute { masks: [u32; 4] },
    /// Probe the patches and show them.
    OpenPatches,
}

/// The GPU panel.
#[derive(Clone, Copy, Debug, PartialEq, Eq, Structural)]
pub struct GpuPanel {
    /// Selected field: four tiers, the pin, the temperature cap, the voltage.
    pub sel: usize,
    /// The pin as it is shown.
    pub force: u32,
    /// A second press releases the GPU.
    pub armed: bool,
}

/// The CPU panel.
#[derive(Clone, Copy, Debug, PartialEq, Eq, Structural)]
pub struct CpuPanel {
    pub point: CpuOc,
    /// Selected field: the boost clock, the curve, the temperature cap.
    pub sel: usize,
    /// The mailbox is open.
    pub mailbox: bool,
}

/// The cores panel.
#[derive(Clone, Copy, Debug, PartialEq, Eq)]
pub struct CoresPanel {
    /// Selected core.
    pub sel: usize,
    /// Cores wanted online, where there is an unapplied edit.
    pub draft: Option<[bool; 8]>,
    /// The sweep is running.
    pub verifying: bool,
    /// The forced unlock waits for its confirmation.
    pub force_confirm: bool,
}

/// Result of a bench as it is shown.
#[derive(Clone, Copy, Debug, PartialEq, Eq, Structural)]
pub struct BenchShown {
    pub cu: u32,
    pub effective: u32,
    pub elapsed_ns: u64,
    pub hung: bool,
    pub ok: bool,
}

/// The compute-unit panel.
#[derive(Clone, Copy, Debug, PartialEq, Eq)]
pub struct CuPanel {
    pub live: [u32; 4],
    pub draft: [u32; 4],
    /// What the driver enumerated at boot.
    pub driver: Option<[u32; 4]>,
    /// Selected WGP, five to an array.
    pub sel: usize,
    /// The live route could be read.
    pub ok: bool,
    /// The draft holds edits that are neither applied nor reverted.
    pub dirty: bool,
    /// A health test was asked for, and is to start at the next tick but one.
    pub test: bool,
    pub test_armed: bool,
    /// A health test is running.
    pub testing: bool,
    /// A bench was asked for, and is to start at the next tick but one.
    pub bench: bool,
    pub bench_armed: bool,
    /// A bench is running.
    pub benching: bool,
    /// The route that the running bench measures.
    pub bench_draft: [u32; 4],
    pub bench_result: Option<BenchShown>,
    /// There are results of a health test to show.
    pub health_shown: bool,
}

/// The open page about the patches.
#[derive(Debug)]
pub struct PatchPopup {
    pub scroll: u16,
    pub states: Vec<State>,
}

/// What was read about the GPU.
#[derive(Clone, Copy, Debug, PartialEq, Eq)]
pub struct GpuFacts {
    pub gfxclk: Option<u32>,
    pub top_set: u32,
    pub force_mhz: Option<u32>,
    pub governor_on: bool,
    pub unit_active: bool,
    pub unit_installed: bool,
    pub gov: GovernorConfig,
    /// Overdrive voltage and the clock that it applies to.
    pub od_vddc: Option<u32>,
    pub od_sclk: Option<u32>,
    pub ranges: OdRanges,
    /// Live voltage in mV.
    pub vid: Option<u32>,
    pub power_w: Option<u32>,
}

/// What was read about the board's sensors and fan.
#[derive(Clone, Copy, Debug, PartialEq, Eq, Structural)]
pub struct FanFacts {
    pub carrier: Carrier,
    pub writable: bool,
    pub enable: Option<u8>,
}

/// What was read about the machine, once for all panels.
#[derive(Debug)]
pub struct Snapshot {
    pub is_bc250: bool,
    pub kernel: String,
    pub fully: bool,
    pub present: usize,
    pub total: usize,
    /// Hottest GPU sensor, in thousandths of a degree.
    pub temp_mc: Option<Double>,
    pub gpu: GpuFacts,
    pub fan: FanFacts,
    pub cores: Option<CoreSnapshot>,
    pub cores_unit: bool,
}

/// The screen.
#[derive(Debug)]
pub struct ApuScreen {
    pub focus: Focus,
    pub snap: Snapshot,
    pub status: Status,
    pub editor: Editor,
    pub gpu: GpuPanel,
    pub cpu: CpuPanel,
    pub cores: CoresPanel,
    pub cu: CuPanel,
    /// Results of the last health test, each with whether it was good.
    pub cu_health: Vec<(String, bool)>,
    /// Fan duty being dialled; `None` is the automatic curve.
    pub fan_target: Option<u8>,
    pub patch_popup: Option<PatchPopup>,
    /// Report of the last core sweep.
    pub cores_report: Option<Vec<String>>,
}

impl ApuScreen {
    /// Selections are within their panels, a manual fan target is a duty that
    /// may be set, and a field is edited only in a panel that has fields.
    pub open spec fn wf(&self) -> bool {
        &&& self.gpu.sel <= 6
        &&& self.cpu.sel <= 2
        &&& self.cu.sel <= 19
        &&& self.cores.sel < 8
        &&& self.fan_target matches Some(p) ==> FAN_MIN_PCT <= p <= 100
        &&& self.editor.edit is Value ==> self.focus == Focus::Cpu || self.focus == Focus::Gpu
    }

    /// A key meets the voltage field of the GPU panel, which goes by the
    /// overdrive range.
    pub open spec fn meets_voltage(&self, k: Key) -> bool {
        let turn = self.editor.edit is Idle && (k == Key::Tab || k == Key::BackTab);
        let focus = if turn { next_focus(self.focus, k == Key::BackTab) } else { self.focus };
        focus == Focus::Gpu && self.gpu.sel == 6
    }

    /// Whether a key meets the voltage field of the GPU panel.
    pub fn at_voltage(&self, k: Key) -> (r: bool)
        ensures
            r == self.meets_voltage(k),
    {
        let idle: bool = match self.editor.edit {
            Edit::Idle => true,
            Edit::Value(_) => false,
        };
        let turn: bool = idle && (k == Key::Tab || k == Key::BackTab);
        let focus: Focus = if turn {
            focus_after(self.focus, k == Key::BackTab)
        } else {
            self.focus
        };
        focus == Focus::Gpu && self.gpu.sel == 6
    }

    /// A modal state: keys belong to the screen alone.
    pub open spec fn is_modal(&self) -> bool {
        self.patch_popup is Some || self.cores.force_confirm || self.editor.edit is Value
    }

    /// Whether keys belong to the screen alone.
    pub fn modal(&self) -> (r: bool)
        ensures
            r == self.is_modal(),
    {
        let editing: bool = match self.editor.edit {
            Edit::Value(_) => true,
            Edit::Idle => false,
        };
        self.patch_popup.is_some() || self.cores.force_confirm || editing
    }
}

impl CuPanel {
    /// A worker drives the GPU.
    pub open spec fn worker(&self) -> bool {
        self.testing || self.benching
    }

    /// Whether a worker drives the GPU.
    pub fn cu_worker_running(&self) -> (r: bool)
        ensures
            r == self.worker(),
    {
        self.testing || self.benching
    }
}

// ---------------------------------------------------------------------------
// Editing a value

/// The digit of a key.
pub open spec fn key_digit(k: Key) -> Option<int> {
    match k {
        Key::Char(c) => text::digit_value(c, 10),
        _ => None,
    }
}

/// Lowest and highest value of a field and the step of the arrows.
#[derive(Clone, Copy, Debug, PartialEq, Eq, Structural)]
pub struct FieldRange {
    pub lo: u32,
    pub hi: u32,
    pub step: u32,
    /// The arrows go the other way round.
    pub mirrored: bool,
}

/// The edited value after a key that changes it: the arrows step it within its
/// range, a digit is appended to what was typed or begins anew, Backspace takes
/// the last digit off.
pub open spec fn edited(v: int, typed: bool, k: Key, f: FieldRange) -> Option<int> {
    let up = if v + f.step > f.hi { f.hi as int } else { v + f.step };
    let low = if v - f.step < 0 { 0 } else { v - f.step };
    let down = if low < f.lo { f.lo as int } else { low };
    if k == Key::Left {
        Some(if f.mirrored { up } else { down })
    } else if k == Key::Right {
        Some(if f.mirrored { down } else { up })
    } else if k == Key::Backspace {
        Some(v / 10)
    } else {
        match key_digit(k) {
            Some(d) => {
                let n = if typed { v * 10 + d } else { d };
                Some(if n > f.hi { f.hi as int } else { n })
            },
            None => None,
        }
    }
}

fn edit_after(v: u32, typed: bool, k: Key, f: &FieldRange) -> (r: Option<u32>)
    ensures
        r is Some <==> edited(v as int, typed, k, *f) is Some,
        r is Some ==> edited(v as int, typed, k, *f) == Some(r->0 as int),
{
    let sum: u64 = v as u64 + f.step as u64;
    let up: u32 = if sum > f.hi as u64 {
        f.hi
    } else {
        sum as u32
    };
    let low: u32 = v.saturating_sub(f.step);
    let down: u32 = if low < f.lo {
        f.lo
    } else {
        low
    };
    match k {
        Key::Left => Some(
            if f.mirrored {
                up
            } else {
                down
            },
        ),
        Key::Right => Some(
            if f.mirrored {
                down
            } else {
                up
            },
        ),
        Key::Backspace => Some(v / 10),
        Key::Char(c) => match text::digit(c, 10) {
            Some(d) => {
                let n: u64 = if typed {
                    v as u64 * 10 + d as u64
                } else {
                    d as u64
                };
                Some(
                    if n > f.hi as u64 {
                        f.hi
                    } else {
                        n as u32
                    },
                )
            },
            None => None,
        },
        _ => None,
    }
}

// ---------------------------------------------------------------------------
// Fan

/// What a key does to the fan: the target, a line to show, an action.
#[derive(Debug)]
pub struct FanStep {
    pub target: Option<u8>,
    pub status: Option<Status>,
    pub action: Action,
}

/// The duty that the first step off the automatic curve starts from: the
/// current one, but never below the lowest manual duty.
pub open spec fn fan_seed(duty: Option<u32>) -> u8 {
    match duty {
        Some(d) => clamp(d as int, FAN_MIN_PCT as int, 100) as u8,
        None => FAN_MIN_PCT,
    }
}

/// What a key does in the fan panel. The arrows dial the target in steps of
/// five; a step below the lowest manual duty is the automatic curve.
pub open spec fn fan_step(target: Option<u8>, fan: FanFacts, k: Key) -> FanStep {
    let quiet = |t: Option<u8>| FanStep { target: t, status: None, action: Action::Nothing };
    if !fan.writable {
        FanStep {
            target,
            status: Some(Status::Note("fan not writable — nct6687 driver not bound")),
            action: Action::Nothing,
        }
    } else if k == Key::Up || k == Key::Right {
        quiet(
            Some(
                match target {
                    None => fan_seed(fan.carrier.duty_pct),
                    Some(p) => if p + 5 > 100 { 100 } else { (p + 5) as u8 },
                },
            ),
        )
    } else if k == Key::Down || k == Key::Left {
        quiet(
            match target {
                Some(p) if p - 5 >= FAN_MIN_PCT => Some((p - 5) as u8),
                _ => None,
            },
        )
    } else if k == Key::Enter || k == Key::Char('m') {
        FanStep { target, status: None, action: Action::SetFan { pct: target } }
    } else if k == Key::Char('a') {
        FanStep { target: None, status: None, action: Action::SetFan { pct: None } }
    } else {
        quiet(target)
    }
}

/// A key in the fan panel.
pub fn fan_key(target: Option<u8>, fan: &FanFacts, k: Key) -> (r: FanStep)
    requires
        target matches Some(p) ==> FAN_MIN_PCT <= p <= 100,
    ensures
        r == fan_step(target, *fan, k),
        r.target matches Some(p) ==> FAN_MIN_PCT <= p <= 100,
{
    if !fan.writable {
        return FanStep {
            target,
            status: Some(Status::Note("fan not writable — nct6687 driver not bound")),
            action: Action::Nothing,
        };
    }
    match k {
        Key::Up | Key::Right => {
            let next: u8 = match target {
                None => match fan.carrier.duty_pct {
                    Some(d) => clamp_u32(d, FAN_MIN_PCT as u32, 100) as u8,
                    None => FAN_MIN_PCT,
                },
                Some(p) => if p > 95 {
                    100
                } else {
                    p + 5
                },
            };
            FanStep { target: Some(next), status: None, action: Action::Nothing }
        },
        Key::Down | Key::Left => {
            let next: Option<u8> = match target {
                Some(p) => if p >= FAN_MIN_PCT + 5 {
                    Some(p - 5)
                } else {
                    None
                },
                None => None,
            };
            FanStep { target: next, status: None, action: Action::Nothing }
        },
        Key::Enter => FanStep { target, status: None, action: Action::SetFan { pct: target } },
        Key::Char(c) => if c == 'm' {
            FanStep { target, status: None, action: Action::SetFan { pct: target } }
        } else if c == 'a' {
            FanStep { target: None, status: None, action: Action::SetFan { pct: None } }
        } else {
            FanStep { target, status: None, action: Action::Nothing }
        },
        _ => FanStep { target, status: None, action: Action::Nothing },
    }
}

// ---------------------------------------------------------------------------
// GPU

/// What a key does in the GPU panel.
#[derive(Debug)]
pub struct GpuStep {
    pub panel: GpuPanel,
    pub editor: Editor,
    /// The CPU's point, which holds the GPU's temperature cap.
    pub point: CpuOc,
    pub status: Option<Status>,
    pub action: Action,
}

/// The voltage range of the overdrive table, or the stock one.
pub open spec fn vddc_range(ranges: OdRanges) -> (u32, u32) {
    match ranges.vddc {
        Some(r) => r,
        None => (700, 1129),
    }
}

/// The highest clock that the setpoints can lead to.
pub open spec fn top_clock(g: GpuFacts) -> int {
    most(
        most(
            g.top_set as int,
            match g.force_mhz {
                Some(m) => m as int,
                None => 0,
            },
        ),
        g.gov.high_mhz as int,
    )
}

/// The range of a GPU field: the temperature cap, the voltage (never below the
/// floor of the highest clock), else a clock.
pub open spec fn gpu_field(sel: usize, g: GpuFacts) -> FieldRange {
    if sel == 5 {
        FieldRange { lo: 60, hi: ocq3::TEMP_MAX_C, step: 1, mirrored: false }
    } else if sel == 6 {
        FieldRange {
            lo: telemetry::safe_floor(top_clock(g), g.ranges) as u32,
            hi: vddc_range(g.ranges).1,
            step: 5,
            mirrored: false,
        }
    } else {
        FieldRange { lo: smu::SCLK_MIN_MHZ, hi: smu::SCLK_MAX_MHZ, step: 10, mirrored: false }
    }
}

/// The value that an edit of a GPU field starts from.
pub open spec fn gpu_seed(sel: usize, g: GpuFacts, gpu_temp_c: u32) -> u32 {
    if sel == 0 {
        g.gov.high_mhz
    } else if sel == 1 {
        g.gov.mid_mhz
    } else if sel == 2 {
        g.gov.idle_mhz
    } else if sel == 3 {
        g.gov.deep_mhz
    } else if sel == 4 {
        match g.force_mhz {
            Some(m) => m,
            None => g.top_set,
        }
    } else if sel == 5 {
        gpu_temp_c
    } else {
        match (g.od_vddc, g.vid) {
            (Some(v), _) => v,
            (None, Some(v)) => v,
            (None, None) => 1000,
        }
    }
}

/// What a press of the release key does: with a pin or a set voltage it takes a
/// second press.
pub open spec fn release_step(s: GpuStep, g: GpuFacts) -> GpuStep {
    if (g.force_mhz is Some || g.od_vddc is Some) && !s.panel.armed {
        GpuStep {
            panel: GpuPanel { armed: true, ..s.panel },
            status: Some(
                match g.force_mhz {
                    Some(m) => Status::PinActive { mhz: m },
                    None => Status::VoltageActive { mv: g.od_vddc->0 },
                },
            ),
            ..s
        }
    } else {
        GpuStep {
            panel: GpuPanel { armed: false, ..s.panel },
            action: Action::Release,
            ..s
        }
    }
}

/// What applying an edited GPU value does. The clock pin and the voltage are
/// applied only where something was typed.
pub open spec fn gpu_commit(s: GpuStep, v: u32) -> GpuStep {
    let done = GpuStep { editor: Editor { edit: Edit::Idle, ..s.editor }, ..s };
    let sel = s.panel.sel;
    if !s.editor.typed && (sel == 4 || sel == 6) {
        GpuStep {
            status: Some(Status::Note("no change (nothing typed) — edit cancelled")),
            ..done
        }
    } else if sel == 6 {
        GpuStep { action: Action::SetVoltage { mv: v }, ..done }
    } else if sel == 5 {
        let point = CpuOc { gpu_temp_c: v, ..s.point };
        GpuStep { point, action: Action::SetGpuTemp { c: v, point }, ..done }
    } else if sel == 4 {
        GpuStep {
            panel: GpuPanel { force: v, ..s.panel },
            action: Action::ForceClock { mhz: v },
            ..done
        }
    } else {
        GpuStep { action: Action::SetTier { tier: sel, mhz: v }, ..done }
    }
}

/// The hint shown when an edit begins.
pub open spec fn edit_hint() -> Status {
    Status::Note("type a value or ←/→ to adjust · Enter apply · Esc cancel")
}

/// What a key does in the GPU panel. Any key but the release key disarms the
/// release.
pub open spec fn gpu_step(p: GpuPanel, e: Editor, point: CpuOc, g: GpuFacts, k: Key) -> GpuStep {
    let panel = if k == Key::Char('u') { p } else { GpuPanel { armed: false, ..p } };
    let s = GpuStep { panel, editor: e, point, status: None, action: Action::Nothing };
    let f = gpu_field(p.sel, g);
    match e.edit {
        Edit::Idle => if k == Key::Up {
            let sel = if p.sel == 0 { 0 } else { (p.sel - 1) as usize };
            GpuStep { panel: GpuPanel { sel, ..panel }, ..s }
        } else if k == Key::Down {
            let sel = if p.sel >= 6 { 6 } else { (p.sel + 1) as usize };
            GpuStep { panel: GpuPanel { sel, ..panel }, ..s }
        } else if k == Key::Enter {
            GpuStep {
                editor: Editor {
                    edit: Edit::Value(gpu_seed(p.sel, g, point.gpu_temp_c)),
                    typed: false,
                },
                status: Some(edit_hint()),
                ..s
            }
        } else if k == Key::Char('u') {
            release_step(s, g)
        } else {
            s
        },
        Edit::Value(v) => match edited(v as int, e.typed, k, f) {
            Some(n) => GpuStep {
                editor: Editor { edit: Edit::Value(n as u32), typed: true },
                ..s
            },
            None => if k == Key::Enter {
                gpu_commit(s, clamp(v as int, f.lo as int, f.hi as int) as u32)
            } else if k == Key::Esc {
                GpuStep {
                    editor: Editor { edit: Edit::Idle, ..e },
                    status: Some(Status::Note("cancelled")),
                    ..s
                }
            } else {
                s
            },
        },
    }
}

fn gpu_field_range(sel: usize, g: &GpuFacts) -> (r: FieldRange)
    requires
        sel == 6 ==> g.ranges.vddc_ordered(),
    ensures
        r == gpu_field(sel, *g),
        r.lo <= r.hi,
{
    if sel == 5 {
        FieldRange { lo: 60, hi: ocq3::TEMP_MAX_C, step: 1, mirrored: false }
    } else if sel == 6 {
        let mut clk: u32 = g.top_set;
        if let Some(m) = g.force_mhz {
            if m > clk {
                clk = m;
            }
        }
        if g.gov.high_mhz > clk {
            clk = g.gov.high_mhz;
        }
        let lo: u32 = telemetry::min_gfx_vddc(clk, &g.ranges);
        let hi: u32 = match g.ranges.vddc {
            Some((_, hi)) => hi,
            None => 1129,
        };
        FieldRange { lo, hi, step: 5, mirrored: false }
    } else {
        FieldRange { lo: smu::SCLK_MIN_MHZ, hi: smu::SCLK_MAX_MHZ, step: 10, mirrored: false }
    }
}

fn seed_gpu(sel: usize, g: &GpuFacts, gpu_temp_c: u32) -> (r: u32)
    ensures
        r == gpu_seed(sel, *g, gpu_temp_c),
{
    match sel {
        0 => g.gov.high_mhz,
        1 => g.gov.mid_mhz,
        2 => g.gov.idle_mhz,
        3 => g.gov.deep_mhz,
        4 => match g.force_mhz {
            Some(m) => m,
            None => g.top_set,
        },
        5 => gpu_temp_c,
        _ => match g.od_vddc {
            Some(v) => v,
            None => match g.vid {
                Some(v) => v,
                None => 1000,
            },
        },
    }
}

fn press_release(s: GpuStep, g: &GpuFacts) -> (r: GpuStep)
    ensures
        r == release_step(s, *g),
{
    let mut r = s;
    if (g.force_mhz.is_some() || g.od_vddc.is_some()) && !r.panel.armed {
        r.panel.armed = true;
        match g.force_mhz {
            Some(m) => {
                r.status = Some(Status::PinActive { mhz: m });
            },
            None => match g.od_vddc {
                Some(v) => {
                    r.status = Some(Status::VoltageActive { mv: v });
                },
                None => {},
            },
        }
        r
    } else {
        r.panel.armed = false;
        r.action = Action::Release;
        r
    }
}

fn commit_gpu(s: GpuStep, v: u32) -> (r: GpuStep)
    ensures
        r == gpu_commit(s, v),
{
    let mut r = s;
    let sel: usize = r.panel.sel;
    r.editor.edit = Edit::Idle;
    if !r.editor.typed && (sel == 4 || sel == 6) {
        r.status = Some(Status::Note("no change (nothing typed) — edit cancelled"));
        return r;
    }
    match sel {
        6 => {
            r.action = Action::SetVoltage { mv: v };
        },
        5 => {
            r.point.gpu_temp_c = v;
            r.action = Action::SetGpuTemp { c: v, point: r.point };
        },
        4 => {
            r.panel.force = v;
            r.action = Action::ForceClock { mhz: v };
        },
        tier => {
            r.action = Action::SetTier { tier, mhz: v };
        },
    }
    r
}

/// A key in the GPU panel.
pub fn gpu_key(p: GpuPanel, e: Editor, point: CpuOc, g: &GpuFacts, k: Key) -> (r: GpuStep)
    requires
        p.sel == 6 ==> g.ranges.vddc_ordered(),
        p.sel <= 6,
    ensures
        r == gpu_step(p, e, point, *g, k),
        r.panel.sel <= 6,
{
    let release: bool = match k {
        Key::Char(c) => c == 'u',
        _ => false,
    };
    let mut panel: GpuPanel = p;
    if !release {
        panel.armed = false;
    }
    let s = GpuStep { panel, editor: e, point, status: None, action: Action::Nothing };
    let f = gpu_field_range(p.sel, g);
    match e.edit {
        Edit::Idle => match k {
            Key::Up => {
                let mut r = s;
                r.panel.sel = p.sel.saturating_sub(1);
                r
            },
            Key::Down => {
                let mut r = s;
                r.panel.sel = if p.sel >= 6 {
                    6
                } else {
                    p.sel + 1
                };
                r
            },
            Key::Enter => {
                let mut r = s;
                r.editor = Editor {
                    edit: Edit::Value(seed_gpu(p.sel, g, point.gpu_temp_c)),
                    typed: false,
                };
                r.status = Some(
                    Status::Note("type a value or ←/→ to adjust · Enter apply · Esc cancel"),
                );
                r
            },
            _ => if release {
                press_release(s, g)
            } else {
                s
            },
        },
        Edit::Value(v) => match edit_after(v, e.typed, k, &f) {
            Some(n) => {
                let mut r = s;
                r.editor = Editor { edit: Edit::Value(n), typed: true };
                r
            },
            None => match k {
                Key::Enter => commit_gpu(s, clamp_u32(v, f.lo, f.hi)),
                Key::Esc => {
                    let mut r = s;
                    r.editor.edit = Edit::Idle;
                    r.status = Some(Status::Note("cancelled"));
                    r
                },
                _ => s,
            },
        },
    }
}

/// A governor configuration with one tier set, 0 the top one.
pub open spec fn with_tier(gov: GovernorConfig, tier: usize, mhz: u32) -> GovernorConfig {
    if tier == 0 {
        GovernorConfig { high_mhz: mhz, ..gov }
    } else if tier == 1 {
        GovernorConfig { mid_mhz: mhz, ..gov }
    } else if tier == 2 {
        GovernorConfig { idle_mhz: mhz, ..gov }
    } else {
        GovernorConfig { deep_mhz: mhz, ..gov }
    }
}

/// Sets one tier of a governor configuration. An inverted ladder is refused.
pub fn set_tier(gov: GovernorConfig, tier: usize, mhz: u32) -> (r: Result<
    GovernorConfig,
    SetpointError,
>)
    ensures
        ({
            let next = with_tier(gov, tier, mhz);
            &&& next.valid_ladder() ==> r == Ok::<GovernorConfig, SetpointError>(next)
            &&& !next.rising() ==> r == Err::<GovernorConfig, SetpointError>(
                SetpointError::LadderInverted {
                    deep: next.deep_mhz,
                    idle: next.idle_mhz,
                    mid: next.mid_mhz,
                    high: next.high_mhz,
                },
            )
            &&& next.rising() && !next.valid_ladder() ==> r == Err::<GovernorConfig, SetpointError>(
                SetpointError::LadderRange,
            )
        }),
{
    let mut next: GovernorConfig = gov;
    match tier {
        0 => {
            next.high_mhz = mhz;
        },
        1 => {
            next.mid_mhz = mhz;
        },
        2 => {
            next.idle_mhz = mhz;
        },
        _ => {
            next.deep_mhz = mhz;
        },
    }
    match next.validate_ladder() {
        Ok(()) => Ok(next),
        Err(e) => Err(e),
    }
}

// ---------------------------------------------------------------------------
// CPU

/// What a key does in the CPU panel.
#[derive(Debug)]
pub struct CpuStep {
    pub panel: CpuPanel,
    pub editor: Editor,
    pub status: Option<Status>,
    pub action: Action,
}

/// The range of a CPU field: the boost clock, the depth of the undervolt (shown
/// as a negative number, so its arrows are turned round), the temperature cap.
pub open spec fn cpu_field(sel: usize) -> FieldRange {
    if sel == 0 {
        FieldRange {
            lo: ocq3::BOOST_MIN_MHZ,
            hi: ocq3::BOOST_MAX_MHZ,
            step: 10,
            mirrored: false,
        }
    } else if sel == 1 {
        FieldRange { lo: 0, hi: 50, step: 1, mirrored: true }
    } else {
        FieldRange { lo: 60, hi: 100, step: 1, mirrored: false }
    }
}

/// The value that an edit of a CPU field starts from; the undervolt is edited
/// by its depth.
pub open spec fn cpu_seed(p: CpuPanel) -> u32 {
    if p.sel == 0 {
        p.point.boost_mhz
    } else if p.sel == 1 {
        if p.point.curve_scale <= 0 {
            (-p.point.curve_scale) as u32
        } else {
            (0x1_0000_0000 - p.point.curve_scale) as u32
        }
    } else {
        p.point.cpu_temp_c
    }
}

/// The point with an edited field.
pub open spec fn cpu_with(c: CpuOc, sel: usize, v: u32) -> CpuOc {
    if sel == 0 {
        CpuOc { boost_mhz: v, ..c }
    } else if sel == 1 {
        CpuOc { curve_scale: (-(v as int)) as i32, ..c }
    } else {
        CpuOc { cpu_temp_c: v, ..c }
    }
}

/// What applying an edited CPU value does: the whole point is applied, staged
/// from the one before the edit.
pub open spec fn cpu_commit(s: CpuStep, v: u32) -> CpuStep {
    let point = cpu_with(s.panel.point, s.panel.sel, v);
    let done = CpuStep {
        panel: CpuPanel { point, ..s.panel },
        editor: Editor { edit: Edit::Idle, ..s.editor },
        ..s
    };
    if s.panel.mailbox {
        CpuStep { action: Action::ApplyCpu { point, prev: s.panel.point }, ..done }
    } else {
        CpuStep {
            status: Some(Status::Note("no queue-3 mailbox (need root + BC-250)")),
            ..done
        }
    }
}

/// What a key does in the CPU panel.
pub open spec fn cpu_step(p: CpuPanel, e: Editor, k: Key) -> CpuStep {
    let s = CpuStep { panel: p, editor: e, status: None, action: Action::Nothing };
    let f = cpu_field(p.sel);
    match e.edit {
        Edit::Idle => if k == Key::Up {
            let sel = if p.sel == 0 { 0 } else { (p.sel - 1) as usize };
            CpuStep { panel: CpuPanel { sel, ..p }, ..s }
        } else if k == Key::Down {
            let sel = if p.sel >= 2 { 2 } else { (p.sel + 1) as usize };
            CpuStep { panel: CpuPanel { sel, ..p }, ..s }
        } else if k == Key::Enter {
            CpuStep {
                editor: Editor { edit: Edit::Value(cpu_seed(p)), typed: false },
                status: Some(edit_hint()),
                ..s
            }
        } else if k == Key::Char('r') {
            if p.mailbox {
                CpuStep { action: Action::RestoreCpu, ..s }
            } else {
                CpuStep { status: Some(Status::Note("no queue-3 mailbox")), ..s }
            }
        } else {
            s
        },
        Edit::Value(v) => match edited(v as int, e.typed, k, f) {
            Some(n) => CpuStep {
                editor: Editor { edit: Edit::Value(n as u32), typed: true },
                ..s
            },
            None => if k == Key::Enter {
                cpu_commit(s, clamp(v as int, f.lo as int, f.hi as int) as u32)
            } else if k == Key::Esc {
                CpuStep {
                    editor: Editor { edit: Edit::Idle, ..e },
                    status: Some(Status::Note("cancelled")),
                    ..s
                }
            } else {
                s
            },
        },
    }
}

fn cpu_field_range(sel: usize) -> (r: FieldRange)
    ensures
        r == cpu_field(sel),
        r.lo <= r.hi,
        sel == 1 ==> r.hi == 50,
{
    match sel {
        0 => FieldRange {
            lo: ocq3::BOOST_MIN_MHZ,
            hi: ocq3::BOOST_MAX_MHZ,
            step: 10,
            mirrored: false,
        },
        1 => FieldRange { lo: 0, hi: 50, step: 1, mirrored: true },
        _ => FieldRange { lo: 60, hi: 100, step: 1, mirrored: false },
    }
}

fn commit_cpu(s: CpuStep, v: u32) -> (r: CpuStep)
    requires
        s.panel.sel == 1 ==> v <= 50,
    ensures
        r == cpu_commit(s, v),
{
    let mut r = s;
    let prev: CpuOc = r.panel.point;
    match r.panel.sel {
        0 => {
            r.panel.point.boost_mhz = v;
        },
        1 => {
            r.panel.point.curve_scale = -(v as i32);
        },
        _ => {
            r.panel.point.cpu_temp_c = v;
        },
    }
    r.editor.edit = Edit::Idle;
    if r.panel.mailbox {
        r.action = Action::ApplyCpu { point: r.panel.point, prev };
    } else {
        r.status = Some(Status::Note("no queue-3 mailbox (need root + BC-250)"));
    }
    r
}

/// A key in the CPU panel.
pub fn cpu_key(p: CpuPanel, e: Editor, k: Key) -> (r: CpuStep)
    requires
        p.sel <= 2,
    ensures
        r == cpu_step(p, e, k),
        r.panel.sel <= 2,
{
    let s = CpuStep { panel: p, editor: e, status: None, action: Action::Nothing };
    let f = cpu_field_range(p.sel);
    match e.edit {
        Edit::Idle => match k {
            Key::Up => {
                let mut r = s;
                r.panel.sel = p.sel.saturating_sub(1);
                r
            },
            Key::Down => {
                let mut r = s;
                r.panel.sel = if p.sel >= 2 {
                    2
                } else {
                    p.sel + 1
                };
                r
            },
            Key::Enter => {
                let cur: u32 = match p.sel {
                    0 => p.point.boost_mhz,
                    1 => if p.point.curve_scale <= 0 {
                        (-(p.point.curve_scale as i64)) as u32
                    } else {
                        (0x1_0000_0000 - p.point.curve_scale as i64) as u32
                    },
                    _ => p.point.cpu_temp_c,
                };
                let mut r = s;
                r.editor = Editor { edit: Edit::Value(cur), typed: false };
                r.status = Some(
                    Status::Note("type a value or ←/→ to adjust · Enter apply · Esc cancel"),
                );
                r
            },
            Key::Char(c) => {
                let mut r = s;
                if c == 'r' {
                    if p.mailbox {
                        r.action = Action::RestoreCpu;
                    } else {
                        r.status = Some(Status::Note("no queue-3 mailbox"));
                    }
                }
                r
            },
            _ => s,
        },
        Edit::Value(v) => match edit_after(v, e.typed, k, &f) {
            Some(n) => {
                let mut r = s;
                r.editor = Editor { edit: Edit::Value(n), typed: true };
                r
            },
            None => match k {
                Key::Enter => commit_cpu(s, clamp_u32(v, f.lo, f.hi)),
                Key::Esc => {
                    let mut r = s;
                    r.editor.edit = Edit::Idle;
                    r.status = Some(Status::Note("cancelled"));
                    r
                },
                _ => s,
            },
        },
    }
}

// ---------------------------------------------------------------------------
// Cores

/// What a key does in the cores panel.
#[derive(Debug)]
pub struct CoresStep {
    pub panel: CoresPanel,
    pub status: Option<Status>,
    pub action: Action,
}

/// A thread of a core is online.
pub open spec fn any_online(threads: Seq<(u32, bool)>) -> bool {
    exists|j: int| 0 <= j < threads.len() && (#[trigger] threads[j]).1
}

/// A core has a thread online.
pub open spec fn slot_online(groups: Seq<(u32, Vec<(u32, bool)>)>, slot: int) -> bool {
    exists|k: int|
        0 <= k < groups.len() && (#[trigger] groups[k]).0 == slot && any_online(groups[k].1@)
}

/// A core of a snapshot has a thread online.
pub open spec fn core_online(cores: Option<CoreSnapshot>, slot: int) -> bool {
    match cores {
        Some(c) => slot_online(c.per_core@, slot),
        None => false,
    }
}

pub(crate) fn has_online(threads: &Vec<(u32, bool)>) -> (r: bool)
    ensures
        r == any_online(threads@),
{
    let mut j: usize = 0;
    while j < threads.len()
        invariant
            j <= threads@.len(),
            forall|i: int| 0 <= i < j ==> !(#[trigger] threads@[i]).1,
        decreases threads@.len() - j,
    {
        if threads[j].1 {
            assert(threads@[j as int].1);
            return true;
        }
        j += 1;
    }
    false
}

/// The cores that have a thread online.
pub fn core_live_draft(cores: &Option<CoreSnapshot>) -> (r: [bool; 8])
    ensures
        forall|slot: int| 0 <= slot < 8 ==> #[trigger] r@[slot] == core_online(*cores, slot),
{
    let mut d: [bool; 8] = [false, false, false, false, false, false, false, false];
    match cores {
        Some(c) => {
            let mut k: usize = 0;
            while k < c.per_core.len()
                invariant
                    k <= c.per_core@.len(),
                    forall|slot: int|
                        0 <= slot < 8 ==> #[trigger] d@[slot] == slot_online(
                            c.per_core@.take(k as int),
                            slot,
                        ),
                decreases c.per_core@.len() - k,
            {
                let core: u32 = c.per_core[k].0;
                let on: bool = has_online(&c.per_core[k].1);
                let ghost before = d@;
                if core < 8 && on {
                    d[core as usize] = true;
                }
                proof {
                    let now = c.per_core@.take(k + 1);
                    let was = c.per_core@.take(k as int);
                    assert forall|slot: int| 0 <= slot < 8 implies #[trigger] d@[slot]
                        == slot_online(now, slot) by {
                        assert(before[slot] == slot_online(was, slot));
                        if slot_online(was, slot) {
                            let w = choose|w: int|
                                0 <= w < was.len() && (#[trigger] was[w]).0 == slot && any_online(
                                    was[w].1@,
                                );
                            assert(now[w].0 == slot && any_online(now[w].1@));
                        }
                        if core == slot && on {
                            assert(now[k as int].0 == slot && any_online(now[k as int].1@));
                        }
                        if slot_online(now, slot) {
                            let w = choose|w: int|
                                0 <= w < now.len() && (#[trigger] now[w]).0 == slot && any_online(
                                    now[w].1@,
                                );
                            if w < k {
                                assert(was[w].0 == slot && any_online(was[w].1@));
                            }
                        }
                    }
                }
                k += 1;
            }
            assert(c.per_core@.take(k as int) =~= c.per_core@);
        },
        None => {},
    }
    d
}

/// Cores with one turned over.
pub open spec fn toggled_core(d: [bool; 8], slot: int) -> [bool; 8] {
    vstd::array::spec_array_update(d, slot, !d[slot])
}

/// Cores with all but the first off.
pub open spec fn only_first(d: [bool; 8]) -> [bool; 8] {
    [d[0], false, false, false, false, false, false, false]
}

/// All cores on.
pub open spec fn all_on() -> [bool; 8] {
    [true, true, true, true, true, true, true, true]
}

/// What a key does in the cores panel, given the cores that are online and the
/// state of the mask. Toggling edits a draft; the first core is never taken off
/// in it.
pub open spec fn cores_step(
    p: CoresPanel,
    live: [bool; 8],
    state: Option<CoreState>,
    k: Key,
) -> CoresStep {
    let quiet = CoresStep { panel: p, status: None, action: Action::Nothing };
    let say = |panel: CoresPanel, t: Status|
        CoresStep { panel, status: Some(t), action: Action::Nothing };
    let d = match p.draft {
        Some(d) => d,
        None => live,
    };
    if k == Key::Left || k == Key::Char('[') {
        CoresStep { panel: CoresPanel { sel: ((p.sel + 7) % 8) as usize, ..p }, ..quiet }
    } else if k == Key::Right || k == Key::Char(']') {
        CoresStep { panel: CoresPanel { sel: ((p.sel + 1) % 8) as usize, ..p }, ..quiet }
    } else if k == Key::Char(' ') {
        if p.sel == 0 && d[0] {
            say(
                CoresPanel { draft: Some(d), ..p },
                Status::Note("core 0 cannot be offlined (kernel keeps cpu0)"),
            )
        } else {
            say(
                CoresPanel { draft: Some(toggled_core(d, p.sel as int)), ..p },
                Status::CoreToggled { slot: p.sel },
            )
        }
    } else if k == Key::Char('o') {
        say(
            CoresPanel { draft: Some(only_first(d)), ..p },
            Status::Note("draft: all except core 0 offline — [a] apply"),
        )
    } else if k == Key::Char('O') {
        say(
            CoresPanel { draft: Some(all_on()), ..p },
            Status::Note("draft: all cores online — [a] apply"),
        )
    } else if k == Key::Char('a') {
        match p.draft {
            None => say(p, Status::Note("no draft to apply")),
            Some(want) => CoresStep {
                panel: CoresPanel { draft: None, ..p },
                status: None,
                action: Action::ApplyCores { want, live },
            },
        }
    } else if k == Key::Esc {
        if p.draft is Some {
            say(
                CoresPanel { draft: None, ..p },
                Status::Note("draft cancelled — nothing changed"),
            )
        } else {
            quiet
        }
    } else if k == Key::Char('r') {
        CoresStep {
            panel: CoresPanel { draft: None, ..p },
            status: None,
            action: Action::ResetCores,
        }
    } else if k == Key::Char('u') {
        match state {
            None => say(p, Status::Note("core map unavailable (need root + BC-250)")),
            Some(CoreState::Locked) => CoresStep { action: Action::Unlock, ..quiet },
            Some(CoreState::Unlocked) => say(p, Status::Note("already unlocked")),
            Some(CoreState::PendingReboot) => say(
                p,
                Status::Note("mask set — warm reboot needed to enumerate"),
            ),
            Some(CoreState::Abnormal(m)) => say(p, Status::AbnormalMask { mask: m }),
        }
    } else if k == Key::Char('F') {
        match state {
            None => say(p, Status::Note("core map unavailable (need root + BC-250)")),
            Some(CoreState::Unlocked) => say(p, Status::Note("already unlocked")),
            Some(CoreState::PendingReboot) => say(
                p,
                Status::Note("mask already 0xFF — warm reboot needed to enumerate"),
            ),
            Some(CoreState::Locked) => say(
                p,
                Status::Note("mask is stock 0x77 — use [u] for the safe unlock"),
            ),
            Some(CoreState::Abnormal(_)) => say(
                CoresPanel { force_confirm: true, ..p },
                Status::Note("forced unlock armed — confirm [y] to write 0xFF, [esc] to cancel"),
            ),
        }
    } else if k == Key::Char('i') {
        CoresStep { action: Action::InstallUnit, ..quiet }
    } else if k == Key::Char('v') {
        if p.verifying {
            say(p, Status::Note("verify already running"))
        } else {
            CoresStep {
                panel: CoresPanel { verifying: true, ..p },
                status: Some(Status::Note("verify sweep running (20s/core, advisory)…")),
                action: Action::StartVerify,
            }
        }
    } else {
        quiet
    }
}

fn say_cores(panel: CoresPanel, t: Status) -> (r: CoresStep)
    ensures
        r == (CoresStep { panel, status: Some(t), action: Action::Nothing }),
{
    CoresStep { panel, status: Some(t), action: Action::Nothing }
}

/// A key in the cores panel.
pub fn cores_key(p: CoresPanel, live: [bool; 8], state: Option<CoreState>, k: Key) -> (r: CoresStep)
    requires
        p.sel < 8,
    ensures
        r == cores_step(p, live, state, k),
        r.panel.sel < 8,
{
    let mut panel: CoresPanel = p;
    let d: [bool; 8] = match p.draft {
        Some(d) => d,
        None => live,
    };
    match k {
        Key::Left => {
            panel.sel = (p.sel + 7) % 8;
            CoresStep { panel, status: None, action: Action::Nothing }
        },
        Key::Right => {
            panel.sel = (p.sel + 1) % 8;
            CoresStep { panel, status: None, action: Action::Nothing }
        },
        Key::Esc => if p.draft.is_some() {
            panel.draft = None;
            say_cores(panel, Status::Note("draft cancelled — nothing changed"))
        } else {
            CoresStep { panel, status: None, action: Action::Nothing }
        },
        Key::Char(c) => match c {
            '[' => {
                panel.sel = (p.sel + 7) % 8;
                CoresStep { panel, status: None, action: Action::Nothing }
            },
            ']' => {
                panel.sel = (p.sel + 1) % 8;
                CoresStep { panel, status: None, action: Action::Nothing }
            },
            ' ' => {
                if p.sel == 0 && d[0] {
                    panel.draft = Some(d);
                    return say_cores(
                        panel,
                        Status::Note("core 0 cannot be offlined (kernel keeps cpu0)"),
                    );
                }
                let mut next: [bool; 8] = d;
                next[p.sel] = !d[p.sel];
                assert(next =~= toggled_core(d, p.sel as int));
                panel.draft = Some(next);
                say_cores(panel, Status::CoreToggled { slot: p.sel })
            },
            'o' => {
                let next: [bool; 8] = [d[0], false, false, false, false, false, false, false];
                assert(next =~= only_first(d));
                panel.draft = Some(next);
                say_cores(panel, Status::Note("draft: all except core 0 offline — [a] apply"))
            },
            'O' => {
                let next: [bool; 8] = [true, true, true, true, true, true, true, true];
                assert(next =~= all_on());
                panel.draft = Some(next);
                say_cores(panel, Status::Note("draft: all cores online — [a] apply"))
            },
            'a' => match p.draft {
                None => say_cores(panel, Status::Note("no draft to apply")),
                Some(want) => {
                    panel.draft = None;
                    CoresStep { panel, status: None, action: Action::ApplyCores { want, live } }
                },
            },
            'r' => {
                panel.draft = None;
                CoresStep { panel, status: None, action: Action::ResetCores }
            },
            'u' => match state {
                None => say_cores(
                    panel,
                    Status::Note("core map unavailable (need root + BC-250)"),
                ),
                Some(st) => match st {
                    CoreState::Locked => CoresStep {
                        panel,
                        status: None,
                        action: Action::Unlock,
                    },
                    CoreState::Unlocked => say_cores(panel, Status::Note("already unlocked")),
                    CoreState::PendingReboot => say_cores(
                        panel,
                        Status::Note("mask set — warm reboot needed to enumerate"),
                    ),
                    CoreState::Abnormal(m) => say_cores(panel, Status::AbnormalMask { mask: m }),
                },
            },
            'F' => match state {
                None => say_cores(
                    panel,
                    Status::Note("core map unavailable (need root + BC-250)"),
                ),
                Some(st) => match st {
                    CoreState::Unlocked => say_cores(panel, Status::Note("already unlocked")),
                    CoreState::PendingReboot => say_cores(
                        panel,
                        Status::Note("mask already 0xFF — warm reboot needed to enumerate"),
                    ),
                    CoreState::Locked => say_cores(
                        panel,
                        Status::Note("mask is stock 0x77 — use [u] for the safe unlock"),
                    ),
                    CoreState::Abnormal(_) => {
                        panel.force_confirm = true;
                        say_cores(
                            panel,
                            Status::Note(
                                "forced unlock armed — confirm [y] to write 0xFF, [esc] to cancel",
                            ),
                        )
                    },
                },
            },
            'i' => CoresStep { panel, status: None, action: Action::InstallUnit },
            'v' => if p.verifying {
                say_cores(panel, Status::Note("verify already running"))
            } else {
                panel.verifying = true;
                CoresStep {
                    panel,
                    status: Some(Status::Note("verify sweep running (20s/core, advisory)…")),
                    action: Action::StartVerify,
                }
            },
            _ => CoresStep { panel, status: None, action: Action::Nothing },
        },
        _ => CoresStep { panel, status: None, action: Action::Nothing },
    }
}

/// The cores below `n` that change, each with whether it goes online.
pub open spec fn changes_below(want: [bool; 8], live: [bool; 8], n: nat) -> Seq<(u32, bool)>
    decreases n,
{
    if n == 0 {
        seq![]
    } else {
        let before = changes_below(want, live, (n - 1) as nat);
        if want[n - 1] == live[n - 1] {
            before
        } else {
            before.push(((n - 1) as u32, want[n - 1]))
        }
    }
}

/// The cores that change, in order, each with whether it goes online.
pub fn core_changes(want: &[bool; 8], live: &[bool; 8]) -> (r: Vec<(u32, bool)>)
    ensures
        r@ == changes_below(*want, *live, 8),
{
    let mut r: Vec<(u32, bool)> = Vec::new();
    let mut i: usize = 0;
    while i < 8
        invariant
            i <= 8,
            r@ == changes_below(*want, *live, i as nat),
        decreases 8 - i,
    {
        if want[i] != live[i] {
            r.push((i as u32, want[i]));
        }
        i += 1;
    }
    r
}

// ---------------------------------------------------------------------------
// Compute units

/// What a key does in the compute-unit panel.
#[derive(Debug)]
pub struct CuStep {
    pub panel: CuPanel,
    pub status: Option<Status>,
    pub action: Action,
}

/// A route with one WGP turned over.
pub open spec fn toggled_route(m: [u32; 4], sel: int) -> [u32; 4] {
    vstd::array::spec_array_update(
        m,
        sel / 5,
        curoute::toggled(m[sel / 5], (sel % 5) as u32),
    )
}

/// The route of all units.
pub open spec fn full_route() -> [u32; 4] {
    [curoute::FULL_MASK, curoute::FULL_MASK, curoute::FULL_MASK, curoute::FULL_MASK]
}

/// The factory route.
pub open spec fn factory_route() -> [u32; 4] {
    [
        curoute::FACTORY_MASK,
        curoute::FACTORY_MASK,
        curoute::FACTORY_MASK,
        curoute::FACTORY_MASK,
    ]
}

/// A line to show and nothing to do.
pub open spec fn cu_say(panel: CuPanel, t: Status) -> CuStep {
    CuStep { panel, status: Some(t), action: Action::Nothing }
}

/// Another WGP selected.
pub open spec fn cu_at(p: CuPanel, sel: int) -> CuStep {
    CuStep {
        panel: CuPanel { sel: sel as usize, ..p },
        status: None,
        action: Action::Nothing,
    }
}

/// An edited draft.
pub open spec fn cu_redraft(p: CuPanel, draft: [u32; 4], t: Status) -> CuStep {
    cu_say(CuPanel { draft, dirty: true, ..p }, t)
}

/// Applying the draft: refused where it leaves an array empty.
pub open spec fn cu_apply(p: CuPanel) -> CuStep {
    if curoute::empty_somewhere(p.draft@) {
        cu_say(
            p,
            Status::Note(
                "refused: draft leaves a shader array EMPTY (compute would wedge the box)",
            ),
        )
    } else {
        CuStep {
            panel: p,
            status: None,
            action: Action::ApplyRoute { masks: p.draft },
        }
    }
}

/// Asking for a health test.
pub open spec fn cu_test(p: CuPanel, available: bool) -> CuStep {
    if available {
        CuStep {
            panel: CuPanel { test: true, health_shown: false, ..p },
            status: Some(Status::Note("health-testing 40 CU (KAT compute, ~a few seconds)…")),
            action: Action::Nothing,
        }
    } else {
        cu_say(p, Status::Note("health-test needs umr + a Vulkan ICD (RADV)"))
    }
}

/// Asking for a bench of the draft: refused where it leaves an array empty.
pub open spec fn cu_bench(p: CuPanel, available: bool) -> CuStep {
    if curoute::empty_somewhere(p.draft@) {
        cu_say(
            p,
            Status::Note("refused: draft leaves a shader array EMPTY (bench would wedge the box)"),
        )
    } else if available {
        cu_say(
            CuPanel { bench: true, ..p },
            Status::Benching { cu: curoute::routed_cu(p.draft@) as u32 },
        )
    } else {
        cu_say(p, Status::Note("bench needs umr + a Vulkan ICD (RADV)"))
    }
}

/// What a character does in the compute-unit panel.
pub open spec fn cu_char_step(p: CuPanel, available: bool, c: char) -> CuStep {
    if c == ' ' {
        cu_redraft(
            p,
            toggled_route(p.draft, p.sel as int),
            Status::Note("draft edited — [a] apply  [esc] revert"),
        )
    } else if c == 'f' {
        cu_redraft(p, full_route(), Status::Note("draft: all 40 CU — [a] apply"))
    } else if c == 't' {
        cu_redraft(p, factory_route(), Status::Note("draft: factory 24 CU — [a] apply"))
    } else if c == 'a' {
        cu_apply(p)
    } else if c == 'h' {
        cu_test(p, available)
    } else if c == 'b' {
        cu_bench(p, available)
    } else {
        cu_at(p, p.sel as int)
    }
}

/// What a key does in the compute-unit panel. `available` says whether compute
/// tests can run. A draft that leaves an array empty is neither applied nor
/// measured.
pub open spec fn cu_step(p: CuPanel, available: bool, k: Key) -> CuStep {
    match k {
        Key::Left => cu_at(p, if p.sel < 1 { 0 } else { p.sel - 1 }),
        Key::Right => cu_at(p, if p.sel + 1 > 19 { 19 } else { p.sel + 1 }),
        Key::Up => cu_at(p, if p.sel < 5 { 0 } else { p.sel - 5 }),
        Key::Down => cu_at(p, if p.sel + 5 > 19 { 19 } else { p.sel + 5 }),
        Key::Esc => cu_say(
            CuPanel { draft: p.live, dirty: false, ..p },
            Status::Note("draft reverted to live"),
        ),
        Key::Char(c) => cu_char_step(p, available, c),
        _ => cu_at(p, p.sel as int),
    }
}

fn say_cu(panel: CuPanel, t: Status) -> (r: CuStep)
    ensures
        r == cu_say(panel, t),
{
    CuStep { panel, status: Some(t), action: Action::Nothing }
}

fn move_cu(p: CuPanel, sel: usize) -> (r: CuStep)
    ensures
        r == cu_at(p, sel as int),
{
    CuStep {
        panel: CuPanel { sel, ..p },
        status: None,
        action: Action::Nothing,
    }
}

fn redraft_cu(p: CuPanel, draft: [u32; 4], t: Status) -> (r: CuStep)
    ensures
        r == cu_redraft(p, draft, t),
{
    say_cu(CuPanel { draft, dirty: true, ..p }, t)
}

fn toggle_cu(p: CuPanel) -> (r: [u32; 4])
    requires
        p.sel <= 19,
    ensures
        r == toggled_route(p.draft, p.sel as int),
{
    let a: usize = p.sel / 5;
    let w: u32 = (p.sel % 5) as u32;
    let mut next: [u32; 4] = p.draft;
    next[a] = (p.draft[a] ^ (1u32 << w)) % 32;
    assert(next =~= toggled_route(p.draft, p.sel as int));
    next
}

fn uniform_route(mask: u32) -> (r: [u32; 4])
    ensures
        mask == curoute::FULL_MASK ==> r == full_route(),
        mask == curoute::FACTORY_MASK ==> r == factory_route(),
{
    let r: [u32; 4] = [mask, mask, mask, mask];
    proof {
        if mask == curoute::FULL_MASK {
            assert(r =~= full_route());
        }
        if mask == curoute::FACTORY_MASK {
            assert(r =~= factory_route());
        }
    }
    r
}

fn apply_cu(p: CuPanel) -> (r: CuStep)
    ensures
        r == cu_apply(p),
{
    if curoute::has_empty_array(&p.draft) {
        say_cu(
            p,
            Status::Note(
                "refused: draft leaves a shader array EMPTY (compute would wedge the box)",
            ),
        )
    } else {
        CuStep {
            panel: p,
            status: None,
            action: Action::ApplyRoute { masks: p.draft },
        }
    }
}

fn test_cu(p: CuPanel, available: bool) -> (r: CuStep)
    ensures
        r == cu_test(p, available),
{
    if available {
        CuStep {
            panel: CuPanel { test: true, health_shown: false, ..p },
            status: Some(Status::Note("health-testing 40 CU (KAT compute, ~a few seconds)…")),
            action: Action::Nothing,
        }
    } else {
        say_cu(p, Status::Note("health-test needs umr + a Vulkan ICD (RADV)"))
    }
}

fn bench_cu(p: CuPanel, available: bool) -> (r: CuStep)
    ensures
        r == cu_bench(p, available),
{
    if curoute::has_empty_array(&p.draft) {
        say_cu(
            p,
            Status::Note("refused: draft leaves a shader array EMPTY (bench would wedge the box)"),
        )
    } else if available {
        say_cu(CuPanel { bench: true, ..p }, Status::Benching { cu: curoute::cu_count(&p.draft) })
    } else {
        say_cu(p, Status::Note("bench needs umr + a Vulkan ICD (RADV)"))
    }
}

fn cu_char(p: CuPanel, available: bool, c: char) -> (r: CuStep)
    requires
        p.sel <= 19,
    ensures
        r == cu_char_step(p, available, c),
{
    match c {
        ' ' => redraft_cu(
            p,
            toggle_cu(p),
            Status::Note("draft edited — [a] apply  [esc] revert"),
        ),
        'f' => redraft_cu(
            p,
            uniform_route(curoute::FULL_MASK),
            Status::Note("draft: all 40 CU — [a] apply"),
        ),
        't' => redraft_cu(
            p,
            uniform_route(curoute::FACTORY_MASK),
            Status::Note("draft: factory 24 CU — [a] apply"),
        ),
        'a' => apply_cu(p),
        'h' => test_cu(p, available),
        'b' => bench_cu(p, available),
        _ => move_cu(p, p.sel),
    }
}

/// A key in the compute-unit panel.
pub fn cu_key(p: CuPanel, available: bool, k: Key) -> (r: CuStep)
    requires
        p.sel <= 19,
    ensures
        r == cu_step(p, available, k),
        r.panel.sel <= 19,
{
    match k {
        Key::Left => move_cu(p, p.sel.saturating_sub(1)),
        Key::Right => move_cu(
            p,
            if p.sel >= 19 {
                19
            } else {
                p.sel + 1
            },
        ),
        Key::Up => move_cu(p, p.sel.saturating_sub(5)),
        Key::Down => move_cu(
            p,
            if p.sel >= 14 {
                19
            } else {
                p.sel + 5
            },
        ),
        Key::Esc => say_cu(
            CuPanel { draft: p.live, dirty: false, ..p },
            Status::Note("draft reverted to live"),
        ),
        Key::Char(c) => cu_char(p, available, c),
        _ => move_cu(p, p.sel),
    }
}

// ---------------------------------------------------------------------------
// The patch page

/// The last line that the page can be scrolled to.
pub open spec fn last_line(states: Seq<State>) -> int {
    let n = popup::popup_page(states).len() as int % 0x1_0000;
    if n == 0 { 0 } else { n - 1 }
}

/// The page's place after a key; `None` closes it.
pub open spec fn scrolled(scroll: int, last: int, k: Key) -> Option<int> {
    let down = |n: int| if scroll + n > last { last } else { scroll + n };
    let up = |n: int| if scroll < n { 0 } else { scroll - n };
    if k == Key::Esc || k == Key::Char('q') || k == Key::Char('p') {
        None
    } else if k == Key::Up || k == Key::Char('k') {
        Some(up(1))
    } else if k == Key::Down || k == Key::Char('j') {
        Some(down(1))
    } else if k == Key::PageUp {
        Some(up(10))
    } else if k == Key::PageDown {
        Some(down(10))
    } else if k == Key::Home || k == Key::Char('g') {
        Some(0)
    } else {
        Some(scroll)
    }
}

/// The page after a key.
pub open spec fn popup_step(pop: PatchPopup, k: Key) -> Option<PatchPopup> {
    match scrolled(pop.scroll as int, last_line(pop.states@), k) {
        Some(n) => Some(PatchPopup { scroll: n as u16, ..pop }),
        None => None,
    }
}

fn scroll_by(scroll: u16, n: u16, down: bool, last: u16) -> (r: u16)
    ensures
        down ==> r == (if scroll + n > last { last as int } else { scroll + n }),
        !down ==> r == (if scroll < n { 0 } else { scroll - n }),
{
    if down {
        let sum: u32 = scroll as u32 + n as u32;
        if sum > last as u32 {
            last
        } else {
            sum as u16
        }
    } else {
        scroll.saturating_sub(n)
    }
}

/// A key on the page about the patches.
pub fn popup_key(pop: PatchPopup, k: Key) -> (r: Option<PatchPopup>)
    ensures
        r == popup_step(pop, k),
{
    let n: usize = popup::patch_popup_lines(&pop.states).len() % 0x1_0000;
    let last: u16 = if n == 0 {
        0
    } else {
        (n - 1) as u16
    };
    let scroll: u16 = match k {
        Key::Esc => {
            return None;
        },
        Key::Up => scroll_by(pop.scroll, 1, false, last),
        Key::Down => scroll_by(pop.scroll, 1, true, last),
        Key::PageUp => scroll_by(pop.scroll, 10, false, last),
        Key::PageDown => scroll_by(pop.scroll, 10, true, last),
        Key::Home => 0,
        Key::Char(c) => match c {
            'q' => {
                return None;
            },
            'p' => {
                return None;
            },
            'k' => scroll_by(pop.scroll, 1, false, last),
            'j' => scroll_by(pop.scroll, 1, true, last),
            'g' => 0,
            _ => pop.scroll,
        },
        _ => pop.scroll,
    };
    Some(PatchPopup { scroll, ..pop })
}

// ---------------------------------------------------------------------------
// All keys

/// The new status where there is one, else the old.
pub open spec fn told(old: Status, new: Option<Status>) -> Status {
    match new {
        Some(t) => t,
        None => old,
    }
}

fn tell(old: Status, new: Option<Status>) -> (r: Status)
    ensures
        r == told(old, new),
{
    match new {
        Some(t) => t,
        None => old,
    }
}

/// The panel after another, round and round.
pub open spec fn next_focus(f: Focus, back: bool) -> Focus {
    match f {
        Focus::Fan => if back { Focus::Cu } else { Focus::Cpu },
        Focus::Cpu => if back { Focus::Fan } else { Focus::Cores },
        Focus::Cores => if back { Focus::Cpu } else { Focus::Gpu },
        Focus::Gpu => if back { Focus::Cores } else { Focus::Cu },
        Focus::Cu => if back { Focus::Gpu } else { Focus::Fan },
    }
}

fn focus_after(f: Focus, back: bool) -> (r: Focus)
    ensures
        r == next_focus(f, back),
{
    match f {
        Focus::Fan => if back {
            Focus::Cu
        } else {
            Focus::Cpu
        },
        Focus::Cpu => if back {
            Focus::Fan
        } else {
            Focus::Cores
        },
        Focus::Cores => if back {
            Focus::Cpu
        } else {
            Focus::Gpu
        },
        Focus::Gpu => if back {
            Focus::Cores
        } else {
            Focus::Cu
        },
        Focus::Cu => if back {
            Focus::Gpu
        } else {
            Focus::Fan
        },
    }
}

/// The cores that have a thread online.
pub open spec fn live_cores(cores: Option<CoreSnapshot>) -> [bool; 8] {
    [
        core_online(cores, 0),
        core_online(cores, 1),
        core_online(cores, 2),
        core_online(cores, 3),
        core_online(cores, 4),
        core_online(cores, 5),
        core_online(cores, 6),
        core_online(cores, 7),
    ]
}

/// The state of the core mask, where it was read.
pub open spec fn mask_state(cores: Option<CoreSnapshot>) -> Option<CoreState> {
    match cores {
        Some(c) => Some(c.state),
        None => None,
    }
}

/// A key in the focused panel.
pub open spec fn panel_step(s: ApuScreen, available: bool, k: Key) -> (ApuScreen, Action) {
    match s.focus {
        Focus::Gpu => {
            let g = gpu_step(s.gpu, s.editor, s.cpu.point, s.snap.gpu, k);
            (
                ApuScreen {
                    gpu: g.panel,
                    editor: g.editor,
                    cpu: CpuPanel { point: g.point, ..s.cpu },
                    status: told(s.status, g.status),
                    ..s
                },
                g.action,
            )
        },
        Focus::Cpu => {
            let c = cpu_step(s.cpu, s.editor, k);
            (
                ApuScreen {
                    cpu: c.panel,
                    editor: c.editor,
                    status: told(s.status, c.status),
                    ..s
                },
                c.action,
            )
        },
        Focus::Cores => {
            let c = cores_step(s.cores, live_cores(s.snap.cores), mask_state(s.snap.cores), k);
            (ApuScreen { cores: c.panel, status: told(s.status, c.status), ..s }, c.action)
        },
        Focus::Cu => {
            let c = cu_step(s.cu, available, k);
            (ApuScreen { cu: c.panel, status: told(s.status, c.status), ..s }, c.action)
        },
        Focus::Fan => {
            let f = fan_step(s.fan_target, s.snap.fan, k);
            (ApuScreen { fan_target: f.target, status: told(s.status, f.status), ..s }, f.action)
        },
    }
}

/// What a key does while the forced unlock waits for its confirmation: nothing
/// but an answer counts.
pub open spec fn confirm_step(s: ApuScreen, k: Key) -> (ApuScreen, Action) {
    if k == Key::Char('y') || k == Key::Char('Y') {
        (
            ApuScreen { cores: CoresPanel { force_confirm: false, ..s.cores }, ..s },
            Action::ForceUnlock,
        )
    } else if k == Key::Esc || k == Key::Char('n') || k == Key::Char('N') {
        (
            ApuScreen {
                cores: CoresPanel { force_confirm: false, ..s.cores },
                status: Status::Note("forced unlock cancelled — nothing was written"),
                ..s
            },
            Action::Nothing,
        )
    } else {
        (s, Action::Nothing)
    }
}

/// What a key does: an open confirmation or page has every key; otherwise the
/// focus moves, the page opens, or the focused panel has the key.
pub open spec fn dispatch_step(s: ApuScreen, available: bool, k: Key) -> (ApuScreen, Action) {
    if s.cores.force_confirm {
        confirm_step(s, k)
    } else if s.patch_popup is Some {
        (ApuScreen { patch_popup: popup_step(s.patch_popup->0, k), ..s }, Action::Nothing)
    } else if s.editor.edit is Idle && k == Key::Char('p') {
        (s, Action::OpenPatches)
    } else if s.editor.edit is Idle && (k == Key::Tab || k == Key::BackTab) {
        panel_step(
            ApuScreen { focus: next_focus(s.focus, k == Key::BackTab), ..s },
            available,
            k,
        )
    } else {
        panel_step(s, available, k)
    }
}

fn state_of_mask(cores: &Option<CoreSnapshot>) -> (r: Option<CoreState>)
    ensures
        r == mask_state(*cores),
{
    match cores {
        Some(c) => Some(c.state),
        None => None,
    }
}

fn panel_key(app: ApuScreen, available: bool, k: Key) -> (r: (ApuScreen, Action))
    requires
        app.wf(),
        app.focus == Focus::Gpu && app.gpu.sel == 6 ==> app.snap.gpu.ranges.vddc_ordered(),
    ensures
        r == panel_step(app, available, k),
        r.0.wf(),
{
    match app.focus {
        Focus::Gpu => {
            let g = gpu_key(app.gpu, app.editor, app.cpu.point, &app.snap.gpu, k);
            let action: Action = g.action;
            let status = tell(app.status, g.status);
            let cpu = CpuPanel { point: g.point, ..app.cpu };
            (ApuScreen { gpu: g.panel, editor: g.editor, cpu, status, ..app }, action)
        },
        Focus::Cpu => {
            let c = cpu_key(app.cpu, app.editor, k);
            let action: Action = c.action;
            let status = tell(app.status, c.status);
            (ApuScreen { cpu: c.panel, editor: c.editor, status, ..app }, action)
        },
        Focus::Cores => {
            let live = core_live_draft(&app.snap.cores);
            assert(live =~= live_cores(app.snap.cores));
            let c = cores_key(app.cores, live, state_of_mask(&app.snap.cores), k);
            let action: Action = c.action;
            let status = tell(app.status, c.status);
            (ApuScreen { cores: c.panel, status, ..app }, action)
        },
        Focus::Cu => {
            let c = cu_key(app.cu, available, k);
            let action: Action = c.action;
            let status = tell(app.status, c.status);
            (ApuScreen { cu: c.panel, status, ..app }, action)
        },
        Focus::Fan => {
            let f = fan_key(app.fan_target, &app.snap.fan, k);
            let action: Action = f.action;
            let status = tell(app.status, f.status);
            (ApuScreen { fan_target: f.target, status, ..app }, action)
        },
    }
}

/// A key that has been found to be for the screen.
pub fn dispatch_key(app: ApuScreen, available: bool, k: Key) -> (r: (ApuScreen, Action))
    requires
        app.wf(),
        app.meets_voltage(k) ==> app.snap.gpu.ranges.vddc_ordered(),
    ensures
        r == dispatch_step(app, available, k),
        r.0.wf(),
{
    let idle: bool = match app.editor.edit {
        Edit::Idle => true,
        Edit::Value(_) => false,
    };
    if app.cores.force_confirm {
        confirm_key(app, k)
    } else if app.patch_popup.is_some() {
        let pop = match app.patch_popup {
            Some(pop) => popup_key(pop, k),
            None => None,
        };
        (ApuScreen { patch_popup: pop, ..app }, Action::Nothing)
    } else if idle && is_char(k, 'p') {
        (app, Action::OpenPatches)
    } else if idle && (k == Key::Tab || k == Key::BackTab) {
        let focus: Focus = focus_after(app.focus, k == Key::BackTab);
        panel_key(ApuScreen { focus, ..app }, available, k)
    } else {
        panel_key(app, available, k)
    }
}

fn is_char(k: Key, c: char) -> (r: bool)
    ensures
        r == (k == Key::Char(c)),
{
    match k {
        Key::Char(x) => x == c,
        _ => false,
    }
}

fn confirm_key(app: ApuScreen, k: Key) -> (r: (ApuScreen, Action))
    requires
        app.wf(),
    ensures
        r == confirm_step(app, k),
        r.0.wf(),
{
    let cores = CoresPanel { force_confirm: false, ..app.cores };
    if is_char(k, 'y') || is_char(k, 'Y') {
        (ApuScreen { cores, ..app }, Action::ForceUnlock)
    } else if k == Key::Esc || is_char(k, 'n') || is_char(k, 'N') {
        (
            ApuScreen {
                cores,
                status: Status::Note("forced unlock cancelled — nothing was written"),
                ..app
            },
            Action::Nothing,
        )
    } else {
        (app, Action::Nothing)
    }
}

/// A key of the surrounding shell: modified, a function key, or a digit that
/// switches its tabs.
pub open spec fn is_shell_key(p: KeyPress) -> bool {
    p.ctrl || p.alt || p.key == Key::Function || p.key == Key::Char('1') || p.key == Key::Char('2')
        || p.key == Key::Char('3') || p.key == Key::Char('4')
}

/// What a key press does. Outside of a modal state the shell's keys are left to
/// it and `q` ends the program.
pub open spec fn handle_step(s: ApuScreen, available: bool, p: KeyPress) -> (
    ApuScreen,
    Outcome,
    Action,
) {
    if !s.is_modal() && is_shell_key(p) {
        (s, Outcome::Ignored, Action::Nothing)
    } else if !s.is_modal() && p.key == Key::Char('q') {
        (s, Outcome::Quit, Action::Nothing)
    } else {
        let (next, action) = dispatch_step(s, available, p.key);
        (next, Outcome::Consumed, action)
    }
}

/// A key press. `available` says whether compute tests can run.
pub fn handle_key(app: ApuScreen, available: bool, p: KeyPress) -> (r: (
    ApuScreen,
    Outcome,
    Action,
))
    requires
        app.wf(),
        app.meets_voltage(p.key) ==> app.snap.gpu.ranges.vddc_ordered(),
    ensures
        r == handle_step(app, available, p),
        r.0.wf(),
{
    if !app.modal() {
        let digit: bool = is_char(p.key, '1') || is_char(p.key, '2') || is_char(p.key, '3')
            || is_char(p.key, '4');
        if p.ctrl || p.alt || p.key == Key::Function || digit {
            return (app, Outcome::Ignored, Action::Nothing);
        }
        if is_char(p.key, 'q') {
            return (app, Outcome::Quit, Action::Nothing);
        }
    }
    let (next, action) = dispatch_key(app, available, p.key);
    (next, Outcome::Consumed, action)
}

// ---------------------------------------------------------------------------
// Laws

/// Opening the clock pin or the voltage and pressing Enter again with nothing
/// typed does nothing at all.
pub proof fn bare_double_enter_is_no_change(p: GpuPanel, typed: bool, point: CpuOc, g: GpuFacts)
    requires
        p.sel == 4 || p.sel == 6,
    ensures
        ({
            let idle = Editor { edit: Edit::Idle, typed };
            let one = gpu_step(p, idle, point, g, Key::Enter);
            let two = gpu_step(one.panel, one.editor, one.point, g, Key::Enter);
            &&& one.action == Action::Nothing
            &&& two.action == Action::Nothing
            &&& two.editor.edit == Edit::Idle
            &&& two.panel == (GpuPanel { armed: false, ..p })
            &&& two.point == point
        }),
{
}

/// A pin or a set voltage is released by two presses in a row, never by one:
/// any key between them disarms the release.
pub proof fn release_takes_two_presses(
    p: GpuPanel,
    e: Editor,
    point: CpuOc,
    g: GpuFacts,
    k: Key,
)
    requires
        g.force_mhz is Some || g.od_vddc is Some,
    ensures
        gpu_step(p, e, point, g, k).action == Action::Release ==> p.armed && k == Key::Char('u')
            && e.edit == Edit::Idle,
        k != Key::Char('u') ==> !gpu_step(p, e, point, g, k).panel.armed,
        e.edit == Edit::Idle ==> ({
            let one = gpu_step(GpuPanel { armed: false, ..p }, e, point, g, Key::Char('u'));
            let two = gpu_step(one.panel, one.editor, one.point, g, Key::Char('u'));
            one.action == Action::Nothing && two.action == Action::Release
        }),
{
}

/// A voltage that is asked for is never below the floor of the highest clock
/// that the setpoints can lead to.
pub proof fn voltage_is_never_below_the_floor(
    p: GpuPanel,
    e: Editor,
    point: CpuOc,
    g: GpuFacts,
    k: Key,
)
    requires
        g.ranges.vddc_ordered(),
    ensures
        gpu_step(p, e, point, g, k).action matches Action::SetVoltage { mv }
            ==> telemetry::safe_floor(top_clock(g), g.ranges) <= mv <= vddc_range(g.ranges).1,
{
    telemetry::floor_is_in_range(0, g.ranges);
}

/// The first step off the automatic curve never slows a fan that runs.
pub proof fn first_fan_step_never_slows(fan: FanFacts, duty: u32)
    requires
        fan.writable,
        fan.carrier.duty_pct == Some(duty),
        duty <= 100,
    ensures
        ({
            let s = fan_step(None, fan, Key::Up);
            s.target is Some && s.target->0 >= duty && s.target->0 >= FAN_MIN_PCT
        }),
{
}

/// The first core is never taken offline: a draft that has it online keeps it
/// online, and so does a new draft.
pub proof fn first_core_is_never_drafted_off(
    p: CoresPanel,
    live: [bool; 8],
    state: Option<CoreState>,
    k: Key,
)
    requires
        p.sel < 8,
        live[0],
        p.draft matches Some(d) ==> d[0],
    ensures
        cores_step(p, live, state, k).panel.draft matches Some(d) ==> d[0],
        cores_step(p, live, state, k).action matches Action::ApplyCores { want, live: l } ==> want[0],
{
}

/// A draft that leaves a shader array empty is neither applied nor benched.
pub proof fn empty_draft_is_never_used(p: CuPanel, available: bool, k: Key)
    requires
        curoute::empty_somewhere(p.draft@),
        !p.bench,
    ensures
        !(cu_step(p, available, k).action is ApplyRoute),
        !cu_step(p, available, k).panel.bench,
{
}

/// In a modal state every key belongs to the screen; outside of one the shell's
/// keys change nothing.
pub proof fn modal_keys_never_leak(s: ApuScreen, available: bool, p: KeyPress)
    ensures
        s.is_modal() ==> handle_step(s, available, p).1 == Outcome::Consumed,
        !s.is_modal() && is_shell_key(p) ==> handle_step(s, available, p).0 == s && handle_step(
            s,
            available,
            p,
        ).1 == Outcome::Ignored,
{
}

proof fn gpu_never_forces_an_unlock(p: GpuPanel, e: Editor, point: CpuOc, g: GpuFacts, k: Key)
    ensures
        gpu_step(p, e, point, g, k).action != Action::ForceUnlock,
{
}

proof fn cpu_never_forces_an_unlock(p: CpuPanel, e: Editor, k: Key)
    ensures
        cpu_step(p, e, k).action != Action::ForceUnlock,
{
}

proof fn cores_panel_only_asks(p: CoresPanel, live: [bool; 8], state: Option<CoreState>, k: Key)
    ensures
        cores_step(p, live, state, k).action != Action::ForceUnlock,
        !p.force_confirm && cores_step(p, live, state, k).panel.force_confirm ==> state is Some
            && state->0 is Abnormal,
{
}

proof fn cu_never_forces_an_unlock(p: CuPanel, available: bool, k: Key)
    ensures
        cu_step(p, available, k).action != Action::ForceUnlock,
{
}

proof fn fan_never_forces_an_unlock(target: Option<u8>, fan: FanFacts, k: Key)
    ensures
        fan_step(target, fan, k).action != Action::ForceUnlock,
{
}

proof fn panels_only_ask(s: ApuScreen, available: bool, k: Key)
    ensures
        panel_step(s, available, k).1 != Action::ForceUnlock,
        !s.cores.force_confirm && panel_step(s, available, k).0.cores.force_confirm ==> mask_state(
            s.snap.cores,
        ) is Some && mask_state(s.snap.cores)->0 is Abnormal,
{
    match s.focus {
        Focus::Gpu => gpu_never_forces_an_unlock(s.gpu, s.editor, s.cpu.point, s.snap.gpu, k),
        Focus::Cpu => cpu_never_forces_an_unlock(s.cpu, s.editor, k),
        Focus::Cores => cores_panel_only_asks(
            s.cores,
            live_cores(s.snap.cores),
            mask_state(s.snap.cores),
            k,
        ),
        Focus::Cu => cu_never_forces_an_unlock(s.cu, available, k),
        Focus::Fan => fan_never_forces_an_unlock(s.fan_target, s.snap.fan, k),
    }
}

/// A forced unlock is asked for only by answering its confirmation, and the
/// confirmation is opened only on a mask that is neither stock nor full.
pub proof fn forced_unlock_is_confirmed(s: ApuScreen, available: bool, k: Key)
    ensures
        dispatch_step(s, available, k).1 == Action::ForceUnlock ==> s.cores.force_confirm && (k
            == Key::Char('y') || k == Key::Char('Y')),
        !s.cores.force_confirm && dispatch_step(s, available, k).0.cores.force_confirm
            ==> mask_state(s.snap.cores) is Some && mask_state(s.snap.cores)->0 is Abnormal,
{
    let moved = ApuScreen { focus: next_focus(s.focus, k == Key::BackTab), ..s };
    panels_only_ask(s, available, k);
    panels_only_ask(moved, available, k);
}

/// While the confirmation is open nothing but an answer does anything.
pub proof fn confirmation_takes_answers_only(s: ApuScreen, available: bool, k: Key)
    requires
        s.cores.force_confirm,
        k != Key::Char('y') && k != Key::Char('Y') && k != Key::Esc && k != Key::Char('n') && k
            != Key::Char('N'),
    ensures
        dispatch_step(s, available, k) == (s, Action::Nothing),
{
}

/// A key is a digit exactly where it is one of the ten, and counts for its own
/// number.
pub proof fn digits_count_for_themselves(k: Key)
    ensures
        k matches Key::Char(c) ==> (key_digit(k) is Some <==> 48 <= text::code(c) <= 57),
        k matches Key::Char(c) ==> (key_digit(k) matches Some(d) ==> d == text::code(c) - 48),
        !(k is Char) ==> key_digit(k) is None,
{
}

/// The arrows move a value by its step and never out of its range; a mirrored
/// field is moved the other way round. With room for the step, one arrow undoes
/// the other.
pub proof fn arrows_stay_in_the_range(v: int, typed: bool, f: FieldRange)
    requires
        f.lo <= v <= f.hi,
    ensures
        ({
            let more = edited(v, typed, if f.mirrored { Key::Left } else { Key::Right }, f);
            let less = edited(v, typed, if f.mirrored { Key::Right } else { Key::Left }, f);
            &&& more is Some && less is Some
            &&& v <= more->0 <= f.hi
            &&& f.lo <= less->0 <= v
            &&& more->0 == v + f.step || (more->0 == f.hi && v + f.step > f.hi)
            &&& less->0 == v - f.step || (less->0 == f.lo && v - f.step < f.lo)
            &&& v + f.step <= f.hi ==> edited(
                more->0,
                true,
                if f.mirrored { Key::Right } else { Key::Left },
                f,
            ) == Some(v)
        }),
{
}

/// A first digit begins the value anew whatever it was, a further one is
/// appended, and Backspace takes the last one off again. No value goes over the
/// field's highest.
pub proof fn digits_are_typed_and_taken_back(v: int, other: int, k: Key, f: FieldRange)
    requires
        0 <= v,
        key_digit(k) is Some,
    ensures
        ({
            let d = key_digit(k)->0;
            &&& edited(v, false, k, f) == edited(other, false, k, f)
            &&& d <= f.hi ==> edited(v, false, k, f) == Some(d)
            &&& 10 * v + d <= f.hi ==> edited(v, true, k, f) == Some(10 * v + d)
            &&& 10 * v + d <= f.hi ==> edited(edited(v, true, k, f)->0, true, Key::Backspace, f)
                == Some(v)
            &&& edited(v, true, k, f)->0 <= f.hi
            &&& edited(v, false, k, f)->0 <= f.hi
        }),
{
}

/// Only the two arrows, Backspace and digits change an edited value.
pub proof fn other_keys_do_not_edit(v: int, typed: bool, k: Key, f: FieldRange)
    ensures
        edited(v, typed, k, f) is Some <==> k == Key::Left || k == Key::Right || k == Key::Backspace
            || key_digit(k) is Some,
{
}

/// The fan is dialled in steps of five between 20 and 100 percent; a step below
/// 20 is the automatic curve, and the first step off it starts from the current
/// duty. Dialling alone sets nothing.
pub proof fn fan_is_dialled_by_fives(p: u8, fan: FanFacts)
    requires
        fan.writable,
        20 <= p <= 100,
    ensures
        ({
            let up = fan_step(Some(p), fan, Key::Up);
            let down = fan_step(Some(p), fan, Key::Down);
            &&& up.target is Some && up.target->0 <= 100
            &&& up.target->0 == p + 5 || (p > 95 && up.target->0 == 100)
            &&& p >= 25 ==> down.target is Some && down.target->0 == p - 5
            &&& p < 25 ==> down.target is None
            &&& up == fan_step(Some(p), fan, Key::Right)
            &&& down == fan_step(Some(p), fan, Key::Left)
            &&& up.action == Action::Nothing && down.action == Action::Nothing
        }),
        ({
            let first = fan_step(None, fan, Key::Up);
            &&& first.target is Some && 20 <= first.target->0 <= 100
            &&& fan.carrier.duty_pct matches Some(d) ==> (20 <= d <= 100 ==> first.target->0 == d)
            &&& fan.carrier.duty_pct is None ==> first.target->0 == 20
            &&& fan_step(None, fan, Key::Down).target is None
            &&& first.action == Action::Nothing
        }),
{
}

/// Enter and `m` set the duty that is dialled, `a` the automatic curve; a fan
/// that cannot be written is never set and its dial stays.
pub proof fn fan_is_set_as_dialled(target: Option<u8>, fan: FanFacts, k: Key)
    ensures
        fan.writable && (k == Key::Enter || k == Key::Char('m')) ==> fan_step(target, fan, k).action
            == (Action::SetFan { pct: target }) && fan_step(target, fan, k).target == target,
        fan.writable && k == Key::Char('a') ==> fan_step(target, fan, k).action == (Action::SetFan {
            pct: None,
        }) && fan_step(target, fan, k).target is None,
        !fan.writable ==> fan_step(target, fan, k).action == Action::Nothing && fan_step(
            target,
            fan,
            k,
        ).target == target,
        fan_step(target, fan, k).action != Action::Nothing ==> k == Key::Enter || k == Key::Char('m')
            || k == Key::Char('a'),
{
}

/// The fields of the GPU panel: clocks in 350 to 2500 MHz by tens, the
/// temperature cap in 60 to 100 degrees by ones, the voltage by fives.
pub proof fn gpu_fields_have_their_ranges(sel: usize, g: GpuFacts)
    ensures
        sel < 5 ==> gpu_field(sel, g).lo == 350 && gpu_field(sel, g).hi == 2500 && gpu_field(
            sel,
            g,
        ).step == 10,
        gpu_field(5, g).lo == 60 && gpu_field(5, g).hi == 100 && gpu_field(5, g).step == 1,
        gpu_field(6, g).step == 5,
        g.ranges.vddc matches Some((lo, hi)) ==> gpu_field(6, g).hi == hi,
        g.ranges.vddc is None ==> gpu_field(6, g).hi == 1129,
        !gpu_field(sel, g).mirrored,
{
}

/// The fields of the CPU panel: the boost clock in 2800 to 4100 MHz by tens, the
/// depth of the undervolt up to 50, shown negative, and the temperature cap in
/// 60 to 100 degrees, both by ones.
pub proof fn cpu_fields_have_their_ranges(sel: usize)
    ensures
        cpu_field(0).lo == 2800 && cpu_field(0).hi == 4100 && cpu_field(0).step == 10,
        cpu_field(1).lo == 0 && cpu_field(1).hi == 50 && cpu_field(1).step == 1,
        cpu_field(2).lo == 60 && cpu_field(2).hi == 100 && cpu_field(2).step == 1,
        sel <= 2 ==> (cpu_field(sel).mirrored <==> sel == 1),
{
}

/// The highest clock that the setpoints can lead to is one of them, and none is
/// above it.
pub proof fn top_clock_is_the_highest(g: GpuFacts)
    ensures
        top_clock(g) >= g.top_set,
        top_clock(g) >= g.gov.high_mhz,
        g.force_mhz matches Some(m) ==> top_clock(g) >= m,
        top_clock(g) == g.top_set || top_clock(g) == g.gov.high_mhz || (g.force_mhz is Some
            && top_clock(g) == g.force_mhz->0),
{
}

/// Setting a tier sets that tier's clock and no other.
pub proof fn one_tier_is_set(gov: GovernorConfig, tier: usize, mhz: u32, g: GpuFacts)
    requires
        tier < 4,
        g.gov == gov,
    ensures
        ({
            let r = with_tier(gov, tier, mhz);
            &&& r.high_mhz == (if tier == 0 { mhz } else { gov.high_mhz })
            &&& r.mid_mhz == (if tier == 1 { mhz } else { gov.mid_mhz })
            &&& r.idle_mhz == (if tier == 2 { mhz } else { gov.idle_mhz })
            &&& r.deep_mhz == (if tier == 3 { mhz } else { gov.deep_mhz })
        }),
        with_tier(gov, tier, gpu_seed(tier, g, 0)) == gov,
        with_tier(with_tier(gov, tier, mhz), tier, gpu_seed(tier, g, 0)) == gov,
{
}

/// An edit starts from what is in force: applying it unchanged leaves the point
/// and the tiers as they are.
pub proof fn edit_starts_from_what_is_set(p: CpuPanel, g: GpuFacts, point: CpuOc)
    requires
        p.point.curve_scale <= 0,
        p.sel <= 2,
    ensures
        cpu_with(p.point, p.sel, cpu_seed(p)) == p.point,
        gpu_seed(5, g, point.gpu_temp_c) == point.gpu_temp_c,
        g.force_mhz matches Some(m) ==> gpu_seed(4, g, point.gpu_temp_c) == m,
        g.force_mhz is None ==> gpu_seed(4, g, point.gpu_temp_c) == g.top_set,
        g.od_vddc matches Some(v) ==> gpu_seed(6, g, point.gpu_temp_c) == v,
        g.od_vddc is None && g.vid is Some ==> gpu_seed(6, g, point.gpu_temp_c) == g.vid->0,
        g.od_vddc is None && g.vid is None ==> gpu_seed(6, g, point.gpu_temp_c) == 1000,
{
}

/// Enter on an edited GPU field applies the value as it was typed, to that
/// field, and ends the edit; a value outside of the field's range is held in it.
pub proof fn gpu_edit_is_applied(p: GpuPanel, v: u32, point: CpuOc, g: GpuFacts)
    requires
        p.sel <= 6,
        g.ranges.vddc_ordered(),
    ensures
        ({
            let e = Editor { edit: Edit::Value(v), typed: true };
            let f = gpu_field(p.sel, g);
            let s = gpu_step(p, e, point, g, Key::Enter);
            let set = match s.action {
                Action::SetTier { tier, mhz } => mhz,
                Action::ForceClock { mhz } => mhz,
                Action::SetGpuTemp { c, point } => c,
                Action::SetVoltage { mv } => mv,
                _ => 0,
            };
            &&& p.sel <= 3 ==> s.action is SetTier && s.action->tier == p.sel
            &&& p.sel == 4 ==> s.action is ForceClock && s.panel.force == set
            &&& p.sel == 5 ==> s.action is SetGpuTemp && s.point.gpu_temp_c == set
            &&& p.sel == 6 ==> s.action is SetVoltage
            &&& f.lo <= v <= f.hi ==> set == v
            &&& v < f.lo ==> set == f.lo
            &&& v > f.hi ==> set == f.hi
            &&& s.editor.edit is Idle
            &&& s.panel.sel == p.sel
            &&& p.sel != 5 ==> s.point == point
            &&& s.point.boost_mhz == point.boost_mhz
            &&& s.point.curve_scale == point.curve_scale
            &&& s.point.cpu_temp_c == point.cpu_temp_c
            &&& s.action matches Action::SetGpuTemp { c, point } ==> point == s.point
        }),
{
    telemetry::floor_is_in_range(top_clock(g) as u32, g.ranges);
}

/// Enter on an edited CPU field puts the value into that field alone. The whole
/// point is applied from the one before, where there is a mailbox.
pub proof fn cpu_edit_is_applied(p: CpuPanel, v: u32, typed: bool)
    requires
        p.sel <= 2,
        cpu_field(p.sel).lo <= v <= cpu_field(p.sel).hi,
    ensures
        ({
            let s = cpu_step(p, Editor { edit: Edit::Value(v), typed }, Key::Enter);
            let now = s.panel.point;
            &&& now.boost_mhz == (if p.sel == 0 { v } else { p.point.boost_mhz })
            &&& now.curve_scale == (if p.sel == 1 { -v } else { p.point.curve_scale as int })
            &&& now.cpu_temp_c == (if p.sel == 2 { v } else { p.point.cpu_temp_c })
            &&& now.gpu_temp_c == p.point.gpu_temp_c
            &&& s.editor.edit is Idle
            &&& p.mailbox ==> s.action == (Action::ApplyCpu { point: now, prev: p.point })
            &&& !p.mailbox ==> s.action == Action::Nothing
        }),
{
}

/// Escape ends an edit without doing anything, in either panel.
pub proof fn escape_cancels(p: GpuPanel, c: CpuPanel, e: Editor, point: CpuOc, g: GpuFacts)
    requires
        e.edit is Value,
    ensures
        ({
            let s = gpu_step(p, e, point, g, Key::Esc);
            let t = cpu_step(c, e, Key::Esc);
            &&& s.editor.edit is Idle && t.editor.edit is Idle
            &&& s.action == Action::Nothing && t.action == Action::Nothing
            &&& s.point == point && t.panel == c
            &&& s.panel.sel == p.sel && s.panel.force == p.force
        }),
{
}

/// Up and Down select the neighbouring field and stop at the first and the last.
pub proof fn fields_are_selected_in_turn(p: GpuPanel, c: CpuPanel, typed: bool, point: CpuOc, g: GpuFacts)
    requires
        p.sel <= 6,
        c.sel <= 2,
    ensures
        ({
            let idle = Editor { edit: Edit::Idle, typed };
            &&& gpu_step(p, idle, point, g, Key::Down).panel.sel == (if p.sel < 6 {
                p.sel + 1
            } else {
                6
            })
            &&& gpu_step(p, idle, point, g, Key::Up).panel.sel == (if p.sel > 0 {
                p.sel - 1
            } else {
                0
            })
            &&& cpu_step(c, idle, Key::Down).panel.sel == (if c.sel < 2 { c.sel + 1 } else { 2 })
            &&& cpu_step(c, idle, Key::Up).panel.sel == (if c.sel > 0 { c.sel - 1 } else { 0 })
            &&& gpu_step(p, idle, point, g, Key::Down).action == Action::Nothing
            &&& cpu_step(c, idle, Key::Down).action == Action::Nothing
        }),
{
}

/// With neither a pin nor a set voltage the release key releases at once.
pub proof fn nothing_held_is_released_at_once(p: GpuPanel, typed: bool, point: CpuOc, g: GpuFacts)
    requires
        g.force_mhz is None,
        g.od_vddc is None,
    ensures
        gpu_step(p, Editor { edit: Edit::Idle, typed }, point, g, Key::Char('u')).action
            == Action::Release,
{
}

/// The first press on the release key names what is held: the pin, or else the
/// voltage.
pub proof fn release_names_what_is_held(p: GpuPanel, typed: bool, point: CpuOc, g: GpuFacts)
    requires
        !p.armed,
    ensures
        ({
            let s = gpu_step(p, Editor { edit: Edit::Idle, typed }, point, g, Key::Char('u'));
            &&& g.force_mhz matches Some(m) ==> s.status == Some(Status::PinActive { mhz: m })
            &&& g.force_mhz is None ==> (g.od_vddc matches Some(v) ==> s.status == Some(
                Status::VoltageActive { mv: v },
            ))
        }),
{
}

/// Restoring the firmware's defaults is asked for by its key, with a mailbox,
/// outside of an edit, and by nothing else.
pub proof fn restoring_is_asked_for(p: CpuPanel, e: Editor, k: Key)
    ensures
        cpu_step(p, e, k).action == Action::RestoreCpu <==> k == Key::Char('r') && p.mailbox
            && e.edit is Idle,
{
}

/// The cores are selected round and round, and each arrow undoes the other.
pub proof fn cores_are_selected_in_a_round(p: CoresPanel, live: [bool; 8], state: Option<CoreState>)
    requires
        p.sel < 8,
    ensures
        ({
            let right = cores_step(p, live, state, Key::Right).panel;
            let left = cores_step(p, live, state, Key::Left).panel;
            &&& right.sel == (if p.sel == 7 { 0 } else { p.sel + 1 })
            &&& left.sel == (if p.sel == 0 { 7 } else { p.sel - 1 })
            &&& cores_step(right, live, state, Key::Left).panel == p
            &&& cores_step(left, live, state, Key::Right).panel == p
            &&& cores_step(p, live, state, Key::Char(']')).panel == right
            &&& cores_step(p, live, state, Key::Char('[')).panel == left
        }),
{
}

/// The space key turns the selected core over in the draft and leaves the
/// others; a draft begins from the cores as they are.
pub proof fn one_core_is_turned_over(p: CoresPanel, live: [bool; 8], state: Option<CoreState>, i: int)
    requires
        p.sel < 8,
        0 <= i < 8,
    ensures
        ({
            let d = if p.draft is Some { p.draft->0 } else { live };
            let s = cores_step(p, live, state, Key::Char(' '));
            &&& s.panel.draft is Some
            &&& i != p.sel ==> s.panel.draft->0[i] == d[i]
            &&& p.sel > 0 ==> s.panel.draft->0[p.sel as int] == !d[p.sel as int]
            &&& p.sel == 0 ==> s.panel.draft->0[0]
            &&& s.action == Action::Nothing
        }),
{
}

/// One key drafts the first core alone, another one all of them; applying hands
/// over the draft as it stands and Escape drops it.
pub proof fn draft_is_handed_over(p: CoresPanel, live: [bool; 8], state: Option<CoreState>, i: int)
    requires
        0 <= i < 8,
    ensures
        ({
            let d = if p.draft is Some { p.draft->0 } else { live };
            let one = cores_step(p, live, state, Key::Char('o')).panel.draft;
            let all = cores_step(p, live, state, Key::Char('O')).panel.draft;
            let apply = cores_step(p, live, state, Key::Char('a'));
            &&& one is Some && one->0[0] == d[0] && (i > 0 ==> !one->0[i])
            &&& all is Some && all->0[i]
            &&& p.draft matches Some(want) ==> apply.action == (Action::ApplyCores { want, live })
            &&& p.draft is None ==> apply.action == Action::Nothing
            &&& apply.panel.draft is None
            &&& cores_step(p, live, state, Key::Esc).panel.draft is None
            &&& cores_step(p, live, state, Key::Esc).action == Action::Nothing
        }),
{
}

/// The safe unlock is asked for on the stock mask alone, and a sweep is started
/// only where none runs.
pub proof fn unlock_is_for_the_stock_mask(p: CoresPanel, live: [bool; 8], state: Option<CoreState>, k: Key)
    ensures
        cores_step(p, live, state, k).action == Action::Unlock <==> k == Key::Char('u') && state
            == Some(CoreState::Locked),
        cores_step(p, live, state, k).action == Action::StartVerify <==> k == Key::Char('v')
            && !p.verifying,
        cores_step(p, live, state, k).action == Action::ResetCores <==> k == Key::Char('r'),
        cores_step(p, live, state, k).action == Action::InstallUnit <==> k == Key::Char('i'),
{
}

/// The changes lead from the cores as they are to those wanted: a core is in
/// them exactly where the two differ, with what is wanted, and they are in
/// order, each core once.
pub proof fn changes_lead_to_what_is_wanted(want: [bool; 8], live: [bool; 8], n: nat)
    requires
        n <= 8,
    ensures
        ({
            let c = changes_below(want, live, n);
            &&& forall|j: int|
                0 <= j < c.len() ==> (#[trigger] c[j]).0 < n && c[j].1 == want[c[j].0 as int]
                    && c[j].1 != live[c[j].0 as int]
            &&& forall|i: int|
                0 <= i < n && #[trigger] want[i] != live[i] ==> exists|j: int|
                    0 <= j < c.len() && (#[trigger] c[j]).0 == i
            &&& forall|j: int, k: int|
                0 <= j < k < c.len() ==> (#[trigger] c[j]).0 < (#[trigger] c[k]).0
        }),
    decreases n,
{
    if n > 0 {
        changes_lead_to_what_is_wanted(want, live, (n - 1) as nat);
        let before = changes_below(want, live, (n - 1) as nat);
        let c = changes_below(want, live, n);
        assert forall|i: int| 0 <= i < n && #[trigger] want[i] != live[i] implies exists|j: int|
            0 <= j < c.len() && (#[trigger] c[j]).0 == i by {
            if i < n - 1 {
                let j = choose|j: int| 0 <= j < before.len() && (#[trigger] before[j]).0 == i;
                assert(c[j].0 == i);
            } else {
                assert(c[c.len() - 1].0 == i);
            }
        }
    }
}

/// The work groups are selected in four rows of five: Left and Right go along a
/// row and on to the next one, Up and Down change the row, and neither end is
/// left.
pub proof fn work_groups_are_selected_in_rows(p: CuPanel, available: bool)
    requires
        p.sel <= 19,
    ensures
        cu_step(p, available, Key::Right).panel.sel == (if p.sel < 19 { p.sel + 1 } else { 19 }),
        cu_step(p, available, Key::Left).panel.sel == (if p.sel > 0 { p.sel - 1 } else { 0 }),
        p.sel <= 14 ==> cu_step(p, available, Key::Down).panel.sel == p.sel + 5,
        p.sel > 14 ==> cu_step(p, available, Key::Down).panel.sel == 19,
        p.sel >= 5 ==> cu_step(p, available, Key::Up).panel.sel == p.sel - 5,
        p.sel < 5 ==> cu_step(p, available, Key::Up).panel.sel == 0,
        cu_step(p, available, Key::Right).panel.draft == p.draft,
        cu_step(p, available, Key::Down).panel.draft == p.draft,
{
}

/// The space key turns over the selected work group: the array of its row has
/// the bit of its column turned, and the other arrays stay.
pub proof fn one_work_group_is_turned_over(p: CuPanel, available: bool, row: int)
    requires
        p.sel <= 19,
        0 <= row < 4,
    ensures
        ({
            let s = cu_step(p, available, Key::Char(' '));
            &&& row != p.sel as int / 5 ==> s.panel.draft[row] == p.draft[row]
            &&& row == p.sel as int / 5 ==> s.panel.draft[row] == curoute::toggled(
                p.draft[row],
                (p.sel as int % 5) as u32,
            )
            &&& s.panel.dirty
            &&& s.panel.live == p.live
            &&& s.action == Action::Nothing
        }),
{
}

/// One key drafts all five work groups of every array, another one the factory's
/// three; Escape goes back to the route in force.
pub proof fn whole_routes_are_drafted(p: CuPanel, available: bool, row: int)
    requires
        0 <= row < 4,
    ensures
        cu_step(p, available, Key::Char('f')).panel.draft[row] == 0x1F,
        cu_step(p, available, Key::Char('t')).panel.draft[row] == 0x07,
        cu_step(p, available, Key::Char('f')).panel.dirty,
        cu_step(p, available, Key::Char('t')).panel.dirty,
        cu_step(p, available, Key::Esc).panel.draft == p.live,
        !cu_step(p, available, Key::Esc).panel.dirty,
{
}

/// Applying hands over the draft, and only a draft without an empty array. A test
/// or a bench is asked for only where compute tests can run.
pub proof fn drafted_route_is_applied(p: CuPanel, available: bool, k: Key)
    ensures
        cu_step(p, available, k).action is ApplyRoute <==> k == Key::Char('a')
            && !curoute::empty_somewhere(p.draft@),
        cu_step(p, available, k).action matches Action::ApplyRoute { masks } ==> masks == p.draft,
        !p.test ==> (cu_step(p, available, k).panel.test <==> k == Key::Char('h') && available),
        !p.bench ==> (cu_step(p, available, k).panel.bench <==> k == Key::Char('b') && available
            && !curoute::empty_somewhere(p.draft@)),
{
}

/// The page about the patches is scrolled by one line or by ten, between its
/// first line and its last, and is closed by three keys alone.
pub proof fn page_is_scrolled_by_lines(scroll: int, last: int, k: Key)
    requires
        0 <= scroll <= last,
    ensures
        scrolled(scroll, last, k) is None <==> k == Key::Esc || k == Key::Char('q') || k
            == Key::Char('p'),
        scrolled(scroll, last, k) matches Some(n) ==> 0 <= n <= last,
        scroll < last ==> scrolled(scroll, last, Key::Down) == Some(scroll + 1),
        scroll > 0 ==> scrolled(scroll, last, Key::Up) == Some(scroll - 1),
        scroll + 10 <= last ==> scrolled(scroll, last, Key::PageDown) == Some(scroll + 10),
        scroll + 10 > last ==> scrolled(scroll, last, Key::PageDown) == Some(last),
        scroll >= 10 ==> scrolled(scroll, last, Key::PageUp) == Some(scroll - 10),
        scroll < 10 ==> scrolled(scroll, last, Key::PageUp) == Some(0int),
        scrolled(scroll, last, Key::Home) == Some(0int),
        scrolled(scroll, last, Key::Char('j')) == scrolled(scroll, last, Key::Down),
        scrolled(scroll, last, Key::Char('k')) == scrolled(scroll, last, Key::Up),
        scrolled(scroll, last, Key::Char('g')) == scrolled(scroll, last, Key::Home),
{
}

/// Tab goes round the five panels, fan, CPU, cores, GPU, compute units, and the
/// other way undoes it.
pub proof fn panels_are_gone_round(f: Focus)
    ensures
        next_focus(next_focus(f, false), true) == f,
        next_focus(next_focus(f, true), false) == f,
        next_focus(Focus::Fan, false) == Focus::Cpu,
        next_focus(Focus::Cpu, false) == Focus::Cores,
        next_focus(Focus::Cores, false) == Focus::Gpu,
        next_focus(Focus::Gpu, false) == Focus::Cu,
        next_focus(Focus::Cu, false) == Focus::Fan,
{
}

/// A key changes the focused panel alone, and what it tells replaces the line;
/// without anything told the line stays.
pub proof fn focused_panel_has_the_key(s: ApuScreen, available: bool, k: Key)
    ensures
        ({
            let n = panel_step(s, available, k).0;
            &&& n.focus == s.focus
            &&& s.focus != Focus::Gpu ==> n.gpu == s.gpu
            &&& s.focus != Focus::Cores ==> n.cores == s.cores
            &&& s.focus != Focus::Cu ==> n.cu == s.cu
            &&& s.focus != Focus::Fan ==> n.fan_target == s.fan_target
            &&& s.focus != Focus::Cpu && s.focus != Focus::Gpu ==> n.cpu == s.cpu && n.editor
                == s.editor
            &&& n.snap == s.snap
            &&& n.patch_popup == s.patch_popup
            &&& s.focus == Focus::Gpu ==> n.cpu.sel == s.cpu.sel && n.cpu.mailbox == s.cpu.mailbox
        }),
        told(s.status, None) == s.status,
{
}

/// Outside of an edit, a page and a confirmation, `p` asks for the patches and
/// Tab moves the focus; an open page has every key and does nothing else.
pub proof fn page_is_opened_and_kept(s: ApuScreen, available: bool, k: Key)
    requires
        !s.cores.force_confirm,
    ensures
        s.patch_popup is None && s.editor.edit is Idle ==> dispatch_step(
            s,
            available,
            Key::Char('p'),
        ) == (s, Action::OpenPatches),
        s.patch_popup is Some ==> dispatch_step(s, available, k).1 == Action::Nothing
            && dispatch_step(s, available, k).0 == (ApuScreen {
            patch_popup: dispatch_step(s, available, k).0.patch_popup,
            ..s
        }),
        s.patch_popup is None && s.editor.edit is Idle ==> dispatch_step(
            s,
            available,
            Key::Tab,
        ).0.focus == next_focus(s.focus, false),
        s.patch_popup is None && s.editor.edit is Idle ==> dispatch_step(
            s,
            available,
            Key::BackTab,
        ).0.focus == next_focus(s.focus, true),
{
}

/// A confirmation that is answered is closed; a yes asks for the forced unlock
/// and a no for nothing.
pub proof fn confirmation_is_answered(s: ApuScreen, available: bool)
    requires
        s.cores.force_confirm,
    ensures
        dispatch_step(s, available, Key::Char('y')).1 == Action::ForceUnlock,
        dispatch_step(s, available, Key::Char('Y')).1 == Action::ForceUnlock,
        !dispatch_step(s, available, Key::Char('y')).0.cores.force_confirm,
        dispatch_step(s, available, Key::Char('n')).1 == Action::Nothing,
        !dispatch_step(s, available, Key::Char('n')).0.cores.force_confirm,
        dispatch_step(s, available, Key::Esc).1 == Action::Nothing,
        !dispatch_step(s, available, Key::Esc).0.cores.force_confirm,
{
}

/// The shell has the modified keys, the function keys and the digits 1 to 4;
/// outside of a modal state `q` ends the program and nothing else does.
pub proof fn shell_keys_and_the_end(s: ApuScreen, available: bool, p: KeyPress)
    ensures
        is_shell_key(p) <==> p.ctrl || p.alt || p.key == Key::Function || (p.key matches Key::Char(c)
            && 49 <= text::code(c) <= 52),
        handle_step(s, available, p).1 is Quit <==> !s.is_modal() && !p.ctrl && !p.alt && p.key
            == Key::Char('q'),
        handle_step(s, available, p).1 is Ignored <==> !s.is_modal() && is_shell_key(p),
        !(handle_step(s, available, p).1 is Reboot),
        !(handle_step(s, available, p).1 is Consumed) ==> handle_step(s, available, p).2
            == Action::Nothing && handle_step(s, available, p).0 == s,
        handle_step(s, available, p).1 is Consumed ==> handle_step(s, available, p).0
            == dispatch_step(s, available, p.key).0 && handle_step(s, available, p).2
            == dispatch_step(s, available, p.key).1,
{
    assert(text::code('1') == 49 && text::code('2') == 50 && text::code('3') == 51 && text::code(
        '4',
    ) == 52);
}

/// A screen is modal while a page or a confirmation is open or a field is
/// edited, and a worker is one of the two compute jobs.
pub proof fn modal_states(s: ApuScreen)
    ensures
        s.patch_popup is Some ==> s.is_modal(),
        s.cores.force_confirm ==> s.is_modal(),
        s.editor.edit is Value ==> s.is_modal(),
        s.patch_popup is None && !s.cores.force_confirm && s.editor.edit is Idle ==> !s.is_modal(),
        s.cu.testing ==> s.cu.worker(),
        s.cu.benching ==> s.cu.worker(),
        s.cu.worker() ==> s.cu.testing || s.cu.benching,
{
}

/// A key meets the voltage field exactly where the GPU panel has it with that field
/// selected: the focused panel, or the next one for Tab outside of an edit.
pub proof fn voltage_field_is_met(s: ApuScreen, k: Key)
    ensures
        k != Key::Tab && k != Key::BackTab ==> (s.meets_voltage(k) <==> s.focus == Focus::Gpu
            && s.gpu.sel == 6),
        s.editor.edit is Value ==> (s.meets_voltage(k) <==> s.focus == Focus::Gpu && s.gpu.sel == 6),
        s.editor.edit is Idle ==> (s.meets_voltage(Key::Tab) <==> s.focus == Focus::Cores
            && s.gpu.sel == 6),
        s.editor.edit is Idle ==> (s.meets_voltage(Key::BackTab) <==> s.focus == Focus::Cu
            && s.gpu.sel == 6),
{
}

/// The page about the patches can be scrolled to its last line.
pub proof fn page_ends_at_its_last_line(states: Seq<State>)
    requires
        popup::popup_page(states).len() <= 0xFFFF,
    ensures
        popup::popup_page(states).len() > 0 ==> last_line(states) == popup::popup_page(states).len()
            - 1,
        popup::popup_page(states).len() == 0 ==> last_line(states) == 0,
{
}

/// In a sound screen seven GPU fields, three CPU fields, twenty work groups and
/// eight cores can be selected, and a dialled duty is 20 to 100 percent.
pub proof fn selections_are_within_their_panels(s: ApuScreen)
    requires
        s.wf(),
    ensures
        s.gpu.sel < 7,
        s.cpu.sel < 3,
        s.cu.sel < 20,
        s.cores.sel < 8,
        s.fan_target matches Some(p) ==> 20 <= p <= 100,
        s.editor.edit is Value ==> s.focus == Focus::Cpu || s.focus == Focus::Gpu,
{
}

} // verus!
