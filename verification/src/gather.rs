//! What is read about the machine, put together for the screen.
use vstd::prelude::*;

use crate::cores::CoreSnapshot;
use crate::cpu::CpuOc;
use crate::curoute::FULL_MASK;
use crate::detect;
use crate::detect::Report;
use crate::double::Double;
use crate::dpm::{AutoMode, GovernorConfig, PowerConfig};
use crate::patches;
use crate::refresh;
use crate::screen::{
    ApuScreen, CoresPanel, CpuPanel, CuPanel, Edit, Editor, FanFacts, Focus, GpuFacts, GpuPanel,
    Snapshot,
};
use crate::status::Status;
use crate::telemetry::{Carrier, OdRanges};
use crate::text;

verus! {

// ---------------------------------------------------------------------------
// Sensors

/// A sensor directory: the text of its name node, and that of the one node in
/// question where it could be read.
#[derive(Debug)]
pub struct Sensor {
    pub name: String,
    pub node: Option<String>,
}

/// A sensor directory: the text of its name node, and its first temperature in
/// thousandths of a degree where there is one.
#[derive(Debug)]
pub struct TempSensor {
    pub name: String,
    pub temp_mc: Option<Double>,
}

/// The temperature of the first CPU directory that has one.
pub open spec fn package_temp(dirs: Seq<TempSensor>) -> Option<Double>
    decreases dirs.len(),
{
    if dirs.len() == 0 {
        None
    } else if text::trimmed(dirs[0].name@) == "k10temp"@ && dirs[0].temp_mc is Some {
        dirs[0].temp_mc
    } else {
        package_temp(dirs.drop_first())
    }
}

/// CPU package temperature in thousandths of a degree: of the CPU's own sensor,
/// never the GPU's.
pub fn cpu_temp_mc(dirs: &Vec<TempSensor>) -> (r: Option<Double>)
    ensures
        r == package_temp(dirs@),
{
    let mut i: usize = 0;
    assert(dirs@.skip(0) =~= dirs@);
    while i < dirs.len()
        invariant
            i <= dirs@.len(),
            package_temp(dirs@.skip(i as int)) == package_temp(dirs@),
        decreases dirs@.len() - i,
    {
        assert(dirs@.skip(i as int).drop_first() =~= dirs@.skip(i + 1));
        if text::same(text::trim(dirs[i].name.as_str()), "k10temp") {
            if let Some(t) = dirs[i].temp_mc {
                return Some(t);
            }
        }
        i += 1;
    }
    None
}

/// The power node of the first GPU directory, among those whose node has a
/// number.
pub open spec fn power_uw(dirs: Seq<Sensor>) -> Option<int>
    decreases dirs.len(),
{
    if dirs.len() == 0 {
        None
    } else if text::trimmed(dirs[0].name@) == "amdgpu"@ && dirs[0].node is Some && text::number(
        text::trimmed(dirs[0].node->0@),
        10,
        u64::MAX as int,
    ) is Some {
        text::number(text::trimmed(dirs[0].node->0@), 10, u64::MAX as int)
    } else {
        power_uw(dirs.drop_first())
    }
}

/// Whole watts of millionths of one.
pub open spec fn watts(uw: int) -> u32 {
    ((uw / 1_000_000) % 0x1_0000_0000) as u32
}

/// Package power in whole watts, of the GPU's sensor alone. `dirs` holds the
/// average power of each directory, in millionths.
pub fn gpu_power_w(dirs: &Vec<Sensor>) -> (r: Option<u32>)
    ensures
        match power_uw(dirs@) {
            Some(uw) => r == Some(((uw / 1_000_000) % 0x1_0000_0000) as u32),
            None => r is None,
        },
        power_uw(dirs@) matches Some(uw) ==> r == Some(watts(uw)),
{
    let mut i: usize = 0;
    assert(dirs@.skip(0) =~= dirs@);
    while i < dirs.len()
        invariant
            i <= dirs@.len(),
            power_uw(dirs@.skip(i as int)) == power_uw(dirs@),
        decreases dirs@.len() - i,
    {
        assert(dirs@.skip(i as int).drop_first() =~= dirs@.skip(i + 1));
        if text::same(text::trim(dirs[i].name.as_str()), "amdgpu") {
            if let Some(node) = &dirs[i].node {
                if let Some(uw) = text::parse_number(text::trim(node.as_str()), 10, u64::MAX) {
                    return Some(((uw / 1_000_000) % 0x1_0000_0000) as u32);
                }
            }
        }
        i += 1;
    }
    None
}

/// The lines that are no rulers.
pub open spec fn without_rulers(lines: Seq<Seq<char>>) -> Seq<Seq<char>>
    decreases lines.len(),
{
    if lines.len() == 0 {
        seq![]
    } else if text::begins(lines.last(), "==="@) {
        without_rulers(lines.drop_last())
    } else {
        without_rulers(lines.drop_last()).push(lines.last())
    }
}

/// The SMU's telemetry in lines, without its rulers; nothing where it cannot be
/// read.
pub fn telemetry_lines(node: Option<&str>) -> (r: Vec<String>)
    ensures
        text::texts(r@) == match node {
            Some(t) => without_rulers(text::lines_of(t@)),
            None => seq![],
        },
{
    let mut r: Vec<String> = Vec::new();
    assert(text::texts(r@) =~= seq![]);
    if let Some(t) = node {
        let lines = text::lines(t);
        let ghost all = text::lines_of(t@);
        let mut i: usize = 0;
        assert(all.take(0) =~= seq![]);
        while i < lines.len()
            invariant
                i <= lines@.len(),
                all == text::slices(lines@),
                text::texts(r@) == without_rulers(all.take(i as int)),
            decreases lines@.len() - i,
        {
            assert(all.take(i + 1).drop_last() =~= all.take(i as int));
            let line: &str = lines[i];
            assert(line@ == all[i as int]);
            if !text::starts_with(line, "===") {
                let own = line.to_owned();
                proof {
                    text::texts_push(r@, own);
                }
                r.push(own);
            }
            i += 1;
        }
        assert(all.take(i as int) =~= all);
    }
    r
}

// ---------------------------------------------------------------------------
// Snapshot

/// What was read, source by source.
#[derive(Debug)]
pub struct Readings {
    /// The node of the running kernel's release.
    pub kernel: Option<String>,
    pub gfxclk: Option<u32>,
    pub temp_mc: Option<Double>,
    pub unit_active: bool,
    pub unit_installed: bool,
    pub gov: GovernorConfig,
    pub carrier: Carrier,
    pub fan_writable: bool,
    pub fan_enable: Option<u8>,
    /// Clock and voltage of the overdrive point.
    pub od: Option<(u32, u32)>,
    pub ranges: OdRanges,
    pub vid: Option<u32>,
    pub power_w: Option<u32>,
    pub cores: Option<CoreSnapshot>,
    pub cores_unit: bool,
}

/// What is shown of the GPU. The mode comes from the saved setpoints, which the
/// boot unit goes by, not from which unit happens to run.
pub open spec fn gpu_facts(cfg: PowerConfig, x: Readings) -> GpuFacts {
    GpuFacts {
        gfxclk: x.gfxclk,
        top_set: cfg.top_mhz,
        force_mhz: cfg.force_mhz,
        governor_on: cfg.force_mhz is None && cfg.auto_mode == AutoMode::Governor,
        unit_active: x.unit_active,
        unit_installed: x.unit_installed,
        gov: x.gov,
        od_vddc: match x.od {
            Some(p) => Some(p.1),
            None => None,
        },
        od_sclk: match x.od {
            Some(p) => Some(p.0),
            None => None,
        },
        ranges: x.ranges,
        vid: x.vid,
        power_w: x.power_w,
    }
}

/// The snapshot of the machine.
pub fn gather(rep: &Report, cfg: &PowerConfig, x: Readings) -> (r: Snapshot)
    ensures
        r.is_bc250 == rep.is_bc250,
        r.kernel@ == match x.kernel {
            Some(t) => text::trimmed(t@),
            None => seq![],
        },
        r.fully == detect::all_live(rep.rows@),
        r.present == detect::live_count(rep.rows@),
        r.total == 24,
        r.temp_mc == x.temp_mc,
        r.gpu == gpu_facts(*cfg, x),
        r.fan == (FanFacts {
            carrier: x.carrier,
            writable: x.fan_writable,
            enable: x.fan_enable,
        }),
        r.cores == x.cores,
        r.cores_unit == x.cores_unit,
{
    let kernel: String = match &x.kernel {
        Some(t) => text::trim(t.as_str()).to_owned(),
        None => String::new(),
    };
    let (od_sclk, od_vddc): (Option<u32>, Option<u32>) = match x.od {
        Some((c, v)) => (Some(c), Some(v)),
        None => (None, None),
    };
    Snapshot {
        is_bc250: rep.is_bc250,
        kernel,
        fully: rep.fully_patched(),
        present: rep.live(),
        total: patches::count(),
        temp_mc: x.temp_mc,
        gpu: GpuFacts {
            gfxclk: x.gfxclk,
            top_set: cfg.top_mhz,
            force_mhz: cfg.force_mhz,
            governor_on: cfg.force_mhz.is_none() && cfg.auto_mode == AutoMode::Governor,
            unit_active: x.unit_active,
            unit_installed: x.unit_installed,
            gov: x.gov,
            od_vddc,
            od_sclk,
            ranges: x.ranges,
            vid: x.vid,
            power_w: x.power_w,
        },
        fan: FanFacts { carrier: x.carrier, writable: x.fan_writable, enable: x.fan_enable },
        cores: x.cores,
        cores_unit: x.cores_unit,
    }
}

// ---------------------------------------------------------------------------
// A fresh screen

/// The compute-unit panel before anything was read.
pub open spec fn unread_cu() -> CuPanel {
    CuPanel {
        live: [FULL_MASK, FULL_MASK, FULL_MASK, FULL_MASK],
        draft: [FULL_MASK, FULL_MASK, FULL_MASK, FULL_MASK],
        driver: None,
        sel: 0,
        ok: false,
        dirty: false,
        test: false,
        test_armed: false,
        testing: false,
        bench: false,
        bench_armed: false,
        benching: false,
        bench_draft: [FULL_MASK, FULL_MASK, FULL_MASK, FULL_MASK],
        bench_result: None,
        health_shown: false,
    }
}

fn fresh_cu() -> (r: CuPanel)
    ensures
        r == unread_cu(),
{
    CuPanel {
        live: [FULL_MASK, FULL_MASK, FULL_MASK, FULL_MASK],
        draft: [FULL_MASK, FULL_MASK, FULL_MASK, FULL_MASK],
        driver: None,
        sel: 0,
        ok: false,
        dirty: false,
        test: false,
        test_armed: false,
        testing: false,
        bench: false,
        bench_armed: false,
        benching: false,
        bench_draft: [FULL_MASK, FULL_MASK, FULL_MASK, FULL_MASK],
        bench_result: None,
        health_shown: false,
    }
}

impl ApuScreen {
    /// A screen that has not been entered: nothing is edited, drafted or asked
    /// for, no mailbox is open, and the fan dial stands on automatic.
    pub fn new(snap: Snapshot, point: CpuOc) -> (r: ApuScreen)
        ensures
            r.focus == Focus::Fan,
            r.snap == snap,
            r.status == Status::Note("ready"),
            r.editor == (Editor { edit: Edit::Idle, typed: false }),
            r.gpu == (GpuPanel { sel: 0, force: 0, armed: false }),
            r.cpu == (CpuPanel { point, sel: 0, mailbox: false }),
            r.cores == (CoresPanel {
                sel: 0,
                draft: None,
                verifying: false,
                force_confirm: false,
            }),
            r.cu == unread_cu(),
            r.cu_health@.len() == 0,
            r.fan_target is None,
            r.patch_popup is None,
            r.cores_report is None,
            r.wf(),
    {
        ApuScreen {
            focus: Focus::Fan,
            snap,
            status: Status::Note("ready"),
            editor: Editor { edit: Edit::Idle, typed: false },
            gpu: GpuPanel { sel: 0, force: 0, armed: false },
            cpu: CpuPanel { point, sel: 0, mailbox: false },
            cores: CoresPanel { sel: 0, draft: None, verifying: false, force_confirm: false },
            cu: fresh_cu(),
            cu_health: Vec::new(),
            fan_target: None,
            patch_popup: None,
            cores_report: None,
        }
    }
}

/// The pin that the GPU panel starts from: the pin in force, else the top
/// setpoint.
pub open spec fn pin_seed(g: GpuFacts) -> u32 {
    match g.force_mhz {
        Some(m) => m,
        None => g.top_set,
    }
}

/// The panels when the screen gains the focus: the route as it was read, the
/// draft on it, and the pin from the real state, so that a stray confirmation
/// changes nothing.
pub fn enter(
    gpu: GpuPanel,
    cu: CuPanel,
    facts: &GpuFacts,
    live: Option<[u32; 4]>,
    driver: Option<[u32; 4]>,
) -> (r: (GpuPanel, CuPanel))
    ensures
        r.0 == (GpuPanel { force: pin_seed(*facts), ..gpu }),
        ({
            let read = refresh::with_masks(cu, live, driver);
            r.1 == (CuPanel { draft: read.live, ..read })
        }),
{
    let force: u32 = match facts.force_mhz {
        Some(m) => m,
        None => facts.top_set,
    };
    let read: CuPanel = refresh::refresh_masks(cu, live, driver);
    (GpuPanel { force, ..gpu }, CuPanel { draft: read.live, ..read })
}

// ---------------------------------------------------------------------------
// Laws

/// The CPU's temperature is that of the first directory of its own sensor that
/// has one; no other sensor stands in for it.
pub proof fn temperature_is_of_the_first_cpu_sensor(dirs: Seq<TempSensor>)
    ensures
        package_temp(dirs) is None <==> forall|i: int|
            0 <= i < dirs.len() && text::trimmed((#[trigger] dirs[i]).name@) == "k10temp"@
                ==> dirs[i].temp_mc is None,
        package_temp(dirs) is Some ==> exists|i: int|
            {
                &&& 0 <= i < dirs.len()
                &&& text::trimmed((#[trigger] dirs[i]).name@) == "k10temp"@
                &&& dirs[i].temp_mc == package_temp(dirs)
                &&& forall|j: int|
                    0 <= j < i && text::trimmed((#[trigger] dirs[j]).name@) == "k10temp"@
                        ==> dirs[j].temp_mc is None
            },
    decreases dirs.len(),
{
    if dirs.len() > 0 {
        let rest = dirs.drop_first();
        assert(forall|i: int| 0 <= i < rest.len() ==> rest[i] == dirs[#[trigger] (i + 1)]);
        assert(forall|i: int| 1 <= i < dirs.len() ==> #[trigger] dirs[i] == rest[i - 1]);
        temperature_is_of_the_first_cpu_sensor(rest);
        if text::trimmed(dirs[0].name@) == "k10temp"@ && dirs[0].temp_mc is Some {
            assert(package_temp(dirs) == dirs[0].temp_mc);
        } else if package_temp(rest) is Some {
            let i = choose|i: int|
                {
                    &&& 0 <= i < rest.len()
                    &&& text::trimmed((#[trigger] rest[i]).name@) == "k10temp"@
                    &&& rest[i].temp_mc == package_temp(rest)
                    &&& forall|j: int|
                        0 <= j < i && text::trimmed((#[trigger] rest[j]).name@) == "k10temp"@
                            ==> rest[j].temp_mc is None
                };
            assert(dirs[i + 1] == rest[i]);
            assert forall|j: int|
                0 <= j < i + 1 && text::trimmed((#[trigger] dirs[j]).name@)
                    == "k10temp"@ implies dirs[j].temp_mc is None by {
                if j > 0 {
                    assert(dirs[j] == rest[j - 1]);
                }
            }
        } else {
            assert forall|j: int|
                0 <= j < dirs.len() && text::trimmed((#[trigger] dirs[j]).name@)
                    == "k10temp"@ implies dirs[j].temp_mc is None by {
                if j > 0 {
                    assert(dirs[j] == rest[j - 1]);
                }
            }
        }
    }
}

/// A number in a sensor's node.
pub open spec fn node_number(d: Sensor) -> Option<int> {
    match d.node {
        Some(t) => text::number(text::trimmed(t@), 10, u64::MAX as int),
        None => None,
    }
}

/// Power is read from a GPU directory whose node has a number, and there is none
/// where there is no such directory.
pub proof fn power_is_of_the_gpu_sensor(dirs: Seq<Sensor>)
    ensures
        power_uw(dirs) is Some ==> exists|i: int|
            {
                &&& 0 <= i < dirs.len()
                &&& text::trimmed((#[trigger] dirs[i]).name@) == "amdgpu"@
                &&& node_number(dirs[i]) == power_uw(dirs)
            },
        power_uw(dirs) is None ==> forall|i: int|
            0 <= i < dirs.len() && text::trimmed((#[trigger] dirs[i]).name@) == "amdgpu"@
                ==> node_number(dirs[i]) is None,
    decreases dirs.len(),
{
    if dirs.len() > 0 {
        let rest = dirs.drop_first();
        power_is_of_the_gpu_sensor(rest);
        if text::trimmed(dirs[0].name@) == "amdgpu"@ && node_number(dirs[0]) is Some {
            assert(node_number(dirs[0]) == power_uw(dirs));
        } else if power_uw(rest) is Some {
            let i = choose|i: int|
                {
                    &&& 0 <= i < rest.len()
                    &&& text::trimmed((#[trigger] rest[i]).name@) == "amdgpu"@
                    &&& node_number(rest[i]) == power_uw(rest)
                };
            assert(dirs[i + 1] == rest[i]);
        } else {
            assert forall|j: int|
                0 <= j < dirs.len() && text::trimmed((#[trigger] dirs[j]).name@)
                    == "amdgpu"@ implies node_number(dirs[j]) is None by {
                if j > 0 {
                    assert(dirs[j] == rest[j - 1]);
                }
            }
        }
    }
}

/// A directory before a GPU directory with a number does not change the power,
/// unless it is such a directory itself: the first one counts.
pub proof fn first_gpu_sensor_counts(d: Sensor, rest: Seq<Sensor>)
    ensures
        ({
            let own = text::trimmed(d.name@) == "amdgpu"@ && node_number(d) is Some;
            &&& own ==> power_uw(seq![d] + rest) == node_number(d)
            &&& !own ==> power_uw(seq![d] + rest) == power_uw(rest)
        }),
{
    assert((seq![d] + rest).drop_first() =~= rest);
}

/// Whole watts are the millionths rounded down.
pub proof fn watts_round_down(uw: int)
    requires
        0 <= uw < 1_000_000 * 0x1_0000_0000,
    ensures
        watts(uw) * 1_000_000 <= uw < (watts(uw) + 1) * 1_000_000,
{
}

/// No ruler is shown, and every other line is, in order: what is shown of two
/// parts is what is shown of each.
pub proof fn rulers_alone_are_left_out(a: Seq<Seq<char>>, line: Seq<char>)
    ensures
        text::begins(line, "==="@) ==> without_rulers(a.push(line)) == without_rulers(a),
        !text::begins(line, "==="@) ==> without_rulers(a.push(line)) == without_rulers(a).push(
            line,
        ),
        without_rulers(seq![]) == Seq::<Seq<char>>::empty(),
{
    assert(a.push(line).drop_last() =~= a);
}

/// What is shown of the GPU is what was read and what is saved: the governor is
/// on exactly where no clock is pinned and it is the saved mode.
pub proof fn facts_come_from_their_sources(cfg: PowerConfig, x: Readings, clock: u32, mv: u32)
    ensures
        ({
            let g = gpu_facts(cfg, x);
            &&& g.governor_on <==> cfg.force_mhz is None && cfg.auto_mode is Governor
            &&& g.force_mhz == cfg.force_mhz
            &&& g.top_set == cfg.top_mhz
            &&& g.gfxclk == x.gfxclk
            &&& g.vid == x.vid
            &&& g.power_w == x.power_w
            &&& g.unit_active == x.unit_active
            &&& g.unit_installed == x.unit_installed
            &&& x.od == Some((clock, mv)) ==> g.od_sclk == Some(clock) && g.od_vddc == Some(mv)
            &&& x.od is None ==> g.od_sclk is None && g.od_vddc is None
            &&& pin_seed(g) == (if cfg.force_mhz is Some { cfg.force_mhz->0 } else { cfg.top_mhz })
        }),
{
}

/// Before anything was read the panel shows every work group of the arrays
/// routed, and nothing is drafted, asked for or running.
pub proof fn unread_panel_is_at_rest()
    ensures
        unread_cu().live@ == unread_cu().draft@,
        forall|i: int| 0 <= i < 4 ==> #[trigger] unread_cu().live@[i] == 0x1F,
        !unread_cu().ok && !unread_cu().dirty && !unread_cu().testing && !unread_cu().benching,
        !unread_cu().test_armed && !unread_cu().bench_armed && !unread_cu().health_shown,
{
}

/// Before anything was read the first work group is selected and no result is
/// shown.
pub proof fn unread_panel_starts_at_the_first()
    ensures
        unread_cu().sel == 0,
        unread_cu().driver is None,
        unread_cu().bench_result is None,
        !unread_cu().test && !unread_cu().bench,
        forall|i: int| 0 <= i < 4 ==> #[trigger] unread_cu().bench_draft@[i] == 0x1F,
{
}

} // verus!
