//! What the control screen refreshes on a tick, and what it makes of the
//! results of its actions.
use vstd::prelude::*;

use crate::cpu::CpuOc;
use crate::curoute;
use crate::cutest;
use crate::cutest::KatResult;
use crate::dpm::AutoMode;
use crate::gpuctl::ForceOutcome;
use crate::screen::{BenchShown, CpuPanel, CuPanel, Edit, Editor, Focus};
use crate::status::Status;
use crate::text;

verus! {

// ---------------------------------------------------------------------------
// Ticks

/// Time since each part of the screen was refreshed.
#[derive(Clone, Copy, Debug, PartialEq, Eq, Structural)]
pub struct Elapsed {
    pub snap_ns: u64,
    pub meters_ns: u64,
    pub masks_ns: u64,
    pub cpu_ns: u64,
}

/// A worker to start.
#[derive(Clone, Copy, Debug, PartialEq, Eq)]
pub enum Worker {
    /// The health test of all units.
    Health,
    /// The bench of a route.
    Bench { masks: [u32; 4] },
}

/// What a tick refreshes.
#[derive(Clone, Copy, Debug, PartialEq, Eq)]
pub struct TickPlan {
    pub start: Option<Worker>,
    /// Read the machine and the CPU's activity.
    pub snapshot: bool,
    /// Take the saved CPU point over.
    pub reload_cpu: bool,
    /// Read the SMU's telemetry, which goes through its mailbox.
    pub telemetry: bool,
    /// Read voltage, power and temperature, which does not.
    pub meters: bool,
    /// Read the route, which goes through the registers that a worker writes.
    pub masks: bool,
    /// Read the CPU through its mailbox.
    pub cpu_live: bool,
}

/// The worker that starts: one that was asked for two ticks ago, if none runs.
pub open spec fn starts(p: CuPanel) -> Option<Worker> {
    if p.worker() {
        None
    } else if p.test_armed {
        Some(Worker::Health)
    } else if p.bench_armed {
        Some(Worker::Bench { masks: p.draft })
    } else {
        None
    }
}

/// The panel after a tick: a worker that starts is no longer armed, and a
/// request becomes armed, so that its line is drawn before it starts.
pub open spec fn ticked(p: CuPanel) -> CuPanel {
    let started = match starts(p) {
        Some(Worker::Health) => CuPanel { test_armed: false, testing: true, ..p },
        Some(Worker::Bench { masks }) => CuPanel {
            bench_armed: false,
            benching: true,
            bench_draft: masks,
            ..p
        },
        None => p,
    };
    CuPanel {
        test: false,
        test_armed: p.test || started.test_armed,
        bench: false,
        bench_armed: p.bench || started.bench_armed,
        ..started
    }
}

/// What a tick refreshes: the machine once a second (not on the tick that
/// starts a worker), the meters every three, the route every two, the CPU every
/// one. While a worker drives the GPU neither its mailbox nor its routing
/// registers are read.
pub open spec fn plan_of(p: CuPanel, focus: Focus, idle: bool, t: Elapsed) -> TickPlan {
    let snapshot = starts(p) is None && t.snap_ns >= 1_000_000_000;
    let meters = t.meters_ns >= 3_000_000_000;
    TickPlan {
        start: starts(p),
        snapshot,
        reload_cpu: snapshot && idle,
        telemetry: meters && focus == Focus::Gpu && !ticked(p).worker(),
        meters,
        masks: t.masks_ns >= 2_000_000_000 && !ticked(p).worker(),
        cpu_live: t.cpu_ns >= 1_000_000_000,
    }
}

/// A tick of the compute-unit panel.
pub fn tick_refresh(p: CuPanel, focus: Focus, editor: Editor, t: Elapsed) -> (r: (
    CuPanel,
    TickPlan,
))
    ensures
        r.0 == ticked(p),
        r.1 == plan_of(p, focus, editor.edit is Idle, t),
{
    let start: Option<Worker> = if p.cu_worker_running() {
        None
    } else if p.test_armed {
        Some(Worker::Health)
    } else if p.bench_armed {
        Some(Worker::Bench { masks: p.draft })
    } else {
        None
    };
    let started: CuPanel = match start {
        Some(w) => match w {
            Worker::Health => CuPanel { test_armed: false, testing: true, ..p },
            Worker::Bench { masks } => CuPanel {
                bench_armed: false,
                benching: true,
                bench_draft: masks,
                ..p
            },
        },
        None => p,
    };
    let next = CuPanel {
        test: false,
        test_armed: p.test || started.test_armed,
        bench: false,
        bench_armed: p.bench || started.bench_armed,
        ..started
    };
    let idle: bool = match editor.edit {
        Edit::Idle => true,
        Edit::Value(_) => false,
    };
    let busy: bool = next.cu_worker_running();
    let snapshot: bool = start.is_none() && t.snap_ns >= 1_000_000_000;
    let meters: bool = t.meters_ns >= 3_000_000_000;
    let plan = TickPlan {
        start,
        snapshot,
        reload_cpu: snapshot && idle,
        telemetry: meters && focus == Focus::Gpu && !busy,
        meters,
        masks: t.masks_ns >= 2_000_000_000 && !busy,
        cpu_live: t.cpu_ns >= 1_000_000_000,
    };
    (next, plan)
}

/// A panel after the route was read (`None` where that failed) and the driver's
/// enumeration with it. The draft stays.
pub open spec fn with_masks(p: CuPanel, live: Option<[u32; 4]>, driver: Option<[u32; 4]>) -> CuPanel {
    match live {
        Some(m) => CuPanel { live: m, ok: true, driver, ..p },
        None => CuPanel { ok: false, driver, ..p },
    }
}

/// Takes the route as it was read.
pub fn refresh_masks(p: CuPanel, live: Option<[u32; 4]>, driver: Option<[u32; 4]>) -> (r: CuPanel)
    ensures
        r == with_masks(p, live, driver),
{
    match live {
        Some(m) => CuPanel { live: m, ok: true, driver, ..p },
        None => CuPanel { ok: false, driver, ..p },
    }
}

/// A panel after the route was read on a tick.
pub open spec fn followed(p: CuPanel, live: Option<[u32; 4]>, driver: Option<[u32; 4]>) -> CuPanel {
    let q = with_masks(p, live, driver);
    if !p.dirty && q.ok { CuPanel { draft: q.live, ..q } } else { q }
}

/// A panel after its draft was applied and the route read again.
pub open spec fn rerouted(p: CuPanel, live: Option<[u32; 4]>, driver: Option<[u32; 4]>) -> CuPanel {
    let q = with_masks(p, live, driver);
    CuPanel { draft: q.live, dirty: false, ..q }
}

/// A panel after a bench and the route read again.
pub open spec fn benched(
    p: CuPanel,
    result: KatResult,
    live: Option<[u32; 4]>,
    driver: Option<[u32; 4]>,
) -> CuPanel {
    let shown = BenchShown {
        cu: curoute::routed_cu(p.bench_draft@) as u32,
        effective: effective_of(p.bench_draft@) as u32,
        elapsed_ns: result.elapsed_ns,
        hung: result.hung,
        ok: result.ok,
    };
    let q = CuPanel { bench_result: Some(shown), ..with_masks(p, live, driver) };
    if p.dirty { q } else { CuPanel { draft: q.live, ..q } }
}

/// Takes the route as it was read on a tick: the draft follows it unless it
/// holds edits.
pub fn follow_masks(p: CuPanel, live: Option<[u32; 4]>, driver: Option<[u32; 4]>) -> (r: CuPanel)
    ensures
        ({
            let q = with_masks(p, live, driver);
            r == (if !p.dirty && q.ok { CuPanel { draft: q.live, ..q } } else { q })
        }),
        r == followed(p, live, driver),
{
    let q = refresh_masks(p, live, driver);
    if !p.dirty && q.ok {
        CuPanel { draft: q.live, ..q }
    } else {
        q
    }
}

/// While a worker drives the GPU, neither the SMU's mailbox nor the routing
/// registers are read, and no second worker starts.
pub proof fn worker_is_left_alone(p: CuPanel, focus: Focus, idle: bool, t: Elapsed)
    ensures
        ticked(p).worker() ==> !plan_of(p, focus, idle, t).telemetry && !plan_of(
            p,
            focus,
            idle,
            t,
        ).masks,
        p.worker() ==> plan_of(p, focus, idle, t).start is None && ticked(p).worker(),
        !(ticked(p).testing && ticked(p).benching) || (p.testing && p.benching),
{
}

/// A test that is asked for starts on the second tick, not on the first: its
/// line is drawn in between.
pub proof fn test_starts_on_the_second_tick(p: CuPanel)
    requires
        !p.worker(),
        p.test,
        !p.test_armed,
        !p.bench_armed,
    ensures
        starts(p) is None,
        starts(ticked(p)) == Some(Worker::Health),
{
}

// ---------------------------------------------------------------------------
// What came of an action

/// A failure, with its cause.
pub open spec fn failed(what: &'static str, cause: String) -> Status {
    Status::Failed { what, cause }
}

/// The line after the fan was set.
pub fn fan_done(ok: bool, target: Option<u8>) -> (r: Status)
    ensures
        r == (if !ok {
            Status::Note("fan set failed (need root?)")
        } else {
            match target {
                None => Status::Note("fan → auto (EC curve)"),
                Some(pct) => Status::FanManual { pct },
            }
        }),
{
    if !ok {
        return Status::Note("fan set failed (need root?)");
    }
    match target {
        None => Status::Note("fan → auto (EC curve)"),
        Some(pct) => Status::FanManual { pct },
    }
}

/// The line after the GPU was released.
pub fn release_done(result: Result<AutoMode, String>) -> (r: Status)
    ensures
        r == (match result {
            Ok(mode) => Status::Released { mode },
            Err(e) => failed("unforce error", e),
        }),
{
    match result {
        Ok(mode) => Status::Released { mode },
        Err(cause) => Status::Failed { what: "unforce error", cause },
    }
}

/// The line after the GPU voltage was set: whether the write landed, and
/// whether the boot unit is there to keep it.
pub fn voltage_done(mv: u32, result: Result<bool, String>, unit: bool) -> (r: Status)
    ensures
        r == (match result {
            Ok(landed) => if landed {
                Status::VoltageSet { mv, unit }
            } else {
                Status::Note("voltage set failed (overdrive off / need root?)")
            },
            Err(e) => failed("gpu-volt error", e),
        }),
{
    match result {
        Ok(landed) => if landed {
            Status::VoltageSet { mv, unit }
        } else {
            Status::Note("voltage set failed (overdrive off / need root?)")
        },
        Err(cause) => Status::Failed { what: "gpu-volt error", cause },
    }
}

/// The line after the GPU temperature cap was set.
pub fn gpu_temp_done(c: u32, result: Result<(), String>) -> (r: Status)
    ensures
        r == (match result {
            Ok(()) => Status::GpuTempSet { c },
            Err(e) => failed("gpu-temp error", e),
        }),
{
    match result {
        Ok(()) => Status::GpuTempSet { c },
        Err(cause) => Status::Failed { what: "gpu-temp error", cause },
    }
}

/// The line after the GPU clock was pinned.
pub fn force_done(result: Result<ForceOutcome, String>) -> (r: Status)
    ensures
        r == (match result {
            Ok(outcome) => Status::Forced { outcome },
            Err(e) => failed("force error", e),
        }),
{
    match result {
        Ok(outcome) => Status::Forced { outcome },
        Err(cause) => Status::Failed { what: "force error", cause },
    }
}

/// The line after a governor tier was set.
pub fn tier_done(tier: usize, mhz: u32, result: Result<(), String>) -> (r: Status)
    ensures
        r == (match result {
            Ok(()) => Status::TierSet { tier, mhz },
            Err(e) => failed("tier error", e),
        }),
{
    match result {
        Ok(()) => Status::TierSet { tier, mhz },
        Err(cause) => Status::Failed { what: "tier error", cause },
    }
}

/// The panel and the line after the CPU was restored: the point is the stock
/// one again, unless that failed.
pub fn cpu_restored(p: CpuPanel, result: Result<(), String>) -> (r: (CpuPanel, Status))
    ensures
        match result {
            Ok(()) => r.0 == (CpuPanel { point: crate::cpu::stock_point(), ..p }) && r.1
                == Status::Note("CPU restored to firmware defaults (persistence removed)"),
            Err(e) => r.0 == p && r.1 == failed("restore error", e),
        },
{
    match result {
        Ok(()) => (
            CpuPanel { point: CpuOc::default(), ..p },
            Status::Note("CPU restored to firmware defaults (persistence removed)"),
        ),
        Err(cause) => (p, Status::Failed { what: "restore error", cause }),
    }
}

/// The line after a CPU point was applied, and whether it was saved.
pub fn cpu_applied(point: &CpuOc, result: Result<bool, String>) -> (r: Status)
    ensures
        r == (match result {
            Ok(saved) => Status::CpuApplied {
                boost: point.boost_mhz,
                scale: point.curve_scale,
                mv: point.predicted() as u32,
                saved,
            },
            Err(e) => failed("apply refused", e),
        }),
{
    match result {
        Ok(saved) => Status::CpuApplied {
            boost: point.boost_mhz,
            scale: point.curve_scale,
            mv: point.predicted_vid_mv(),
            saved,
        },
        Err(cause) => Status::Failed { what: "apply refused", cause },
    }
}

/// The line after the cores of a draft were changed; `stopped` says at which one
/// it failed and why.
pub fn cores_applied(changed: u32, stopped: Option<(u32, String)>) -> (r: Status)
    ensures
        r == (match stopped {
            Some((core, cause)) => Status::CoreStopped { core, cause },
            None => Status::CoresApplied { changed },
        }),
{
    match stopped {
        Some((core, cause)) => Status::CoreStopped { core, cause },
        None => Status::CoresApplied { changed },
    }
}

/// The line after an action on the cores that either worked or not.
pub fn cores_done(action: CoresAction, result: Result<(), String>) -> (r: Status)
    ensures
        r == (match result {
            Ok(()) => Status::Note(good_line(action)),
            Err(e) => failed(bad_line(action), e),
        }),
{
    match result {
        Ok(()) => Status::Note(
            match action {
                CoresAction::Reset => "reset: all cores online (OS layer)",
                CoresAction::Unlock => "unlocked — cores appear after a WARM reboot",
                CoresAction::ForceUnlock =>
                "FORCED UNLOCK OK — mask 0xFF written and verified; cores appear after a WARM reboot ([q] quit, then 'sudo systemctl reboot')",
                CoresAction::Install => "cores boot unit installed (aputune-cores.service)",
            },
        ),
        Err(cause) => Status::Failed {
            what: match action {
                CoresAction::Reset => "reset failed",
                CoresAction::Unlock => "unlock refused",
                CoresAction::ForceUnlock => "forced unlock FAILED",
                CoresAction::Install => "install failed",
            },
            cause,
        },
    }
}

/// An action on the cores.
#[derive(Clone, Copy, Debug, PartialEq, Eq, Structural)]
pub enum CoresAction {
    Reset,
    Unlock,
    ForceUnlock,
    Install,
}

/// The line for an action that worked.
pub open spec fn good_line(a: CoresAction) -> &'static str {
    match a {
        CoresAction::Reset => "reset: all cores online (OS layer)",
        CoresAction::Unlock => "unlocked — cores appear after a WARM reboot",
        CoresAction::ForceUnlock =>
        "FORCED UNLOCK OK — mask 0xFF written and verified; cores appear after a WARM reboot ([q] quit, then 'sudo systemctl reboot')",
        CoresAction::Install => "cores boot unit installed (aputune-cores.service)",
    }
}

/// How the line for an action that failed begins.
pub open spec fn bad_line(a: CoresAction) -> &'static str {
    match a {
        CoresAction::Reset => "reset failed",
        CoresAction::Unlock => "unlock refused",
        CoresAction::ForceUnlock => "forced unlock FAILED",
        CoresAction::Install => "install failed",
    }
}

/// Work that runs beside the screen.
#[derive(Clone, Copy, Debug, PartialEq, Eq, Structural)]
pub enum Job {
    Health,
    Bench,
    Verify,
}

/// How the line for a failed job begins.
pub open spec fn job_error(j: Job) -> &'static str {
    match j {
        Job::Health => "health-test error",
        Job::Bench => "bench error",
        Job::Verify => "cores verify failed",
    }
}

/// The line for a job that broke off.
pub open spec fn job_panic(j: Job) -> &'static str {
    match j {
        Job::Health => "health-test worker panicked",
        Job::Bench => "bench worker panicked",
        Job::Verify => "cores verify worker panicked",
    }
}

/// The line after a job that failed with a cause, or broke off without one.
pub fn job_failed(j: Job, cause: Option<String>) -> (r: Status)
    ensures
        r == (match cause {
            Some(e) => failed(job_error(j), e),
            None => Status::Note(job_panic(j)),
        }),
{
    match cause {
        Some(cause) => Status::Failed {
            what: match j {
                Job::Health => "health-test error",
                Job::Bench => "bench error",
                Job::Verify => "cores verify failed",
            },
            cause,
        },
        None => Status::Note(
            match j {
                Job::Health => "health-test worker panicked",
                Job::Bench => "bench worker panicked",
                Job::Verify => "cores verify worker panicked",
            },
        ),
    }
}

/// The line after a core sweep: the last one of its report.
pub fn verify_done(lines: &Vec<String>) -> (r: Status)
    ensures
        r matches Status::VerifyDone { report } && report@ == (if lines@.len() == 0 {
            seq![]
        } else {
            lines@.last()@
        }),
{
    let n: usize = lines.len();
    let report: String = if n == 0 {
        String::new()
    } else {
        lines[n - 1].clone()
    };
    Status::VerifyDone { report }
}

/// The panel and the line after a route was applied (and whether it was saved):
/// the draft is the route as it was read again.
pub fn route_done(
    p: CuPanel,
    result: Result<bool, String>,
    live: Option<[u32; 4]>,
    driver: Option<[u32; 4]>,
) -> (r: (CuPanel, Status))
    ensures
        ({
            let q = with_masks(p, live, driver);
            &&& r.0 == (CuPanel { draft: q.live, dirty: false, ..q })
            &&& r.1 == (match result {
                Ok(saved) => Status::Routed {
                    cu: curoute::routed_cu(p.draft@) as u32,
                    saved,
                },
                Err(e) => failed("route error", e),
            })
        }),
        r.0 == rerouted(p, live, driver),
{
    let cu: u32 = curoute::cu_count(&p.draft);
    let q = refresh_masks(p, live, driver);
    let status = match result {
        Ok(saved) => Status::Routed { cu, saved },
        Err(cause) => Status::Failed { what: "route error", cause },
    };
    (CuPanel { draft: q.live, dirty: false, ..q }, status)
}

/// The line of the full test.
pub open spec fn full_line(full: KatResult) -> Seq<char> {
    "40-CU: "@ + full.word() + "  "@ + text::dec(
        cutest::throughput(full.elapsed_ns, full.hung, 1, 1) as nat,
    ) + " GFLOPS  "@ + text::dec(full.mismatches as nat) + " mismatch"@
}

/// The names of the WGPs whose removal cleared the fault.
pub open spec fn suspects(sweep: Seq<KatResult>) -> Seq<Seq<char>>
    decreases sweep.len(),
{
    if sweep.len() == 0 {
        seq![]
    } else {
        let before = suspects(sweep.drop_last());
        if sweep.last().ok {
            before.push(text::strip_all_front(sweep.last().label@, "-"@))
        } else {
            before
        }
    }
}

fn suspect_names(sweep: &Vec<KatResult>) -> (r: Vec<String>)
    ensures
        text::texts(r@) == suspects(sweep@),
{
    let mut r: Vec<String> = Vec::new();
    let mut i: usize = 0;
    assert(text::texts(r@) =~= suspects(sweep@.take(0)));
    while i < sweep.len()
        invariant
            i <= sweep@.len(),
            text::texts(r@) == suspects(sweep@.take(i as int)),
        decreases sweep@.len() - i,
    {
        assert(sweep@.take(i + 1).drop_last() =~= sweep@.take(i as int));
        if sweep[i].ok {
            let name = text::trim_start_matches(sweep[i].label.as_str(), "-").to_owned();
            proof {
                text::texts_push(r@, name);
            }
            r.push(name);
        }
        i += 1;
    }
    assert(sweep@.take(i as int) =~= sweep@);
    r
}

/// Results of a health test, each with whether it is good.
pub open spec fn health_lines(full: KatResult, sweep: Option<Vec<KatResult>>) -> Seq<
    (Seq<char>, bool),
> {
    let first = seq![(full_line(full), full.ok)];
    if full.ok || sweep is None {
        first
    } else {
        let names = suspects(sweep->0@);
        if names.len() == 0 {
            first.push(("could not isolate a single WGP"@, false))
        } else {
            first + names.map_values(|n: Seq<char>| ("bad WGP: "@ + n, false))
        }
    }
}

/// The texts of results.
pub open spec fn result_views(v: Seq<(String, bool)>) -> Seq<(Seq<char>, bool)> {
    Seq::new(v.len(), |i: int| (v[i].0@, v[i].1))
}

/// The line that sums a health test up; none where a fault was not looked into.
pub open spec fn health_status(full: KatResult, sweep: Option<Vec<KatResult>>, s: Option<Status>) -> bool {
    if full.ok {
        s == Some(Status::Note("all 40 CUs healthy"))
    } else if sweep is None {
        s is None
    } else if suspects(sweep->0@).len() == 0 {
        s == Some(Status::Note("fault present; WGP not isolated (multiple/intermittent)"))
    } else {
        s is Some && (s->0 matches Status::BadWgp { names } && names@ == text::joined(
            suspects(sweep->0@),
            ", "@,
        ))
    }
}

/// Takes a completed health test: the full test and, where that found a fault,
/// the search for it. A WGP whose removal cleared the fault is the bad one.
pub fn apply_health(full: &KatResult, sweep: &Option<Vec<KatResult>>) -> (r: (
    Vec<(String, bool)>,
    Option<Status>,
))
    ensures
        result_views(r.0@) == health_lines(*full, *sweep),
        health_status(*full, *sweep, r.1),
{
    let mut lines: Vec<(String, bool)> = Vec::new();
    let mut l = text::join3("40-CU: ", full.verdict(), "  ");
    l.append(text::decimal(full.gflops()).as_str());
    l.append(" GFLOPS  ");
    l.append(text::decimal(full.mismatches).as_str());
    l.append(" mismatch");
    lines.push((l, full.ok));
    assert(result_views(lines@) =~= seq![(full_line(*full), full.ok)]);
    if full.ok {
        return (lines, Some(Status::Note("all 40 CUs healthy")));
    }
    match sweep {
        None => (lines, None),
        Some(v) => {
            let names = suspect_names(v);
            let ghost all = suspects(v@);
            assert(all.len() == names@.len());
            if names.len() == 0 {
                lines.push(("could not isolate a single WGP".to_owned(), false));
                assert(result_views(lines@) =~= health_lines(*full, *sweep));
                return (
                    lines,
                    Some(Status::Note("fault present; WGP not isolated (multiple/intermittent)")),
                );
            }
            let ghost first = seq![(full_line(*full), full.ok)];
            let mut i: usize = 0;
            while i < names.len()
                invariant
                    i <= names@.len(),
                    text::texts(names@) == all,
                    names@.len() == all.len(),
                    lines@.len() == i + 1,
                    result_views(lines@) == first + all.take(i as int).map_values(
                        |n: Seq<char>| ("bad WGP: "@ + n, false),
                    ),
                    first.len() == 1,
                decreases names@.len() - i,
            {
                let ghost before = result_views(lines@);
                assert(names@[i as int]@ == all[i as int]);
                lines.push((text::join2("bad WGP: ", names[i].as_str()), false));
                proof {
                    let item = ("bad WGP: "@ + all[i as int], false);
                    assert(result_views(lines@) =~= before.push(item));
                    assert(first + all.take(i + 1).map_values(
                        |n: Seq<char>| ("bad WGP: "@ + n, false),
                    ) =~= before.push(item));
                }
                i += 1;
            }
            assert(all.take(i as int) =~= all);
            let joined = text::join(&names, ", ");
            (lines, Some(Status::BadWgp { names: joined }))
        },
    }
}

/// The verdict of a bench in a word.
pub open spec fn bench_word(r: KatResult) -> &'static str {
    if r.hung {
        "HUNG"
    } else if r.ok {
        "correct"
    } else {
        "MISMATCH"
    }
}

/// Takes a completed bench of the panel's route and the route as it was read
/// afterwards; the draft follows it unless it holds edits.
pub fn apply_bench(
    p: CuPanel,
    result: &KatResult,
    live: Option<[u32; 4]>,
    driver: Option<[u32; 4]>,
) -> (r: (CuPanel, Status))
    ensures
        ({
            let cu = curoute::routed_cu(p.bench_draft@) as u32;
            let effective = effective_of(p.bench_draft@) as u32;
            let shown = BenchShown {
                cu,
                effective,
                elapsed_ns: result.elapsed_ns,
                hung: result.hung,
                ok: result.ok,
            };
            let q = CuPanel { bench_result: Some(shown), ..with_masks(p, live, driver) };
            &&& r.0 == (if p.dirty { q } else { CuPanel { draft: q.live, ..q } })
            &&& r.1 == (Status::BenchDone {
                cu,
                effective,
                gflops: cutest::throughput(result.elapsed_ns, result.hung, 1, 1) as u64,
                verdict: bench_word(*result),
            })
        }),
        r.0 == benched(p, *result, live, driver),
{
    let shape = curoute::shape(&p.bench_draft);
    proof {
        assert(shape.per_array_wgp@[0] == curoute::wgps(p.bench_draft@[0]));
        assert(shape.per_array_wgp@[1] == curoute::wgps(p.bench_draft@[1]));
        assert(shape.per_array_wgp@[2] == curoute::wgps(p.bench_draft@[2]));
        assert(shape.per_array_wgp@[3] == curoute::wgps(p.bench_draft@[3]));
    }
    let shown = BenchShown {
        cu: shape.cu,
        effective: shape.effective_cu,
        elapsed_ns: result.elapsed_ns,
        hung: result.hung,
        ok: result.ok,
    };
    let q = CuPanel { bench_result: Some(shown), ..refresh_masks(p, live, driver) };
    let next: CuPanel = if p.dirty {
        q
    } else {
        CuPanel { draft: q.live, ..q }
    };
    let verdict: &'static str = if result.hung {
        "HUNG"
    } else if result.ok {
        "correct"
    } else {
        "MISMATCH"
    };
    (
        next,
        Status::BenchDone {
            cu: shape.cu,
            effective: shape.effective_cu,
            gflops: result.gflops(),
            verdict,
        },
    )
}

/// Effective units of a route: four times the WGPs of the weaker engine.
pub open spec fn effective_of(m: Seq<u32>) -> int {
    4 * curoute::smaller(
        (curoute::wgps(m[0]) + curoute::wgps(m[1])) as int,
        (curoute::wgps(m[2]) + curoute::wgps(m[3])) as int,
    )
}

// ---------------------------------------------------------------------------
// Laws

/// A draft with edits is kept whatever is read; without edits it is the route as
/// it was read. Where nothing could be read, both stay, and the panel says so.
pub proof fn draft_follows_unless_edited(p: CuPanel, m: [u32; 4], driver: Option<[u32; 4]>)
    ensures
        ({
            let read = followed(p, Some(m), driver);
            let lost = followed(p, None, driver);
            &&& read.live == m && read.ok && read.driver == driver
            &&& p.dirty ==> read.draft == p.draft
            &&& !p.dirty ==> read.draft == m
            &&& read.dirty == p.dirty
            &&& lost.live == p.live && lost.draft == p.draft && !lost.ok && lost.driver == driver
            &&& read.sel == p.sel && lost.sel == p.sel
        }),
        ({
            let read = with_masks(p, Some(m), driver);
            let lost = with_masks(p, None, driver);
            &&& read.live == m && read.ok && read.draft == p.draft
            &&& lost.live == p.live && !lost.ok && lost.draft == p.draft
        }),
{
}

/// After a route was applied the draft is the route in force and holds no edits.
pub proof fn applied_draft_is_the_route(p: CuPanel, live: Option<[u32; 4]>, driver: Option<[u32; 4]>)
    ensures
        rerouted(p, live, driver).draft == rerouted(p, live, driver).live,
        !rerouted(p, live, driver).dirty,
        live matches Some(m) ==> rerouted(p, live, driver).live == m,
        live is None ==> rerouted(p, live, driver).live == p.live,
        rerouted(p, live, driver).ok == live is Some,
{
}

/// A bench is shown with what it measured, and with the units of the route that
/// it ran on; edits made meanwhile are kept.
pub proof fn bench_is_shown_as_measured(
    p: CuPanel,
    result: KatResult,
    live: Option<[u32; 4]>,
    driver: Option<[u32; 4]>,
)
    ensures
        ({
            let r = benched(p, result, live, driver);
            &&& r.bench_result is Some
            &&& r.bench_result->0.ok == result.ok
            &&& r.bench_result->0.hung == result.hung
            &&& r.bench_result->0.elapsed_ns == result.elapsed_ns
            &&& r.bench_result->0.cu == curoute::routed_cu(p.bench_draft@) as u32
            &&& p.dirty ==> r.draft == p.draft
            &&& !p.dirty ==> r.draft == r.live
            &&& live matches Some(m) ==> r.live == m
            &&& live is None ==> r.live == p.live
        }),
{
}

/// The effective units are four for each work group of the weaker engine: no
/// engine has fewer, and one has no more.
pub proof fn weaker_engine_counts(m: Seq<u32>)
    ensures
        ({
            let first = 4 * (curoute::wgps(m[0]) + curoute::wgps(m[1]));
            let second = 4 * (curoute::wgps(m[2]) + curoute::wgps(m[3]));
            &&& effective_of(m) <= first && effective_of(m) <= second
            &&& effective_of(m) == first || effective_of(m) == second
        }),
{
}

/// A bench that is asked for starts on the second tick, with the draft as it is
/// then, and a test that is asked for with it goes first.
pub proof fn bench_starts_on_the_second_tick(p: CuPanel)
    requires
        !p.worker(),
        p.bench,
        !p.test_armed,
        !p.bench_armed,
    ensures
        starts(p) is None,
        !p.test ==> starts(ticked(p)) == Some(Worker::Bench { masks: p.draft }),
        p.test ==> starts(ticked(p)) == Some(Worker::Health),
{
}

/// A tick takes a request over and marks the worker that it starts as running,
/// with the route that is measured; the route, the draft and the selection stay.
pub proof fn tick_takes_requests_over(p: CuPanel)
    ensures
        !ticked(p).test && !ticked(p).bench,
        p.test ==> ticked(p).test_armed,
        p.bench ==> ticked(p).bench_armed,
        starts(p) == Some(Worker::Health) ==> ticked(p).testing,
        starts(p) is Some && !(starts(p)->0 is Health) ==> ticked(p).benching && ticked(p).bench_draft
            == p.draft,
        starts(p) is None ==> ticked(p).testing == p.testing && ticked(p).benching == p.benching,
        starts(p) is Some ==> !p.testing && !p.benching && (p.test_armed || p.bench_armed),
        ticked(p).live == p.live && ticked(p).draft == p.draft && ticked(p).dirty == p.dirty,
        ticked(p).sel == p.sel && ticked(p).ok == p.ok && ticked(p).driver == p.driver,
        ticked(p).bench_result == p.bench_result,
{
}

/// Each part is refreshed once its time has passed: the machine and the CPU after
/// a second, the route after two, the meters after three. A saved point is taken
/// over only with the machine and outside of an edit, and the telemetry is read
/// only with the meters and for the GPU panel.
pub proof fn parts_have_their_periods(p: CuPanel, focus: Focus, idle: bool, t: Elapsed)
    ensures
        ({
            let r = plan_of(p, focus, idle, t);
            &&& r.cpu_live <==> t.cpu_ns >= 1_000_000_000
            &&& r.meters <==> t.meters_ns >= 3_000_000_000
            &&& r.start is None ==> (r.snapshot <==> t.snap_ns >= 1_000_000_000)
            &&& r.start is Some ==> !r.snapshot
            &&& !ticked(p).worker() ==> (r.masks <==> t.masks_ns >= 2_000_000_000)
            &&& !ticked(p).worker() ==> (r.telemetry <==> t.meters_ns >= 3_000_000_000 && focus
                == Focus::Gpu)
            &&& r.reload_cpu <==> r.snapshot && idle
        }),
{
}

/// The suspects are named result by result: one whose removal cleared the fault
/// is named without its dashes, any other is not.
pub proof fn suspects_are_named_in_turn(sweep: Seq<KatResult>, one: KatResult)
    ensures
        suspects(seq![]) == Seq::<Seq<char>>::empty(),
        one.ok ==> suspects(sweep.push(one)) == suspects(sweep).push(
            text::strip_all_front(one.label@, "-"@),
        ),
        !one.ok ==> suspects(sweep.push(one)) == suspects(sweep),
{
    assert(sweep.push(one).drop_last() =~= sweep);
}

/// The full test comes first and is as good as it was. Nothing is named where it
/// was good or the fault was not looked into; else every line behind it tells a
/// fault, one for each suspect or one that there is none.
pub proof fn health_tells_every_suspect(full: KatResult, sweep: Option<Vec<KatResult>>)
    ensures
        ({
            let v = health_lines(full, sweep);
            &&& v.len() >= 1 && v[0].1 == full.ok
            &&& full.ok || sweep is None ==> v.len() == 1
            &&& forall|i: int| 1 <= i < v.len() ==> !(#[trigger] v[i]).1
            &&& !full.ok && sweep is Some && suspects(sweep->0@).len() > 0 ==> v.len() == 1
                + suspects(sweep->0@).len() && forall|i: int|
                0 <= i < suspects(sweep->0@).len() ==> (#[trigger] v[i + 1]).0 == "bad WGP: "@
                    + suspects(sweep->0@)[i]
            &&& !full.ok && sweep is Some && suspects(sweep->0@).len() == 0 ==> v.len() == 2
        }),
{
}

/// A bench is called correct only where it ended with the right answers.
pub proof fn bench_is_called_what_it_was(r: KatResult)
    ensures
        r.hung ==> bench_word(r) == "HUNG",
        !r.hung && r.ok ==> bench_word(r) == "correct",
        !r.hung && !r.ok ==> bench_word(r) == "MISMATCH",
{
}

} // verus!
