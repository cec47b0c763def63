//! What the control screen tells its operator, one line at a time.
use vstd::prelude::*;

use crate::dpm::AutoMode;
use crate::gpuctl;
use crate::gpuctl::ForceOutcome;
use crate::text;

verus! {

/// The line about what happened last.
#[derive(Debug)]
pub enum Status {
    /// A fixed text.
    Note(&'static str),
    /// Something failed, with the cause.
    Failed { what: &'static str, cause: String },
    PinActive { mhz: u32 },
    VoltageActive { mv: u32 },
    Released { mode: AutoMode },
    VoltageSet { mv: u32, unit: bool },
    GpuTempSet { c: u32 },
    Forced { outcome: ForceOutcome },
    TierSet { tier: usize, mhz: u32 },
    CpuApplied { boost: u32, scale: i32, mv: u32, saved: bool },
    FanManual { pct: u8 },
    CoreToggled { slot: usize },
    CoreStopped { core: u32, cause: String },
    CoresApplied { changed: u32 },
    AbnormalMask { mask: u8 },
    VerifyDone { report: String },
    Routed { cu: u32, saved: bool },
    Benching { cu: u32 },
    BadWgp { names: String },
    BenchDone { cu: u32, effective: u32, gflops: u64, verdict: &'static str },
}

/// The name of a governor tier as it is edited: 0 the top one.
pub open spec fn tier_name(tier: usize) -> Seq<char> {
    if tier == 0 {
        "high"@
    } else if tier == 1 {
        "mid"@
    } else if tier == 2 {
        "idle"@
    } else {
        "deep"@
    }
}

fn name_of_tier(tier: usize) -> (r: &'static str)
    ensures
        r@ == tier_name(tier),
{
    if tier == 0 {
        "high"
    } else if tier == 1 {
        "mid"
    } else if tier == 2 {
        "idle"
    } else {
        "deep"
    }
}

impl Status {
    /// The line as it is shown.
    pub open spec fn text(&self) -> Seq<char> {
        match self {
            Status::Note(t) => t@,
            Status::Failed { what, cause } => what@ + ": "@ + cause@,
            Status::PinActive { mhz } => "manual pin at "@ + text::dec(*mhz as nat)
                + " MHz active — press [u] again to release to auto"@,
            Status::VoltageActive { mv } => "GPU voltage set at "@ + text::dec(*mv as nat)
                + " mV — press [u] again to release it to stock"@,
            Status::Released { mode } => "auto mode — clock + voltage released, "@
                + gpuctl::mode_text(*mode) + " resumed"@,
            Status::VoltageSet { mv, unit } => "GPU voltage "@ + text::dec(*mv as nat)
                + " mV (high clock)"@ + (if *unit {
                " — persisted"@
            } else {
                " (live only until a mode command installs the unit)"@
            }),
            Status::GpuTempSet { c } => "GPU temp cap "@ + text::dec(*c as nat)
                + " C — persisted"@,
            Status::Forced { outcome } => "forced "@ + text::dec(outcome.set_mhz as nat) + " MHz"@
                + (match outcome.vid_raised {
                Some((old, floor)) => " (undervolt raised "@ + text::dec(old as nat) + " -> "@
                    + text::dec(floor as nat) + " mV)"@,
                None => ""@,
            }) + (if outcome.held {
                " — manual, sticks across reboots"@
            } else {
                " (live only)"@
            }),
            Status::TierSet { tier, mhz } => tier_name(*tier) + " tier = "@ + text::dec(
                *mhz as nat,
            ) + " MHz (persisted)"@,
            Status::CpuApplied { boost, scale, mv, saved } => "applied: "@ + text::dec(
                *boost as nat,
            ) + " MHz, scale "@ + text::dec_int(*scale as int) + " (~"@ + text::dec(*mv as nat)
                + " mV)"@ + (if *saved {
                " — persisted"@
            } else {
                " — live only"@
            }),
            Status::FanManual { pct } => "fan → manual "@ + text::dec(*pct as nat) + "%"@,
            Status::CoreToggled { slot } => "core "@ + text::dec(*slot as nat)
                + " toggled in draft — [a] apply, [esc] cancel"@,
            Status::CoreStopped { core, cause } => "apply stopped: core "@ + text::dec(
                *core as nat,
            ) + ": "@ + cause@,
            Status::CoresApplied { changed } => "applied "@ + text::dec(*changed as nat)
                + " core change(s) (OS layer, instant)"@,
            Status::AbnormalMask { mask } => "refusing: abnormal mask 0x"@ + text::hex_upper_pad(
                *mask as nat,
                2,
            ) + " — safe path only; [F] force-unlock (EXPERIMENTAL, with warning)"@,
            Status::VerifyDone { report } => "cores verify done — "@ + report@,
            Status::Routed { cu, saved } => "routed "@ + text::dec(*cu as nat) + " CUs live"@ + (
            if *saved {
                " — persisted (survives reboot)"@
            } else {
                " — live only"@
            }),
            Status::Benching { cu } => "benching draft ("@ + text::dec(*cu as nat)
                + " CU) — KAT compute…"@,
            Status::BadWgp { names } => "bad WGP: "@ + names@ + " — route around it"@,
            Status::BenchDone { cu, effective, gflops, verdict } => "bench: "@ + text::dec(
                *cu as nat,
            ) + " CU routed / "@ + text::dec(*effective as nat) + " effective — "@ + text::dec(
                *gflops as nat,
            ) + " GFLOPS ("@ + verdict@ + ")"@,
        }
    }

    /// The line as it is shown.
    pub fn message(&self) -> (r: String)
        ensures
            r@ == self.text(),
    {
        match self {
            Status::Note(t) => (*t).to_owned(),
            Status::Failed { what, cause } => text::join3(*what, ": ", cause.as_str()),
            Status::PinActive { mhz } => text::join3(
                "manual pin at ",
                text::decimal(*mhz as u64).as_str(),
                " MHz active — press [u] again to release to auto",
            ),
            Status::VoltageActive { mv } => text::join3(
                "GPU voltage set at ",
                text::decimal(*mv as u64).as_str(),
                " mV — press [u] again to release it to stock",
            ),
            Status::Released { mode } => text::join3(
                "auto mode — clock + voltage released, ",
                gpuctl::mode_name(*mode),
                " resumed",
            ),
            Status::VoltageSet { mv, unit } => {
                let mut r = text::join3(
                    "GPU voltage ",
                    text::decimal(*mv as u64).as_str(),
                    " mV (high clock)",
                );
                r.append(
                    if *unit {
                        " — persisted"
                    } else {
                        " (live only until a mode command installs the unit)"
                    },
                );
                r
            },
            Status::GpuTempSet { c } => text::join3(
                "GPU temp cap ",
                text::decimal(*c as u64).as_str(),
                " C — persisted",
            ),
            Status::Forced { outcome } => {
                let mut r = text::join3(
                    "forced ",
                    text::decimal(outcome.set_mhz as u64).as_str(),
                    " MHz",
                );
                match outcome.vid_raised {
                    Some((old, floor)) => {
                        let mut t = text::join3(
                            " (undervolt raised ",
                            text::decimal(old as u64).as_str(),
                            " -> ",
                        );
                        t.append(text::decimal(floor as u64).as_str());
                        t.append(" mV)");
                        r.append(t.as_str());
                    },
                    None => {
                        r.append("");
                    },
                }
                r.append(
                    if outcome.held {
                        " — manual, sticks across reboots"
                    } else {
                        " (live only)"
                    },
                );
                r
            },
            Status::TierSet { tier, mhz } => {
                let mut r = text::join3(
                    name_of_tier(*tier),
                    " tier = ",
                    text::decimal(*mhz as u64).as_str(),
                );
                r.append(" MHz (persisted)");
                r
            },
            Status::CpuApplied { boost, scale, mv, saved } => {
                let mut r = text::join3(
                    "applied: ",
                    text::decimal(*boost as u64).as_str(),
                    " MHz, scale ",
                );
                r.append(text::decimal_signed(*scale as i64).as_str());
                r.append(" (~");
                r.append(text::decimal(*mv as u64).as_str());
                r.append(" mV)");
                r.append(
                    if *saved {
                        " — persisted"
                    } else {
                        " — live only"
                    },
                );
                r
            },
            Status::FanManual { pct } => text::join3(
                "fan → manual ",
                text::decimal(*pct as u64).as_str(),
                "%",
            ),
            Status::CoreToggled { slot } => text::join3(
                "core ",
                text::decimal(*slot as u64).as_str(),
                " toggled in draft — [a] apply, [esc] cancel",
            ),
            Status::CoreStopped { core, cause } => {
                let mut r = text::join3(
                    "apply stopped: core ",
                    text::decimal(*core as u64).as_str(),
                    ": ",
                );
                r.append(cause.as_str());
                r
            },
            Status::CoresApplied { changed } => text::join3(
                "applied ",
                text::decimal(*changed as u64).as_str(),
                " core change(s) (OS layer, instant)",
            ),
            Status::AbnormalMask { mask } => text::join3(
                "refusing: abnormal mask 0x",
                text::hexadecimal_upper_padded(*mask as u64, 2).as_str(),
                " — safe path only; [F] force-unlock (EXPERIMENTAL, with warning)",
            ),
            Status::VerifyDone { report } => text::join2(
                "cores verify done — ",
                report.as_str(),
            ),
            Status::Routed { cu, saved } => {
                let mut r = text::join3(
                    "routed ",
                    text::decimal(*cu as u64).as_str(),
                    " CUs live",
                );
                r.append(
                    if *saved {
                        " — persisted (survives reboot)"
                    } else {
                        " — live only"
                    },
                );
                r
            },
            Status::Benching { cu } => text::join3(
                "benching draft (",
                text::decimal(*cu as u64).as_str(),
                " CU) — KAT compute…",
            ),
            Status::BadWgp { names } => text::join3(
                "bad WGP: ",
                names.as_str(),
                " — route around it",
            ),
            Status::BenchDone { cu, effective, gflops, verdict } => {
                let mut r = text::join3(
                    "bench: ",
                    text::decimal(*cu as u64).as_str(),
                    " CU routed / ",
                );
                r.append(text::decimal(*effective as u64).as_str());
                r.append(" effective — ");
                r.append(text::decimal(*gflops).as_str());
                r.append(" GFLOPS (");
                r.append(*verdict);
                r.append(")");
                r
            },
        }
    }
}

// ---------------------------------------------------------------------------
// Laws

/// A line says that something was saved, or is kept over reboots, exactly where it
/// was.
pub proof fn what_was_saved_is_told(mv: u32, o: ForceOutcome, boost: u32, scale: i32, cu: u32)
    ensures
        text::ends((Status::VoltageSet { mv, unit: true }).text(), " — persisted"@),
        text::ends(
            (Status::VoltageSet { mv, unit: false }).text(),
            " (live only until a mode command installs the unit)"@,
        ),
        o.held ==> text::ends(
            (Status::Forced { outcome: o }).text(),
            " — manual, sticks across reboots"@,
        ),
        !o.held ==> text::ends((Status::Forced { outcome: o }).text(), " (live only)"@),
        text::ends((Status::CpuApplied { boost, scale, mv, saved: true }).text(), " — persisted"@),
        text::ends((Status::CpuApplied { boost, scale, mv, saved: false }).text(), " — live only"@),
        text::ends((Status::Routed { cu, saved: true }).text(), " — persisted (survives reboot)"@),
        text::ends((Status::Routed { cu, saved: false }).text(), " — live only"@),
{
    both_end(
        "GPU voltage "@ + text::dec(mv as nat) + " mV (high clock)"@,
        " — persisted"@,
        " (live only until a mode command installs the unit)"@,
    );
    let raised = match o.vid_raised {
        Some((old, floor)) => " (undervolt raised "@ + text::dec(old as nat) + " -> "@ + text::dec(
            floor as nat,
        ) + " mV)"@,
        None => ""@,
    };
    both_end(
        "forced "@ + text::dec(o.set_mhz as nat) + " MHz"@ + raised,
        " — manual, sticks across reboots"@,
        " (live only)"@,
    );
    both_end(
        "applied: "@ + text::dec(boost as nat) + " MHz, scale "@ + text::dec_int(scale as int)
            + " (~"@ + text::dec(mv as nat) + " mV)"@,
        " — persisted"@,
        " — live only"@,
    );
    both_end(
        "routed "@ + text::dec(cu as nat) + " CUs live"@,
        " — persisted (survives reboot)"@,
        " — live only"@,
    );
}

proof fn both_end(head: Seq<char>, a: Seq<char>, b: Seq<char>)
    ensures
        text::ends(head + a, a),
        text::ends(head + b, b),
{
    assert((head + a).subrange(head.len() as int, (head + a).len() as int) =~= a);
    assert((head + b).subrange(head.len() as int, (head + b).len() as int) =~= b);
}

/// The tiers are named from the top down.
pub proof fn tiers_are_named_from_the_top(tier: usize, mhz: u32)
    ensures
        text::begins((Status::TierSet { tier: 0, mhz }).text(), "high"@),
        text::begins((Status::TierSet { tier: 1, mhz }).text(), "mid"@),
        text::begins((Status::TierSet { tier: 2, mhz }).text(), "idle"@),
        text::begins((Status::TierSet { tier: 3, mhz }).text(), "deep"@),
{
    begins_with("high"@, " tier = "@, text::dec(mhz as nat), " MHz (persisted)"@);
    begins_with("mid"@, " tier = "@, text::dec(mhz as nat), " MHz (persisted)"@);
    begins_with("idle"@, " tier = "@, text::dec(mhz as nat), " MHz (persisted)"@);
    begins_with("deep"@, " tier = "@, text::dec(mhz as nat), " MHz (persisted)"@);
}

proof fn begins_with(a: Seq<char>, b: Seq<char>, c: Seq<char>, d: Seq<char>)
    ensures
        text::begins(a + b + c + d, a),
{
    assert((a + b + c + d).subrange(0, a.len() as int) =~= a);
}

/// The line about a bench tells the routed units first and the effective ones next.
pub proof fn bench_line_tells_both_counts(cu: u32, effective: u32, gflops: u64, word: &'static str)
    ensures
        text::begins(
            (Status::BenchDone { cu, effective, gflops, verdict: word }).text(),
            "bench: "@ + text::dec(cu as nat) + " CU routed / "@ + text::dec(effective as nat)
                + " effective — "@ + text::dec(gflops as nat),
        ),
{
    let head = "bench: "@ + text::dec(cu as nat) + " CU routed / "@ + text::dec(effective as nat)
        + " effective — "@ + text::dec(gflops as nat);
    begins_with(head, " GFLOPS ("@, word@, ")"@);
}

} // verus!
