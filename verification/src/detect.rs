//! Which patches of the series are live on the booted kernel.
use vstd::prelude::*;

use crate::patches;
use crate::patches::{Patch, Tell};
use crate::text;

verus! {

/// What is known of one patch.
#[derive(Clone, Copy, Debug, PartialEq, Eq, Structural)]
pub enum State {
    /// Its trace is there.
    Present,
    /// Its trace is missing.
    Absent,
    /// It has no trace of its own, and those of the others are all there.
    Inferred,
    /// Could not be determined.
    Unknown,
}

impl State {
    /// The mark shown for a state.
    pub open spec fn mark(self) -> Seq<char> {
        match self {
            State::Present => "[ok]"@,
            State::Absent => "[--]"@,
            State::Inferred => "[in]"@,
            State::Unknown => "[??]"@,
        }
    }

    /// The mark shown for a state.
    pub fn glyph(self) -> (r: &'static str)
        ensures
            r@ == self.mark(),
    {
        match self {
            State::Present => "[ok]",
            State::Absent => "[--]",
            State::Inferred => "[in]",
            State::Unknown => "[??]",
        }
    }

    /// The patch counts as live.
    pub open spec fn live(self) -> bool {
        self == State::Present || self == State::Inferred
    }
}

/// A patch with its state.
#[derive(Clone, Copy, Debug)]
pub struct PatchStatus {
    pub id: &'static str,
    pub title: &'static str,
    pub tell: Tell,
    pub state: State,
}

/// What the booted kernel shows.
#[derive(Debug)]
pub struct KernelFacts {
    /// Parameters of the GPU module.
    pub modparams: Vec<String>,
    /// Nodes of the GPU's debug directory, `None` where that was not found.
    pub debugfs: Option<Vec<String>>,
    /// Highest clock of the clock table in MHz, `None` where unreadable.
    pub sclk_max: Option<u32>,
    /// Active compute units, `None` where unreadable.
    pub active_cu: Option<u32>,
}

/// The whole report.
#[derive(Debug)]
pub struct Report {
    /// The applied series.
    pub rows: Vec<PatchStatus>,
    /// The patches that ship without being applied.
    pub on_disk: Vec<PatchStatus>,
    /// The GPU's debug directory, where it was found.
    pub dbg_dir: Option<String>,
    pub is_bc250: bool,
}

/// `name` is among the names.
pub open spec fn listed(names: Seq<String>, name: Seq<char>) -> bool {
    exists|i: int| 0 <= i < names.len() && (#[trigger] names[i])@ == name
}

fn is_listed(names: &Vec<String>, name: &str) -> (r: bool)
    ensures
        r == listed(names@, name@),
{
    let mut i: usize = 0;
    while i < names.len()
        invariant
            i <= names@.len(),
            forall|j: int| 0 <= j < i ==> (#[trigger] names@[j])@ != name@,
        decreases names@.len() - i,
    {
        if text::same(names[i].as_str(), name) {
            assert(names@[i as int]@ == name@);
            return true;
        }
        i += 1;
    }
    false
}

/// Present where a yes-or-no trace is there.
pub open spec fn seen(there: bool) -> State {
    if there { State::Present } else { State::Absent }
}

/// What a patch's trace says on its own.
pub open spec fn probed(tell: Tell, facts: KernelFacts) -> State {
    match tell {
        Tell::Bundled => State::Inferred,
        Tell::ModParam(name) => seen(listed(facts.modparams@, name@)),
        Tell::Debugfs(name) => match facts.debugfs {
            Some(nodes) => seen(listed(nodes@, name@)),
            None => State::Unknown,
        },
        Tell::SclkMax(min) => match facts.sclk_max {
            Some(m) => seen(m >= min),
            None => State::Unknown,
        },
        Tell::CuCount(n) => match facts.active_cu {
            Some(c) => seen(c >= n),
            None => State::Unknown,
        },
    }
}

/// What a patch's trace says on its own; one without a trace is inferred for
/// now.
pub fn probe(tell: Tell, facts: &KernelFacts) -> (r: State)
    ensures
        r == probed(tell, *facts),
{
    match tell {
        Tell::Bundled => State::Inferred,
        Tell::ModParam(name) => if is_listed(&facts.modparams, name) {
            State::Present
        } else {
            State::Absent
        },
        Tell::Debugfs(name) => match &facts.debugfs {
            Some(nodes) => if is_listed(nodes, name) {
                State::Present
            } else {
                State::Absent
            },
            None => State::Unknown,
        },
        Tell::SclkMax(min) => match facts.sclk_max {
            Some(m) => if m >= min {
                State::Present
            } else {
                State::Absent
            },
            None => State::Unknown,
        },
        Tell::CuCount(n) => match facts.active_cu {
            Some(c) => if c >= n {
                State::Present
            } else {
                State::Absent
            },
            None => State::Unknown,
        },
    }
}

/// The patches whose traces decide about those without one: not the optional
/// ones, whose absence is deliberate.
pub open spec fn in_jury(p: Patch) -> bool {
    !(p.tell is Bundled) && !patches::is_optional(p.id@)
}

/// Every trace that decides is in a state, and there is one that decides.
pub open spec fn jury_says(all: Seq<Patch>, facts: KernelFacts, s: State) -> bool {
    &&& exists|i: int| 0 <= i < all.len() && in_jury(#[trigger] all[i])
    &&& forall|i: int|
        0 <= i < all.len() && in_jury(#[trigger] all[i]) ==> probed(all[i].tell, facts) == s
}

/// The state of a patch without a trace: with all deciding traces there it is
/// inferred, with all missing absent, with anything between unknown.
pub open spec fn bundled_state(all: Seq<Patch>, facts: KernelFacts) -> State {
    if jury_says(all, facts, State::Present) {
        State::Inferred
    } else if jury_says(all, facts, State::Absent) {
        State::Absent
    } else {
        State::Unknown
    }
}

/// The row of a series member.
pub open spec fn series_row(all: Seq<Patch>, facts: KernelFacts, p: Patch) -> PatchStatus {
    PatchStatus {
        id: p.id,
        title: p.title,
        tell: p.tell,
        state: if p.tell is Bundled {
            bundled_state(all, facts)
        } else {
            probed(p.tell, facts)
        },
    }
}

/// The row of a patch that is not applied: its own trace or nothing.
pub open spec fn shelf_row(facts: KernelFacts, p: Patch) -> PatchStatus {
    PatchStatus {
        id: p.id,
        title: p.title,
        tell: p.tell,
        state: if p.tell is Bundled { State::Unknown } else { probed(p.tell, facts) },
    }
}

/// The applied series.
pub open spec fn series_seq() -> Seq<Patch> {
    Seq::new(24, |i: int| patches::series_entry(i))
}

/// The patches that ship without being applied.
pub open spec fn shelf_seq() -> Seq<Patch> {
    Seq::new(4, |i: int| patches::shelf_entry(i))
}

fn bundled(all: &Vec<Patch>, facts: &KernelFacts) -> (r: State)
    ensures
        r == bundled_state(all@, *facts),
{
    let mut any: bool = false;
    let mut present: bool = true;
    let mut absent: bool = true;
    let mut i: usize = 0;
    while i < all.len()
        invariant
            i <= all@.len(),
            any <==> exists|j: int| 0 <= j < i && in_jury(#[trigger] all@[j]),
            present <==> forall|j: int|
                0 <= j < i && in_jury(#[trigger] all@[j]) ==> probed(all@[j].tell, *facts)
                    == State::Present,
            absent <==> forall|j: int|
                0 <= j < i && in_jury(#[trigger] all@[j]) ==> probed(all@[j].tell, *facts)
                    == State::Absent,
        decreases all@.len() - i,
    {
        let p: Patch = all[i];
        let has_trace: bool = match p.tell {
            Tell::Bundled => false,
            _ => true,
        };
        if has_trace && !patches::optional(p.id) {
            assert(in_jury(all@[i as int]));
            any = true;
            let s: State = probe(p.tell, facts);
            if s != State::Present {
                present = false;
            }
            if s != State::Absent {
                absent = false;
            }
        }
        i += 1;
    }
    if any && present {
        State::Inferred
    } else if any && absent {
        State::Absent
    } else {
        State::Unknown
    }
}

/// Probes the whole series.
pub fn report(facts: &KernelFacts, dbg_dir: Option<String>, is_bc250: bool) -> (r: Report)
    ensures
        r.rows@ == series_seq().map_values(|p: Patch| series_row(series_seq(), *facts, p)),
        r.on_disk@ == shelf_seq().map_values(|p: Patch| shelf_row(*facts, p)),
        r.dbg_dir == dbg_dir,
        r.is_bc250 == is_bc250,
{
    let all = patches::series();
    let inferred: State = bundled(&all, facts);
    let mut rows: Vec<PatchStatus> = Vec::new();
    let mut i: usize = 0;
    while i < all.len()
        invariant
            i <= all@.len(),
            all@ == series_seq(),
            inferred == bundled_state(all@, *facts),
            rows@.len() == i,
            forall|j: int|
                0 <= j < i ==> #[trigger] rows@[j] == series_row(all@, *facts, all@[j]),
        decreases all@.len() - i,
    {
        let p: Patch = all[i];
        let state: State = match p.tell {
            Tell::Bundled => inferred,
            t => probe(t, facts),
        };
        rows.push(PatchStatus { id: p.id, title: p.title, tell: p.tell, state });
        i += 1;
    }
    assert(rows@ =~= series_seq().map_values(|p: Patch| series_row(series_seq(), *facts, p)));
    let shelf = patches::on_disk();
    let mut on_disk: Vec<PatchStatus> = Vec::new();
    let mut k: usize = 0;
    while k < shelf.len()
        invariant
            k <= shelf@.len(),
            shelf@ == shelf_seq(),
            on_disk@.len() == k,
            forall|j: int| 0 <= j < k ==> #[trigger] on_disk@[j] == shelf_row(*facts, shelf@[j]),
        decreases shelf@.len() - k,
    {
        let p: Patch = shelf[k];
        let state: State = match p.tell {
            Tell::Bundled => State::Unknown,
            t => probe(t, facts),
        };
        on_disk.push(PatchStatus { id: p.id, title: p.title, tell: p.tell, state });
        k += 1;
    }
    assert(on_disk@ =~= shelf_seq().map_values(|p: Patch| shelf_row(*facts, p)));
    Report { rows, on_disk, dbg_dir, is_bc250 }
}

/// Every member is live, but for the optional ones.
pub open spec fn all_live(rows: Seq<PatchStatus>) -> bool {
    forall|i: int|
        0 <= i < rows.len() ==> patches::is_optional((#[trigger] rows[i]).id@)
            || rows[i].state.live()
}

/// The members that are missing, but for the optional ones.
pub open spec fn missing_of(rows: Seq<PatchStatus>) -> Seq<PatchStatus> {
    rows.filter(|p: PatchStatus| p.state == State::Absent && !patches::is_optional(p.id@))
}

/// Number of live members.
pub open spec fn live_count(rows: Seq<PatchStatus>) -> nat {
    rows.filter(|p: PatchStatus| p.state.live()).len()
}

impl Report {
    /// Whether every member is live; optional ones are excused.
    pub fn fully_patched(&self) -> (r: bool)
        ensures
            r == all_live(self.rows@),
    {
        let mut i: usize = 0;
        while i < self.rows.len()
            invariant
                i <= self.rows@.len(),
                forall|j: int|
                    0 <= j < i ==> patches::is_optional((#[trigger] self.rows@[j]).id@)
                        || self.rows@[j].state.live(),
            decreases self.rows@.len() - i,
        {
            let row = &self.rows[i];
            let live: bool = row.state == State::Present || row.state == State::Inferred;
            if !live && !patches::optional(row.id) {
                assert(!(patches::is_optional(self.rows@[i as int].id@)
                    || self.rows@[i as int].state.live()));
                return false;
            }
            i += 1;
        }
        true
    }

    /// The members whose trace is missing; optional ones are excused.
    pub fn missing(&self) -> (r: Vec<&PatchStatus>)
        ensures
            r@.map_values(|p: &PatchStatus| *p) == missing_of(self.rows@),
    {
        let ghost keep = |p: PatchStatus|
            p.state == State::Absent && !patches::is_optional(p.id@);
        let mut r: Vec<&PatchStatus> = Vec::new();
        let mut i: usize = 0;
        assert(r@.map_values(|p: &PatchStatus| *p) =~= self.rows@.take(0).filter(keep)) by {
            reveal(Seq::filter);
        }
        while i < self.rows.len()
            invariant
                i <= self.rows@.len(),
                keep == (|p: PatchStatus|
                    p.state == State::Absent && !patches::is_optional(p.id@)),
                r@.map_values(|p: &PatchStatus| *p) == self.rows@.take(i as int).filter(keep),
            decreases self.rows@.len() - i,
        {
            let row: &PatchStatus = &self.rows[i];
            proof {
                assert(self.rows@.take(i + 1) =~= self.rows@.take(i as int).push(*row));
                self.rows@.take(i as int).lemma_filter_push(*row, keep);
            }
            if row.state == State::Absent && !patches::optional(row.id) {
                let ghost before = r@;
                r.push(row);
                assert(r@.map_values(|p: &PatchStatus| *p) =~= before.map_values(
                    |p: &PatchStatus| *p,
                ).push(*row));
            }
            i += 1;
        }
        assert(self.rows@.take(i as int) =~= self.rows@);
        r
    }

    /// The number of live members.
    pub fn live(&self) -> (r: usize)
        ensures
            r == live_count(self.rows@),
    {
        let ghost keep = |p: PatchStatus| p.state.live();
        let mut present: usize = 0;
        let mut i: usize = 0;
        assert(self.rows@.take(0).filter(keep).len() == 0) by {
            reveal(Seq::filter);
        }
        while i < self.rows.len()
            invariant
                i <= self.rows@.len(),
                keep == (|p: PatchStatus| p.state.live()),
                present == self.rows@.take(i as int).filter(keep).len(),
                present <= i,
            decreases self.rows@.len() - i,
        {
            let row = &self.rows[i];
            proof {
                assert(self.rows@.take(i + 1) =~= self.rows@.take(i as int).push(*row));
                self.rows@.take(i as int).lemma_filter_push(*row, keep);
            }
            if row.state == State::Present || row.state == State::Inferred {
                present += 1;
            }
            i += 1;
        }
        assert(self.rows@.take(i as int) =~= self.rows@);
        present
    }
}

/// Machine-readable summary.
#[derive(Debug, PartialEq, Eq)]
pub struct DoctorJson {
    pub is_bc250: bool,
    /// Running kernel release.
    pub kernel: String,
    /// Live members.
    pub present: usize,
    /// Size of the series.
    pub total: usize,
    pub fully: bool,
}

impl DoctorJson {
    /// The summary of a report on the running kernel.
    pub fn from_report(rep: &Report, kernel: String) -> (r: DoctorJson)
        ensures
            r.is_bc250 == rep.is_bc250,
            r.kernel == kernel,
            r.present == live_count(rep.rows@),
            r.total == 24,
            r.fully == all_live(rep.rows@),
    {
        DoctorJson {
            is_bc250: rep.is_bc250,
            kernel,
            present: rep.live(),
            total: patches::count(),
            fully: rep.fully_patched(),
        }
    }
}

// ---------------------------------------------------------------------------
// Highest clock

/// The front part of digits and white space.
pub open spec fn digits_or_space(s: Seq<char>) -> Seq<char>
    decreases s.len(),
{
    if s.len() > 0 && (48 <= text::code(s[0]) <= 57 || text::is_space(s[0])) {
        seq![s[0]] + digits_or_space(s.drop_first())
    } else {
        seq![]
    }
}

/// The clock of a line of the clock table ("1: 2500Mhz *").
pub open spec fn line_clock(line: Seq<char>) -> Option<int> {
    let cut = text::pieces(line, ':');
    if cut.len() > 1 {
        text::number(text::trimmed(digits_or_space(cut[1])), 10, u32::MAX as int)
    } else {
        None
    }
}

/// The highest clock among lines.
pub open spec fn highest_clock(lines: Seq<Seq<char>>) -> Option<int>
    decreases lines.len(),
{
    if lines.len() == 0 {
        None
    } else {
        crate::telemetry::higher(highest_clock(lines.drop_last()), line_clock(lines.last()))
    }
}

fn front_digits_or_space(s: &str) -> (r: &str)
    ensures
        r@ == digits_or_space(s@),
{
    let x = text::chars_of(s);
    let mut i: usize = 0;
    assert(text::after(s@, 0) =~= s@);
    assert(s@.subrange(0, 0) + digits_or_space(text::after(s@, 0)) =~= digits_or_space(s@));
    while i < x.len() && ((48 <= x[i] as u32 && x[i] as u32 <= 57) || text::space(x[i]))
        invariant
            x@ == s@,
            i <= x@.len(),
            s@.subrange(0, i as int) + digits_or_space(text::after(s@, i as int))
                == digits_or_space(s@),
        decreases x@.len() - i,
    {
        assert(text::after(s@, i as int).drop_first() =~= text::after(s@, i + 1));
        assert(s@.subrange(0, i as int) + (seq![s@[i as int]] + digits_or_space(
            text::after(s@, i + 1),
        )) =~= s@.subrange(0, i + 1) + digits_or_space(text::after(s@, i + 1)));
        i += 1;
    }
    assert(s@.subrange(0, i as int) + seq![] =~= s@.subrange(0, i as int));
    s.substring_char(0, i)
}

/// Highest clock in MHz that a clock table offers.
pub fn sclk_max_mhz(txt: &str) -> (r: Option<u32>)
    ensures
        r is Some <==> highest_clock(text::lines_of(txt@)) is Some,
        r is Some ==> highest_clock(text::lines_of(txt@)) == Some(r->0 as int),
{
    let lines = text::lines(txt);
    let ghost all = text::lines_of(txt@);
    let mut best: Option<u32> = None;
    let mut i: usize = 0;
    while i < lines.len()
        invariant
            i <= lines@.len(),
            text::slices(lines@) == all,
            all.len() == lines@.len(),
            best is Some <==> highest_clock(all.take(i as int)) is Some,
            best is Some ==> highest_clock(all.take(i as int)) == Some(best->0 as int),
        decreases lines@.len() - i,
    {
        assert(all.take(i + 1).drop_last() =~= all.take(i as int));
        let line: &str = lines[i];
        assert(line@ == all[i as int]);
        let cut = text::split_on(line, ':');
        assert(cut@.len() == text::slices(cut@).len());
        if cut.len() > 1 {
            assert(cut@[1]@ == text::slices(cut@)[1]);
            if let Some(now) = text::parse_u32(text::trim(front_digits_or_space(cut[1]))) {
                best = match best {
                    Some(b) => if now > b {
                        Some(now)
                    } else {
                        Some(b)
                    },
                    None => Some(now),
                };
            }
        }
        i += 1;
    }
    assert(all.take(i as int) =~= all);
    best
}

// ---------------------------------------------------------------------------
// Laws

/// A partial series vouches for nobody: with one deciding trace there and one
/// not, the patches without a trace are unknown.
pub proof fn partial_series_vouches_for_nobody(
    all: Seq<Patch>,
    facts: KernelFacts,
    here: int,
    gone: int,
)
    requires
        0 <= here < all.len(),
        0 <= gone < all.len(),
        in_jury(all[here]),
        in_jury(all[gone]),
        probed(all[here].tell, facts) == State::Present,
        probed(all[gone].tell, facts) != State::Present,
    ensures
        bundled_state(all, facts) == State::Unknown,
{
}

/// A report calls the series complete exactly where every deciding trace is
/// there.
pub proof fn complete_means_every_trace(facts: KernelFacts)
    ensures
        all_live(
            series_seq().map_values(|p: Patch| series_row(series_seq(), facts, p)),
        ) <==> jury_says(series_seq(), facts, State::Present),
{
    let all = series_seq();
    let rows = all.map_values(|p: Patch| series_row(all, facts, p));
    reveal_strlit("02");
    reveal_strlit("17");
    assert(in_jury(all[1])) by {
        assert(all[1] == patches::series_entry(1));
        assert("02"@[1] != "17"@[1]);
    }
    assert forall|i: int| 0 <= i < all.len() implies (#[trigger] rows[i]) == series_row(
        all,
        facts,
        all[i],
    ) by {}
    if jury_says(all, facts, State::Present) {
        assert forall|i: int| 0 <= i < rows.len() implies patches::is_optional(
            (#[trigger] rows[i]).id@,
        ) || rows[i].state.live() by {
            assert(rows[i] == series_row(all, facts, all[i]));
            if !(all[i].tell is Bundled) && !patches::is_optional(all[i].id@) {
                assert(in_jury(all[i]));
            }
        }
    }
    if all_live(rows) {
        assert forall|i: int| 0 <= i < all.len() && in_jury(#[trigger] all[i]) implies probed(
            all[i].tell,
            facts,
        ) == State::Present by {
            assert(rows[i].state.live());
        }
    }
}

/// A trace that is there makes its patch live, one that is missing does not, and
/// one that could not be looked for decides nothing.
pub proof fn trace_decides(facts: KernelFacts, name: &'static str, min: u32)
    ensures
        probed(Tell::ModParam(name), facts).live() <==> listed(facts.modparams@, name@),
        facts.debugfs matches Some(nodes) ==> (probed(Tell::Debugfs(name), facts).live() <==> listed(
            nodes@,
            name@,
        )),
        facts.debugfs is None ==> probed(Tell::Debugfs(name), facts) == State::Unknown,
        facts.sclk_max matches Some(m) ==> (probed(Tell::SclkMax(min), facts).live() <==> m >= min),
        facts.sclk_max is None ==> probed(Tell::SclkMax(min), facts) == State::Unknown,
        facts.active_cu matches Some(c) ==> (probed(Tell::CuCount(min), facts).live() <==> c >= min),
        facts.active_cu is None ==> probed(Tell::CuCount(min), facts) == State::Unknown,
        !(probed(Tell::ModParam(name), facts) is Unknown),
        !State::Absent.live() && !State::Unknown.live(),
        State::Present.live() && State::Inferred.live(),
{
}

/// With every deciding trace there the patches without one are taken to be live,
/// and with every one missing they are missing.
pub proof fn whole_series_vouches(all: Seq<Patch>, facts: KernelFacts, one: int)
    requires
        0 <= one < all.len(),
        in_jury(all[one]),
    ensures
        (forall|i: int|
            0 <= i < all.len() && in_jury(#[trigger] all[i]) ==> probed(all[i].tell, facts)
                == State::Present) ==> bundled_state(all, facts) == State::Inferred,
        (forall|i: int|
            0 <= i < all.len() && in_jury(#[trigger] all[i]) ==> probed(all[i].tell, facts)
                == State::Absent) ==> bundled_state(all, facts) == State::Absent,
        bundled_state(all, facts).live() ==> probed(all[one].tell, facts) == State::Present,
        bundled_state(all, facts) == State::Absent ==> probed(all[one].tell, facts) == State::Absent,
{
}

/// An optional patch does not decide about the others, and neither does one
/// without a trace.
pub proof fn who_decides(p: Patch)
    ensures
        patches::is_optional(p.id@) ==> !in_jury(p),
        p.tell is Bundled ==> !in_jury(p),
        !patches::is_optional(p.id@) && !(p.tell is Bundled) ==> in_jury(p),
{
}

/// A row tells of its own patch; one with a trace goes by it, in the series and
/// on the shelf alike, and one on the shelf without a trace is unknown.
pub proof fn row_is_of_its_patch(all: Seq<Patch>, facts: KernelFacts, p: Patch)
    ensures
        series_row(all, facts, p).id == p.id && shelf_row(facts, p).id == p.id,
        series_row(all, facts, p).title == p.title && shelf_row(facts, p).title == p.title,
        series_row(all, facts, p).tell == p.tell && shelf_row(facts, p).tell == p.tell,
        !(p.tell is Bundled) ==> series_row(all, facts, p).state == probed(p.tell, facts)
            && shelf_row(facts, p).state == probed(p.tell, facts),
        p.tell is Bundled ==> shelf_row(facts, p).state == State::Unknown,
        p.tell is Bundled ==> series_row(all, facts, p).state == bundled_state(all, facts),
{
}

/// One more row changes the summary by what it is: a live one counts, a missing
/// one is listed unless it is optional, and a series stays complete only with a
/// row that is live or optional.
pub proof fn summary_goes_row_by_row(rows: Seq<PatchStatus>, row: PatchStatus)
    ensures
        live_count(rows.push(row)) == live_count(rows) + (if row.state == State::Present || row.state
            == State::Inferred {
            1int
        } else {
            0
        }),
        row.state == State::Absent && !patches::is_optional(row.id@) ==> missing_of(rows.push(row))
            == missing_of(rows).push(row),
        row.state != State::Absent || patches::is_optional(row.id@) ==> missing_of(rows.push(row))
            == missing_of(rows),
        all_live(rows.push(row)) <==> all_live(rows) && (row.state == State::Present || row.state
            == State::Inferred || patches::is_optional(row.id@)),
        live_count(seq![]) == 0,
{
    rows.lemma_filter_push(row, |p: PatchStatus| p.state.live());
    rows.lemma_filter_push(
        row,
        |p: PatchStatus| p.state == State::Absent && !patches::is_optional(p.id@),
    );
    reveal(Seq::filter);
    let longer = rows.push(row);
    assert(longer[rows.len() as int] == row);
    assert(forall|i: int| 0 <= i < rows.len() ==> rows[i] == #[trigger] longer[i]);
    if all_live(longer) {
        assert forall|i: int| 0 <= i < rows.len() implies patches::is_optional(
            (#[trigger] rows[i]).id@,
        ) || rows[i].state.live() by {
            assert(longer[i] == rows[i]);
        }
    }
}

/// The highest clock is that of one of the lines, and no line has a higher one;
/// there is none only where no line has a clock.
pub proof fn highest_clock_is_the_highest(lines: Seq<Seq<char>>)
    ensures
        highest_clock(lines) is None <==> forall|i: int|
            0 <= i < lines.len() ==> line_clock(#[trigger] lines[i]) is None,
        highest_clock(lines) matches Some(m) ==> exists|i: int|
            0 <= i < lines.len() && line_clock(#[trigger] lines[i]) == Some(m),
        highest_clock(lines) matches Some(m) ==> forall|i: int|
            0 <= i < lines.len() ==> (line_clock(#[trigger] lines[i]) matches Some(c) ==> c <= m),
    decreases lines.len(),
{
    if lines.len() > 0 {
        let front = lines.drop_last();
        let n = front.len() as int;
        highest_clock_is_the_highest(front);
        assert(forall|i: int| 0 <= i < n ==> front[i] == #[trigger] lines[i]);
        assert(lines[n] == lines.last());
        if highest_clock(front) is Some {
            let m = highest_clock(front)->0;
            let i = choose|i: int| 0 <= i < n && line_clock(#[trigger] front[i]) == Some(m);
            assert(line_clock(lines[i]) == Some(m));
        }
        if highest_clock(lines) is None {
            assert forall|i: int| 0 <= i < lines.len() implies line_clock(#[trigger] lines[i])
                is None by {
                if i < n {
                    assert(front[i] == lines[i]);
                }
            }
        } else {
            let m = highest_clock(lines)->0;
            assert forall|i: int| 0 <= i < lines.len() implies (line_clock(
                #[trigger] lines[i],
            ) matches Some(c) ==> c <= m) by {
                if i < n {
                    assert(front[i] == lines[i]);
                }
            }
        }
    }
}

/// The report has a row for each of the twenty-four members and the four patches on
/// the shelf.
pub proof fn all_patches_are_reported(i: int)
    ensures
        series_seq().len() == 24,
        shelf_seq().len() == 4,
        0 <= i < 24 ==> series_seq()[i] == patches::series_entry(i),
        0 <= i < 4 ==> shelf_seq()[i] == patches::shelf_entry(i),
{
}

} // verus!
