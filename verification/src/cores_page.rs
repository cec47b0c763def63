//! The core map: firmware mask and online threads of the eight slots.
use vstd::prelude::*;

use crate::cores::{CoreSnapshot, CoreState};
use crate::cu::{bit, bit_set};
use crate::screen;
use crate::screen::any_online;
use crate::text;
use crate::ui;
use crate::ui::{Ink, Line, LineView, Page, SpanView, Style};

verus! {

/// Width of a cell of the map.
pub const CELL_W: usize = 9;

// ---------------------------------------------------------------------------
// Title and last line

/// The colour of a state and the note behind the counts.
pub open spec fn state_note(s: CoreState) -> (Ink, Seq<char>) {
    match s {
        CoreState::Unlocked => (Ink::Good, ""@),
        CoreState::Locked => (Ink::Warn, ""@),
        CoreState::PendingReboot => (Ink::Warn, " · warm reboot needed"@),
        CoreState::Abnormal(_) => (Ink::Bad, " · writes refused"@),
    }
}

/// State, mask and counts, and what is not in order.
pub open spec fn title_line(s: CoreSnapshot, unit: bool, drafting: bool) -> LineView {
    ui::line(
        seq![
            ui::span(" "@ + s.state.word() + " "@, ui::bold(state_note(s.state).0)),
            ui::span(
                "mask 0x"@ + text::hex_upper_pad(s.mask as nat, 2) + " · "@ + text::dec(
                    s.cores as nat,
                ) + "C/"@ + text::dec(s.threads as nat) + "T · "@ + text::dec(s.offline as nat)
                    + " offline"@ + state_note(s.state).1,
                ui::plain(Ink::Dim),
            ),
            ui::span(if unit { ""@ } else { " · unit not installed"@ }, ui::plain(Ink::Warn)),
            ui::span(
                if drafting { " · draft [a] apply [esc] cancel"@ } else { ""@ },
                ui::plain(Ink::Warn),
            ),
        ],
    )
}

fn title(s: &CoreSnapshot, unit: bool, drafting: bool) -> (r: Line)
    ensures
        r@ == title_line(*s, unit, drafting),
{
    let (ink, note): (Ink, &str) = match s.state {
        CoreState::Unlocked => (Ink::Good, ""),
        CoreState::Locked => (Ink::Warn, ""),
        CoreState::PendingReboot => (Ink::Warn, " · warm reboot needed"),
        CoreState::Abnormal(_) => (Ink::Bad, " · writes refused"),
    };
    let word = text::join3(" ", s.state.label(), " ");
    let mut counts = text::join3(
        "mask 0x",
        text::hexadecimal_upper_padded(s.mask as u64, 2).as_str(),
        " · ",
    );
    counts.append(text::decimal(s.cores as u64).as_str());
    counts.append("C/");
    counts.append(text::decimal(s.threads as u64).as_str());
    counts.append("T · ");
    counts.append(text::decimal(s.offline as u64).as_str());
    counts.append(" offline");
    counts.append(note);
    let r = Line::four(
        ui::tint_bold(word.as_str(), ink),
        ui::tint(counts.as_str(), Ink::Dim),
        ui::tint(
            if unit {
                ""
            } else {
                " · unit not installed"
            },
            Ink::Warn,
        ),
        ui::tint(
            if drafting {
                " · draft [a] apply [esc] cancel"
            } else {
                ""
            },
            Ink::Warn,
        ),
    );
    assert(r@.spans =~= title_line(*s, unit, drafting).spans);
    r
}

/// The verdict of the sweep where there is a report, else the keys.
pub open spec fn last_line(report: Option<Vec<String>>) -> LineView {
    ui::line(
        seq![
            match report {
                Some(l) if l@.len() > 0 => ui::span(" verify: "@ + l@.last()@, ui::plain(Ink::Warn)),
                _ => ui::span(
                    " keys: [←→] select · [space] toggle · [a] apply · [esc] cancel · [r] reset · [u] unlock · [F] force-unlock · [i] unit · [v] verify"@,
                    ui::plain(Ink::Dim),
                ),
            },
        ],
    )
}

fn verdict_or_keys(report: &Option<Vec<String>>) -> (r: Line)
    ensures
        r@ == last_line(*report),
{
    if let Some(l) = report {
        let n: usize = l.len();
        if n > 0 {
            return Line::of(
                ui::tint(text::join2(" verify: ", l[n - 1].as_str()).as_str(), Ink::Warn),
            );
        }
    }
    Line::of(
        ui::tint(
            " keys: [←→] select · [space] toggle · [a] apply · [esc] cancel · [r] reset · [u] unlock · [F] force-unlock · [i] unit · [v] verify",
            Ink::Dim,
        ),
    )
}

// ---------------------------------------------------------------------------
// Cells

/// The threads of a core: those of the first group with its number.
pub open spec fn threads_of_core(
    groups: Seq<(u32, Vec<(u32, bool)>)>,
    core: u32,
) -> Option<Seq<(u32, bool)>>
    decreases groups.len(),
{
    if groups.len() == 0 {
        None
    } else if groups[0].0 == core {
        Some(groups[0].1@)
    } else {
        threads_of_core(groups.drop_first(), core)
    }
}

fn find_group(groups: &Vec<(u32, Vec<(u32, bool)>)>, core: u32) -> (r: Option<usize>)
    ensures
        match r {
            Some(k) => k < groups@.len() && threads_of_core(groups@, core) == Some(
                groups@[k as int].1@,
            ),
            None => threads_of_core(groups@, core) is None,
        },
{
    let mut k: usize = 0;
    assert(groups@.skip(0) =~= groups@);
    while k < groups.len()
        invariant
            k <= groups@.len(),
            threads_of_core(groups@.skip(k as int), core) == threads_of_core(groups@, core),
        decreases groups@.len() - k,
    {
        assert(groups@.skip(k as int).drop_first() =~= groups@.skip(k + 1));
        if groups[k].0 == core {
            return Some(k);
        }
        k += 1;
    }
    None
}

/// The glyphs of a core's first two threads: both, one, none online.
pub open spec fn thread_pair(s: CoreSnapshot, core: u32) -> (Seq<char>, Ink) {
    match threads_of_core(s.per_core@, core) {
        Some(t) => {
            let first = t.len() > 0 && t[0].1;
            let second = t.len() > 1 && t[1].1;
            if first && second {
                ("██"@, Ink::Good)
            } else if first || second {
                ("█·"@, Ink::Warn)
            } else {
                ("··"@, Ink::Dim)
            }
        },
        None => ("··"@, Ink::Dim),
    }
}

fn pair_of(s: &CoreSnapshot, core: u32) -> (r: (&'static str, Ink))
    ensures
        r.0@ == thread_pair(*s, core).0,
        r.1 == thread_pair(*s, core).1,
{
    match find_group(&s.per_core, core) {
        Some(k) => {
            let t = &s.per_core[k].1;
            let first: bool = t.len() > 0 && t[0].1;
            let second: bool = t.len() > 1 && t[1].1;
            if first && second {
                ("██", Ink::Good)
            } else if first || second {
                ("█·", Ink::Warn)
            } else {
                ("··", Ink::Dim)
            }
        },
        None => ("··", Ink::Dim),
    }
}

/// The glyphs of a core in the map: its threads; with a draft the wanted state,
/// in the colour of a warning where the core is not in that state.
pub open spec fn core_pair(
    s: CoreSnapshot,
    draft: Option<[bool; 8]>,
    core: u32,
) -> (Seq<char>, Ink) {
    match draft {
        Some(d) => {
            let want = d@[core as int];
            let live = match threads_of_core(s.per_core@, core) {
                Some(t) => any_online(t),
                None => false,
            };
            (
                if want { "██"@ } else { "··"@ },
                if want != live {
                    Ink::Warn
                } else if want {
                    Ink::Good
                } else {
                    Ink::Dim
                },
            )
        },
        None => thread_pair(s, core),
    }
}

fn glyphs_of(s: &CoreSnapshot, draft: &Option<[bool; 8]>, core: u32) -> (r: (&'static str, Ink))
    requires
        core < 8,
    ensures
        r.0@ == core_pair(*s, *draft, core).0,
        r.1 == core_pair(*s, *draft, core).1,
{
    match draft {
        Some(d) => {
            let want: bool = d[core as usize];
            let live: bool = match find_group(&s.per_core, core) {
                Some(k) => screen::has_online(&s.per_core[k].1),
                None => false,
            };
            let ink: Ink = if want != live {
                Ink::Warn
            } else if want {
                Ink::Good
            } else {
                Ink::Dim
            };
            (
                if want {
                    "██"
                } else {
                    "··"
                },
                ink,
            )
        },
        None => pair_of(s, core),
    }
}

/// A colour, reversed in the selected cell.
pub open spec fn cell_style(ink: Ink, bold: bool, sel: bool) -> Style {
    Style { ink, bold, reversed: sel }
}

/// The number of a core.
pub open spec fn head_cell(core: u32, sel: bool) -> Seq<SpanView> {
    seq![
        ui::span("  core "@ + text::dec(core as nat), cell_style(Ink::Accent, true, sel)),
        ui::span(" "@, ui::plain(Ink::Plain)),
    ]
}

/// A core in the firmware's mask.
pub open spec fn mask_cell(mask: u8, core: u32, sel: bool) -> Seq<SpanView> {
    let on = bit(mask as u32, core);
    seq![
        ui::span("  fw "@, cell_style(Ink::Dim, false, sel)),
        ui::span(
            if on { "██"@ } else { "··"@ },
            cell_style(if on { Ink::Good } else { Ink::Dim }, false, sel),
        ),
        ui::span("  "@, ui::plain(Ink::Plain)),
    ]
}

/// A core as the system sees it.
pub open spec fn system_cell(
    s: CoreSnapshot,
    draft: Option<[bool; 8]>,
    core: u32,
    sel: bool,
) -> Seq<SpanView> {
    let pair = core_pair(s, draft, core);
    seq![
        ui::span("  os "@, cell_style(Ink::Dim, false, sel)),
        ui::span(pair.0, cell_style(pair.1, false, sel)),
        ui::span("  "@, ui::plain(Ink::Plain)),
    ]
}

// ---------------------------------------------------------------------------
// Rows

/// What a row of the map shows.
#[derive(Clone, Copy, Debug, PartialEq, Eq, Structural)]
pub enum MapRow {
    Top,
    Head,
    Firmware,
    System,
    Bottom,
}

/// The cell of a row, without its border.
pub open spec fn map_cell(
    row: MapRow,
    s: CoreSnapshot,
    draft: Option<[bool; 8]>,
    sel: Option<usize>,
    core: u32,
) -> Seq<SpanView> {
    let chosen = sel == Some(core as usize);
    match row {
        MapRow::Head => head_cell(core, chosen),
        MapRow::Firmware => mask_cell(s.mask, core, chosen),
        MapRow::System => system_cell(s, draft, core, chosen),
        MapRow::Top | MapRow::Bottom => seq![
            ui::span(text::repeat('─', CELL_W as nat), ui::plain(Ink::Dim)),
        ],
    }
}

/// The border at the left of a row, between two cells, and at the right.
pub open spec fn borders(row: MapRow) -> (Seq<char>, Seq<char>, Seq<char>) {
    match row {
        MapRow::Top => ("╭"@, "┬"@, "╮"@),
        MapRow::Bottom => ("╰"@, "┴"@, "╯"@),
        _ => ("│"@, "│"@, "│"@),
    }
}

fn border_texts(row: MapRow) -> (r: (&'static str, &'static str, &'static str))
    ensures
        r.0@ == borders(row).0,
        r.1@ == borders(row).1,
        r.2@ == borders(row).2,
{
    match row {
        MapRow::Top => ("╭", "┬", "╮"),
        MapRow::Bottom => ("╰", "┴", "╯"),
        _ => ("│", "│", "│"),
    }
}

/// A dim span.
pub open spec fn sep(s: Seq<char>) -> SpanView {
    ui::span(s, ui::plain(Ink::Dim))
}

/// A row up to its first `n` cells.
pub open spec fn row_spans(
    row: MapRow,
    s: CoreSnapshot,
    draft: Option<[bool; 8]>,
    sel: Option<usize>,
    n: nat,
) -> Seq<SpanView>
    decreases n,
{
    if n == 0 {
        seq![sep(" "@), sep(" "@), sep(borders(row).0)]
    } else {
        (row_spans(row, s, draft, sel, (n - 1) as nat) + map_cell(
            row,
            s,
            draft,
            sel,
            (n - 1) as u32,
        )).push(sep(if n == 8 { borders(row).2 } else { borders(row).1 }))
    }
}

/// A row of the map.
pub open spec fn map_row(
    row: MapRow,
    s: CoreSnapshot,
    draft: Option<[bool; 8]>,
    sel: Option<usize>,
) -> LineView {
    ui::line(row_spans(row, s, draft, sel, 8))
}

fn shade(ink: Ink, bold: bool, sel: bool) -> (r: Style)
    ensures
        r == cell_style(ink, bold, sel),
{
    Style { ink, bold, reversed: sel }
}

fn push_map_cell(
    l: &mut Line,
    row: MapRow,
    s: &CoreSnapshot,
    draft: &Option<[bool; 8]>,
    chosen: bool,
    core: u32,
)
    requires
        core < 8,
    ensures
        final(l)@ == (LineView {
            spans: old(l)@.spans + map_cell(
                row,
                *s,
                *draft,
                if chosen { Some(core as usize) } else { None },
                core,
            ),
            ..old(l)@
        }),
{
    let ghost added = map_cell(
        row,
        *s,
        *draft,
        if chosen { Some(core as usize) } else { None },
        core,
    );
    match row {
        MapRow::Head => {
            let name = text::join2("  core ", text::decimal(core as u64).as_str());
            l.add_span(ui::styled(name.as_str(), shade(Ink::Accent, true, chosen)));
            l.add_span(ui::tint(" ", Ink::Plain));
        },
        MapRow::Firmware => {
            let on: bool = bit_set(s.mask as u32, core);
            l.add_span(ui::styled("  fw ", shade(Ink::Dim, false, chosen)));
            if on {
                l.add_span(ui::styled("██", shade(Ink::Good, false, chosen)));
            } else {
                l.add_span(ui::styled("··", shade(Ink::Dim, false, chosen)));
            }
            l.add_span(ui::tint("  ", Ink::Plain));
        },
        MapRow::System => {
            let (glyphs, ink) = glyphs_of(s, draft, core);
            l.add_span(ui::styled("  os ", shade(Ink::Dim, false, chosen)));
            l.add_span(ui::styled(glyphs, shade(ink, false, chosen)));
            l.add_span(ui::tint("  ", Ink::Plain));
        },
        MapRow::Top | MapRow::Bottom => {
            l.add_span(ui::tint(text::repeated('─', CELL_W).as_str(), Ink::Dim));
        },
    }
    assert(l@.spans =~= old(l)@.spans + added);
}

fn row_line(row: MapRow, s: &CoreSnapshot, draft: &Option<[bool; 8]>, sel: Option<usize>) -> (r: Line)
    ensures
        r@ == map_row(row, *s, *draft, sel),
{
    let (left, mid, right) = border_texts(row);
    let mut l = Line::three(ui::tint(" ", Ink::Dim), ui::tint(" ", Ink::Dim), ui::tint(left, Ink::Dim));
    let mut core: u32 = 0;
    assert(l@.spans =~= row_spans(row, *s, *draft, sel, 0));
    while core < 8
        invariant
            core <= 8,
            left@ == borders(row).0,
            mid@ == borders(row).1,
            right@ == borders(row).2,
            l@ == ui::line(row_spans(row, *s, *draft, sel, core as nat)),
        decreases 8 - core,
    {
        let chosen: bool = match sel {
            Some(i) => i == core as usize,
            None => false,
        };
        push_map_cell(&mut l, row, s, draft, chosen, core);
        l.add_span(
            ui::tint(
                if core == 7 {
                    right
                } else {
                    mid
                },
                Ink::Dim,
            ),
        );
        core += 1;
    }
    l
}

// ---------------------------------------------------------------------------
// Page

/// The cell of a core in one line.
pub open spec fn compact_cell(s: CoreSnapshot, sel: Option<usize>, core: u32) -> SpanView {
    let pair = thread_pair(s, core);
    ui::span(
        " c"@ + text::dec(core as nat) + (if bit(s.mask as u32, core) { "#"@ } else { "."@ })
            + pair.0 + " "@,
        cell_style(pair.1, false, sel == Some(core as usize)),
    )
}

/// The cores in one line.
pub open spec fn compact_row(s: CoreSnapshot, sel: Option<usize>) -> LineView {
    ui::line(Seq::new(8, |core: int| compact_cell(s, sel, core as u32)))
}

fn compact_line(s: &CoreSnapshot, sel: Option<usize>) -> (r: Line)
    ensures
        r@ == compact_row(*s, sel),
{
    let mut l = Line::new();
    let mut core: u32 = 0;
    while core < 8
        invariant
            core <= 8,
            !l@.centered,
            l@.spans =~= Seq::new(core as nat, |c: int| compact_cell(*s, sel, c as u32)),
        decreases 8 - core,
    {
        let chosen: bool = match sel {
            Some(i) => i == core as usize,
            None => false,
        };
        let (glyphs, ink) = pair_of(s, core);
        let mut t = text::join3(
            " c",
            text::decimal(core as u64).as_str(),
            if bit_set(s.mask as u32, core) {
                "#"
            } else {
                "."
            },
        );
        t.append(glyphs);
        t.append(" ");
        l.add_span(ui::styled(t.as_str(), shade(ink, false, chosen)));
        core += 1;
    }
    l
}

/// The panel: the map, in a narrow panel the cores in one line; between the
/// title and the last line. `sel` is the selected core of a focused panel.
pub open spec fn cores_page(
    cores: Option<CoreSnapshot>,
    unit: bool,
    draft: Option<[bool; 8]>,
    report: Option<Vec<String>>,
    sel: Option<usize>,
    width: int,
) -> Seq<LineView> {
    match cores {
        None => seq![
            ui::line(
                seq![
                    ui::span(
                        " core map unavailable (need root + BC-250)"@,
                        ui::plain(Ink::Dim),
                    ),
                ],
            ),
        ],
        Some(s) => if width >= 92 {
            seq![
                title_line(s, unit, draft is Some),
                map_row(MapRow::Top, s, draft, sel),
                map_row(MapRow::Head, s, draft, sel),
                map_row(MapRow::Firmware, s, draft, sel),
                map_row(MapRow::System, s, draft, sel),
                map_row(MapRow::Bottom, s, draft, sel),
                last_line(report),
            ]
        } else {
            seq![title_line(s, unit, draft is Some), compact_row(s, sel), last_line(report)]
        },
    }
}

/// The panel, in a width.
pub fn cores_lines(
    cores: &Option<CoreSnapshot>,
    unit: bool,
    draft: &Option<[bool; 8]>,
    report: &Option<Vec<String>>,
    sel: Option<usize>,
    width: u16,
) -> (r: Page)
    ensures
        r@ == cores_page(*cores, unit, *draft, *report, sel, width as int),
{
    let mut page = Page::new();
    match cores {
        None => {
            page.put(Line::of(ui::tint(" core map unavailable (need root + BC-250)", Ink::Dim)));
        },
        Some(s) => {
            page.put(title(s, unit, draft.is_some()));
            if width >= 92 {
                page.put(row_line(MapRow::Top, s, draft, sel));
                page.put(row_line(MapRow::Head, s, draft, sel));
                page.put(row_line(MapRow::Firmware, s, draft, sel));
                page.put(row_line(MapRow::System, s, draft, sel));
                page.put(row_line(MapRow::Bottom, s, draft, sel));
            } else {
                page.put(compact_line(s, sel));
            }
            page.put(verdict_or_keys(report));
        },
    }
    assert(page@ =~= cores_page(*cores, unit, *draft, *report, sel, width as int));
    page
}

/// The columns that spans take.
pub open spec fn width_of(spans: Seq<SpanView>) -> nat
    decreases spans.len(),
{
    if spans.len() == 0 {
        0
    } else {
        width_of(spans.drop_last()) + spans.last().text.len()
    }
}

proof fn width_of_sum(a: Seq<SpanView>, b: Seq<SpanView>)
    ensures
        width_of(a + b) == width_of(a) + width_of(b),
    decreases b.len(),
{
    if b.len() == 0 {
        assert(a + b =~= a);
    } else {
        assert((a + b).drop_last() =~= a + b.drop_last());
        width_of_sum(a, b.drop_last());
    }
}

proof fn glyphs_are_two_wide(s: CoreSnapshot, draft: Option<[bool; 8]>, core: u32)
    ensures
        core_pair(s, draft, core).0.len() == 2,
{
    reveal_strlit("██");
    reveal_strlit("█·");
    reveal_strlit("··");
}

proof fn cell_keeps_the_width(
    row: MapRow,
    s: CoreSnapshot,
    draft: Option<[bool; 8]>,
    sel: Option<usize>,
    core: u32,
)
    requires
        core < 8,
    ensures
        width_of(map_cell(row, s, draft, sel, core)) == CELL_W,
{
    let cell = map_cell(row, s, draft, sel, core);
    glyphs_are_two_wide(s, draft, core);
    reveal_strlit("  core ");
    reveal_strlit("  fw ");
    reveal_strlit("  os ");
    reveal_strlit("██");
    reveal_strlit("··");
    reveal_strlit(" ");
    reveal_strlit("  ");
    reveal_with_fuel(width_of, 4);
    assert(text::dec(core as nat).len() == 1);
    if cell.len() == 3 {
        let two = cell.drop_last();
        assert(two.len() == 2 && two[0] == cell[0] && two[1] == cell[1]);
        assert(two.drop_last()[0] == cell[0]);
    } else if cell.len() == 2 {
        assert(cell.drop_last()[0] == cell[0]);
    }
}

proof fn row_width(
    row: MapRow,
    s: CoreSnapshot,
    draft: Option<[bool; 8]>,
    sel: Option<usize>,
    n: nat,
)
    requires
        n <= 8,
    ensures
        width_of(row_spans(row, s, draft, sel, n)) == 3 + n * (CELL_W + 1),
    decreases n,
{
    reveal_strlit(" ");
    reveal_strlit("╭");
    reveal_strlit("┬");
    reveal_strlit("╮");
    reveal_strlit("╰");
    reveal_strlit("┴");
    reveal_strlit("╯");
    reveal_strlit("│");
    let spans = row_spans(row, s, draft, sel, n);
    if n == 0 {
        reveal_with_fuel(width_of, 4);
        let two = spans.drop_last();
        assert(two.len() == 2 && two[0] == spans[0] && two[1] == spans[1]);
        assert(two.drop_last()[0] == spans[0]);
    } else {
        let before = row_spans(row, s, draft, sel, (n - 1) as nat);
        let cell = map_cell(row, s, draft, sel, (n - 1) as u32);
        row_width(row, s, draft, sel, (n - 1) as nat);
        cell_keeps_the_width(row, s, draft, sel, (n - 1) as u32);
        width_of_sum(before, cell);
        assert(spans.drop_last() =~= before + cell);
    }
}

/// The rows of the map never drift against its border: all of them take the
/// same columns, whatever they show.
pub proof fn rows_keep_the_border(
    row: MapRow,
    s: CoreSnapshot,
    draft: Option<[bool; 8]>,
    sel: Option<usize>,
)
    ensures
        width_of(map_row(row, s, draft, sel).spans) == width_of(
            map_row(MapRow::Top, s, draft, sel).spans,
        ),
        width_of(map_row(row, s, draft, sel).spans) <= 92,
{
    row_width(row, s, draft, sel, 8);
    row_width(MapRow::Top, s, draft, sel, 8);
}

// ---------------------------------------------------------------------------
// Forced unlock

/// The question before the forced unlock.
pub open spec fn force_page(mask: u8) -> Seq<LineView> {
    seq![
        ui::line(
            seq![
                ui::span("Current mask "@, ui::plain(Ink::Dim)),
                ui::span("0x"@ + text::hex_upper_pad(mask as nat, 2), ui::bold(Ink::Warn)),
                ui::span(
                    " is NOT the known stock 0x77 — the safety gate"@,
                    ui::plain(Ink::Dim),
                ),
            ],
        ),
        ui::line(
            seq![
                ui::span(
                    "refuses it by design. The q3 0x98 write is all-or-nothing:"@,
                    ui::plain(Ink::Plain),
                ),
            ],
        ),
        ui::line(
            seq![
                ui::span(
                    "it stores 0xFF (all 8 cores) regardless of the mask read."@,
                    ui::plain(Ink::Plain),
                ),
            ],
        ),
        ui::line(seq![ui::span(""@, ui::plain(Ink::Plain))]),
        ui::line(
            seq![
                ui::span("[y] write now  "@, ui::bold(Ink::Good)),
                ui::span("cores appear after a WARM reboot; a cold boot"@, ui::plain(Ink::Dim)),
            ],
        ),
        ui::line(
            seq![
                ui::span(
                    "    reverts to this board's own mask. Power/thermal envelope changes."@,
                    ui::plain(Ink::Dim),
                ),
            ],
        ),
        ui::line(
            seq![
                ui::span("[esc] cancel  "@, ui::bold(Ink::Warn)),
                ui::span("nothing is written."@, ui::plain(Ink::Dim)),
            ],
        ),
    ]
}

/// The question before the forced unlock: the mask is that of the snapshot, 0
/// without one.
pub fn force_lines(cores: &Option<CoreSnapshot>) -> (r: Page)
    ensures
        r@ == force_page(
            match *cores {
                Some(c) => c.mask,
                None => 0,
            },
        ),
{
    let mask: u8 = match cores {
        Some(c) => c.mask,
        None => 0,
    };
    let shown = text::join2("0x", text::hexadecimal_upper_padded(mask as u64, 2).as_str());
    let mut page = Page::new();
    page.put(
        Line::three(
            ui::tint("Current mask ", Ink::Dim),
            ui::tint_bold(shown.as_str(), Ink::Warn),
            ui::tint(" is NOT the known stock 0x77 — the safety gate", Ink::Dim),
        ),
    );
    page.put(
        Line::of(
            ui::tint("refuses it by design. The q3 0x98 write is all-or-nothing:", Ink::Plain),
        ),
    );
    page.put(
        Line::of(
            ui::tint("it stores 0xFF (all 8 cores) regardless of the mask read.", Ink::Plain),
        ),
    );
    page.put(Line::of(ui::tint("", Ink::Plain)));
    page.put(
        Line::two(
            ui::tint_bold("[y] write now  ", Ink::Good),
            ui::tint("cores appear after a WARM reboot; a cold boot", Ink::Dim),
        ),
    );
    page.put(
        Line::of(
            ui::tint(
                "    reverts to this board's own mask. Power/thermal envelope changes.",
                Ink::Dim,
            ),
        ),
    );
    page.put(
        Line::two(
            ui::tint_bold("[esc] cancel  ", Ink::Warn),
            ui::tint("nothing is written.", Ink::Dim),
        ),
    );
    assert(page@ =~= force_page(mask));
    page
}

// ---------------------------------------------------------------------------
// Laws

/// A core is shown by how many of its two threads are online: both, one or none.
pub proof fn threads_are_shown_by_number(s: CoreSnapshot, core: u32)
    ensures
        threads_of_core(s.per_core@, core) is None ==> thread_pair(s, core).1 is Dim,
        threads_of_core(s.per_core@, core) matches Some(t) ==> (t.len() == 2 ==> ({
            &&& thread_pair(s, core).1 is Good <==> t[0].1 && t[1].1
            &&& thread_pair(s, core).1 is Warn <==> t[0].1 != t[1].1
            &&& thread_pair(s, core).1 is Dim <==> !t[0].1 && !t[1].1
        })),
{
}

/// A drafted core is shown as wanted, and as pending exactly where it is not so
/// yet.
pub proof fn draft_is_shown_as_wanted(s: CoreSnapshot, d: [bool; 8], core: u32)
    requires
        core < 8,
    ensures
        ({
            let live = threads_of_core(s.per_core@, core) is Some && any_online(
                threads_of_core(s.per_core@, core)->0,
            );
            let pair = core_pair(s, Some(d), core);
            &&& pair.1 is Warn <==> d@[core as int] != live
            &&& d@[core as int] ==> pair.0 == "██"@
            &&& !d@[core as int] ==> pair.0 == "··"@
        }),
        core_pair(s, None, core) == thread_pair(s, core),
{
}

/// The threads of a core are those of its first group.
pub proof fn first_group_of_a_core(
    g: (u32, Vec<(u32, bool)>),
    rest: Seq<(u32, Vec<(u32, bool)>)>,
    core: u32,
)
    ensures
        g.0 == core ==> threads_of_core(seq![g] + rest, core) == Some(g.1@),
        g.0 != core ==> threads_of_core(seq![g] + rest, core) == threads_of_core(rest, core),
        threads_of_core(seq![], core) is None,
{
    assert((seq![g] + rest).drop_first() =~= rest);
}

/// The firmware's row shows the bits of the mask, each under its core.
pub proof fn mask_is_shown_bit_by_bit(mask: u8, core: u32, sel: bool)
    ensures
        mask_cell(mask, core, sel)[1].style.ink is Good <==> bit(mask as u32, core),
        mask_cell(mask, core, sel)[1].text == (if bit(mask as u32, core) { "██"@ } else { "··"@ }),
        mask_cell(mask, core, sel)[1].style.reversed == sel,
{
}

/// The state of the mask is shown as good only where all cores are unlocked, and
/// as bad only where it is abnormal.
pub proof fn state_is_rated(s: CoreState)
    ensures
        state_note(s).0 is Good <==> s is Unlocked,
        state_note(s).0 is Bad <==> s is Abnormal,
{
}

/// A wide map has the rows of firmware and system, a narrow one a single row;
/// without a snapshot there is neither.
pub proof fn width_decides_the_map(
    cores: Option<CoreSnapshot>,
    unit: bool,
    draft: Option<[bool; 8]>,
    report: Option<Vec<String>>,
    sel: Option<usize>,
    width: int,
)
    ensures
        cores is None ==> cores_page(cores, unit, draft, report, sel, width).len() == 1,
        cores is Some && width >= 92 ==> cores_page(cores, unit, draft, report, sel, width).len() == 7,
        cores is Some && width < 92 ==> cores_page(cores, unit, draft, report, sel, width).len() == 3,
{
}

} // verus!
