//! What the panels of the control screen show, line by line.
use vstd::prelude::*;

use crate::double;
use crate::double::Double;
use crate::screen::{Edit, Editor, FanFacts, Focus, GpuFacts, GpuPanel, Snapshot};
use crate::text;
use crate::ui;
use crate::ui::{Ink, KeyHint, Line, LineView, Page, Span, SpanView, Style};

verus! {

// ---------------------------------------------------------------------------
// Header and footer

/// The line above the panels.
pub open spec fn header_view() -> LineView {
    ui::line(
        seq![
            ui::span(" arieltune apu "@, ui::bold(Ink::Key)),
            ui::span("  BC-250 APU liberation + tuner"@, ui::plain(Ink::Dim)),
            ui::span("   [tab] move focus"@, ui::plain(Ink::Dim)),
        ],
    )
}

/// The line above the panels.
pub fn header() -> (r: Line)
    ensures
        r@ == header_view(),
{
    Line::three(
        ui::tint_bold(" arieltune apu ", Ink::Key),
        ui::tint("  BC-250 APU liberation + tuner", Ink::Dim),
        ui::tint("   [tab] move focus", Ink::Dim),
    )
}

/// A key hint.
pub open spec fn hint(key: &'static str, label: &'static str) -> KeyHint {
    KeyHint { key, label }
}

/// The keys of the focused panel.
pub open spec fn focus_hints(f: Focus) -> Seq<KeyHint> {
    match f {
        Focus::Fan => seq![
            hint("[↑↓]", "duty"),
            hint("[enter]", "manual"),
            hint("[a]", "auto"),
            hint("[p]", "patches"),
            hint("[tab]", "panel"),
            hint("[q]", "quit"),
        ],
        Focus::Cu => seq![
            hint("[arrows]", "select"),
            hint("[space]", "toggle"),
            hint("[f]", "all"),
            hint("[t]", "factory"),
            hint("[a]", "apply"),
            hint("[b]", "bench"),
            hint("[h]", "test"),
            hint("[tab]", "panel"),
            hint("[q]", "quit"),
        ],
        Focus::Cpu => seq![
            hint("[↑↓]", "field"),
            hint("[enter]", "edit"),
            hint("[r]", "restore"),
            hint("[tab]", "panel"),
            hint("[q]", "quit"),
        ],
        Focus::Cores => seq![
            hint("[←→]", "core"),
            hint("[space]", "toggle"),
            hint("[a]", "apply"),
            hint("[esc]", "cancel"),
            hint("[r]", "reset"),
            hint("[tab]", "panel"),
            hint("[q]", "quit"),
        ],
        Focus::Gpu => seq![
            hint("[↑↓]", "field"),
            hint("[enter]", "edit"),
            hint("[u]", "auto"),
            hint("[tab]", "panel"),
            hint("[q]", "quit"),
        ],
    }
}

/// The keys to show: those of an open confirmation or page, those of an edit,
/// else those of the focused panel.
pub open spec fn hints_for(confirm: bool, popup: bool, editing: bool, f: Focus) -> Seq<KeyHint> {
    if confirm {
        seq![hint("[y]", "write 0xFF (forced)"), hint("[esc]", "cancel")]
    } else if popup {
        seq![
            hint("[up/dn]", "scroll"),
            hint("[pgup/pgdn]", "page"),
            hint("[home]", "top"),
            hint("[esc]", "close"),
        ]
    } else if editing {
        seq![
            hint("[←→]", "adjust"),
            hint("[0-9]", "type"),
            hint("[enter]", "apply"),
            hint("[esc]", "cancel"),
        ]
    } else {
        focus_hints(f)
    }
}

fn key_hint(key: &'static str, label: &'static str) -> (r: KeyHint)
    ensures
        r == hint(key, label),
{
    KeyHint { key, label }
}

/// The keys to show.
pub fn footer_hints(confirm: bool, popup: bool, editing: bool, f: Focus) -> (r: Vec<KeyHint>)
    ensures
        r@ == hints_for(confirm, popup, editing, f),
{
    let mut v: Vec<KeyHint> = Vec::new();
    if confirm {
        v.push(key_hint("[y]", "write 0xFF (forced)"));
        v.push(key_hint("[esc]", "cancel"));
    } else if popup {
        v.push(key_hint("[up/dn]", "scroll"));
        v.push(key_hint("[pgup/pgdn]", "page"));
        v.push(key_hint("[home]", "top"));
        v.push(key_hint("[esc]", "close"));
    } else if editing {
        v.push(key_hint("[←→]", "adjust"));
        v.push(key_hint("[0-9]", "type"));
        v.push(key_hint("[enter]", "apply"));
        v.push(key_hint("[esc]", "cancel"));
    } else {
        match f {
            Focus::Fan => {
                v.push(key_hint("[↑↓]", "duty"));
                v.push(key_hint("[enter]", "manual"));
                v.push(key_hint("[a]", "auto"));
                v.push(key_hint("[p]", "patches"));
            },
            Focus::Cu => {
                v.push(key_hint("[arrows]", "select"));
                v.push(key_hint("[space]", "toggle"));
                v.push(key_hint("[f]", "all"));
                v.push(key_hint("[t]", "factory"));
                v.push(key_hint("[a]", "apply"));
                v.push(key_hint("[b]", "bench"));
                v.push(key_hint("[h]", "test"));
            },
            Focus::Cpu => {
                v.push(key_hint("[↑↓]", "field"));
                v.push(key_hint("[enter]", "edit"));
                v.push(key_hint("[r]", "restore"));
            },
            Focus::Cores => {
                v.push(key_hint("[←→]", "core"));
                v.push(key_hint("[space]", "toggle"));
                v.push(key_hint("[a]", "apply"));
                v.push(key_hint("[esc]", "cancel"));
                v.push(key_hint("[r]", "reset"));
            },
            Focus::Gpu => {
                v.push(key_hint("[↑↓]", "field"));
                v.push(key_hint("[enter]", "edit"));
                v.push(key_hint("[u]", "auto"));
            },
        }
        v.push(key_hint("[tab]", "panel"));
        v.push(key_hint("[q]", "quit"));
    }
    assert(v@ =~= hints_for(confirm, popup, editing, f));
    v
}

// ---------------------------------------------------------------------------
// System card

/// A temperature in whole degrees.
pub open spec fn temp_text(mc: Double) -> Seq<char> {
    double::thousandth_text(mc) + "°C"@
}

/// The colour of a temperature: hot from 90 degrees, warm from 75.
pub open spec fn temp_ink(mc: Double) -> Ink {
    if mc.not_less(Double::small(90000)) {
        Ink::Bad
    } else if mc.not_less(Double::small(75000)) {
        Ink::Warn
    } else {
        Ink::Good
    }
}

/// The colour of a temperature.
pub fn temp_color(mc: Double) -> (r: Ink)
    ensures
        r == temp_ink(mc),
{
    if mc.reaches(Double::from_u32(90000)) {
        Ink::Bad
    } else if mc.reaches(Double::from_u32(75000)) {
        Ink::Warn
    } else {
        Ink::Good
    }
}

fn show_temp(mc: Double) -> (r: String)
    ensures
        r@ == temp_text(mc),
{
    text::join2(double::show_thousandth(mc).as_str(), "°C")
}

/// A whole reading as a number of its own kind.
pub open spec fn reading(mc: Option<i64>) -> Option<Double> {
    match mc {
        Some(t) => Some(Double::of_int(t as int)),
        None => None,
    }
}

fn reading_of(mc: Option<i64>) -> (r: Option<Double>)
    ensures
        r == reading(mc),
{
    match mc {
        Some(t) => Some(Double::from_i64(t)),
        None => None,
    }
}

/// A cell of the sensor row: label, value, colour.
#[derive(Debug)]
pub struct Cell {
    pub label: &'static str,
    pub value: String,
    pub ink: Ink,
}

/// A cell with its texts as characters.
pub struct CellView {
    pub label: Seq<char>,
    pub value: Seq<char>,
    pub ink: Ink,
}

impl View for Cell {
    type V = CellView;

    open spec fn view(&self) -> CellView {
        CellView { label: self.label@, value: self.value@, ink: self.ink }
    }
}

/// The cell of a temperature; a dash where there is none.
pub open spec fn temp_cell(label: Seq<char>, mc: Option<Double>) -> CellView {
    match mc {
        Some(t) => CellView { label, value: temp_text(t), ink: temp_ink(t) },
        None => CellView { label, value: "—"@, ink: Ink::Dim },
    }
}

fn cell_of_temp(label: &'static str, mc: Option<Double>) -> (r: Cell)
    ensures
        r@ == temp_cell(label@, mc),
{
    match mc {
        Some(t) => Cell { label, value: show_temp(t), ink: temp_color(t) },
        None => Cell { label, value: "—".to_owned(), ink: Ink::Dim },
    }
}

/// A duty behind a word, where there is one.
pub open spec fn with_duty(word: Seq<char>, duty: Option<u32>) -> Seq<char> {
    match duty {
        Some(d) => word + " "@ + text::dec(d as nat) + "%"@,
        None => word,
    }
}

fn word_with_duty(word: &str, duty: Option<u32>) -> (r: String)
    ensures
        r@ == with_duty(word@, duty),
{
    match duty {
        Some(d) => {
            let mut r = text::join3(word, " ", text::decimal(d as u64).as_str());
            r.append("%");
            r
        },
        None => word.to_owned(),
    }
}

/// The cooling cell: read-only without the writable driver; the target that
/// Enter sets while the card has the focus; else mode and duty. Never a raw
/// duty value.
pub open spec fn cooling_view(fan: FanFacts, target: Option<u8>, focused: bool) -> CellView {
    let label = "Cool"@;
    if !fan.writable {
        CellView { label, value: "read-only"@, ink: Ink::Dim }
    } else if focused {
        CellView {
            label,
            value: match target {
                None => "set Auto"@,
                Some(p) => "set "@ + text::dec(p as nat) + "%"@,
            },
            ink: Ink::Accent,
        }
    } else if fan.enable == Some(1u8) {
        CellView { label, value: with_duty("Manual"@, fan.carrier.duty_pct), ink: Ink::Warn }
    } else {
        CellView { label, value: with_duty("Auto"@, fan.carrier.duty_pct), ink: Ink::Good }
    }
}

/// The cooling cell.
pub fn cooling_cell(fan: &FanFacts, target: Option<u8>, focused: bool) -> (r: Cell)
    ensures
        r@ == cooling_view(*fan, target, focused),
{
    let label = "Cool";
    if !fan.writable {
        return Cell { label, value: "read-only".to_owned(), ink: Ink::Dim };
    }
    if focused {
        let value: String = match target {
            None => "set Auto".to_owned(),
            Some(p) => text::join3("set ", text::decimal(p as u64).as_str(), "%"),
        };
        return Cell { label, value, ink: Ink::Accent };
    }
    let manual: bool = match fan.enable {
        Some(e) => e == 1,
        None => false,
    };
    if manual {
        Cell { label, value: word_with_duty("Manual", fan.carrier.duty_pct), ink: Ink::Warn }
    } else {
        Cell { label, value: word_with_duty("Auto", fan.carrier.duty_pct), ink: Ink::Good }
    }
}

/// The cells of the sensor row.
pub open spec fn sensor_views(s: Snapshot, target: Option<u8>, focused: bool) -> Seq<CellView> {
    seq![
        temp_cell("SoC"@, reading(s.fan.carrier.soc_mc)),
        temp_cell("GPU"@, s.temp_mc),
        temp_cell("Board"@, reading(s.fan.carrier.board_mc)),
        CellView {
            label: "Fan"@,
            value: match s.fan.carrier.fan_rpm {
                Some(r) => text::dec(r as nat) + " rpm"@,
                None => "—"@,
            },
            ink: Ink::Accent,
        },
        cooling_view(s.fan, target, focused),
    ]
}

/// The line of a cell: the label (lit where asked for), the value in bold.
pub open spec fn cell_line(c: CellView, lit: bool) -> LineView {
    LineView {
        spans: seq![
            ui::span(c.label + " "@, ui::plain(if lit { Ink::Accent } else { Ink::Dim })),
            ui::span(c.value, ui::bold(c.ink)),
        ],
        centered: true,
    }
}

/// The sensor row: one centred line per cell, the last one's label lit while
/// the card has the focus.
pub open spec fn sensor_page(s: Snapshot, target: Option<u8>, focused: bool) -> Seq<LineView> {
    let cells = sensor_views(s, target, focused);
    Seq::new(5, |i: int| cell_line(cells[i], i == 4 && focused))
}

fn line_of_cell(c: &Cell, lit: bool) -> (r: Line)
    ensures
        r@ == cell_line(c@, lit),
{
    let mut r = Line::two(
        ui::tint(
            text::join2(c.label, " ").as_str(),
            if lit {
                Ink::Accent
            } else {
                Ink::Dim
            },
        ),
        ui::tint_bold(c.value.as_str(), c.ink),
    );
    r.centered = true;
    r
}

/// The sensor row.
pub fn sensor_row(s: &Snapshot, target: Option<u8>, focused: bool) -> (r: Page)
    ensures
        r@ == sensor_page(*s, target, focused),
{
    let fan_text: String = match s.fan.carrier.fan_rpm {
        Some(r) => text::join2(text::decimal(r as u64).as_str(), " rpm"),
        None => "—".to_owned(),
    };
    let mut page = Page::new();
    page.put(line_of_cell(&cell_of_temp("SoC", reading_of(s.fan.carrier.soc_mc)), false));
    page.put(line_of_cell(&cell_of_temp("GPU", s.temp_mc), false));
    page.put(line_of_cell(&cell_of_temp("Board", reading_of(s.fan.carrier.board_mc)), false));
    page.put(line_of_cell(&Cell { label: "Fan", value: fan_text, ink: Ink::Accent }, false));
    page.put(line_of_cell(&cooling_cell(&s.fan, target, focused), focused));
    assert(page@ =~= sensor_page(*s, target, focused));
    page
}

/// A fact of the card.
pub open spec fn fact_spans(label: Seq<char>, value: Seq<char>, ink: Ink) -> Seq<SpanView> {
    seq![
        ui::span("  "@ + text::pad_right(label, ' ', 9) + " "@, ui::plain(Ink::Dim)),
        ui::span(value, ui::bold(ink)),
    ]
}

fn fact_line(label: &str, value: &str, ink: Ink) -> (r: Line)
    ensures
        r@ == ui::line(fact_spans(label@, value@, ink)),
{
    let mut l = text::join2("  ", text::padded_right(label, ' ', 9).as_str());
    l.append(" ");
    Line::two(ui::tint(l.as_str(), Ink::Dim), ui::tint_bold(value, ink))
}

/// The facts of the card: device, kernel, patches.
pub open spec fn system_page(s: Snapshot, focused: bool) -> Seq<LineView> {
    seq![
        ui::line(
            fact_spans(
                "device"@,
                if s.is_bc250 { "BC-250 (Cyan Skillfish)"@ } else { "not a BC-250"@ },
                if s.is_bc250 { Ink::Good } else { Ink::Bad },
            ),
        ),
        ui::line(fact_spans("kernel"@, s.kernel@, Ink::Accent)),
        ui::line(
            fact_spans(
                "liberation"@,
                text::dec(s.present as nat) + "/"@ + text::dec(s.total as nat) + " patches"@ + (
                if s.fully {
                    " (full)"@
                } else {
                    ""@
                }),
                if s.fully { Ink::Good } else { Ink::Warn },
            ).push(
                ui::span(
                    "  [p: patch details]"@,
                    if focused { ui::bold(Ink::Accent) } else { ui::plain(Ink::Dim) },
                ),
            ),
        ),
    ]
}

/// The facts of the card.
pub fn system_lines(s: &Snapshot, focused: bool) -> (r: Page)
    ensures
        r@ == system_page(*s, focused),
{
    let mut page = Page::new();
    if s.is_bc250 {
        page.put(fact_line("device", "BC-250 (Cyan Skillfish)", Ink::Good));
    } else {
        page.put(fact_line("device", "not a BC-250", Ink::Bad));
    }
    page.put(fact_line("kernel", s.kernel.as_str(), Ink::Accent));
    let mut v = text::join3(
        text::decimal(s.present as u64).as_str(),
        "/",
        text::decimal(s.total as u64).as_str(),
    );
    v.append(" patches");
    v.append(
        if s.fully {
            " (full)"
        } else {
            ""
        },
    );
    let l = fact_line(
        "liberation",
        v.as_str(),
        if s.fully {
            Ink::Good
        } else {
            Ink::Warn
        },
    );
    let hint_span: Span = if focused {
        ui::tint_bold("  [p: patch details]", Ink::Accent)
    } else {
        ui::tint("  [p: patch details]", Ink::Dim)
    };
    page.put(l.with(hint_span));
    assert(page@ =~= system_page(*s, focused));
    page
}

// ---------------------------------------------------------------------------
// GPU

/// The style of a field's value: marked while selected, and in the key colour
/// while edited.
pub open spec fn value_style(sel: bool, editing: bool) -> Style {
    if editing {
        Style { ink: Ink::Key, bold: true, reversed: true }
    } else {
        Style { ink: Ink::Accent, bold: true, reversed: sel }
    }
}

pub(crate) fn style_of_value(sel: bool, editing: bool) -> (r: Style)
    ensures
        r == value_style(sel, editing),
{
    if editing {
        Style { ink: Ink::Key, bold: true, reversed: true }
    } else {
        Style { ink: Ink::Accent, bold: true, reversed: sel }
    }
}

/// The mark before a field.
pub open spec fn field_mark(sel: bool) -> SpanView {
    ui::span(if sel { " ▸ "@ } else { "   "@ }, ui::plain(Ink::Key))
}

pub(crate) fn mark(sel: bool) -> (r: Span)
    ensures
        r@ == field_mark(sel),
{
    if sel {
        ui::tint(" ▸ ", Ink::Key)
    } else {
        ui::tint("   ", Ink::Key)
    }
}

/// The value of a field: the edited one where the field is selected and edited.
pub open spec fn shown_value(sel: bool, e: Editor, val: u32) -> u32 {
    match e.edit {
        Edit::Value(v) if sel => v,
        _ => val,
    }
}

fn value_shown(sel: bool, e: &Editor, val: u32) -> (r: u32)
    ensures
        r == shown_value(sel, *e, val),
{
    match e.edit {
        Edit::Value(v) => if sel {
            v
        } else {
            val
        },
        Edit::Idle => val,
    }
}

fn is_editing(e: &Editor) -> (r: bool)
    ensures
        r == (e.edit is Value),
{
    match e.edit {
        Edit::Value(_) => true,
        Edit::Idle => false,
    }
}

/// A field with a number and a unit.
pub open spec fn number_field(
    sel: bool,
    e: Editor,
    label: Seq<char>,
    val: u32,
    unit: Seq<char>,
) -> LineView {
    ui::line(
        seq![
            field_mark(sel),
            ui::span(label, ui::plain(Ink::Dim)),
            ui::span(
                text::dec(shown_value(sel, e, val) as nat) + unit,
                value_style(sel, sel && e.edit is Value),
            ),
        ],
    )
}

fn field_line(sel: bool, e: &Editor, label: &str, val: u32, unit: &str) -> (r: Line)
    ensures
        r@ == number_field(sel, *e, label@, val, unit@),
{
    let shown = text::join2(
        text::decimal(value_shown(sel, e, val) as u64).as_str(),
        unit,
    );
    Line::three(
        mark(sel),
        ui::tint(label, Ink::Dim),
        ui::styled(shown.as_str(), style_of_value(sel, sel && is_editing(e))),
    )
}

/// The clock of the first telemetry line that has one behind `GfxClk:`.
pub open spec fn tele_clock(lines: Seq<String>) -> Option<int>
    decreases lines.len(),
{
    if lines.len() == 0 {
        None
    } else if line_gfxclk(lines[0]@) is Some {
        line_gfxclk(lines[0]@)
    } else {
        tele_clock(lines.drop_first())
    }
}

/// The first word behind the first `GfxClk:` of a line, as a number.
#[verifier::opaque]
pub open spec fn line_gfxclk(line: Seq<char>) -> Option<int> {
    if text::occurs(line, "GfxClk:"@) {
        let i = choose|i: int|
            text::occurs_at(line, "GfxClk:"@, i) && forall|j: int|
                0 <= j < i ==> !text::occurs_at(line, "GfxClk:"@, j);
        let w = text::words_of(text::after(line, i + 7));
        if w.len() > 0 { text::number(w[0], 10, u32::MAX as int) } else { None }
    } else {
        None
    }
}

fn gfxclk_in_line(line: &str) -> (r: Option<u32>)
    ensures
        r is Some <==> line_gfxclk(line@) is Some,
        r is Some ==> line_gfxclk(line@) == Some(r->0 as int),
{
    proof {
        reveal(line_gfxclk);
        reveal_strlit("GfxClk:");
    }
    match text::find(line, "GfxClk:") {
        Some(i) => {
            proof {
                assert(text::occurs(line@, "GfxClk:"@)) by {
                    assert(text::occurs_at(line@, "GfxClk:"@, i as int));
                }
                let k = choose|k: int|
                    text::occurs_at(line@, "GfxClk:"@, k) && forall|j: int|
                        0 <= j < k ==> !text::occurs_at(line@, "GfxClk:"@, j);
                assert(k == i);
            }
            let n: usize = line.unicode_len();
            let w = text::words(line.substring_char(i + 7, n));
            assert(w@.len() == text::slices(w@).len());
            if w.len() == 0 {
                return None;
            }
            assert(w@[0]@ == text::slices(w@)[0]);
            text::parse_u32(w[0])
        },
        None => None,
    }
}

/// The GPU clock in MHz in the SMU's telemetry.
pub fn telemetry_gfxclk(lines: &Vec<String>) -> (r: Option<u32>)
    ensures
        r is Some <==> tele_clock(lines@) is Some,
        r is Some ==> tele_clock(lines@) == Some(r->0 as int),
{
    let mut i: usize = 0;
    assert(lines@.skip(0) =~= lines@);
    while i < lines.len()
        invariant
            i <= lines@.len(),
            tele_clock(lines@.skip(i as int)) == tele_clock(lines@),
        decreases lines@.len() - i,
    {
        assert(lines@.skip(i as int).drop_first() =~= lines@.skip(i + 1));
        let v = gfxclk_in_line(lines[i].as_str());
        if v.is_some() {
            return v;
        }
        i += 1;
    }
    None
}

/// The power mode in words, held against whether the boot unit really runs.
pub open spec fn mode_view(g: GpuFacts) -> SpanView {
    let dead = !g.unit_active;
    match g.force_mhz {
        Some(m) => if dead {
            ui::span("manual "@ + text::dec(m as nat) + " MHz (unit NOT running!)"@, ui::bold(Ink::Bad))
        } else {
            ui::span("manual "@ + text::dec(m as nat) + " MHz"@, ui::bold(Ink::Accent))
        },
        None => if g.governor_on {
            if dead {
                ui::span("governor set but NOT running!"@, ui::bold(Ink::Bad))
            } else {
                ui::span("auto (governor)"@, ui::bold(Ink::Good))
            }
        } else if !g.unit_installed {
            ui::span("released (BAPM; no boot unit)"@, ui::bold(Ink::Dim))
        } else {
            ui::span("released (BAPM)"@, ui::bold(Ink::Dim))
        },
    }
}

fn mode_span(g: &GpuFacts) -> (r: Span)
    ensures
        r@ == mode_view(*g),
{
    let dead: bool = !g.unit_active;
    match g.force_mhz {
        Some(m) => if dead {
            ui::tint_bold(
                text::join3(
                    "manual ",
                    text::decimal(m as u64).as_str(),
                    " MHz (unit NOT running!)",
                ).as_str(),
                Ink::Bad,
            )
        } else {
            ui::tint_bold(
                text::join3("manual ", text::decimal(m as u64).as_str(), " MHz").as_str(),
                Ink::Accent,
            )
        },
        None => if g.governor_on {
            if dead {
                ui::tint_bold("governor set but NOT running!", Ink::Bad)
            } else {
                ui::tint_bold("auto (governor)", Ink::Good)
            }
        } else if !g.unit_installed {
            ui::tint_bold("released (BAPM; no boot unit)", Ink::Dim)
        } else {
            ui::tint_bold("released (BAPM)", Ink::Dim)
        },
    }
}

/// A gauge: label, bar, value.
pub open spec fn gauge_view(
    label: Seq<char>,
    val: Seq<char>,
    num: int,
    den: int,
    ink: Ink,
) -> LineView {
    ui::line(
        seq![
            ui::span("   "@ + text::pad_right(label, ' ', 6), ui::plain(Ink::Dim)),
            ui::span(ui::bar_text(num, den, 8), ui::plain(ink)),
            ui::span(" "@ + val, ui::bold(ink)),
        ],
    )
}

fn gauge(label: &str, val: &str, num: i64, den: i64, ink: Ink) -> (r: Line)
    requires
        0 < den <= 0x1_0000_0000,
        -0x1_0000_0000 <= num <= 0x1_0000_0000,
    ensures
        r@ == gauge_view(label@, val@, num as int, den as int, ink),
{
    Line::three(
        ui::tint(
            text::join2("   ", text::padded_right(label, ' ', 6).as_str()).as_str(),
            Ink::Dim,
        ),
        ui::bar(num, den, 8, ink),
        ui::tint_bold(text::join2(" ", val).as_str(), ink),
    )
}

/// The voltage field: the overdrive setpoint and the clock that it applies to.
pub open spec fn volt_view(sel: bool, e: Editor, g: GpuFacts) -> LineView {
    let shown = match e.edit {
        Edit::Value(v) if sel => Some(v),
        _ => g.od_vddc,
    };
    ui::line(
        seq![
            field_mark(sel),
            ui::span("voltage  "@, ui::plain(Ink::Dim)),
            ui::span(
                match shown {
                    Some(v) => text::dec(v as nat) + " mV"@,
                    None => "—"@,
                },
                value_style(sel, sel && e.edit is Value),
            ),
            ui::span(
                match (shown, g.od_sclk) {
                    (Some(_), Some(c)) => " @ "@ + text::dec(c as nat) + " MHz"@,
                    _ => ""@,
                },
                ui::plain(Ink::Dim),
            ),
        ],
    )
}

fn volt_line(sel: bool, e: &Editor, g: &GpuFacts) -> (r: Line)
    ensures
        r@ == volt_view(sel, *e, *g),
{
    let shown: Option<u32> = match e.edit {
        Edit::Value(v) => if sel {
            Some(v)
        } else {
            g.od_vddc
        },
        Edit::Idle => g.od_vddc,
    };
    let value: String = match shown {
        Some(v) => text::join2(text::decimal(v as u64).as_str(), " mV"),
        None => "—".to_owned(),
    };
    let at: String = match (shown, g.od_sclk) {
        (Some(_), Some(c)) => text::join3(" @ ", text::decimal(c as u64).as_str(), " MHz"),
        _ => "".to_owned(),
    };
    let r = Line::four(
        mark(sel),
        ui::tint("voltage  ", Ink::Dim),
        ui::styled(value.as_str(), style_of_value(sel, sel && is_editing(e))),
        ui::tint(at.as_str(), Ink::Dim),
    );
    assert(r@.spans =~= volt_view(sel, *e, *g).spans);
    r
}

/// The fields of the GPU panel.
pub open spec fn gpu_fields(
    g: GpuFacts,
    p: GpuPanel,
    e: Editor,
    gpu_temp_c: u32,
    focused: bool,
) -> Seq<LineView> {
    let at = |i: int| focused && p.sel == i;
    seq![
        ui::line(seq![ui::span("   mode  "@, ui::plain(Ink::Dim)), mode_view(g)]),
        number_field(at(0), e, text::pad_right("high"@, ' ', 7), g.gov.high_mhz, " MHz"@),
        number_field(at(1), e, text::pad_right("mid"@, ' ', 7), g.gov.mid_mhz, " MHz"@),
        number_field(at(2), e, text::pad_right("idle"@, ' ', 7), g.gov.idle_mhz, " MHz"@),
        number_field(at(3), e, text::pad_right("deep"@, ' ', 7), g.gov.deep_mhz, " MHz"@),
        number_field(at(4), e, text::pad_right("force"@, ' ', 7), p.force, " MHz"@),
        number_field(at(5), e, "temp cap "@, gpu_temp_c, " C"@),
        volt_view(at(6), e, g),
        ui::line(seq![ui::span(""@, ui::plain(Ink::Plain))]),
    ]
}

/// The colour of a power draw.
pub open spec fn power_ink(w: int) -> Ink {
    if w >= 200 {
        Ink::Bad
    } else if w >= 150 {
        Ink::Warn
    } else {
        Ink::Good
    }
}

/// The GPU panel: its fields, then the gauges that have a reading. The clock is
/// the table's, else the telemetry's.
pub open spec fn gpu_page(
    g: GpuFacts,
    p: GpuPanel,
    e: Editor,
    gpu_temp_c: u32,
    tele: Option<u32>,
    focused: bool,
) -> Seq<LineView> {
    let clock = match g.gfxclk {
        Some(m) => Some(m),
        None => tele,
    };
    let (lo, hi) = crate::screen::vddc_range(g.ranges);
    let a = gpu_fields(g, p, e, gpu_temp_c, focused);
    let b = match clock {
        Some(m) => a.push(
            gauge_view(
                "gfxclk"@,
                text::dec(m as nat) + " MHz"@,
                m - 350,
                2150,
                Ink::Good,
            ),
        ),
        None => a,
    };
    let c = match g.power_w {
        Some(w) => b.push(
            gauge_view("power"@, text::dec(w as nat) + " W"@, w as int, 225, power_ink(w as int)),
        ),
        None => b,
    };
    match g.vid {
        Some(mv) => c.push(
            gauge_view(
                "vdd"@,
                text::dec(mv as nat) + " mV"@,
                if mv < lo { 0 } else { mv - lo },
                if hi <= lo { 1 } else { hi - lo },
                Ink::Accent,
            ),
        ),
        None => c,
    }
}

/// The GPU panel. `tele` is the clock in the SMU's telemetry.
pub fn gpu_lines(
    g: &GpuFacts,
    p: &GpuPanel,
    e: &Editor,
    gpu_temp_c: u32,
    tele: Option<u32>,
    focused: bool,
) -> (r: Page)
    ensures
        r@ == gpu_page(*g, *p, *e, gpu_temp_c, tele, focused),
{
    let mut page = Page::new();
    page.put(Line::two(ui::tint("   mode  ", Ink::Dim), mode_span(g)));
    page.put(
        field_line(
            focused && p.sel == 0,
            e,
            text::padded_right("high", ' ', 7).as_str(),
            g.gov.high_mhz,
            " MHz",
        ),
    );
    page.put(
        field_line(
            focused && p.sel == 1,
            e,
            text::padded_right("mid", ' ', 7).as_str(),
            g.gov.mid_mhz,
            " MHz",
        ),
    );
    page.put(
        field_line(
            focused && p.sel == 2,
            e,
            text::padded_right("idle", ' ', 7).as_str(),
            g.gov.idle_mhz,
            " MHz",
        ),
    );
    page.put(
        field_line(
            focused && p.sel == 3,
            e,
            text::padded_right("deep", ' ', 7).as_str(),
            g.gov.deep_mhz,
            " MHz",
        ),
    );
    page.put(
        field_line(
            focused && p.sel == 4,
            e,
            text::padded_right("force", ' ', 7).as_str(),
            p.force,
            " MHz",
        ),
    );
    page.put(field_line(focused && p.sel == 5, e, "temp cap ", gpu_temp_c, " C"));
    page.put(volt_line(focused && p.sel == 6, e, g));
    page.put(Line::of(ui::tint("", Ink::Plain)));
    assert(page@ =~= gpu_fields(*g, *p, *e, gpu_temp_c, focused));
    let clock: Option<u32> = match g.gfxclk {
        Some(m) => Some(m),
        None => tele,
    };
    if let Some(m) = clock {
        let val = text::join2(text::decimal(m as u64).as_str(), " MHz");
        page.put(gauge("gfxclk", val.as_str(), m as i64 - 350, 2150, Ink::Good));
    }
    if let Some(w) = g.power_w {
        let ink: Ink = if w >= 200 {
            Ink::Bad
        } else if w >= 150 {
            Ink::Warn
        } else {
            Ink::Good
        };
        let val = text::join2(text::decimal(w as u64).as_str(), " W");
        page.put(gauge("power", val.as_str(), w as i64, 225, ink));
    }
    if let Some(mv) = g.vid {
        let (lo, hi): (u32, u32) = match g.ranges.vddc {
            Some((lo, hi)) => (lo, hi),
            None => (700, 1129),
        };
        let num: u32 = mv.saturating_sub(lo);
        let den: u32 = if hi <= lo {
            1
        } else {
            hi - lo
        };
        let val = text::join2(text::decimal(mv as u64).as_str(), " mV");
        page.put(gauge("vdd", val.as_str(), num as i64, den as i64, Ink::Accent));
    }
    page
}

// ---------------------------------------------------------------------------
// Laws

/// A temperature is shown as good below 75 degrees, as a warning from there and
/// as bad from 90 degrees.
pub proof fn temperatures_are_rated(mc: u32)
    ensures
        temp_ink(Double::small(mc)) is Good <==> mc < 75_000,
        temp_ink(Double::small(mc)) is Warn <==> 75_000 <= mc < 90_000,
        temp_ink(Double::small(mc)) is Bad <==> mc >= 90_000,
{
    assert(double::two(0) == 1);
}

/// Power is shown as good below 150 watts, as a warning from there and as bad
/// from 200 watts.
pub proof fn power_is_rated(w: int)
    ensures
        power_ink(w) is Good <==> w < 150,
        power_ink(w) is Warn <==> 150 <= w < 200,
        power_ink(w) is Bad <==> w >= 200,
{
}

/// The value being edited is shown in the selected field alone; every other
/// field shows its own.
pub proof fn edited_value_is_shown_where_it_is(sel: bool, e: Editor, val: u32)
    ensures
        e.edit is Idle ==> shown_value(sel, e, val) == val,
        !sel ==> shown_value(sel, e, val) == val,
        e.edit matches Edit::Value(v) ==> (sel ==> shown_value(sel, e, val) == v),
        value_style(sel, false).reversed == sel,
        value_style(sel, true).reversed,
        field_mark(true).text == " ▸ "@,
        field_mark(false).text == "   "@,
{
}

/// The selected field of the GPU panel is marked, and no other is; without the
/// focus none is.
pub proof fn selected_field_is_marked(
    g: GpuFacts,
    p: GpuPanel,
    e: Editor,
    c: u32,
    focused: bool,
    i: int,
)
    requires
        0 <= i <= 6,
    ensures
        gpu_fields(g, p, e, c, focused)[i + 1].spans[0] == field_mark(focused && p.sel == i),
        e.edit is Idle ==> ({
            let v = gpu_fields(g, p, e, c, focused);
            &&& v[1].spans[2].text == text::dec(g.gov.high_mhz as nat) + " MHz"@
            &&& v[2].spans[2].text == text::dec(g.gov.mid_mhz as nat) + " MHz"@
            &&& v[3].spans[2].text == text::dec(g.gov.idle_mhz as nat) + " MHz"@
            &&& v[4].spans[2].text == text::dec(g.gov.deep_mhz as nat) + " MHz"@
            &&& v[5].spans[2].text == text::dec(p.force as nat) + " MHz"@
            &&& v[6].spans[2].text == text::dec(c as nat) + " C"@
            &&& g.od_vddc matches Some(mv) ==> v[7].spans[2].text == text::dec(mv as nat) + " mV"@
        }),
{
    assert(i == 0 || i == 1 || i == 2 || i == 3 || i == 4 || i == 5 || i == 6);
}

/// A mode that needs the boot unit is shown as bad where it does not run; the
/// governor is shown as good only where it runs and nothing is pinned.
pub proof fn dead_unit_is_shown(g: GpuFacts)
    ensures
        !g.unit_active && (g.force_mhz is Some || g.governor_on) <==> mode_view(g).style.ink is Bad,
        mode_view(g).style.ink is Good <==> g.unit_active && g.governor_on && g.force_mhz is None,
        mode_view(g).style.ink is Accent <==> g.unit_active && g.force_mhz is Some,
{
}

/// The GPU's page has a gauge for each of clock, power and voltage that was
/// read, below the fields.
pub proof fn gauges_are_of_what_was_read(
    g: GpuFacts,
    p: GpuPanel,
    e: Editor,
    c: u32,
    tele: Option<u32>,
    focused: bool,
)
    ensures
        ({
            let v = gpu_page(g, p, e, c, tele, focused);
            let clock = g.gfxclk is Some || tele is Some;
            &&& v.len() == 9 + (if clock { 1int } else { 0 }) + (if g.power_w is Some {
                1int
            } else {
                0
            }) + (if g.vid is Some { 1int } else { 0 })
            &&& v.take(9) == gpu_fields(g, p, e, c, focused)
            &&& clock ==> ({
                let m = if g.gfxclk is Some { g.gfxclk->0 } else { tele->0 };
                &&& v[9].spans[2].text == " "@ + (text::dec(m as nat) + " MHz"@)
                &&& m <= 350 ==> v[9].spans[1].text == ui::bar_text(0, 1, 8)
                &&& m >= 2500 ==> v[9].spans[1].text == ui::bar_text(1, 1, 8)
            })
            &&& !clock ==> (g.power_w matches Some(w) ==> v[9].spans[2].text == " "@ + (text::dec(
                w as nat,
            ) + " W"@))
        }),
{
    let v = gpu_page(g, p, e, c, tele, focused);
    assert(v.take(9) =~= gpu_fields(g, p, e, c, focused));
}

/// Each sensor is shown under its own name, and the cooler last.
pub proof fn sensors_are_shown_by_name(s: Snapshot, target: Option<u8>, focused: bool)
    ensures
        ({
            let v = sensor_views(s, target, focused);
            &&& v.len() == 5
            &&& v[0] == temp_cell("SoC"@, reading(s.fan.carrier.soc_mc))
            &&& v[1] == temp_cell("GPU"@, s.temp_mc)
            &&& v[2] == temp_cell("Board"@, reading(s.fan.carrier.board_mc))
            &&& s.fan.carrier.fan_rpm matches Some(r) ==> v[3].value == text::dec(r as nat)
                + " rpm"@
            &&& v[4] == cooling_view(s.fan, target, focused)
        }),
        temp_cell("GPU"@, None).ink is Dim,
{
}

/// The cooler is shown as set where it can be: what is dialled while it has the
/// focus, and else whether it is in manual or automatic control.
pub proof fn cooler_is_shown_as_set(fan: FanFacts, target: Option<u8>, focused: bool)
    ensures
        !fan.writable ==> cooling_view(fan, target, focused).value == "read-only"@,
        fan.writable && focused ==> (target matches Some(p) ==> cooling_view(fan, target, focused).value
            == "set "@ + text::dec(p as nat) + "%"@),
        fan.writable && focused && target is None ==> cooling_view(fan, target, focused).value
            == "set Auto"@,
        fan.writable && !focused ==> (cooling_view(fan, target, focused).ink is Warn <==> fan.enable
            == Some(1u8)),
        fan.writable && !focused ==> (cooling_view(fan, target, focused).ink is Good <==> fan.enable
            != Some(1u8)),
{
}

/// The clock is that of the first line that has one.
pub proof fn first_clock_is_taken(line: String, rest: Seq<String>)
    ensures
        line_gfxclk(line@) is Some ==> tele_clock(seq![line] + rest) == line_gfxclk(line@),
        line_gfxclk(line@) is None ==> tele_clock(seq![line] + rest) == tele_clock(rest),
        tele_clock(seq![]) is None,
{
    assert((seq![line] + rest).drop_first() =~= rest);
}

/// An open confirmation has its keys shown before an open page, that before an
/// edit, and that before the focused panel.
pub proof fn keys_that_count_are_shown(confirm: bool, popup: bool, editing: bool, f: Focus)
    ensures
        confirm ==> hints_for(confirm, popup, editing, f).len() == 2 && hints_for(
            confirm,
            popup,
            editing,
            f,
        )[0].key == "[y]",
        !confirm && popup ==> hints_for(confirm, popup, editing, f)[0].key == "[up/dn]",
        !confirm && !popup && editing ==> hints_for(confirm, popup, editing, f)[1].key == "[0-9]",
        !confirm && !popup && !editing ==> hints_for(confirm, popup, editing, f) == focus_hints(f),
        focus_hints(f).len() >= 5,
        focus_hints(f).last().key == "[q]",
        focus_hints(f)[focus_hints(f).len() - 2].key == "[tab]",
{
}

/// The card of the sensors has a line for each of the five, and the cooler's label
/// alone is lit, where it has the focus.
pub proof fn sensor_card_lights_the_cooler(s: Snapshot, target: Option<u8>, focused: bool, i: int)
    requires
        0 <= i < 5,
    ensures
        ({
            let v = sensor_page(s, target, focused);
            let cells = sensor_views(s, target, focused);
            &&& v.len() == 5
            &&& v[i].spans[0].text == cells[i].label + " "@
            &&& v[i].spans[1].text == cells[i].value
            &&& v[i].spans[1].style.ink == cells[i].ink
            &&& v[i].spans[0].style.ink is Accent <==> i == 4 && focused
            &&& v[i].centered
        }),
{
}

/// The card of the system tells the board, the kernel and how many patches are
/// live; a complete series and a BC-250 are shown as good.
pub proof fn system_card_tells_the_state(s: Snapshot, focused: bool)
    ensures
        ({
            let v = system_page(s, focused);
            &&& v.len() == 3
            &&& v[0].spans[1].style.ink is Good <==> s.is_bc250
            &&& v[0].spans[1].style.ink is Bad <==> !s.is_bc250
            &&& v[1].spans[1].text == s.kernel@
            &&& v[2].spans[1].style.ink is Good <==> s.fully
            &&& v[2].spans[1].style.ink is Warn <==> !s.fully
            &&& v[2].spans[2].style.ink is Accent <==> focused
            &&& s.fully ==> v[2].spans[1].text == text::dec(s.present as nat) + "/"@ + text::dec(
                s.total as nat,
            ) + " patches"@ + " (full)"@
        }),
{
}

} // verus!
