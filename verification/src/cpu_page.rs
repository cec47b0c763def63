//! The CPU panel: controls, voltage curve, threads.
use vstd::prelude::*;

use crate::cpu;
use crate::cpu::CpuOc;
use crate::ocq3;
use crate::pages;
use crate::screen::{CpuPanel, Edit, Editor};
use crate::text;
use crate::ui;
use crate::ui::{Ink, Line, LineView, Page, SpanView};

verus! {

/// The value that a field is being edited to.
pub open spec fn edited_field(p: CpuPanel, e: Editor, focused: bool, i: int) -> Option<u32> {
    match e.edit {
        Edit::Value(v) if focused && p.sel == i => Some(v),
        _ => None,
    }
}

/// The curve scale of an edited magnitude: its negation, in the range of `i32`.
pub open spec fn scale_of(mag: u32) -> int {
    if mag > 0x8000_0000 { 0x1_0000_0000 - mag } else { -(mag as int) }
}

/// The point that the panel shows: with the value that is being edited.
pub open spec fn shown_point(p: CpuPanel, e: Editor, focused: bool) -> CpuOc {
    CpuOc {
        boost_mhz: match edited_field(p, e, focused, 0) {
            Some(v) => v,
            None => p.point.boost_mhz,
        },
        curve_scale: match edited_field(p, e, focused, 1) {
            Some(v) => scale_of(v) as i32,
            None => p.point.curve_scale,
        },
        cpu_temp_c: match edited_field(p, e, focused, 2) {
            Some(v) => v,
            None => p.point.cpu_temp_c,
        },
        ..p.point
    }
}

/// The point that the panel shows.
pub fn preview(p: &CpuPanel, e: &Editor, focused: bool) -> (r: CpuOc)
    ensures
        r == shown_point(*p, *e, focused),
{
    let mut r: CpuOc = p.point;
    if let Edit::Value(v) = e.edit {
        if focused && p.sel == 0 {
            r.boost_mhz = v;
        } else if focused && p.sel == 1 {
            r.curve_scale = if v > 0x8000_0000 {
                (0x1_0000_0000i64 - v as i64) as i32
            } else {
                (-(v as i64)) as i32
            };
        } else if focused && p.sel == 2 {
            r.cpu_temp_c = v;
        }
    }
    r
}

// ---------------------------------------------------------------------------
// Controls

/// A column's heading.
pub open spec fn heading(s: Seq<char>) -> LineView {
    LineView { spans: seq![ui::span(s, ui::bold(Ink::Accent))], centered: true }
}

fn head(s: &str) -> (r: Line)
    ensures
        r@ == heading(s@),
{
    Line::centered(ui::tint_bold(s, Ink::Accent))
}

/// A field.
pub open spec fn field_view(sel: bool, label: Seq<char>, val: Seq<char>) -> LineView {
    ui::line(
        seq![
            pages::field_mark(sel),
            ui::span(text::pad_right(label, ' ', 10), ui::plain(Ink::Dim)),
            ui::span(val, pages::value_style(sel, false)),
        ],
    )
}

fn field(sel: bool, label: &str, val: &str) -> (r: Line)
    ensures
        r@ == field_view(sel, label@, val@),
{
    Line::three(
        pages::mark(sel),
        ui::tint(text::padded_right(label, ' ', 10).as_str(), Ink::Dim),
        ui::styled(val, pages::style_of_value(sel, false)),
    )
}

/// The voltage predicted for a point, held against the ceiling.
pub open spec fn prediction_line(pred: int) -> LineView {
    let ok = pred <= ocq3::VID_CEILING_MV;
    ui::line(
        seq![
            ui::span("   pred Vid "@, ui::plain(Ink::Dim)),
            ui::span(
                text::dec(pred as nat) + " mV"@,
                ui::bold(if ok { Ink::Good } else { Ink::Bad }),
            ),
            ui::span(
                if ok {
                    " / "@ + text::dec(ocq3::VID_CEILING_MV as nat) + " cap"@
                } else {
                    " — undervolt more"@
                },
                ui::plain(if ok { Ink::Dim } else { Ink::Bad }),
            ),
        ],
    )
}

/// The live voltage.
pub open spec fn live_line(live_vid: Option<u32>) -> LineView {
    ui::line(
        seq![
            ui::span("   Vid now  "@, ui::plain(Ink::Dim)),
            ui::span(
                match live_vid {
                    Some(v) => text::dec(v as nat) + " mV"@,
                    None => "—"@,
                },
                ui::bold(Ink::Accent),
            ),
        ],
    )
}

/// The controls, with the live voltage and the predicted one.
pub open spec fn controls_page(
    p: CpuPanel,
    e: Editor,
    live_vid: Option<u32>,
    focused: bool,
) -> Seq<LineView> {
    let c = shown_point(p, e, focused);
    seq![
        heading("overclock"@),
        field_view(
            focused && p.sel == 0,
            "boost clk"@,
            text::dec(c.boost_mhz as nat) + " MHz"@,
        ),
        field_view(
            focused && p.sel == 1,
            "curve"@,
            text::dec_int(c.curve_scale as int) + " "@ + (if c.curve_scale == 0 {
                "(stock)"@
            } else {
                "(undervolt)"@
            }),
        ),
        field_view(focused && p.sel == 2, "temp cap"@, text::dec(c.cpu_temp_c as nat) + " C"@),
        live_line(live_vid),
        prediction_line(c.predicted()),
    ]
}

fn prediction(pred: u32) -> (r: Line)
    ensures
        r@ == prediction_line(pred as int),
{
    let ok: bool = pred <= ocq3::VID_CEILING_MV;
    let value = text::join2(text::decimal(pred as u64).as_str(), " mV");
    let tail: String = if ok {
        text::join3(" / ", text::decimal(ocq3::VID_CEILING_MV as u64).as_str(), " cap")
    } else {
        " — undervolt more".to_owned()
    };
    let r = Line::three(
        ui::tint("   pred Vid ", Ink::Dim),
        ui::tint_bold(
            value.as_str(),
            if ok {
                Ink::Good
            } else {
                Ink::Bad
            },
        ),
        ui::tint(
            tail.as_str(),
            if ok {
                Ink::Dim
            } else {
                Ink::Bad
            },
        ),
    );
    assert(r@.spans =~= prediction_line(pred as int).spans);
    r
}

fn live(live_vid: Option<u32>) -> (r: Line)
    ensures
        r@ == live_line(live_vid),
{
    let vid: String = match live_vid {
        Some(v) => text::join2(text::decimal(v as u64).as_str(), " mV"),
        None => "—".to_owned(),
    };
    let r = Line::two(
        ui::tint("   Vid now  ", Ink::Dim),
        ui::tint_bold(vid.as_str(), Ink::Accent),
    );
    assert(r@.spans =~= live_line(live_vid).spans);
    r
}

/// The controls.
pub fn controls_lines(
    p: &CpuPanel,
    e: &Editor,
    live_vid: Option<u32>,
    focused: bool,
) -> (r: Page)
    ensures
        r@ == controls_page(*p, *e, live_vid, focused),
{
    let c: CpuOc = preview(p, e, focused);
    let boost = text::join2(text::decimal(c.boost_mhz as u64).as_str(), " MHz");
    let scale = text::join3(
        text::decimal_signed(c.curve_scale as i64).as_str(),
        " ",
        if c.curve_scale == 0 {
            "(stock)"
        } else {
            "(undervolt)"
        },
    );
    let cap = text::join2(text::decimal(c.cpu_temp_c as u64).as_str(), " C");
    let mut page = Page::new();
    page.put(head("overclock"));
    page.put(field(focused && p.sel == 0, "boost clk", boost.as_str()));
    page.put(field(focused && p.sel == 1, "curve", scale.as_str()));
    page.put(field(focused && p.sel == 2, "temp cap", cap.as_str()));
    page.put(live(live_vid));
    page.put(prediction(c.predicted_vid_mv()));
    assert(page@ =~= controls_page(*p, *e, live_vid, focused));
    page
}

// ---------------------------------------------------------------------------
// Curve

/// The plotted clock nearest to a boost clock: the curve is plotted every
/// 100 MHz, the boost clock moves in finer steps.
pub open spec fn boost_mark(boost: u32) -> int {
    (boost + 50) / 100 * 100
}

/// A step of the curve: clock, bar, voltage. The boost clock's step is marked, a
/// voltage over the ceiling is in the colour of an error.
pub open spec fn curve_cell(clk: int, vid: int, boost: u32) -> Seq<SpanView> {
    let at_boost = clk == boost_mark(boost);
    let ink = if vid > ocq3::VID_CEILING_MV {
        Ink::Bad
    } else if at_boost {
        Ink::Accent
    } else {
        Ink::Good
    };
    seq![
        ui::span(
            (if at_boost { "▸"@ } else { " "@ }) + text::pad_left(text::dec(clk as nat), ' ', 4)
                + " "@,
            ui::plain(if at_boost { Ink::Accent } else { Ink::Dim }),
        ),
        ui::span(ui::bar_text(vid - 700, 700, 5), ui::plain(ink)),
        ui::span(" "@ + text::pad_left(text::dec(vid as nat), ' ', 4), ui::plain(ink)),
    ]
}

/// A step of the curve of a point.
pub open spec fn step_cell(c: CpuOc, i: int) -> Seq<SpanView> {
    curve_cell(
        2800 + 100 * i,
        ocq3::curve_mv(2800 + 100 * i, c.curve_scale as int),
        c.boost_mhz,
    )
}

/// A row of the curve: a step of the lower half and one of the upper half.
pub open spec fn curve_row(c: CpuOc, row: int) -> LineView {
    ui::line(
        step_cell(c, row) + seq![ui::span("  "@, ui::plain(Ink::Plain))] + step_cell(c, row + 7),
    )
}

/// The predicted curve of the point that is shown.
pub open spec fn curve_page(c: CpuOc) -> Seq<LineView> {
    seq![heading("F/Vid curve  MHz->mV"@)] + Seq::new(7, |row: int| curve_row(c, row))
}

fn push_cell(r: &mut Line, clk: u32, vid: u32, boost: u32)
    ensures
        final(r)@ == (LineView {
            spans: old(r)@.spans + curve_cell(clk as int, vid as int, boost),
            ..old(r)@
        }),
{
    let at_boost: bool = clk as u64 == (boost as u64 + 50) / 100 * 100;
    let ink: Ink = if vid > ocq3::VID_CEILING_MV {
        Ink::Bad
    } else if at_boost {
        Ink::Accent
    } else {
        Ink::Good
    };
    let label = text::join3(
        if at_boost {
            "▸"
        } else {
            " "
        },
        text::padded_left(text::decimal(clk as u64).as_str(), ' ', 4).as_str(),
        " ",
    );
    let volts = text::join2(
        " ",
        text::padded_left(text::decimal(vid as u64).as_str(), ' ', 4).as_str(),
    );
    r.add_span(
        ui::tint(
            label.as_str(),
            if at_boost {
                Ink::Accent
            } else {
                Ink::Dim
            },
        ),
    );
    r.add_span(ui::bar(vid as i64 - 700, 700, 5, ink));
    r.add_span(ui::tint(volts.as_str(), ink));
    assert(r@.spans =~= old(r)@.spans + curve_cell(clk as int, vid as int, boost));
}

/// The predicted curve of the point that is shown.
pub fn curve_lines(c: &CpuOc) -> (r: Page)
    ensures
        r@ == curve_page(*c),
{
    let samples = cpu::curve_samples(c.curve_scale);
    let mut page = Page::new();
    page.put(head("F/Vid curve  MHz->mV"));
    let mut row: usize = 0;
    let ghost first = page@;
    assert(page@ =~= first + Seq::new(0, |i: int| curve_row(*c, i)));
    while row < 7
        invariant
            row <= 7,
            samples@.len() == 14,
            forall|i: int|
                0 <= i < 14 ==> (#[trigger] samples@[i]).0 == 2800 + 100 * i && samples@[i].1
                    == ocq3::curve_mv(2800 + 100 * i, c.curve_scale as int),
            page@ == first + Seq::new(row as nat, |i: int| curve_row(*c, i)),
        decreases 7 - row,
    {
        let ghost before = page@;
        let (clk, vid) = samples[row];
        let (clk2, vid2) = samples[row + 7];
        let mut l = Line::new();
        push_cell(&mut l, clk, vid, c.boost_mhz);
        l.add_span(ui::tint("  ", Ink::Plain));
        push_cell(&mut l, clk2, vid2, c.boost_mhz);
        assert(l@.spans =~= curve_row(*c, row as int).spans);
        page.put(l);
        assert(page@ =~= first + Seq::new((row + 1) as nat, |i: int| curve_row(*c, i)));
        row += 1;
    }
    assert(page@ =~= curve_page(*c));
    page
}

// ---------------------------------------------------------------------------
// Threads

/// The width of the thread grid.
pub const GRID_W: usize = 32;

/// A text in the middle of the thread grid.
pub open spec fn over_grid(s: Seq<char>) -> Seq<char> {
    text::repeat(' ', (if s.len() < GRID_W { (GRID_W - s.len()) / 2 } else { 0 }) as nat) + s
}

fn center_over_grid(s: &str) -> (r: String)
    ensures
        r@ == over_grid(s@),
{
    let n: usize = s.unicode_len();
    let lead: usize = if n < GRID_W {
        (GRID_W - n) / 2
    } else {
        0
    };
    text::join2(text::repeated(' ', lead).as_str(), s)
}

/// A thread: number, bar, use in percent.
pub open spec fn thread_cell(util: Seq<u8>, i: int) -> Seq<SpanView> {
    let u = util[i];
    let ink = if u >= 85 {
        Ink::Bad
    } else if u >= 50 {
        Ink::Warn
    } else {
        Ink::Good
    };
    seq![
        ui::span(
            "CPU"@ + text::pad_right(text::dec(i as nat), ' ', 2) + " "@,
            ui::plain(Ink::Dim),
        ),
        ui::span(ui::bar_text(u as int, 100, 5), ui::plain(ink)),
        ui::span(" "@ + text::pad_left(text::dec(u as nat), ' ', 3), ui::plain(ink)),
    ]
}

/// Threads that the grid shows: 16 at most.
pub open spec fn shown_threads(util: Seq<u8>) -> int {
    if util.len() < 16 { util.len() as int } else { 16 }
}

/// A row of the grid: a thread of the first half, and one of the second where
/// there is one.
pub open spec fn thread_row(util: Seq<u8>, row: int) -> LineView {
    let total = shown_threads(util);
    let half = (total + 1) / 2;
    ui::line(
        thread_cell(util, row).push(ui::span("  "@, ui::plain(Ink::Plain))) + (if row + half
            < total {
            thread_cell(util, row + half)
        } else {
            seq![]
        }),
    )
}

/// Numbers as texts.
pub open spec fn numbers(v: Seq<u32>) -> Seq<Seq<char>> {
    Seq::new(v.len(), |i: int| text::dec(v[i] as nat))
}

/// The threads in two columns, and below them the clocks of the cores where
/// they are known.
pub open spec fn threads_page(util: Seq<u8>, cores: Seq<u32>) -> Seq<LineView> {
    let half = (shown_threads(util) + 1) / 2;
    seq![
        ui::line(seq![ui::span(over_grid("threads  util% + core MHz"@), ui::bold(Ink::Accent))]),
    ] + Seq::new(half as nat, |row: int| thread_row(util, row)) + (if cores.len() > 0 {
        seq![
            ui::line(
                seq![ui::span(over_grid(text::joined(numbers(cores), " "@)), ui::plain(Ink::Good))],
            ),
        ]
    } else {
        seq![]
    })
}

fn push_thread(r: &mut Line, util: &Vec<u8>, i: usize)
    requires
        i < util@.len(),
    ensures
        final(r)@ == (LineView {
            spans: old(r)@.spans + thread_cell(util@, i as int),
            ..old(r)@
        }),
{
    let u: u8 = util[i];
    let ink: Ink = if u >= 85 {
        Ink::Bad
    } else if u >= 50 {
        Ink::Warn
    } else {
        Ink::Good
    };
    let label = text::join3(
        "CPU",
        text::padded_right(text::decimal(i as u64).as_str(), ' ', 2).as_str(),
        " ",
    );
    let used = text::join2(
        " ",
        text::padded_left(text::decimal(u as u64).as_str(), ' ', 3).as_str(),
    );
    r.add_span(ui::tint(label.as_str(), Ink::Dim));
    r.add_span(ui::bar(u as i64, 100, 5, ink));
    r.add_span(ui::tint(used.as_str(), ink));
    assert(r@.spans =~= old(r)@.spans + thread_cell(util@, i as int));
}

fn show_numbers(v: &Vec<u32>) -> (r: Vec<String>)
    ensures
        text::texts(r@) == numbers(v@),
{
    let mut r: Vec<String> = Vec::new();
    let mut i: usize = 0;
    while i < v.len()
        invariant
            i <= v@.len(),
            r@.len() == i,
            forall|k: int| 0 <= k < i ==> (#[trigger] r@[k])@ == text::dec(v@[k] as nat),
        decreases v@.len() - i,
    {
        r.push(text::decimal(v[i] as u64));
        i += 1;
    }
    assert(text::texts(r@) =~= numbers(v@));
    r
}

/// The threads and the clocks of the cores. `util` is the use of each logical
/// CPU in percent.
pub fn threads_lines(util: &Vec<u8>, cores: &Vec<u32>) -> (r: Page)
    ensures
        r@ == threads_page(util@, cores@),
{
    let total: usize = if util.len() < 16 {
        util.len()
    } else {
        16
    };
    let half: usize = (total + 1) / 2;
    let mut page = Page::new();
    page.put(
        Line::of(
            ui::tint_bold(center_over_grid("threads  util% + core MHz").as_str(), Ink::Accent),
        ),
    );
    let ghost first = page@;
    let mut row: usize = 0;
    assert(page@ =~= first + Seq::new(0, |i: int| thread_row(util@, i)));
    while row < half
        invariant
            row <= half,
            total == shown_threads(util@),
            half == (total + 1) / 2,
            page@ == first + Seq::new(row as nat, |i: int| thread_row(util@, i)),
        decreases half - row,
    {
        let ghost before = page@;
        let mut l = Line::new();
        push_thread(&mut l, util, row);
        l.add_span(ui::tint("  ", Ink::Plain));
        if row + half < total {
            push_thread(&mut l, util, row + half);
        }
        assert(l@.spans =~= thread_row(util@, row as int).spans);
        page.put(l);
        assert(page@ =~= first + Seq::new((row + 1) as nat, |i: int| thread_row(util@, i)));
        row += 1;
    }
    if cores.len() > 0 {
        let freqs = text::join(&show_numbers(cores), " ");
        page.put(Line::of(ui::tint(center_over_grid(freqs.as_str()).as_str(), Ink::Good)));
    }
    assert(page@ =~= threads_page(util@, cores@));
    page
}

/// Empty lines above each of three columns in a height, so that their headings
/// line up and the longest stands in the middle.
pub fn top_pad(height: usize, a: usize, b: usize, c: usize) -> (r: usize)
    ensures
        ({
            let ab = if a < b { b } else { a };
            let most = if ab < c { c } else { ab };
            r == if height < most { 0 } else { (height - most) / 2 }
        }),
{
    let ab: usize = if a < b {
        b
    } else {
        a
    };
    let most: usize = if ab < c {
        c
    } else {
        ab
    };
    if height < most {
        0
    } else {
        (height - most) / 2
    }
}

// ---------------------------------------------------------------------------
// Laws

/// The depth of an undervolt stands for its negative.
pub proof fn depth_is_shown_negative(mag: u32)
    ensures
        mag <= 0x8000_0000 ==> scale_of(mag) == -mag,
        -0x8000_0000 <= scale_of(mag) <= 0x7FFF_FFFF,
{
}

/// The point is shown as it is, with the one field that is being edited in its
/// place, and only where the panel has the focus.
pub proof fn edited_field_is_shown_in_the_point(p: CpuPanel, e: Editor, focused: bool)
    ensures
        e.edit is Idle || !focused ==> shown_point(p, e, focused) == p.point,
        e.edit matches Edit::Value(v) ==> (focused ==> ({
            let c = shown_point(p, e, focused);
            &&& c.boost_mhz == (if p.sel == 0 { v } else { p.point.boost_mhz })
            &&& p.sel == 1 && v <= 50 ==> c.curve_scale == -v
            &&& p.sel != 1 ==> c.curve_scale == p.point.curve_scale
            &&& c.cpu_temp_c == (if p.sel == 2 { v } else { p.point.cpu_temp_c })
            &&& c.gpu_temp_c == p.point.gpu_temp_c
        })),
{
}

/// A predicted voltage over 1325 mV is shown as bad.
pub proof fn prediction_is_rated(pred: int)
    ensures
        prediction_line(pred).spans[1].style.ink is Bad <==> pred > 1325,
        prediction_line(pred).spans[1].style.ink is Good <==> pred <= 1325,
        prediction_line(pred).spans[1].text == text::dec(pred as nat) + " mV"@,
{
}

/// The mark of the boost clock stands at the nearest hundred.
pub proof fn mark_is_at_the_nearest_hundred(boost: u32)
    ensures
        boost_mark(boost) % 100 == 0,
        -50 <= boost_mark(boost) - boost <= 50,
{
}

/// A step of the curve is shown as bad over 1325 mV, whatever the clock, and else
/// lit where the boost clock stands.
pub proof fn steps_are_rated(clk: int, vid: int, boost: u32)
    ensures
        curve_cell(clk, vid, boost)[1].style.ink is Bad <==> vid > 1325,
        vid <= 1325 ==> (curve_cell(clk, vid, boost)[1].style.ink is Accent <==> clk == boost_mark(
            boost,
        )),
        curve_cell(clk, vid, boost)[2].text == " "@ + text::pad_left(text::dec(vid as nat), ' ', 4),
{
}

/// The steps of the curve go from 2800 to 4100 MHz by hundreds, seven in each of
/// two columns, each with the voltage of its clock.
pub proof fn steps_cover_the_clocks(c: CpuOc, row: int)
    requires
        0 <= row < 7,
    ensures
        curve_page(c).len() == 8,
        curve_page(c)[row + 1] == curve_row(c, row),
        step_cell(c, 0) == curve_cell(2800, ocq3::curve_mv(2800, c.curve_scale as int), c.boost_mhz),
        step_cell(c, 13) == curve_cell(4100, ocq3::curve_mv(4100, c.curve_scale as int), c.boost_mhz),
{
}

/// A thread is shown as good below 50 percent, as a warning from there and as bad
/// from 85 percent.
pub proof fn threads_are_rated(util: Seq<u8>, i: int)
    requires
        0 <= i < util.len(),
    ensures
        thread_cell(util, i)[1].style.ink is Good <==> util[i] < 50,
        thread_cell(util, i)[1].style.ink is Warn <==> 50 <= util[i] < 85,
        thread_cell(util, i)[1].style.ink is Bad <==> util[i] >= 85,
{
}

/// Every thread, up to sixteen, is shown in one of the two columns: the first
/// half down the first and the others down the second.
pub proof fn every_thread_is_shown_once(util: Seq<u8>, cores: Seq<u32>, i: int)
    requires
        0 <= i < util.len(),
        i < 16,
    ensures
        ({
            let total = if util.len() < 16 { util.len() as int } else { 16 };
            let half = (total + 1) / 2;
            let v = threads_page(util, cores);
            &&& v.len() == 1 + half + (if cores.len() > 0 { 1int } else { 0 })
            &&& i < half ==> v[1 + i].spans[0] == thread_cell(util, i)[0]
            &&& i >= half ==> v[1 + i - half].spans[4] == thread_cell(util, i)[0]
        }),
{
}

} // verus!
