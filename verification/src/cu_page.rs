//! The compute-unit panel: note, die map, bench and details.
use vstd::prelude::*;

use crate::cu::{bit, bit_set};
use crate::curoute;
use crate::cutest;
use crate::refresh;
use crate::screen::{BenchShown, CuPanel};
use crate::text;
use crate::ui;
use crate::ui::{Ink, Line, LineView, Page, SpanView, Style};

verus! {

/// A dim line.
pub open spec fn dim_line(s: Seq<char>) -> LineView {
    ui::line(seq![ui::span(s, ui::plain(Ink::Dim))])
}

fn dim(s: &str) -> (r: Line)
    ensures
        r@ == dim_line(s@),
{
    Line::of(ui::tint(s, Ink::Dim))
}

/// A line in a colour and bold.
pub open spec fn bold_line(s: Seq<char>, ink: Ink) -> LineView {
    ui::line(seq![ui::span(s, ui::bold(ink))])
}

fn strong(s: &str, ink: Ink) -> (r: Line)
    ensures
        r@ == bold_line(s@, ink),
{
    Line::of(ui::tint_bold(s, ink))
}

/// The title of the panel.
pub fn cu_title(p: &CuPanel) -> (r: &'static str)
    ensures
        r@ == if p.ok { "compute units (40 CU)"@ } else { "compute units — umr unavailable"@ },
{
    if p.ok {
        "compute units (40 CU)"
    } else {
        "compute units — umr unavailable"
    }
}

/// The note on what a route yields.
pub fn note_lines() -> (r: Page)
    ensures
        r@ == seq![
            dim_line(" GFLOPS ≈ 44 × eff-CU @1500 (eff=4×min(SE0,SE1) WGP)"@),
            dim_line(" even engines eff=routed; skew gated · [b] measures"@),
        ],
{
    let mut page = Page::new();
    page.put(dim(" GFLOPS ≈ 44 × eff-CU @1500 (eff=4×min(SE0,SE1) WGP)"));
    page.put(dim(" even engines eff=routed; skew gated · [b] measures"));
    assert(page@ =~= seq![
        dim_line(" GFLOPS ≈ 44 × eff-CU @1500 (eff=4×min(SE0,SE1) WGP)"@),
        dim_line(" even engines eff=routed; skew gated · [b] measures"@),
    ]);
    page
}

// ---------------------------------------------------------------------------
// Die map

/// A WGP of the map: filled where the draft routes it, lit where the draft
/// differs from the live route, reversed where it is selected.
pub open spec fn wgp_span(draft: u32, live: u32, w: u32, sel: bool) -> SpanView {
    ui::span(
        if bit(draft, w) { "██"@ } else { "··"@ },
        Style {
            ink: if bit(draft, w) != bit(live, w) {
                Ink::Accent
            } else if bit(draft, w) {
                Ink::Good
            } else {
                Ink::Dim
            },
            bold: true,
            reversed: sel,
        },
    )
}

/// The first `n` WGPs of a row, each with the gap behind it. `sel` is the
/// selected one.
pub open spec fn wgp_spans(draft: u32, live: u32, sel: int, n: nat) -> Seq<SpanView>
    decreases n,
{
    if n == 0 {
        seq![]
    } else {
        wgp_spans(draft, live, sel, (n - 1) as nat).push(
            wgp_span(draft, live, (n - 1) as u32, n - 1 == sel),
        ).push(ui::span("  "@, ui::plain(Ink::Dim)))
    }
}

/// The row of an array: its name, its WGPs, its compute units.
pub open spec fn array_row(p: CuPanel, ai: int, name: Seq<char>, focused: bool) -> LineView {
    let cus = 2 * curoute::wgps(p.draft@[ai]);
    ui::line(
        seq![ui::span("  "@ + name + "  "@, ui::bold(Ink::Accent))] + wgp_spans(
            p.draft@[ai],
            p.live@[ai],
            if focused { p.sel - 5 * ai } else { -1 },
            5,
        ).push(
            ui::span(
                text::pad_left(text::dec(cus), ' ', 3) + " CU"@,
                ui::bold(if cus == 0 { Ink::Bad } else { Ink::Dim }),
            ),
        ),
    )
}

/// The heading of an engine.
pub open spec fn engine_line(left: Seq<char>, name: Seq<char>, right: Seq<char>) -> LineView {
    ui::line(
        seq![
            ui::span(left, ui::plain(Ink::Dim)),
            ui::span(name, ui::bold(Ink::Accent)),
            ui::span(right, ui::plain(Ink::Dim)),
        ],
    )
}

/// The die map: two engines of two arrays.
pub open spec fn map_page(p: CuPanel, focused: bool) -> Seq<LineView> {
    seq![
        engine_line(" ┌─────── "@, "Shader Engine 0"@, " ───────┐"@),
        array_row(p, 0, "SH0"@, focused),
        array_row(p, 1, "SH1"@, focused),
        engine_line(" ├─────── "@, "Shader Engine 1"@, " ───────┤"@),
        array_row(p, 2, "SH0"@, focused),
        array_row(p, 3, "SH1"@, focused),
        dim_line(" └───────────────────────────────┘"@),
    ]
}

fn row_of_array(p: &CuPanel, ai: usize, name: &str, focused: bool) -> (r: Line)
    requires
        ai < 4,
    ensures
        r@ == array_row(*p, ai as int, name@, focused),
{
    let draft: u32 = p.draft[ai];
    let live: u32 = p.live[ai];
    let ghost sel = if focused { p.sel - 5 * ai } else { -1 };
    let ghost head = ui::span("  "@ + name@ + "  "@, ui::bold(Ink::Accent));
    let mut r = Line::of(ui::tint_bold(text::join3("  ", name, "  ").as_str(), Ink::Accent));
    let mut w: u32 = 0;
    assert(r@.spans =~= seq![head] + wgp_spans(draft, live, sel, 0));
    while w < 5
        invariant
            ai < 4,
            w <= 5,
            draft == p.draft@[ai as int],
            live == p.live@[ai as int],
            sel == if focused { p.sel - 5 * ai } else { -1 },
            r@ == ui::line(seq![head] + wgp_spans(draft, live, sel, w as nat)),
        decreases 5 - w,
    {
        let on: bool = bit_set(draft, w);
        let was: bool = bit_set(live, w);
        let chosen: bool = focused && ai * 5 + (w as usize) == p.sel;
        let ink: Ink = if on != was {
            Ink::Accent
        } else if on {
            Ink::Good
        } else {
            Ink::Dim
        };
        let glyph = if on {
            "██"
        } else {
            "··"
        };
        r.add_span(ui::styled(glyph, Style { ink, bold: true, reversed: chosen }));
        r.add_span(ui::tint("  ", Ink::Dim));
        assert(chosen == (w == sel));
        assert(r@.spans =~= seq![head] + wgp_spans(draft, live, sel, (w + 1) as nat));
        w += 1;
    }
    let cus: u32 = 2 * crate::cu::count_ones(draft, 5);
    r.add_span(
        ui::tint_bold(
            text::join2(
                text::padded_left(text::decimal(cus as u64).as_str(), ' ', 3).as_str(),
                " CU",
            ).as_str(),
            if cus == 0 {
                Ink::Bad
            } else {
                Ink::Dim
            },
        ),
    );
    assert(r@.spans =~= array_row(*p, ai as int, name@, focused).spans);
    r
}

fn engine(left: &str, name: &str, right: &str) -> (r: Line)
    ensures
        r@ == engine_line(left@, name@, right@),
{
    Line::three(ui::tint(left, Ink::Dim), ui::tint_bold(name, Ink::Accent), ui::tint(right, Ink::Dim))
}

/// The die map.
pub fn map_lines(p: &CuPanel, focused: bool) -> (r: Page)
    ensures
        r@ == map_page(*p, focused),
{
    let mut page = Page::new();
    page.put(engine(" ┌─────── ", "Shader Engine 0", " ───────┐"));
    page.put(row_of_array(p, 0, "SH0", focused));
    page.put(row_of_array(p, 1, "SH1", focused));
    page.put(engine(" ├─────── ", "Shader Engine 1", " ───────┤"));
    page.put(row_of_array(p, 2, "SH0", focused));
    page.put(row_of_array(p, 3, "SH1", focused));
    page.put(dim(" └───────────────────────────────┘"));
    assert(page@ =~= map_page(*p, focused));
    page
}

// ---------------------------------------------------------------------------
// Bench

/// Throughput per compute unit, to a tenth; 0 without units.
pub open spec fn per_unit_text(b: BenchShown) -> Seq<char> {
    let tenths = if b.cu == 0 {
        0
    } else {
        cutest::throughput(b.elapsed_ns, b.hung, 10, b.cu as int)
    };
    text::dec((tenths / 10) as nat) + "."@ + text::dec((tenths % 10) as nat) + " /CU"@
}

/// The bench beside the map.
pub open spec fn bench_page(result: Option<BenchShown>) -> Seq<LineView> {
    match result {
        Some(b) => seq![
            bold_line("bench"@, Ink::Accent),
            dim_line("──────"@),
            bold_line(
                text::dec(cutest::throughput(b.elapsed_ns, b.hung, 1, 1) as nat),
                if b.ok { Ink::Good } else { Ink::Bad },
            ),
            dim_line("GFLOPS"@),
            dim_line(per_unit_text(b)),
            ui::line(
                seq![
                    ui::span(
                        text::dec(b.cu as nat) + if b.ok { " CU ok"@ } else { " CU !"@ },
                        ui::plain(if b.ok { Ink::Dim } else { Ink::Bad }),
                    ),
                ],
            ),
        ],
        None => seq![
            bold_line("bench"@, Ink::Accent),
            dim_line("──────"@),
            dim_line("press"@),
            bold_line("[b]"@, Ink::Accent),
            dim_line("to"@),
            dim_line("measure"@),
        ],
    }
}

fn show_per_unit(b: &BenchShown) -> (r: String)
    ensures
        r@ == per_unit_text(*b),
{
    let tenths: u64 = if b.cu == 0 {
        0
    } else {
        cutest::throughput_of(b.elapsed_ns, b.hung, 10, b.cu as u64)
    };
    let mut r = text::join3(
        text::decimal(tenths / 10).as_str(),
        ".",
        text::decimal(tenths % 10).as_str(),
    );
    r.append(" /CU");
    r
}

/// The bench beside the map.
pub fn bench_lines(result: Option<BenchShown>) -> (r: Page)
    ensures
        r@ == bench_page(result),
{
    let mut page = Page::new();
    page.put(strong("bench", Ink::Accent));
    page.put(dim("──────"));
    match result {
        Some(b) => {
            let gflops: u64 = cutest::throughput_of(b.elapsed_ns, b.hung, 1, 1);
            page.put(
                strong(
                    text::decimal(gflops).as_str(),
                    if b.ok {
                        Ink::Good
                    } else {
                        Ink::Bad
                    },
                ),
            );
            page.put(dim("GFLOPS"));
            page.put(dim(show_per_unit(&b).as_str()));
            let units = text::join2(
                text::decimal(b.cu as u64).as_str(),
                if b.ok {
                    " CU ok"
                } else {
                    " CU !"
                },
            );
            page.put(
                Line::of(
                    ui::tint(
                        units.as_str(),
                        if b.ok {
                            Ink::Dim
                        } else {
                            Ink::Bad
                        },
                    ),
                ),
            );
        },
        None => {
            page.put(dim("press"));
            page.put(strong("[b]", Ink::Accent));
            page.put(dim("to"));
            page.put(dim("measure"));
        },
    }
    assert(page@ =~= bench_page(result));
    page
}

// ---------------------------------------------------------------------------
// Details

/// What the glyphs mean.
pub open spec fn legend_line() -> LineView {
    ui::line(
        seq![
            ui::span(" ██"@, ui::bold(Ink::Good)),
            ui::span(" on  "@, ui::plain(Ink::Dim)),
            ui::span("··"@, ui::plain(Ink::Dim)),
            ui::span(" off  "@, ui::plain(Ink::Dim)),
            ui::span("██"@, ui::bold(Ink::Accent)),
            ui::span(" pending  ·  each pair = 1 WGP (2 CU)"@, ui::plain(Ink::Dim)),
        ],
    )
}

/// The units that the draft routes, those that count where they are fewer, and
/// the live ones where the draft is not applied.
pub open spec fn summary_line(p: CuPanel) -> LineView {
    let cu = curoute::routed_cu(p.draft@);
    let effective = refresh::effective_of(p.draft@);
    let pending = p.draft@ != p.live@;
    let a = seq![
        ui::span(
            " "@ + text::dec(cu) + "/40 CU routed"@,
            ui::bold(if pending { Ink::Accent } else { Ink::Good }),
        ),
    ];
    let b = if effective < cu {
        a.push(
            ui::span(" · "@ + text::dec(effective as nat) + " effective"@, ui::bold(Ink::Warn)),
        )
    } else {
        a
    };
    let c = if pending {
        b.push(
            ui::span(
                "  (live "@ + text::dec(curoute::routed_cu(p.live@)) + " — [a] apply)"@,
                ui::plain(Ink::Dim),
            ),
        )
    } else {
        b
    };
    ui::line(c)
}

/// The warning about the shape of the draft: an empty array is unsafe, unequal
/// engines are only slower.
pub open spec fn shape_lines(draft: Seq<u32>) -> Seq<LineView> {
    let empty = curoute::empties(draft, 4);
    if empty.len() > 0 {
        seq![
            ui::line(
                seq![
                    ui::span(
                        " ! "@ + text::dec(empty.len())
                            + " array(s) empty — can hang compute (unsafe)"@,
                        ui::plain(Ink::Bad),
                    ),
                ],
            ),
        ]
    } else if curoute::wgps(draft[0]) + curoute::wgps(draft[1]) != curoute::wgps(draft[2])
        + curoute::wgps(draft[3]) {
        seq![dim_line(" · unequal lanes cost a little efficiency — [b] to compare"@)]
    } else {
        seq![]
    }
}

/// The name of a WGP, five to an array.
pub open spec fn wgp_name(k: int) -> Seq<char> {
    curoute::array_name(k / 5) + "/WGP"@ + text::dec((k % 5) as nat)
}

/// The names of the first `n` WGPs, as far as a route lacks them.
pub open spec fn missing_wgps(masks: Seq<u32>, n: nat) -> Seq<Seq<char>>
    decreases n,
{
    if n == 0 {
        seq![]
    } else {
        let before = missing_wgps(masks, (n - 1) as nat);
        if bit(masks[(n - 1) / 5], ((n - 1) % 5) as u32) {
            before
        } else {
            before.push(wgp_name(n - 1))
        }
    }
}

/// How the chip came up.
pub open spec fn boot_line(drv: Seq<u32>) -> LineView {
    let broken = missing_wgps(drv, 20);
    let healthy = broken.len() == 0;
    ui::line(
        seq![
            ui::span(
                "at boot: "@ + text::dec(curoute::routed_cu(drv)) + "/40 CU came up"@,
                ui::bold(if healthy { Ink::Good } else { Ink::Bad }),
            ),
            ui::span(
                if healthy {
                    "   all WGP healthy"@
                } else {
                    "   broken: "@ + text::joined(broken, ", "@)
                },
                ui::plain(if healthy { Ink::Dim } else { Ink::Bad }),
            ),
        ],
    )
}

/// A result of the health test.
pub open spec fn health_line(h: (String, bool)) -> LineView {
    ui::line(
        seq![ui::span("  "@ + h.0@, ui::plain(if h.1 { Ink::Good } else { Ink::Bad }))],
    )
}

/// The results of the health test under their heading; nothing without results.
pub open spec fn health_lines(health: Seq<(String, bool)>) -> Seq<LineView> {
    if health.len() == 0 {
        seq![]
    } else {
        seq![ui::line(seq![ui::span("health-test:"@, ui::plain(Ink::Accent))])] + Seq::new(
            health.len(),
            |i: int| health_line(health[i]),
        )
    }
}

/// The details below the map.
pub open spec fn details_page(p: CuPanel, health: Seq<(String, bool)>) -> Seq<LineView> {
    seq![legend_line()] + seq![summary_line(p)] + shape_lines(p.draft@) + (match p.driver {
        Some(drv) => seq![boot_line(drv@)],
        None => seq![],
    }) + (if p.health_shown { health_lines(health) } else { seq![] })
}

fn legend() -> (r: Line)
    ensures
        r@ == legend_line(),
{
    let r = Line::four(
        ui::tint_bold(" ██", Ink::Good),
        ui::tint(" on  ", Ink::Dim),
        ui::tint("··", Ink::Dim),
        ui::tint(" off  ", Ink::Dim),
    ).with(ui::tint_bold("██", Ink::Accent)).with(
        ui::tint(" pending  ·  each pair = 1 WGP (2 CU)", Ink::Dim),
    );
    assert(r@.spans =~= legend_line().spans);
    r
}

fn same_masks(a: &[u32; 4], b: &[u32; 4]) -> (r: bool)
    ensures
        r == (a@ == b@),
{
    let r: bool = a[0] == b[0] && a[1] == b[1] && a[2] == b[2] && a[3] == b[3];
    assert(r ==> a@ =~= b@);
    r
}

fn summary(p: &CuPanel, cu: u32, effective: u32) -> (r: Line)
    requires
        cu == curoute::routed_cu(p.draft@),
        effective == refresh::effective_of(p.draft@),
    ensures
        r@ == summary_line(*p),
{
    let pending: bool = !same_masks(&p.draft, &p.live);
    let mut r = Line::of(
        ui::tint_bold(
            text::join3(" ", text::decimal(cu as u64).as_str(), "/40 CU routed").as_str(),
            if pending {
                Ink::Accent
            } else {
                Ink::Good
            },
        ),
    );
    if effective < cu {
        r.add_span(
            ui::tint_bold(
                text::join3(" · ", text::decimal(effective as u64).as_str(), " effective").as_str(),
                Ink::Warn,
            ),
        );
    }
    if pending {
        let live: u32 = curoute::cu_count(&p.live);
        r.add_span(
            ui::tint(
                text::join3(
                    "  (live ",
                    text::decimal(live as u64).as_str(),
                    " — [a] apply)",
                ).as_str(),
                Ink::Dim,
            ),
        );
    }
    r
}

fn missing(drv: &[u32; 4]) -> (r: Vec<String>)
    ensures
        text::texts(r@) == missing_wgps(drv@, 20),
{
    let mut r: Vec<String> = Vec::new();
    let mut k: usize = 0;
    assert(text::texts(r@) =~= seq![]);
    while k < 20
        invariant
            k <= 20,
            text::texts(r@) == missing_wgps(drv@, k as nat),
        decreases 20 - k,
    {
        if !bit_set(drv[k / 5], (k % 5) as u32) {
            let mut name = text::join2(curoute::name_of_array(k / 5).as_str(), "/WGP");
            name.append(text::decimal((k % 5) as u64).as_str());
            proof {
                text::texts_push(r@, name);
            }
            r.push(name);
        }
        k += 1;
    }
    r
}

fn at_boot(drv: &[u32; 4]) -> (r: Line)
    ensures
        r@ == boot_line(drv@),
{
    let broken = missing(drv);
    assert(text::texts(broken@).len() == broken@.len());
    let healthy: bool = broken.len() == 0;
    let count: u32 = curoute::cu_count(drv);
    let came = text::join3("at boot: ", text::decimal(count as u64).as_str(), "/40 CU came up");
    let list: String = if healthy {
        "   all WGP healthy".to_owned()
    } else {
        text::join2("   broken: ", text::join(&broken, ", ").as_str())
    };
    let ink: Ink = if healthy {
        Ink::Good
    } else {
        Ink::Bad
    };
    let tail: Ink = if healthy {
        Ink::Dim
    } else {
        Ink::Bad
    };
    let r = Line::two(ui::tint_bold(came.as_str(), ink), ui::tint(list.as_str(), tail));
    assert(r@.spans =~= boot_line(drv@).spans);
    r
}

/// The details below the map. `health` holds the results of the last health
/// test, each with whether it was good.
pub fn details_lines(p: &CuPanel, health: &Vec<(String, bool)>) -> (r: Page)
    ensures
        r@ == details_page(*p, health@),
{
    let shape = curoute::shape(&p.draft);
    proof {
        assert(shape.per_array_wgp@[0] == curoute::wgps(p.draft@[0]));
        assert(shape.per_array_wgp@[1] == curoute::wgps(p.draft@[1]));
        assert(shape.per_array_wgp@[2] == curoute::wgps(p.draft@[2]));
        assert(shape.per_array_wgp@[3] == curoute::wgps(p.draft@[3]));
    }
    let mut page = Page::new();
    page.put(legend());
    page.put(summary(p, shape.cu, shape.effective_cu));
    let ghost a = seq![legend_line()] + seq![summary_line(*p)];
    assert(page@ =~= a);
    let n: usize = shape.empty_arrays.len();
    if n > 0 {
        page.put(
            Line::of(
                ui::tint(
                    text::join3(
                        " ! ",
                        text::decimal(n as u64).as_str(),
                        " array(s) empty — can hang compute (unsafe)",
                    ).as_str(),
                    Ink::Bad,
                ),
            ),
        );
    } else if shape.unbalanced {
        page.put(dim(" · unequal lanes cost a little efficiency — [b] to compare"));
    }
    let ghost b = a + shape_lines(p.draft@);
    assert(page@ =~= b);
    let ghost mut c = b;
    match &p.driver {
        Some(drv) => {
            page.put(at_boot(drv));
            proof {
                c = b + seq![boot_line(drv@)];
            }
        },
        None => {
            proof {
                c = b + Seq::<LineView>::empty();
            }
        },
    }
    assert(page@ =~= c);
    if p.health_shown && health.len() > 0 {
        page.put(Line::of(ui::tint("health-test:", Ink::Accent)));
        let ghost head = page@;
        let mut i: usize = 0;
        assert(page@ =~= head + Seq::new(0, |j: int| health_line(health@[j])));
        while i < health.len()
            invariant
                i <= health@.len(),
                page@ == head + Seq::new(i as nat, |j: int| health_line(health@[j])),
            decreases health@.len() - i,
        {
            let ghost before = page@;
            let (what, ok) = (&health[i].0, health[i].1);
            page.put(
                Line::of(
                    ui::tint(
                        text::join2("  ", what.as_str()).as_str(),
                        if ok {
                            Ink::Good
                        } else {
                            Ink::Bad
                        },
                    ),
                ),
            );
            assert(page@ == before.push(health_line(health@[i as int])));
            assert(page@ =~= head + Seq::new((i + 1) as nat, |j: int| health_line(health@[j])));
            i += 1;
        }
    }
    assert(page@ =~= details_page(*p, health@));
    page
}

// ---------------------------------------------------------------------------
// Laws

/// A work group is shown as drafted, and as pending exactly where the route in
/// force differs.
pub proof fn work_group_is_shown_as_drafted(draft: u32, live: u32, w: u32, sel: bool)
    ensures
        wgp_span(draft, live, w, sel).text == (if bit(draft, w) { "██"@ } else { "··"@ }),
        wgp_span(draft, live, w, sel).style.ink is Accent <==> bit(draft, w) != bit(live, w),
        wgp_span(draft, live, w, sel).style.ink is Good <==> bit(draft, w) && bit(live, w),
        wgp_span(draft, live, w, sel).style.reversed == sel,
{
}

/// The five work groups of an array are shown in order, the selected one marked.
pub proof fn work_groups_are_shown_in_order(draft: u32, live: u32, sel: int, n: nat, w: int)
    requires
        0 <= w < n,
    ensures
        wgp_spans(draft, live, sel, n).len() == 2 * n,
        wgp_spans(draft, live, sel, n)[2 * w] == wgp_span(draft, live, w as u32, w == sel),
    decreases n,
{
    if w < n - 1 {
        work_groups_are_shown_in_order(draft, live, sel, (n - 1) as nat, w);
    } else if n > 1 {
        work_groups_are_shown_in_order(draft, live, sel, (n - 1) as nat, 0);
    } else {
        assert(wgp_spans(draft, live, sel, 0).len() == 0);
    }
}

/// The four arrays are shown in order, two to an engine.
pub proof fn arrays_are_shown_in_order(p: CuPanel, focused: bool)
    ensures
        map_page(p, focused).len() == 7,
        map_page(p, focused)[1] == array_row(p, 0, "SH0"@, focused),
        map_page(p, focused)[2] == array_row(p, 1, "SH1"@, focused),
        map_page(p, focused)[4] == array_row(p, 2, "SH0"@, focused),
        map_page(p, focused)[5] == array_row(p, 3, "SH1"@, focused),
{
}

/// One more work group is named as missing exactly where its bit is not set, by
/// its array and its place in it, five to an array.
pub proof fn missing_work_groups_are_named(masks: Seq<u32>, n: nat)
    ensures
        bit(masks[n as int / 5], (n % 5) as u32) ==> missing_wgps(masks, n + 1) == missing_wgps(
            masks,
            n,
        ),
        !bit(masks[n as int / 5], (n % 5) as u32) ==> missing_wgps(masks, n + 1) == missing_wgps(
            masks,
            n,
        ).push(curoute::array_name(n as int / 5) + "/WGP"@ + text::dec((n % 5) as nat)),
        missing_wgps(masks, 0) == Seq::<Seq<char>>::empty(),
{
}

/// All came up at boot exactly where none of the twenty is missing, and that is
/// shown as good.
pub proof fn boot_is_rated(drv: Seq<u32>)
    ensures
        boot_line(drv).spans[0].style.ink is Good <==> missing_wgps(drv, 20).len() == 0,
        boot_line(drv).spans[0].style.ink is Bad <==> missing_wgps(drv, 20).len() > 0,
{
}

/// The units of the draft are shown first; that fewer are effective, and what is
/// in force, only where it is so.
pub proof fn summary_shows_what_differs(p: CuPanel)
    ensures
        summary_line(p).spans[0].text == " "@ + text::dec(curoute::routed_cu(p.draft@))
            + "/40 CU routed"@,
        summary_line(p).spans.len() == 1 + (if refresh::effective_of(p.draft@) < curoute::routed_cu(
            p.draft@,
        ) {
            1int
        } else {
            0
        }) + (if p.draft@ != p.live@ { 1int } else { 0 }),
        summary_line(p).spans[0].style.ink is Good <==> p.draft@ == p.live@,
{
}

/// A draft with an empty array is warned of; a draft whose engines differ is
/// noted; of any other nothing is said.
pub proof fn shape_is_warned_of(draft: Seq<u32>)
    ensures
        shape_lines(draft).len() <= 1,
        curoute::empties(draft, 4).len() > 0 <==> shape_lines(draft).len() == 1 && shape_lines(
            draft,
        )[0].spans[0].style.ink is Bad,
        shape_lines(draft).len() == 0 <==> curoute::empties(draft, 4).len() == 0 && curoute::wgps(
            draft[0],
        ) + curoute::wgps(draft[1]) == curoute::wgps(draft[2]) + curoute::wgps(draft[3]),
{
}

/// A bench is shown as good only where it was correct.
pub proof fn bench_is_rated(b: BenchShown)
    ensures
        bench_page(Some(b))[2].spans[0].style.ink is Good <==> b.ok,
        bench_page(Some(b))[2].spans[0].style.ink is Bad <==> !b.ok,
        bench_page(Some(b)).len() == 6,
        bench_page(None).len() == 6,
{
}

/// A result of the health test is shown as good or bad as it was, one line each,
/// below a heading; without results there is nothing.
pub proof fn results_are_shown_in_turn(health: Seq<(String, bool)>, i: int)
    requires
        0 <= i < health.len(),
    ensures
        health_lines(health).len() == 1 + health.len(),
        health_lines(health)[i + 1].spans[0].text == "  "@ + health[i].0@,
        health_lines(health)[i + 1].spans[0].style.ink is Good <==> health[i].1,
        health_lines(seq![]).len() == 0,
{
}

} // verus!
