//! The page that details the patch series.
use vstd::prelude::*;

use crate::detect::State;
use crate::patches;
use crate::patches::{Patch, Tell};
use crate::text;
use crate::ui;
use crate::ui::{Ink, Line, LineView, Page};

verus! {

// ---------------------------------------------------------------------------
// Wrapping

/// Words wrapped into full lines and the line being filled.
pub struct Wrapped {
    pub out: Seq<Seq<char>>,
    pub line: Seq<char>,
}

/// One more word: on the line where it fits behind a space, else on a new one.
pub open spec fn wrap_step(w: Wrapped, word: Seq<char>, width: int) -> Wrapped {
    if w.line.len() == 0 {
        Wrapped { line: word, ..w }
    } else if w.line.len() + 1 + word.len() > width {
        Wrapped { out: w.out.push(w.line), line: word }
    } else {
        Wrapped { line: w.line + " "@ + word, ..w }
    }
}

/// Words wrapped to a width.
pub open spec fn wrap_all(words: Seq<Seq<char>>, width: int) -> Wrapped
    decreases words.len(),
{
    if words.len() == 0 {
        Wrapped { out: seq![], line: seq![] }
    } else {
        wrap_step(wrap_all(words.drop_last(), width), words.last(), width)
    }
}

/// The lines of a text wrapped to a width.
pub open spec fn wrapped_lines(s: Seq<char>, width: int) -> Seq<Seq<char>> {
    wrapped_of(wrap_all(text::words_of(s), width))
}

/// Wraps a text at its words. A word wider than the width has a line of its own.
pub fn wrap_words(s: &str, width: usize) -> (r: Vec<String>)
    ensures
        text::texts(r@) == wrapped_lines(s@, width as int),
{
    let words = text::words(s);
    let ghost all = text::words_of(s@);
    let mut out: Vec<String> = Vec::new();
    let mut line = String::new();
    let mut cols: usize = 0;
    let mut i: usize = 0;
    assert(text::texts(out@) =~= seq![]);
    assert(line@ =~= seq![]);
    while i < words.len()
        invariant
            i <= words@.len(),
            text::slices(words@) == all,
            all.len() == words@.len(),
            cols == line@.len(),
            ({
                let w = wrap_all(all.take(i as int), width as int);
                &&& text::texts(out@) == w.out
                &&& line@ == w.line
            }),
        decreases words@.len() - i,
    {
        assert(all.take(i + 1).drop_last() =~= all.take(i as int));
        let word: &str = words[i];
        assert(word@ == all[i as int]);
        let w: usize = word.unicode_len();
        if cols == 0 {
            line = word.to_owned();
        } else if cols >= width || w >= width - cols {
            proof {
                text::texts_push(out@, line);
            }
            out.push(line);
            line = word.to_owned();
        } else {
            line.append(" ");
            line.append(word);
        }
        cols = line.as_str().unicode_len();
        i += 1;
    }
    assert(all.take(i as int) =~= all);
    if cols > 0 {
        proof {
            text::texts_push(out@, line);
        }
        out.push(line);
    }
    out
}

/// A line within the width, or a word of its own.
pub open spec fn fits(line: Seq<char>, words: Seq<Seq<char>>, width: int) -> bool {
    line.len() <= width || words.contains(line)
}

proof fn wrap_fits(words: Seq<Seq<char>>, width: int)
    ensures
        fits(wrap_all(words, width).line, words, width) || words.len() == 0,
        forall|i: int|
            0 <= i < wrap_all(words, width).out.len() ==> fits(
                #[trigger] wrap_all(words, width).out[i],
                words,
                width,
            ),
    decreases words.len(),
{
    if words.len() > 0 {
        let before = words.drop_last();
        wrap_fits(before, width);
        let p = wrap_all(before, width);
        let w = wrap_all(words, width);
        assert(words[words.len() - 1] == words.last());
        assert(words.contains(words.last()));
        assert forall|l: Seq<char>| before.contains(l) implies words.contains(l) by {
            let k = choose|k: int| 0 <= k < before.len() && before[k] == l;
            assert(words[k] == l);
        }
        reveal_strlit(" ");
        assert forall|i: int| 0 <= i < w.out.len() implies fits(
            #[trigger] w.out[i],
            words,
            width,
        ) by {
            if i < p.out.len() {
                assert(fits(p.out[i], before, width));
            } else {
                assert(w.out[i] == p.line);
                assert(before.len() > 0);
            }
        }
    }
}

/// No wrapped line is wider than the width, unless it is a single word.
pub proof fn wrapping_keeps_the_width(s: Seq<char>, width: int)
    ensures
        forall|i: int|
            0 <= i < wrapped_lines(s, width).len() ==> fits(
                #[trigger] wrapped_lines(s, width)[i],
                text::words_of(s),
                width,
            ),
{
    wrap_fits(text::words_of(s), width);
    let w = wrap_all(text::words_of(s), width);
    let r = wrapped_lines(s, width);
    assert forall|i: int| 0 <= i < r.len() implies fits(
        #[trigger] r[i],
        text::words_of(s),
        width,
    ) by {
        if i < w.out.len() {
            assert(r[i] == w.out[i]);
        } else {
            assert(r[i] == w.line);
        }
    }
}

/// The lines that wrapped words make up.
pub open spec fn wrapped_of(w: Wrapped) -> Seq<Seq<char>> {
    if w.line.len() > 0 { w.out.push(w.line) } else { w.out }
}

proof fn wrap_keeps(words: Seq<Seq<char>>, width: int)
    requires
        forall|i: int| 0 <= i < words.len() ==> (#[trigger] words[i]).len() > 0,
    ensures
        text::joined(wrapped_of(wrap_all(words, width)), " "@) == text::joined(words, " "@),
        words.len() > 0 <==> wrap_all(words, width).line.len() > 0,
        words.len() == 0 ==> wrap_all(words, width).out.len() == 0,
    decreases words.len(),
{
    let w = wrap_all(words, width);
    if words.len() > 0 {
        let before = words.drop_last();
        let word = words.last();
        assert forall|i: int| 0 <= i < before.len() implies (#[trigger] before[i]).len() > 0 by {
            assert(before[i] == words[i]);
        }
        wrap_keeps(before, width);
        let v = wrap_all(before, width);
        let now = wrapped_of(w);
        if before.len() == 0 {
            assert(now =~= seq![word]);
        } else if v.line.len() + 1 + word.len() > width {
            assert(now.drop_last() =~= wrapped_of(v));
        } else {
            let was = wrapped_of(v);
            assert(now.drop_last() =~= v.out);
            assert(was.drop_last() =~= v.out);
            if v.out.len() > 0 {
                assert(text::joined(v.out, " "@) + " "@ + (v.line + " "@ + word) =~= (text::joined(
                    v.out,
                    " "@,
                ) + " "@ + v.line) + " "@ + word);
            }
        }
    }
}

/// Wrapping loses nothing and adds nothing: the lines in a row are the words in
/// a row.
pub proof fn wrapping_keeps_the_words(s: Seq<char>, width: int)
    ensures
        text::joined(wrapped_lines(s, width), " "@) == text::joined(text::words_of(s), " "@),
{
    text::words_are_not_empty(s);
    wrap_keeps(text::words_of(s), width);
}

// ---------------------------------------------------------------------------
// The page

/// The colour of a state.
pub open spec fn state_ink(s: State) -> Ink {
    match s {
        State::Present => Ink::Good,
        State::Inferred => Ink::Good,
        State::Absent => Ink::Bad,
        State::Unknown => Ink::Dim,
    }
}

/// What proves a patch, in words; `bundled` where nothing does.
pub open spec fn tell_text(tell: Tell, bundled: Seq<char>) -> Seq<char> {
    match tell {
        Tell::ModParam(n) => "module param amdgpu."@ + n@,
        Tell::Debugfs(n) => "debugfs node "@ + n@,
        Tell::SclkMax(m) => "pp_dpm_sclk >= "@ + text::dec(m as nat) + " MHz"@,
        Tell::CuCount(n) => ">= "@ + text::dec(n as nat) + " active CUs"@,
        Tell::Bundled => bundled,
    }
}

fn tell_words(tell: Tell, bundled: &str) -> (r: String)
    ensures
        r@ == tell_text(tell, bundled@),
{
    match tell {
        Tell::ModParam(n) => text::join2("module param amdgpu.", n),
        Tell::Debugfs(n) => text::join2("debugfs node ", n),
        Tell::SclkMax(m) => text::join3("pp_dpm_sclk >= ", text::decimal(m as u64).as_str(), " MHz"),
        Tell::CuCount(n) => text::join3(">= ", text::decimal(n as u64).as_str(), " active CUs"),
        Tell::Bundled => bundled.to_owned(),
    }
}

/// A line of dim text.
pub open spec fn dim_line(t: Seq<char>) -> LineView {
    ui::line(seq![ui::span(t, ui::plain(Ink::Dim))])
}

/// The lines of a description, indented.
pub open spec fn desc_lines(desc: Seq<char>) -> Seq<LineView> {
    wrapped_lines(desc, 64).map_values(|l: Seq<char>| dim_line("        "@ + l))
}

/// The lines about what a patch touches and what proves it, and the blank after
/// it.
pub open spec fn foot_lines(p: Patch, bundled: Seq<char>) -> Seq<LineView> {
    seq![
        ui::line(
            seq![
                ui::span("        touches: "@, ui::plain(Ink::Dim)),
                ui::span(p.touches@, ui::plain(Ink::Accent)),
            ],
        ),
        ui::line(
            seq![
                ui::span("        tell:    "@, ui::plain(Ink::Dim)),
                ui::span(tell_text(p.tell, bundled), ui::plain(Ink::Plain)),
            ],
        ),
        ui::line(seq![ui::span(""@, ui::plain(Ink::Plain))]),
    ]
}

/// The heading of a series member: its place, its state and its title.
pub open spec fn series_heading(p: Patch, s: State, i: int) -> LineView {
    ui::line(
        seq![
            ui::span(
                text::pad_left(text::dec((i + 1) as nat), ' ', 2) + ". "@,
                ui::plain(Ink::Dim),
            ),
            ui::span(" "@ + s.mark() + " "@, ui::bold(state_ink(s))),
            ui::span(
                if patches::is_optional(p.id@) { p.title@ + " (optional)"@ } else { p.title@ },
                ui::bold(Ink::Plain),
            ),
        ],
    )
}

/// The lines of a series member.
pub open spec fn series_block(p: Patch, s: State, i: int) -> Seq<LineView> {
    seq![series_heading(p, s, i)] + desc_lines(p.desc@) + foot_lines(
        p,
        "inferred (no unique tell)"@,
    )
}

/// The lines of a patch that is not applied.
pub open spec fn shelf_block(p: Patch) -> Seq<LineView> {
    seq![
        ui::line(
            seq![
                ui::span("  [od] "@, ui::plain(Ink::Dim)),
                ui::span(p.title@, ui::bold(Ink::Plain)),
            ],
        ),
    ] + desc_lines(p.desc@) + foot_lines(p, "none (superseded/shared)"@)
}

/// The lines above the series.
pub open spec fn intro_lines() -> Seq<LineView> {
    seq![
        dim_line(" The curated 24-patch amdgpu series arieltune embeds and builds into"@),
        dim_line(" the kernel (arieltune apu build). Each patch carries a runtime tell that"@),
        dim_line(" proves it is live on the booted kernel, checked when this opened."@),
        ui::line(seq![ui::span(""@, ui::plain(Ink::Plain))]),
    ]
}

/// The lines of the first `n` series members.
pub open spec fn series_lines(states: Seq<State>, n: nat) -> Seq<LineView>
    decreases n,
{
    if n == 0 {
        intro_lines()
    } else {
        series_lines(states, (n - 1) as nat) + series_block(
            patches::series_entry(n - 1),
            states[n - 1],
            n - 1,
        )
    }
}

/// The heading of the patches that are not applied.
pub open spec fn shelf_heading() -> Seq<LineView> {
    seq![
        ui::line(
            seq![
                ui::span(
                    " On disk, not applied (4) — tracked here so the full patchinventory is visible; `aputune build` does not apply them."@,
                    ui::bold(Ink::Accent),
                ),
            ],
        ),
        ui::line(seq![ui::span(""@, ui::plain(Ink::Plain))]),
    ]
}

/// The lines of the first `n` patches that are not applied, below `head`.
pub open spec fn shelf_lines(head: Seq<LineView>, n: nat) -> Seq<LineView>
    decreases n,
{
    if n == 0 {
        head + shelf_heading()
    } else {
        shelf_lines(head, (n - 1) as nat) + shelf_block(patches::shelf_entry(n - 1))
    }
}

/// How many series members have a state.
pub open spec fn shown_members(states: Seq<State>) -> nat {
    if states.len() < 24 { states.len() } else { 24 }
}

/// The whole page.
pub open spec fn popup_page(states: Seq<State>) -> Seq<LineView> {
    shelf_lines(series_lines(states, shown_members(states)), 4)
}

fn put_blank(page: &mut Page)
    ensures
        final(page)@ == old(page)@.push(
            ui::line(seq![ui::span(""@, ui::plain(Ink::Plain))]),
        ),
{
    page.put(Line::of(ui::tint("", Ink::Plain)));
}

fn put_dim(page: &mut Page, t: &str)
    ensures
        final(page)@ == old(page)@.push(dim_line(t@)),
{
    page.put(Line::of(ui::tint(t, Ink::Dim)));
}

fn put_body(page: &mut Page, p: &Patch, bundled: &str)
    ensures
        final(page)@ == old(page)@ + desc_lines(p.desc@) + foot_lines(*p, bundled@),
{
    let ghost before = page@;
    let ghost want = desc_lines(p.desc@);
    let lines = wrap_words(p.desc, 64);
    let ghost all = wrapped_lines(p.desc@, 64);
    let mut i: usize = 0;
    assert(lines@.len() == text::texts(lines@).len());
    assert(before + want.take(0) =~= before);
    while i < lines.len()
        invariant
            i <= lines@.len(),
            lines@.len() == all.len(),
            text::texts(lines@) == all,
            all == wrapped_lines(p.desc@, 64),
            want == desc_lines(p.desc@),
            page@ == before + want.take(i as int),
        decreases lines@.len() - i,
    {
        let ghost now = page@;
        assert(lines@[i as int]@ == all[i as int]);
        put_dim(page, text::join2("        ", lines[i].as_str()).as_str());
        proof {
            assert(want[i as int] == dim_line("        "@ + all[i as int]));
            assert(before + want.take(i + 1) =~= now.push(want[i as int]));
        }
        i += 1;
    }
    assert(want.take(i as int) =~= want);
    let ghost mid = page@;
    page.put(
        Line::two(ui::tint("        touches: ", Ink::Dim), ui::tint(p.touches, Ink::Accent)),
    );
    page.put(
        Line::two(
            ui::tint("        tell:    ", Ink::Dim),
            ui::tint(tell_words(p.tell, bundled).as_str(), Ink::Plain),
        ),
    );
    put_blank(page);
    assert(page@ =~= mid + foot_lines(*p, bundled@));
}

fn put_series_member(page: &mut Page, p: &Patch, s: State, i: usize)
    requires
        i < 24,
    ensures
        final(page)@ == old(page)@ + series_block(*p, s, i as int),
{
    let ghost before = page@;
    let mut place = text::padded_left(text::decimal((i + 1) as u64).as_str(), ' ', 2);
    place.append(". ");
    let ink: Ink = match s {
        State::Present => Ink::Good,
        State::Inferred => Ink::Good,
        State::Absent => Ink::Bad,
        State::Unknown => Ink::Dim,
    };
    let title: String = if patches::optional(p.id) {
        text::join2(p.title, " (optional)")
    } else {
        p.title.to_owned()
    };
    page.put(
        Line::three(
            ui::tint(place.as_str(), Ink::Dim),
            ui::tint_bold(text::join3(" ", s.glyph(), " ").as_str(), ink),
            ui::tint_bold(title.as_str(), Ink::Plain),
        ),
    );
    put_body(page, p, "inferred (no unique tell)");
    assert(page@ =~= before + series_block(*p, s, i as int));
}

fn put_shelf_member(page: &mut Page, p: &Patch)
    ensures
        final(page)@ == old(page)@ + shelf_block(*p),
{
    let ghost before = page@;
    page.put(
        Line::two(ui::tint("  [od] ", Ink::Dim), ui::tint_bold(p.title, Ink::Plain)),
    );
    put_body(page, p, "none (superseded/shared)");
    assert(page@ =~= before + shelf_block(*p));
}

/// The page about the series: an introduction, a block for each member with its
/// state, then the patches that ship without being applied.
pub fn patch_popup_lines(states: &Vec<State>) -> (r: Page)
    ensures
        r@ == popup_page(states@),
{
    let mut page = Page::new();
    put_dim(&mut page, " The curated 24-patch amdgpu series arieltune embeds and builds into");
    put_dim(
        &mut page,
        " the kernel (arieltune apu build). Each patch carries a runtime tell that",
    );
    put_dim(&mut page, " proves it is live on the booted kernel, checked when this opened.");
    put_blank(&mut page);
    assert(page@ =~= intro_lines());
    let all = patches::series();
    let n: usize = if states.len() < 24 {
        states.len()
    } else {
        24
    };
    let mut i: usize = 0;
    while i < n
        invariant
            i <= n <= 24,
            n <= states@.len(),
            all@ == Seq::new(24, |k: int| patches::series_entry(k)),
            page@ == series_lines(states@, i as nat),
        decreases n - i,
    {
        put_series_member(&mut page, &all[i], states[i], i);
        i += 1;
    }
    let ghost head = page@;
    page.put(
        Line::of(
            ui::tint_bold(
                " On disk, not applied (4) — tracked here so the full patchinventory is visible; `aputune build` does not apply them.",
                Ink::Accent,
            ),
        ),
    );
    put_blank(&mut page);
    assert(page@ =~= head + shelf_heading());
    let shelf = patches::on_disk();
    let mut k: usize = 0;
    while k < shelf.len()
        invariant
            k <= shelf@.len(),
            shelf@ == Seq::new(4, |j: int| patches::shelf_entry(j)),
            page@ == shelf_lines(head, k as nat),
        decreases shelf@.len() - k,
    {
        put_shelf_member(&mut page, &shelf[k]);
        k += 1;
    }
    page
}

/// The title of the page: how many members are live.
pub open spec fn popup_title(states: Seq<State>) -> Seq<char> {
    " liberation series — "@ + text::dec(states.filter(|s: State| s.live()).len())
        + "/24 live  [up/down scroll  esc close] "@
}

/// The title of the page.
pub fn title(states: &Vec<State>) -> (r: String)
    ensures
        r@ == popup_title(states@),
{
    let ghost keep = |s: State| s.live();
    let mut n: usize = 0;
    let mut i: usize = 0;
    assert(states@.take(0).filter(keep).len() == 0) by {
        reveal(Seq::filter);
    }
    while i < states.len()
        invariant
            i <= states@.len(),
            keep == (|s: State| s.live()),
            n <= i,
            n == states@.take(i as int).filter(keep).len(),
        decreases states@.len() - i,
    {
        let s: State = states[i];
        proof {
            assert(states@.take(i + 1) =~= states@.take(i as int).push(s));
            states@.take(i as int).lemma_filter_push(s, keep);
        }
        if s == State::Present || s == State::Inferred {
            n += 1;
        }
        i += 1;
    }
    assert(states@.take(i as int) =~= states@);
    text::join3(
        " liberation series — ",
        text::decimal(n as u64).as_str(),
        "/24 live  [up/down scroll  esc close] ",
    )
}

// ---------------------------------------------------------------------------
// Laws

/// A patch is shown as good exactly where it counts as live, and as bad exactly
/// where its trace is missing.
pub proof fn states_are_rated(s: State)
    ensures
        state_ink(s) is Good <==> s.live(),
        state_ink(s) is Bad <==> s is Absent,
{
}

/// The heading of a member has its place in the series, its mark and its title;
/// an optional one is called so.
pub proof fn heading_is_of_its_member(p: Patch, s: State, i: int)
    ensures
        series_heading(p, s, i).spans[0].text == text::pad_left(text::dec((i + 1) as nat), ' ', 2)
            + ". "@,
        series_heading(p, s, i).spans[1].text == " "@ + s.mark() + " "@,
        patches::is_optional(p.id@) ==> series_heading(p, s, i).spans[2].text == p.title@
            + " (optional)"@,
        !patches::is_optional(p.id@) ==> series_heading(p, s, i).spans[2].text == p.title@,
{
}

/// A member's block goes on with its description and ends with what it touches,
/// its trace and a blank line.
pub proof fn block_tells_of_its_member(p: Patch, s: State, i: int)
    ensures
        ({
            let v = series_block(p, s, i);
            let n = wrapped_lines(p.desc@, 64).len() as int;
            &&& v.len() == n + 4
            &&& v[0] == series_heading(p, s, i)
            &&& v[n + 1].spans[1].text == p.touches@
            &&& v[n + 2].spans[1].text == tell_text(p.tell, "inferred (no unique tell)"@)
        }),
        shelf_block(p).len() == wrapped_lines(p.desc@, 64).len() + 4,
        shelf_block(p)[0].spans[1].text == p.title@,
{
}

/// The page shows a block for every state that is known, no more than the series
/// has, and then one for each patch on the shelf.
pub proof fn members_are_shown_in_turn(states: Seq<State>, head: Seq<LineView>, n: nat)
    ensures
        series_lines(states, n + 1) == series_lines(states, n) + series_block(
            patches::series_entry(n as int),
            states[n as int],
            n as int,
        ),
        shelf_lines(head, n + 1) == shelf_lines(head, n) + shelf_block(patches::shelf_entry(n as int)),
        shown_members(states) <= 24,
        states.len() <= 24 ==> shown_members(states) == states.len(),
        states.len() > 24 ==> shown_members(states) == 24,
{
}

} // verus!
