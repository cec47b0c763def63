//! The manual as structured records.
//!
//! Every section of the manual becomes a record: its tagline, its prose, its
//! labelled boxes as rows of cells, and its cross references. Drawings with
//! boxes side by side stay in the prose as they are.
use vstd::prelude::*;

use crate::manual_book;
use crate::manual_book::{Chapter, ChapterView};
use crate::text;

verus! {

/// One labelled box.
#[derive(Debug, PartialEq)]
pub struct Block {
    /// The label in the top border, possibly empty.
    pub label: String,
    /// `grid` where the columns are drawn, else `list`.
    pub kind: String,
    /// Rows of cells.
    pub rows: Vec<Vec<String>>,
    /// The lines inside the borders.
    pub text: String,
}

/// One section.
#[derive(Debug, PartialEq)]
pub struct Section {
    pub id: String,
    pub chapter: String,
    pub chapter_num: Option<u32>,
    pub title: String,
    pub tagline: String,
    pub prose: String,
    pub blocks: Vec<Block>,
    pub cross_refs: Vec<String>,
}

/// A box with its texts as characters.
pub struct BlockView {
    pub label: Seq<char>,
    pub kind: Seq<char>,
    pub rows: Seq<Seq<Seq<char>>>,
    pub text: Seq<char>,
}

/// A section with its texts as characters.
pub struct RecordView {
    pub id: Seq<char>,
    pub chapter: Seq<char>,
    pub chapter_num: Option<u32>,
    pub title: Seq<char>,
    pub tagline: Seq<char>,
    pub prose: Seq<char>,
    pub blocks: Seq<BlockView>,
    pub cross_refs: Seq<Seq<char>>,
}

/// The views of rows of cells.
pub open spec fn row_views(v: Seq<Vec<String>>) -> Seq<Seq<Seq<char>>> {
    Seq::new(v.len(), |i: int| text::texts(v[i]@))
}

impl View for Block {
    type V = BlockView;

    open spec fn view(&self) -> BlockView {
        BlockView {
            label: self.label@,
            kind: self.kind@,
            rows: row_views(self.rows@),
            text: self.text@,
        }
    }
}

/// The views of a list of boxes.
pub open spec fn block_views(v: Seq<Block>) -> Seq<BlockView> {
    Seq::new(v.len(), |i: int| v[i]@)
}

impl View for Section {
    type V = RecordView;

    open spec fn view(&self) -> RecordView {
        RecordView {
            id: self.id@,
            chapter: self.chapter@,
            chapter_num: self.chapter_num,
            title: self.title@,
            tagline: self.tagline@,
            prose: self.prose@,
            blocks: block_views(self.blocks@),
            cross_refs: text::texts(self.cross_refs@),
        }
    }
}

/// The views of a list of sections.
pub open spec fn record_views(v: Seq<Section>) -> Seq<RecordView> {
    Seq::new(v.len(), |i: int| v[i]@)
}

// ---------------------------------------------------------------------------
// Lines of a box

/// A character that draws boxes, or a space.
pub open spec fn is_box_char(c: char) -> bool {
    c == '─' || c == '│' || c == '┌' || c == '┐' || c == '└' || c == '┘' || c == '├' || c == '┤'
        || c == '┬' || c == '┴' || c == '┼' || c == '╪' || c == '═' || c == '╔' || c == '╗' || c
        == '╚' || c == '╝' || c == '╠' || c == '╣' || c == '╦' || c == '╩' || c == ' '
}

/// The text is nothing but box drawing.
pub open spec fn only_box_chars(s: Seq<char>) -> bool {
    forall|i: int| 0 <= i < s.len() ==> is_box_char(#[trigger] s[i])
}

fn all_box_chars(s: &str) -> (r: bool)
    ensures
        r == only_box_chars(s@),
{
    let x = text::chars_of(s);
    let mut i: usize = 0;
    while i < x.len()
        invariant
            x@ == s@,
            i <= x@.len(),
            forall|j: int| 0 <= j < i ==> is_box_char(#[trigger] x@[j]),
        decreases x@.len() - i,
    {
        let c: char = x[i];
        if !(c == '─' || c == '│' || c == '┌' || c == '┐' || c == '└' || c == '┘' || c == '├' || c
            == '┤' || c == '┬' || c == '┴' || c == '┼' || c == '╪' || c == '═' || c == '╔' || c
            == '╗' || c == '╚' || c == '╝' || c == '╠' || c == '╣' || c == '╦' || c == '╩' || c
            == ' ') {
            assert(!is_box_char(s@[i as int]));
            return false;
        }
        i += 1;
    }
    true
}

/// A line without the bars around it.
pub open spec fn inside_bars(line: Seq<char>) -> Seq<char> {
    text::strip_all_back(text::strip_all_front(text::trimmed(line), "│"@), "│"@)
}

fn within_bars(line: &str) -> (r: &str)
    ensures
        r@ == inside_bars(line@),
{
    text::trim_end_matches(text::trim_start_matches(text::trim(line), "│"), "│")
}

/// A line that carries nothing: blank or nothing but box drawing.
pub open spec fn is_rule(inner: Seq<char>) -> bool {
    text::trimmed(inner).len() == 0 || only_box_chars(inner)
}

/// The text of a box line, unless it carries nothing.
pub open spec fn line_text(line: Seq<char>) -> Option<Seq<char>> {
    let inner = inside_bars(line);
    if is_rule(inner) { None } else { Some(text::trimmed(inner)) }
}

/// The text of a box line, unless it carries nothing.
pub fn strip_borders(line: &str) -> (r: Option<String>)
    ensures
        match r {
            Some(t) => line_text(line@) == Some(t@),
            None => line_text(line@) is None,
        },
{
    let inner: &str = within_bars(line);
    if text::trim(inner).is_empty() || all_box_chars(inner) {
        None
    } else {
        Some(text::trim(inner).to_owned())
    }
}

/// A line taken apart at gaps, up to some character.
pub struct GapScan {
    pub out: Seq<Seq<char>>,
    pub cur: Seq<char>,
    pub spaces: nat,
}

/// One more character: two spaces or more end a field that holds anything, one
/// space belongs to it.
pub open spec fn gap_step(g: GapScan, c: char) -> GapScan {
    if c == ' ' {
        GapScan { spaces: g.spaces + 1, ..g }
    } else if g.spaces >= 2 && text::trimmed(g.cur).len() > 0 {
        GapScan { out: g.out.push(text::trimmed(g.cur)), cur: seq![c], spaces: 0 }
    } else if g.spaces > 0 && g.cur.len() > 0 {
        GapScan { cur: g.cur.push(' ').push(c), spaces: 0, ..g }
    } else {
        GapScan { cur: g.cur.push(c), spaces: 0, ..g }
    }
}

/// The scan of a line.
pub open spec fn gap_scan(s: Seq<char>) -> GapScan
    decreases s.len(),
{
    if s.len() == 0 {
        GapScan { out: seq![], cur: seq![], spaces: 0 }
    } else {
        gap_step(gap_scan(s.drop_last()), s.last())
    }
}

/// The fields of a line, cut at runs of two spaces or more.
pub open spec fn gap_fields(s: Seq<char>) -> Seq<Seq<char>> {
    let g = gap_scan(s);
    if text::trimmed(g.cur).len() > 0 { g.out.push(text::trimmed(g.cur)) } else { g.out }
}

/// Cuts a line at runs of two spaces or more.
pub fn split_on_gaps(s: &str) -> (r: Vec<String>)
    ensures
        text::texts(r@) == gap_fields(s@),
{
    let x = text::chars_of(s);
    let mut out: Vec<String> = Vec::new();
    let mut cur = String::new();
    let mut spaces: u64 = 0;
    let mut i: usize = 0;
    assert(text::texts(out@) =~= seq![]);
    assert(cur@ =~= seq![]);
    while i < x.len()
        invariant
            x@ == s@,
            i <= x@.len(),
            spaces <= i,
            ({
                let g = gap_scan(s@.take(i as int));
                &&& text::texts(out@) == g.out
                &&& cur@ == g.cur
                &&& spaces == g.spaces
            }),
        decreases x@.len() - i,
    {
        let c: char = x[i];
        proof {
            assert(s@.take(i + 1).drop_last() =~= s@.take(i as int));
        }
        if c == ' ' {
            spaces += 1;
        } else {
            let ghost was = cur@;
            let field: &str = text::trim(cur.as_str());
            if spaces >= 2 && !field.is_empty() {
                let f = field.to_owned();
                proof {
                    text::texts_push(out@, f);
                }
                out.push(f);
                cur = String::new();
                cur.push(c);
                assert(cur@ =~= seq![c]);
            } else {
                if spaces > 0 && !cur.as_str().is_empty() {
                    cur.push(' ');
                }
                cur.push(c);
            }
            spaces = 0;
        }
        i += 1;
    }
    assert(s@.take(i as int) =~= s@);
    let last: &str = text::trim(cur.as_str());
    if !last.is_empty() {
        let f = last.to_owned();
        proof {
            text::texts_push(out@, f);
        }
        out.push(f);
    }
    out
}

/// The texts that are not empty.
pub open spec fn filled(v: Seq<Seq<char>>) -> Seq<Seq<char>>
    decreases v.len(),
{
    if v.len() == 0 {
        seq![]
    } else if v.last().len() == 0 {
        filled(v.drop_last())
    } else {
        filled(v.drop_last()).push(v.last())
    }
}

/// Each text without the white space around it.
pub open spec fn each_trimmed(v: Seq<Seq<char>>) -> Seq<Seq<char>> {
    v.map_values(|s: Seq<char>| text::trimmed(s))
}

/// The cells of a box line, unless it carries none: cut at the bars in a grid,
/// at gaps otherwise.
pub open spec fn row_cells(line: Seq<char>, grid: bool) -> Option<Seq<Seq<char>>> {
    let inner = inside_bars(line);
    let cells = filled(
        if grid {
            each_trimmed(text::pieces(inner, '│'))
        } else {
            gap_fields(inner)
        },
    );
    if is_rule(inner) || cells.len() == 0 { None } else { Some(cells) }
}

/// Keeps the pieces that are not blank, without the white space around them.
fn trim_and_fill(pieces: &Vec<&str>) -> (r: Vec<String>)
    ensures
        text::texts(r@) == filled(each_trimmed(text::slices(pieces@))),
{
    let ghost all = each_trimmed(text::slices(pieces@));
    let mut r: Vec<String> = Vec::new();
    let mut i: usize = 0;
    assert(text::texts(r@) =~= filled(all.take(0)));
    while i < pieces.len()
        invariant
            i <= pieces@.len(),
            all == each_trimmed(text::slices(pieces@)),
            text::texts(r@) == filled(all.take(i as int)),
        decreases pieces@.len() - i,
    {
        assert(all.take(i + 1).drop_last() =~= all.take(i as int));
        let t: &str = text::trim(pieces[i]);
        assert(t@ == all[i as int]);
        if !t.is_empty() {
            let f = t.to_owned();
            proof {
                text::texts_push(r@, f);
            }
            r.push(f);
        }
        i += 1;
    }
    assert(all.take(i as int) =~= all);
    r
}

/// The fields that a line is cut into at gaps are never empty.
proof fn gap_fields_are_filled(s: Seq<char>)
    ensures
        filled(gap_fields(s)) == gap_fields(s),
{
    gap_scan_is_filled(s);
    let g = gap_scan(s);
    filled_is_identity(gap_fields(s));
}

proof fn gap_scan_is_filled(s: Seq<char>)
    ensures
        forall|i: int| 0 <= i < gap_scan(s).out.len() ==> (#[trigger] gap_scan(s).out[i]).len() > 0,
    decreases s.len(),
{
    if s.len() > 0 {
        gap_scan_is_filled(s.drop_last());
        let p = gap_scan(s.drop_last());
        assert forall|i: int| 0 <= i < gap_scan(s).out.len() implies (
        #[trigger] gap_scan(s).out[i]).len() > 0 by {
            if i < p.out.len() {
                assert(p.out[i].len() > 0);
            }
        }
    }
}

proof fn filled_is_identity(v: Seq<Seq<char>>)
    requires
        forall|i: int| 0 <= i < v.len() ==> (#[trigger] v[i]).len() > 0,
    ensures
        filled(v) == v,
    decreases v.len(),
{
    if v.len() > 0 {
        filled_is_identity(v.drop_last());
        assert(v =~= v.drop_last().push(v.last()));
    } else {
        assert(v =~= seq![]);
    }
}

/// Cuts a box line into cells, unless it carries none.
pub fn split_row(line: &str, grid: bool) -> (r: Option<Vec<String>>)
    ensures
        match r {
            Some(cells) => row_cells(line@, grid) == Some(text::texts(cells@)),
            None => row_cells(line@, grid) is None,
        },
{
    let inner: &str = within_bars(line);
    if text::trim(inner).is_empty() || all_box_chars(inner) {
        return None;
    }
    let cells: Vec<String> = if grid {
        trim_and_fill(&text::split_on(inner, '│'))
    } else {
        proof {
            gap_fields_are_filled(inner@);
        }
        split_on_gaps(inner)
    };
    assert(text::texts(cells@).len() == cells@.len());
    if cells.len() == 0 {
        None
    } else {
        Some(cells)
    }
}

/// A text without the dashes and spaces in front.
pub open spec fn undash_front(s: Seq<char>) -> Seq<char>
    decreases s.len(),
{
    if s.len() > 0 && (s[0] == '─' || s[0] == ' ') { undash_front(s.drop_first()) } else { s }
}

/// A text without the dashes and spaces at the end.
pub open spec fn undash_back(s: Seq<char>) -> Seq<char>
    decreases s.len(),
{
    if s.len() > 0 && (s.last() == '─' || s.last() == ' ') { undash_back(s.drop_last()) } else { s }
}

fn trim_dashes(s: &str) -> (r: &str)
    ensures
        r@ == undash_back(undash_front(s@)),
{
    let x = text::chars_of(s);
    let n: usize = x.len();
    let mut i: usize = 0;
    assert(text::after(s@, 0) =~= s@);
    while i < n && (x[i] == '─' || x[i] == ' ')
        invariant
            x@ == s@,
            n == x@.len(),
            i <= n,
            undash_front(text::after(s@, i as int)) == undash_front(s@),
        decreases n - i,
    {
        assert(text::after(s@, i as int).drop_first() =~= text::after(s@, i + 1));
        i += 1;
    }
    let ghost front = undash_front(s@);
    assert(front == text::after(s@, i as int));
    let mut j: usize = n;
    assert(s@.subrange(i as int, n as int) =~= front);
    while j > i && (x[j - 1] == '─' || x[j - 1] == ' ')
        invariant
            x@ == s@,
            n == x@.len(),
            i <= j <= n,
            undash_back(s@.subrange(i as int, j as int)) == undash_back(front),
        decreases j - i,
    {
        assert(s@.subrange(i as int, j as int).drop_last() =~= s@.subrange(i as int, j - 1));
        j -= 1;
    }
    s.substring_char(i, j)
}

/// The label in a box's top border.
pub open spec fn label_of(top: Seq<char>) -> Seq<char> {
    undash_back(
        undash_front(text::strip_all_back(text::strip_all_front(top, "┌"@), "┐"@)),
    )
}

/// The label in a box's top border.
pub fn box_label(top: &str) -> (r: String)
    ensures
        r@ == label_of(top@),
{
    trim_dashes(text::trim_end_matches(text::trim_start_matches(top, "┌"), "┐")).to_owned()
}

/// The tagline of a header rule: what follows its first segment.
pub open spec fn tagline_of(rule: Seq<char>) -> Seq<char> {
    let segs = filled(
        each_trimmed(text::pieces(undash_back(undash_front(rule)), '─')),
    );
    if segs.len() <= 1 { seq![] } else { text::joined(segs.drop_first(), " "@) }
}

/// The tagline of a header rule.
pub fn header_tagline(rule: &str) -> (r: String)
    ensures
        r@ == tagline_of(rule@),
{
    let mut segs = trim_and_fill(&text::split_on(trim_dashes(rule), '─'));
    let ghost all = text::texts(segs@);
    assert(all.len() == segs@.len());
    if segs.len() <= 1 {
        return String::new();
    }
    let ghost before = segs@;
    let _ = segs.remove(0);
    assert(text::texts(segs@) =~= all.drop_first());
    text::join(&segs, " ")
}

// ---------------------------------------------------------------------------
// Boxes

/// The line ends a box.
pub open spec fn is_bottom(line: Seq<char>) -> bool {
    text::begins(text::trimmed(line), "└"@)
}

/// The line holds a join of columns.
pub open spec fn has_join(line: Seq<char>) -> bool {
    text::occurs(line, "┬"@) || text::occurs(line, "┼"@) || text::occurs(line, "┴"@)
}

/// A join of columns stands before the box's end, from line `i` on.
pub open spec fn grid_from(lines: Seq<Seq<char>>, i: int) -> bool
    decreases lines.len() - i,
{
    if i < 0 || i >= lines.len() || is_bottom(lines[i]) {
        false
    } else {
        has_join(lines[i]) || grid_from(lines, i + 1)
    }
}

/// The contents of a box from line `i` on.
pub struct BoxBody {
    pub rows: Seq<Seq<Seq<char>>>,
    pub text: Seq<Seq<char>>,
    /// The line after the box.
    pub next: int,
}

/// Reads a box from line `i` on: only lines between bars carry anything; the
/// bottom border ends it.
pub open spec fn box_body(lines: Seq<Seq<char>>, i: int, grid: bool) -> BoxBody
    decreases lines.len() - i,
{
    if i < 0 || i >= lines.len() {
        BoxBody { rows: seq![], text: seq![], next: i }
    } else if is_bottom(lines[i]) {
        BoxBody { rows: seq![], text: seq![], next: i + 1 }
    } else {
        let rest = box_body(lines, i + 1, grid);
        let t = text::trimmed(lines[i]);
        if text::begins(t, "│"@) {
            BoxBody {
                rows: match row_cells(t, grid) {
                    Some(cells) => seq![cells] + rest.rows,
                    None => rest.rows,
                },
                text: match line_text(t) {
                    Some(s) => seq![s] + rest.text,
                    None => rest.text,
                },
                next: rest.next,
            }
        } else {
            rest
        }
    }
}

/// The box whose top border is line `start`.
pub open spec fn box_at(lines: Seq<Seq<char>>, start: int) -> BlockView {
    let grid = grid_from(lines, start);
    let body = box_body(lines, start + 1, grid);
    BlockView {
        label: label_of(text::trimmed(lines[start])),
        kind: if grid { "grid"@ } else { "list"@ },
        rows: body.rows,
        text: text::joined(body.text, "\n"@),
    }
}

fn contains_char_join(line: &str) -> (r: bool)
    ensures
        r == has_join(line@),
{
    text::contains(line, "┬") || text::contains(line, "┼") || text::contains(line, "┴")
}

fn is_grid(lines: &Vec<&str>, start: usize) -> (r: bool)
    requires
        start <= lines@.len(),
    ensures
        r == grid_from(text::slices(lines@), start as int),
{
    let ghost all = text::slices(lines@);
    let mut i: usize = start;
    while i < lines.len()
        invariant
            start <= i <= lines@.len(),
            all == text::slices(lines@),
            grid_from(all, i as int) == grid_from(all, start as int),
        decreases lines@.len() - i,
    {
        assert(all[i as int] == lines@[i as int]@);
        if text::starts_with(text::trim(lines[i]), "└") {
            return false;
        }
        if contains_char_join(lines[i]) {
            return true;
        }
        i += 1;
    }
    false
}

/// Reads the box whose top border is line `start`: the box and the line after it.
pub fn parse_box(lines: &Vec<&str>, start: usize) -> (r: (Block, usize))
    requires
        start < lines@.len(),
    ensures
        r.0@ == box_at(text::slices(lines@), start as int),
        r.1 == box_body(
            text::slices(lines@),
            start + 1,
            grid_from(text::slices(lines@), start as int),
        ).next,
        start < r.1 <= lines@.len(),
{
    let ghost all = text::slices(lines@);
    let n: usize = lines.len();
    let label = box_label(text::trim(lines[start]));
    assert(all[start as int] == lines@[start as int]@);
    let grid: bool = is_grid(lines, start);
    let ghost whole = box_body(all, start + 1, grid);
    let mut rows: Vec<Vec<String>> = Vec::new();
    let mut kept: Vec<String> = Vec::new();
    let mut i: usize = start + 1;
    let mut open: bool = true;
    assert(row_views(rows@) + whole.rows =~= whole.rows);
    assert(text::texts(kept@) + whole.text =~= whole.text);
    while open && i < n
        invariant
            start < i <= lines@.len(),
            n == lines@.len(),
            all == text::slices(lines@),
            whole == box_body(all, start + 1, grid),
            open ==> row_views(rows@) + box_body(all, i as int, grid).rows == whole.rows,
            open ==> text::texts(kept@) + box_body(all, i as int, grid).text == whole.text,
            open ==> box_body(all, i as int, grid).next == whole.next,
            !open ==> row_views(rows@) == whole.rows,
            !open ==> text::texts(kept@) == whole.text,
            !open ==> i == whole.next,
        decreases lines@.len() - i,
    {
        let t: &str = text::trim(lines[i]);
        assert(all[i as int] == lines@[i as int]@);
        let ghost here = box_body(all, i as int, grid);
        let ghost rest = box_body(all, i + 1, grid);
        let ghost rows0 = row_views(rows@);
        let ghost kept0 = text::texts(kept@);
        if text::starts_with(t, "└") {
            open = false;
            assert(rows0 + seq![] =~= rows0);
            assert(kept0 + seq![] =~= kept0);
        } else if text::starts_with(t, "│") {
            match strip_borders(t) {
                Some(s) => {
                    proof {
                        text::texts_push(kept@, s);
                        assert(kept0 + (seq![s@] + rest.text) =~= kept0.push(s@) + rest.text);
                    }
                    kept.push(s);
                },
                None => {},
            }
            match split_row(t, grid) {
                Some(cells) => {
                    let ghost before = rows@;
                    rows.push(cells);
                    proof {
                        let v = text::texts(cells@);
                        assert(row_views(rows@) =~= rows0.push(v));
                        assert(rows0 + (seq![v] + rest.rows) =~= rows0.push(v) + rest.rows);
                    }
                },
                None => {},
            }
        }
        i += 1;
    }
    proof {
        if open {
            assert(row_views(rows@) + seq![] =~= row_views(rows@));
            assert(text::texts(kept@) + seq![] =~= text::texts(kept@));
        }
    }
    let kind = if grid {
        "grid".to_owned()
    } else {
        "list".to_owned()
    };
    (Block { label, kind, rows, text: text::join(&kept, "\n") }, i)
}

// ---------------------------------------------------------------------------
// Section bodies

/// Number of times a character stands in a text.
pub open spec fn count_of(s: Seq<char>, c: char) -> nat
    decreases s.len(),
{
    if s.len() == 0 {
        0
    } else {
        count_of(s.drop_last(), c) + (if s.last() == c { 1nat } else { 0nat })
    }
}

fn count_char(s: &str, c: char) -> (r: usize)
    ensures
        r == count_of(s@, c),
{
    let x = text::chars_of(s);
    let mut n: usize = 0;
    let mut i: usize = 0;
    while i < x.len()
        invariant
            x@ == s@,
            i <= x@.len(),
            n <= i,
            n == count_of(s@.take(i as int), c),
        decreases x@.len() - i,
    {
        assert(s@.take(i + 1).drop_last() =~= s@.take(i as int));
        if x[i] == c {
            n += 1;
        }
        i += 1;
    }
    assert(s@.take(i as int) =~= s@);
    n
}

/// The line opens a box of its own: one opening corner, one box.
pub open spec fn opens_box(t: Seq<char>) -> bool {
    text::begins(t, "┌"@) && text::ends(t, "┐"@) && count_of(t, '┌') == 1
}

/// The line fences a block.
pub open spec fn fences(t: Seq<char>) -> bool {
    text::begins(t, "```"@) || text::begins(t, "~~~"@)
}

/// The cross references of a line behind its mark.
pub open spec fn refs_of(rest: Seq<char>) -> Seq<Seq<char>> {
    filled(each_trimmed(text::pieces(rest, '—')))
}

/// What a section body holds from some line on.
pub struct BodyView {
    pub tagline: Seq<char>,
    pub prose: Seq<Seq<char>>,
    pub blocks: Seq<BlockView>,
    pub refs: Seq<Seq<char>>,
}

/// Reads a section body from line `i` on. The tagline is that of the first
/// header rule that has one.
pub open spec fn body_from(lines: Seq<Seq<char>>, i: int) -> BodyView
    decreases lines.len() - i,
    when 0 <= i
{
    if i >= lines.len() {
        BodyView { tagline: seq![], prose: seq![], blocks: seq![], refs: seq![] }
    } else {
        let t = text::trimmed(lines[i]);
        if fences(t) {
            body_from(lines, i + 1)
        } else if text::begins(t, "── "@) {
            let rest = body_from(lines, i + 1);
            if tagline_of(t).len() > 0 { BodyView { tagline: tagline_of(t), ..rest } } else { rest }
        } else if text::begins(t, "See:"@) {
            let rest = body_from(lines, i + 1);
            BodyView { refs: refs_of(text::after(t, 4)) + rest.refs, ..rest }
        } else if opens_box(t) {
            let next = box_body(lines, i + 1, grid_from(lines, i)).next;
            if i < next <= lines.len() {
                let rest = body_from(lines, next);
                BodyView { blocks: seq![box_at(lines, i)] + rest.blocks, ..rest }
            } else {
                BodyView { tagline: seq![], prose: seq![], blocks: seq![], refs: seq![] }
            }
        } else {
            let rest = body_from(lines, i + 1);
            BodyView { prose: seq![t] + rest.prose, ..rest }
        }
    }
}

/// Lines with runs of blank ones made one and none at the front.
pub open spec fn squeezed(lines: Seq<Seq<char>>) -> Seq<Seq<char>>
    decreases lines.len(),
{
    if lines.len() == 0 {
        seq![]
    } else {
        let before = squeezed(lines.drop_last());
        if lines.last().len() > 0 {
            before.push(lines.last())
        } else if before.len() > 0 && before.last().len() > 0 {
            before.push(seq![])
        } else {
            before
        }
    }
}

/// Lines with runs of blank ones made one and none at either end.
pub open spec fn tidy(lines: Seq<Seq<char>>) -> Seq<Seq<char>> {
    let s = squeezed(lines);
    if s.len() > 0 && s.last().len() == 0 { s.drop_last() } else { s }
}

/// Lines as one text, with runs of blank ones made one and none at either end.
pub open spec fn collapsed(lines: Seq<Seq<char>>) -> Seq<char> {
    text::joined(tidy(lines), "\n"@)
}

proof fn squeezed_has_single_blanks(lines: Seq<Seq<char>>)
    ensures
        squeezed(lines).len() > 0 ==> squeezed(lines)[0].len() > 0,
        forall|i: int|
            0 < i < squeezed(lines).len() && (#[trigger] squeezed(lines)[i]).len() == 0
                ==> squeezed(lines)[i - 1].len() > 0,
    decreases lines.len(),
{
    if lines.len() > 0 {
        squeezed_has_single_blanks(lines.drop_last());
        let p = squeezed(lines.drop_last());
        let s = squeezed(lines);
        assert forall|i: int| 0 < i < s.len() && (#[trigger] s[i]).len() == 0 implies s[i
            - 1].len() > 0 by {
            if i < p.len() {
                assert(p[i].len() == 0);
            }
        }
    }
}

/// Prose neither begins nor ends with a blank line, and has no two in a row.
pub proof fn prose_has_no_blank_runs(lines: Seq<Seq<char>>)
    ensures
        tidy(lines).len() > 0 ==> tidy(lines)[0].len() > 0 && tidy(lines).last().len() > 0,
        forall|i: int|
            0 < i < tidy(lines).len() && (#[trigger] tidy(lines)[i]).len() == 0 ==> tidy(lines)[i
                - 1].len() > 0,
{
    squeezed_has_single_blanks(lines);
    let s = squeezed(lines);
    let t = tidy(lines);
    if s.len() > 0 && s.last().len() == 0 {
        assert(s[s.len() - 1].len() == 0);
        assert forall|i: int| 0 < i < t.len() && (#[trigger] t[i]).len() == 0 implies t[i
            - 1].len() > 0 by {
            assert(s[i].len() == 0);
        }
    }
}

/// Lines as one text, with runs of blank ones made one and none at either end.
pub fn collapse_blanks(lines: &Vec<String>) -> (r: String)
    ensures
        r@ == collapsed(text::texts(lines@)),
{
    let ghost all = text::texts(lines@);
    let mut out: Vec<String> = Vec::new();
    let mut i: usize = 0;
    assert(text::texts(out@) =~= squeezed(all.take(0)));
    while i < lines.len()
        invariant
            i <= lines@.len(),
            all == text::texts(lines@),
            text::texts(out@) == squeezed(all.take(i as int)),
        decreases lines@.len() - i,
    {
        assert(all.take(i + 1).drop_last() =~= all.take(i as int));
        let ghost before = text::texts(out@);
        let n: usize = out.len();
        assert(before.len() == n);
        if !lines[i].as_str().is_empty() {
            let l = lines[i].clone();
            proof {
                text::texts_push(out@, l);
            }
            out.push(l);
        } else {
            assert(n > 0 ==> before.last() == out@[n - 1]@);
            if n > 0 && !out[n - 1].as_str().is_empty() {
                let l = String::new();
                proof {
                    text::texts_push(out@, l);
                }
                out.push(l);
            }
        }
        i += 1;
    }
    assert(all.take(i as int) =~= all);
    let n: usize = out.len();
    let ghost s = text::texts(out@);
    assert(s.len() == n);
    if n > 0 {
        assert(s.last() == out@[n - 1]@);
        if out[n - 1].as_str().is_empty() {
            let _ = out.pop();
            assert(text::texts(out@) =~= s.drop_last());
        }
    }
    text::join(&out, "\n")
}

/// A section body taken apart.
#[derive(Debug)]
pub struct Parsed {
    pub tagline: String,
    pub prose: String,
    pub blocks: Vec<Block>,
    pub cross_refs: Vec<String>,
}

/// The first of two taglines that is there.
spec fn first_tagline(a: Seq<char>, b: Seq<char>) -> Seq<char> {
    if a.len() > 0 { a } else { b }
}

/// Takes a section body apart.
pub fn parse_body(body: &str) -> (r: Parsed)
    ensures
        ({
            let v = body_from(text::lines_of(body@), 0);
            &&& r.tagline@ == v.tagline
            &&& r.prose@ == collapsed(v.prose)
            &&& block_views(r.blocks@) == v.blocks
            &&& text::texts(r.cross_refs@) == v.refs
        }),
{
    let lines = text::lines(body);
    let ghost all = text::lines_of(body@);
    let ghost whole = body_from(all, 0);
    let mut tagline = String::new();
    let mut prose: Vec<String> = Vec::new();
    let mut blocks: Vec<Block> = Vec::new();
    let mut cross_refs: Vec<String> = Vec::new();
    let mut i: usize = 0;
    proof {
        reveal_strlit("See:");
        assert(text::texts(prose@) + whole.prose =~= whole.prose);
        assert(block_views(blocks@) + whole.blocks =~= whole.blocks);
        assert(text::texts(cross_refs@) + whole.refs =~= whole.refs);
    }
    while i < lines.len()
        invariant
            i <= lines@.len(),
            text::slices(lines@) == all,
            all.len() == lines@.len(),
            "See:"@.len() == 4,
            ({
                let rest = body_from(all, i as int);
                &&& first_tagline(tagline@, rest.tagline) == whole.tagline
                &&& text::texts(prose@) + rest.prose == whole.prose
                &&& block_views(blocks@) + rest.blocks == whole.blocks
                &&& text::texts(cross_refs@) + rest.refs == whole.refs
            }),
        decreases lines@.len() - i,
    {
        let t: &str = text::trim(lines[i]);
        assert(all[i as int] == lines@[i as int]@);
        let ghost here = body_from(all, i as int);
        let ghost rest = body_from(all, i + 1);
        if text::starts_with(t, "```") || text::starts_with(t, "~~~") {
            i += 1;
        } else if text::starts_with(t, "── ") {
            if tagline.as_str().is_empty() {
                tagline = header_tagline(t);
            }
            i += 1;
        } else if text::starts_with(t, "See:") {
            let n: usize = t.unicode_len();
            let found = trim_and_fill(&text::split_on(t.substring_char(4, n), '—'));
            let ghost before = text::texts(cross_refs@);
            let ghost refs = text::texts(found@);
            append_texts(&mut cross_refs, found);
            assert(before + (refs + rest.refs) =~= (before + refs) + rest.refs);
            i += 1;
        } else if text::starts_with(t, "┌") && text::ends_with(t, "┐") && count_char(t, '┌') == 1 {
            let (block, next) = parse_box(&lines, i);
            let ghost before = block_views(blocks@);
            let ghost after = body_from(all, next as int);
            blocks.push(block);
            proof {
                assert(block_views(blocks@) =~= before.push(block@));
                assert(before + (seq![block@] + after.blocks) =~= before.push(block@)
                    + after.blocks);
            }
            i = next;
        } else {
            let p = t.to_owned();
            let ghost before = text::texts(prose@);
            proof {
                text::texts_push(prose@, p);
                assert(before + (seq![p@] + rest.prose) =~= before.push(p@) + rest.prose);
            }
            prose.push(p);
            i += 1;
        }
    }
    proof {
        assert(text::texts(prose@) + seq![] =~= text::texts(prose@));
        assert(block_views(blocks@) + seq![] =~= block_views(blocks@));
        assert(text::texts(cross_refs@) + seq![] =~= text::texts(cross_refs@));
        if tagline@.len() == 0 {
            assert(tagline@ =~= seq![]);
        }
    }
    Parsed { tagline, prose: collapse_blanks(&prose), blocks, cross_refs }
}

fn append_texts(to: &mut Vec<String>, from: Vec<String>)
    ensures
        text::texts(final(to)@) == text::texts(old(to)@) + text::texts(from@),
{
    let mut from = from;
    let ghost tail = from@;
    to.append(&mut from);
    assert(text::texts(to@) =~= text::texts(old(to)@) + text::texts(tail));
}

// ---------------------------------------------------------------------------
// Sections

/// The number before the first dot of a chapter title.
pub open spec fn number_of(title: Seq<char>) -> Option<int> {
    text::number(text::trimmed(text::pieces(title, '.')[0]), 10, u32::MAX as int)
}

/// The number of a chapter, where its title has one.
pub fn chapter_num(title: &str) -> (r: Option<u32>)
    ensures
        r is Some <==> number_of(title@) is Some,
        r is Some ==> number_of(title@) == Some(r->0 as int),
{
    let cut = text::split_on(title, '.');
    proof {
        text::pieces_nonempty(title@, '.');
        assert(cut@.len() == text::slices(cut@).len());
        assert(cut@[0]@ == text::slices(cut@)[0]);
    }
    text::parse_u32(text::trim(cut[0]))
}

/// An ASCII letter or digit.
pub open spec fn is_alnum(c: char) -> bool {
    48 <= text::code(c) <= 57 || 65 <= text::code(c) <= 90 || 97 <= text::code(c) <= 122
}

/// A character with an ASCII capital made small.
pub open spec fn lower_char(c: char) -> char {
    if c == 'A' { 'a' } else if c == 'B' { 'b' } else if c == 'C' { 'c' } else if c == 'D' { 'd' }
    else if c == 'E' { 'e' } else if c == 'F' { 'f' } else if c == 'G' { 'g' } else if c == 'H' {
        'h'
    } else if c == 'I' { 'i' } else if c == 'J' { 'j' } else if c == 'K' { 'k' } else if c == 'L' {
        'l'
    } else if c == 'M' { 'm' } else if c == 'N' { 'n' } else if c == 'O' { 'o' } else if c == 'P' {
        'p'
    } else if c == 'Q' { 'q' } else if c == 'R' { 'r' } else if c == 'S' { 's' } else if c == 'T' {
        't'
    } else if c == 'U' { 'u' } else if c == 'V' { 'v' } else if c == 'W' { 'w' } else if c == 'X' {
        'x'
    } else if c == 'Y' { 'y' } else if c == 'Z' { 'z' } else { c }
}

fn to_lower(c: char) -> (r: char)
    ensures
        r == lower_char(c),
{
    match c {
        'A' => 'a', 'B' => 'b', 'C' => 'c', 'D' => 'd', 'E' => 'e', 'F' => 'f', 'G' => 'g',
        'H' => 'h', 'I' => 'i', 'J' => 'j', 'K' => 'k', 'L' => 'l', 'M' => 'm', 'N' => 'n',
        'O' => 'o', 'P' => 'p', 'Q' => 'q', 'R' => 'r', 'S' => 's', 'T' => 't', 'U' => 'u',
        'V' => 'v', 'W' => 'w', 'X' => 'x', 'Y' => 'y', 'Z' => 'z', _ => c,
    }
}

/// Letters and digits made small, every run of other characters behind one a
/// single dash.
pub open spec fn dashed(s: Seq<char>) -> Seq<char>
    decreases s.len(),
{
    if s.len() == 0 {
        seq![]
    } else {
        let before = dashed(s.drop_last());
        if is_alnum(s.last()) {
            before.push(lower_char(s.last()))
        } else if before.len() > 0 && before.last() != '-' {
            before.push('-')
        } else {
            before
        }
    }
}

/// The short name of a title: what stands before its first spaced dash.
pub open spec fn short_name(title: Seq<char>, short: Seq<char>) -> bool {
    if text::occurs(title, " — "@) {
        exists|i: int|
            #![trigger text::occurs_at(title, " — "@, i)]
            text::occurs_at(title, " — "@, i) && short == title.subrange(0, i) && forall|j: int|
                0 <= j < i ==> !text::occurs_at(title, " — "@, j)
    } else {
        short == title
    }
}

/// The slug of a title: its short name in small letters and digits, with single
/// dashes between the words.
pub open spec fn slug_of(title: Seq<char>) -> Seq<char> {
    let short = choose|s: Seq<char>| short_name(title, s);
    let d = dashed(short);
    if d.len() > 0 && d.last() == '-' { d.drop_last() } else { d }
}

proof fn dashed_has_single_dashes(s: Seq<char>)
    ensures
        dashed(s).len() > 0 ==> dashed(s)[0] != '-',
        forall|i: int|
            0 < i < dashed(s).len() && #[trigger] dashed(s)[i] == '-' ==> dashed(s)[i - 1] != '-',
        forall|i: int|
            0 <= i < dashed(s).len() ==> #[trigger] dashed(s)[i] == '-' || 48 <= text::code(
                dashed(s)[i],
            ) <= 57 || 97 <= text::code(dashed(s)[i]) <= 122,
    decreases s.len(),
{
    if s.len() > 0 {
        dashed_has_single_dashes(s.drop_last());
        let p = dashed(s.drop_last());
        let d = dashed(s);
        assert forall|i: int| 0 < i < d.len() && #[trigger] d[i] == '-' implies d[i - 1] != '-' by {
            if i < p.len() {
                assert(p[i] == '-');
            }
        }
        assert forall|i: int| 0 <= i < d.len() implies #[trigger] d[i] == '-' || 48 <= text::code(
            d[i],
        ) <= 57 || 97 <= text::code(d[i]) <= 122 by {
            if i < p.len() {
                assert(p[i] == d[i]);
            }
        }
    }
}

/// A slug is made of small letters, digits and single dashes, none of them at
/// either end.
pub proof fn slug_is_plain(title: Seq<char>)
    ensures
        slug_of(title).len() > 0 ==> slug_of(title)[0] != '-' && slug_of(title).last() != '-',
        forall|i: int|
            0 < i < slug_of(title).len() && #[trigger] slug_of(title)[i] == '-' ==> slug_of(
                title,
            )[i - 1] != '-',
        forall|i: int|
            0 <= i < slug_of(title).len() ==> #[trigger] slug_of(title)[i] == '-' || 48
                <= text::code(slug_of(title)[i]) <= 57 || 97 <= text::code(slug_of(title)[i])
                <= 122,
{
    let short = choose|s: Seq<char>| short_name(title, s);
    dashed_has_single_dashes(short);
    let d = dashed(short);
    let r = slug_of(title);
    if d.len() > 0 && d.last() == '-' {
        assert(d[d.len() - 1] == '-');
        assert forall|i: int| 0 < i < r.len() && #[trigger] r[i] == '-' implies r[i - 1] != '-' by {
            assert(d[i] == '-');
        }
        assert forall|i: int| 0 <= i < r.len() implies #[trigger] r[i] == '-' || 48 <= text::code(
            r[i],
        ) <= 57 || 97 <= text::code(r[i]) <= 122 by {
            assert(d[i] == r[i]);
        }
    }
}

/// The slug of a title.
pub fn slug(title: &str) -> (r: String)
    ensures
        r@ == slug_of(title@),
{
    let short: &str = match text::find(title, " — ") {
        Some(i) => title.substring_char(0, i),
        None => title,
    };
    proof {
        assert(short_name(title@, short@));
        let s = choose|s: Seq<char>| short_name(title@, s);
        if text::occurs(title@, " — "@) {
            let i = choose|i: int|
                #![trigger text::occurs_at(title@, " — "@, i)]
                text::occurs_at(title@, " — "@, i) && s == title@.subrange(0, i) && forall|j: int|
                    0 <= j < i ==> !text::occurs_at(title@, " — "@, j);
        }
        assert(s == short@);
    }
    let x = text::chars_of(short);
    let mut out: Vec<char> = Vec::new();
    let mut i: usize = 0;
    assert(out@ =~= dashed(short@.take(0)));
    while i < x.len()
        invariant
            x@ == short@,
            i <= x@.len(),
            out@ == dashed(short@.take(i as int)),
        decreases x@.len() - i,
    {
        assert(short@.take(i + 1).drop_last() =~= short@.take(i as int));
        let c: char = x[i];
        let k: u32 = c as u32;
        if (48 <= k && k <= 57) || (65 <= k && k <= 90) || (97 <= k && k <= 122) {
            out.push(to_lower(c));
        } else if out.len() > 0 && out[out.len() - 1] != '-' {
            out.push('-');
        }
        i += 1;
    }
    assert(short@.take(i as int) =~= short@);
    if out.len() > 0 && out[out.len() - 1] == '-' {
        let _ = out.pop();
    }
    text::string_of(&out)
}

/// The id that a chapter's sections begin with.
pub open spec fn chapter_slug(title: Seq<char>) -> Seq<char> {
    match number_of(title) {
        Some(n) => "ch"@ + text::dec(n as nat),
        None => "overview"@,
    }
}

/// The record of a section.
pub open spec fn record(
    id: Seq<char>,
    chapter: Seq<char>,
    num: Option<u32>,
    title: Seq<char>,
    body: Seq<char>,
) -> RecordView {
    let b = body_from(text::lines_of(body), 0);
    RecordView {
        id,
        chapter,
        chapter_num: num,
        title,
        tagline: b.tagline,
        prose: collapsed(b.prose),
        blocks: b.blocks,
        cross_refs: b.refs,
    }
}

/// The chapter number as the records carry it.
pub open spec fn record_num(title: Seq<char>) -> Option<u32> {
    match number_of(title) {
        Some(n) => Some(n as u32),
        None => None,
    }
}

/// The records of the first `n` sections of a chapter.
pub open spec fn section_records(ch: ChapterView, n: nat) -> Seq<RecordView>
    decreases n,
{
    if n == 0 {
        seq![]
    } else {
        let s = ch.sections[n - 1];
        section_records(ch, (n - 1) as nat).push(
            record(
                chapter_slug(ch.title) + "-"@ + slug_of(s.title),
                ch.title,
                record_num(ch.title),
                s.title,
                s.body,
            ),
        )
    }
}

/// The records of a chapter: one for what stands before its sections, unless
/// that is blank, then one for each section.
pub open spec fn chapter_records(ch: ChapterView) -> Seq<RecordView> {
    (if text::trimmed(ch.preamble).len() > 0 {
        seq![
            record(
                chapter_slug(ch.title),
                ch.title,
                record_num(ch.title),
                ch.title,
                ch.preamble,
            ),
        ]
    } else {
        seq![]
    }) + section_records(ch, ch.sections.len())
}

/// The records of all chapters.
pub open spec fn records(chapters: Seq<ChapterView>) -> Seq<RecordView>
    decreases chapters.len(),
{
    if chapters.len() == 0 {
        seq![]
    } else {
        records(chapters.drop_last()) + chapter_records(chapters.last())
    }
}

/// The record of a section.
pub fn build_section(id: &str, chapter: &str, num: Option<u32>, title: &str, body: &str) -> (r:
    Section)
    ensures
        r@ == record(id@, chapter@, num, title@, body@),
{
    let p = parse_body(body);
    Section {
        id: id.to_owned(),
        chapter: chapter.to_owned(),
        chapter_num: num,
        title: title.to_owned(),
        tagline: p.tagline,
        prose: p.prose,
        blocks: p.blocks,
        cross_refs: p.cross_refs,
    }
}

/// The records of a chapter, added to those before it.
fn push_chapter(out: &mut Vec<Section>, ch: &Chapter)
    ensures
        record_views(final(out)@) == record_views(old(out)@) + chapter_records(ch@),
{
    let num = chapter_num(ch.title.as_str());
    let cslug: String = match num {
        Some(n) => text::join2("ch", text::decimal(n as u64).as_str()),
        None => "overview".to_owned(),
    };
    let ghost base = record_views(out@);
    let ghost head = if text::trimmed(ch.preamble@).len() > 0 {
        seq![
            record(
                chapter_slug(ch@.title),
                ch@.title,
                record_num(ch@.title),
                ch@.title,
                ch@.preamble,
            ),
        ]
    } else {
        seq![]
    };
    if !text::trim(ch.preamble.as_str()).is_empty() {
        out.push(
            build_section(
                cslug.as_str(),
                ch.title.as_str(),
                num,
                ch.title.as_str(),
                ch.preamble.as_str(),
            ),
        );
    }
    assert(record_views(out@) =~= base + head);
    let mut i: usize = 0;
    assert(base + head + section_records(ch@, 0) =~= base + head);
    while i < ch.sections.len()
        invariant
            i <= ch.sections@.len(),
            num == record_num(ch@.title),
            cslug@ == chapter_slug(ch@.title),
            record_views(out@) == base + head + section_records(ch@, i as nat),
        decreases ch.sections@.len() - i,
    {
        let s = &ch.sections[i];
        let id = text::join3(cslug.as_str(), "-", slug(s.title.as_str()).as_str());
        let ghost before = out@;
        let made = build_section(
            id.as_str(),
            ch.title.as_str(),
            num,
            s.title.as_str(),
            s.body.as_str(),
        );
        out.push(made);
        proof {
            assert(ch@.sections[i as int] == s@);
            assert(record_views(out@) =~= record_views(before).push(made@));
            assert(base + head + section_records(ch@, i as nat).push(made@) =~= (base + head
                + section_records(ch@, i as nat)).push(made@));
        }
        i += 1;
    }
    assert(base + head + section_records(ch@, i as nat) =~= base + (head + section_records(
        ch@,
        i as nat,
    )));
}

/// The records of all sections.
pub fn sections(chapters: &Vec<Chapter>) -> (r: Vec<Section>)
    ensures
        record_views(r@) == records(manual_book::chapter_views(chapters@)),
{
    let ghost all = manual_book::chapter_views(chapters@);
    let mut out: Vec<Section> = Vec::new();
    let mut i: usize = 0;
    assert(record_views(out@) =~= records(all.take(0)));
    while i < chapters.len()
        invariant
            i <= chapters@.len(),
            all == manual_book::chapter_views(chapters@),
            record_views(out@) == records(all.take(i as int)),
        decreases chapters@.len() - i,
    {
        assert(all.take(i + 1).drop_last() =~= all.take(i as int));
        assert(all[i as int] == chapters@[i as int]@);
        push_chapter(&mut out, &chapters[i]);
        i += 1;
    }
    assert(all.take(i as int) =~= all);
    out
}

/// The records of the manual's text.
pub fn load(manual: &str) -> (r: Vec<Section>)
    ensures
        record_views(r@) == records(manual_book::book(manual@)),
{
    let chapters = manual_book::load(manual);
    sections(&chapters)
}

// ---------------------------------------------------------------------------
// Integrity

/// The section carries nothing.
pub open spec fn is_empty_record(r: RecordView) -> bool {
    text::trimmed(r.prose).len() == 0 && r.blocks.len() == 0
}

/// The problems of empty sections.
pub open spec fn empty_problems(v: Seq<RecordView>) -> Seq<Seq<char>>
    decreases v.len(),
{
    if v.len() == 0 {
        seq![]
    } else if is_empty_record(v.last()) {
        empty_problems(v.drop_last()).push(
            "section '"@ + v.last().id + "' ("@ + v.last().title + ") is empty"@,
        )
    } else {
        empty_problems(v.drop_last())
    }
}

/// Number of sections with an id.
pub open spec fn id_count(v: Seq<RecordView>, id: Seq<char>) -> nat
    decreases v.len(),
{
    if v.len() == 0 {
        0
    } else {
        id_count(v.drop_last(), id) + (if v.last().id == id { 1nat } else { 0nat })
    }
}

/// The problems of ids that occur more than once, each reported where it occurs
/// first among the sections below `n`.
pub open spec fn id_problems(v: Seq<RecordView>, n: nat) -> Seq<Seq<char>>
    decreases n,
{
    if n == 0 {
        seq![]
    } else {
        let id = v[n - 1].id;
        let before = id_problems(v, (n - 1) as nat);
        if id_count(v, id) > 1 && id_count(v.take(n - 1), id) == 0 {
            before.push(
                "duplicate section id '"@ + id + "' ("@ + text::dec(id_count(v, id)) + "×)"@,
            )
        } else {
            before
        }
    }
}

fn count_id(sections: &Vec<Section>, upto: usize, id: &str) -> (r: usize)
    requires
        upto <= sections@.len(),
    ensures
        r == id_count(record_views(sections@).take(upto as int), id@),
{
    let ghost all = record_views(sections@);
    let mut n: usize = 0;
    let mut i: usize = 0;
    while i < upto
        invariant
            i <= upto <= sections@.len(),
            all == record_views(sections@),
            n <= i,
            n == id_count(all.take(i as int), id@),
        decreases upto - i,
    {
        assert(all.take(i + 1).drop_last() =~= all.take(i as int));
        assert(all[i as int] == sections@[i as int]@);
        if text::same(sections[i].id.as_str(), id) {
            n += 1;
        }
        i += 1;
    }
    n
}

/// The problems of the records: sections that carry nothing, then ids that are
/// not unique.
pub fn integrity(sections: &Vec<Section>) -> (r: Vec<String>)
    ensures
        text::texts(r@) == empty_problems(record_views(sections@)) + id_problems(
            record_views(sections@),
            sections@.len(),
        ),
{
    let ghost all = record_views(sections@);
    let n: usize = sections.len();
    let mut problems: Vec<String> = Vec::new();
    let mut i: usize = 0;
    assert(text::texts(problems@) =~= empty_problems(all.take(0)));
    while i < n
        invariant
            n == sections@.len(),
            i <= n,
            all == record_views(sections@),
            text::texts(problems@) == empty_problems(all.take(i as int)),
        decreases n - i,
    {
        let s = &sections[i];
        proof {
            assert(all.take(i + 1).drop_last() =~= all.take(i as int));
            assert(all[i as int] == s@);
            assert(s@.blocks.len() == s.blocks@.len());
        }
        if text::trim(s.prose.as_str()).is_empty() && s.blocks.len() == 0 {
            let mut p = text::join3("section '", s.id.as_str(), "' (");
            p.append(s.title.as_str());
            p.append(") is empty");
            proof {
                text::texts_push(problems@, p);
            }
            problems.push(p);
        }
        i += 1;
    }
    assert(all.take(n as int) =~= all);
    let ghost base = empty_problems(all);
    let mut k: usize = 0;
    assert(base + id_problems(all, 0) =~= base);
    while k < n
        invariant
            n == sections@.len(),
            k <= n,
            all == record_views(sections@),
            all.take(n as int) == all,
            text::texts(problems@) == base + id_problems(all, k as nat),
        decreases n - k,
    {
        let id: &str = sections[k].id.as_str();
        assert(all[k as int] == sections@[k as int]@);
        let total: usize = count_id(sections, n, id);
        if total > 1 && count_id(sections, k, id) == 0 {
            let mut p = text::join3("duplicate section id '", id, "' (");
            p.append(text::decimal(total as u64).as_str());
            p.append("×)");
            proof {
                text::texts_push(problems@, p);
                assert((base + id_problems(all, k as nat)).push(p@) =~= base + id_problems(
                    all,
                    k as nat,
                ).push(p@));
            }
            problems.push(p);
        }
        k += 1;
    }
    problems
}

/// There are no problems exactly where every section carries something and no
/// two share an id.
pub proof fn sound_records_have_no_problems(v: Seq<RecordView>)
    ensures
        empty_problems(v) + id_problems(v, v.len()) == Seq::<Seq<char>>::empty() <==> (forall|i: int|
            0 <= i < v.len() ==> !is_empty_record(#[trigger] v[i])) && (forall|i: int, j: int|
            0 <= i < j < v.len() ==> (#[trigger] v[i]).id != (#[trigger] v[j]).id),
{
    let a = empty_problems(v);
    let b = id_problems(v, v.len());
    no_empty_problems(v);
    no_id_problems(v, v.len());
    if a.len() + b.len() == 0 {
        assert(a + b =~= Seq::<Seq<char>>::empty());
        assert forall|i: int, j: int| 0 <= i < j < v.len() implies (#[trigger] v[i]).id != (
        #[trigger] v[j]).id by {
            if v[i].id == v[j].id {
                two_count_twice(v, i, j);
                first_occurrence(v, v[i].id, i);
            }
        }
    } else {
        assert((a + b).len() > 0);
    }
    if forall|i: int, j: int| 0 <= i < j < v.len() ==> (#[trigger] v[i]).id != (#[trigger] v[j]).id {
        assert forall|i: int| 0 <= i < v.len() implies id_count(v, (#[trigger] v[i]).id) <= 1 by {
            distinct_count_once(v, v[i].id);
        }
    }
}

proof fn no_empty_problems(v: Seq<RecordView>)
    ensures
        empty_problems(v).len() == 0 <==> forall|i: int|
            0 <= i < v.len() ==> !is_empty_record(#[trigger] v[i]),
    decreases v.len(),
{
    if v.len() > 0 {
        no_empty_problems(v.drop_last());
        let p = v.drop_last();
        if empty_problems(v).len() == 0 {
            assert forall|i: int| 0 <= i < v.len() implies !is_empty_record(#[trigger] v[i]) by {
                if i < p.len() {
                    assert(p[i] == v[i]);
                }
            }
        }
        if forall|i: int| 0 <= i < v.len() ==> !is_empty_record(#[trigger] v[i]) {
            assert forall|i: int| 0 <= i < p.len() implies !is_empty_record(#[trigger] p[i]) by {
                assert(p[i] == v[i]);
            }
            assert(!is_empty_record(v[v.len() - 1]));
        }
    }
}

/// A duplicate is reported somewhere.
spec fn reported(v: Seq<RecordView>, i: int) -> bool {
    id_count(v, v[i].id) > 1 && id_count(v.take(i), v[i].id) == 0
}

proof fn no_id_problems(v: Seq<RecordView>, n: nat)
    requires
        n <= v.len(),
    ensures
        id_problems(v, n).len() == 0 <==> forall|i: int| 0 <= i < n ==> !#[trigger] reported(v, i),
    decreases n,
{
    if n > 0 {
        no_id_problems(v, (n - 1) as nat);
        if id_problems(v, n).len() == 0 {
            assert(!reported(v, n - 1));
        } else if id_problems(v, (n - 1) as nat).len() == 0 {
            assert(reported(v, n - 1));
        }
    }
}

proof fn two_count_twice(v: Seq<RecordView>, i: int, j: int)
    requires
        0 <= i < j < v.len(),
        v[i].id == v[j].id,
    ensures
        id_count(v, v[i].id) > 1,
    decreases v.len(),
{
    let p = v.drop_last();
    if j < v.len() - 1 {
        assert(p[i] == v[i] && p[j] == v[j]);
        two_count_twice(p, i, j);
    } else {
        assert(p[i] == v[i]);
        one_counts(p, i);
    }
}

proof fn one_counts(v: Seq<RecordView>, i: int)
    requires
        0 <= i < v.len(),
    ensures
        id_count(v, v[i].id) >= 1,
    decreases v.len(),
{
    if i < v.len() - 1 {
        assert(v.drop_last()[i] == v[i]);
        one_counts(v.drop_last(), i);
    }
}

proof fn first_occurrence(v: Seq<RecordView>, id: Seq<char>, i: int)
    requires
        0 <= i < v.len(),
        v[i].id == id,
        id_count(v, id) > 1,
    ensures
        exists|k: int| 0 <= k < v.len() && #[trigger] reported(v, k),
    decreases i,
{
    if id_count(v.take(i), id) == 0 {
        assert(reported(v, i));
    } else {
        counted_is_there(v.take(i), id);
        let k = choose|k: int| 0 <= k < i && (#[trigger] v.take(i)[k]).id == id;
        assert(v[k].id == id);
        first_occurrence(v, id, k);
    }
}

proof fn counted_is_there(v: Seq<RecordView>, id: Seq<char>)
    requires
        id_count(v, id) > 0,
    ensures
        exists|k: int| 0 <= k < v.len() && (#[trigger] v[k]).id == id,
    decreases v.len(),
{
    if v.len() > 0 {
        if v.last().id == id {
            assert(v[v.len() - 1].id == id);
        } else {
            counted_is_there(v.drop_last(), id);
            let k = choose|k: int|
                0 <= k < v.len() - 1 && (#[trigger] v.drop_last()[k]).id == id;
            assert(v[k].id == id);
        }
    }
}

proof fn distinct_count_once(v: Seq<RecordView>, id: Seq<char>)
    requires
        forall|i: int, j: int|
            0 <= i < j < v.len() ==> (#[trigger] v[i]).id != (#[trigger] v[j]).id,
    ensures
        id_count(v, id) <= 1,
    decreases v.len(),
{
    if v.len() > 0 {
        let p = v.drop_last();
        assert forall|i: int, j: int| 0 <= i < j < p.len() implies (#[trigger] p[i]).id != (
        #[trigger] p[j]).id by {
            assert(p[i] == v[i] && p[j] == v[j]);
        }
        distinct_count_once(p, id);
        if v.last().id == id && id_count(p, id) > 0 {
            counted_is_there(p, id);
            let k = choose|k: int| 0 <= k < p.len() && (#[trigger] p[k]).id == id;
            assert(v[k].id == v[v.len() - 1].id);
        }
    }
}

/// The lines that are not blank.
pub open spec fn unblank(lines: Seq<Seq<char>>) -> Seq<Seq<char>> {
    lines.filter(|l: Seq<char>| l.len() > 0)
}

/// Squeezing the blank lines of prose leaves every other line, in order.
pub proof fn prose_keeps_every_line(lines: Seq<Seq<char>>)
    ensures
        unblank(squeezed(lines)) == unblank(lines),
        unblank(tidy(lines)) == unblank(lines),
    decreases lines.len(),
{
    let keep = |l: Seq<char>| l.len() > 0;
    if lines.len() > 0 {
        let front = lines.drop_last();
        prose_keeps_every_line(front);
        assert(front.push(lines.last()) =~= lines);
        front.lemma_filter_push(lines.last(), keep);
        squeezed(front).lemma_filter_push(lines.last(), keep);
        let gap: Seq<char> = seq![];
        squeezed(front).lemma_filter_push(gap, keep);
    }
    let s = squeezed(lines);
    if s.len() > 0 && s.last().len() == 0 {
        assert(s.drop_last().push(s.last()) =~= s);
        s.drop_last().lemma_filter_push(s.last(), keep);
    }
}

/// The letters and digits of a text, in lower case.
pub open spec fn plain_of(s: Seq<char>) -> Seq<char>
    decreases s.len(),
{
    if s.len() == 0 {
        seq![]
    } else if is_alnum(s.last()) {
        plain_of(s.drop_last()).push(lower_char(s.last()))
    } else {
        plain_of(s.drop_last())
    }
}

/// A capital in lower case is the small letter of the same place in the alphabet,
/// and any other character is itself.
pub proof fn small_letters_of_capitals(c: char)
    ensures
        65 <= text::code(c) <= 90 ==> text::code(lower_char(c)) == text::code(c) + 32,
        !(65 <= text::code(c) <= 90) ==> lower_char(c) == c,
{
}

/// Dashing a text keeps its letters and digits, in order and in lower case, and
/// puts nothing but dashes between them.
pub proof fn dashing_keeps_the_letters(s: Seq<char>)
    ensures
        plain_of(dashed(s)) == plain_of(s),
        forall|i: int|
            0 <= i < dashed(s).len() ==> is_alnum(#[trigger] dashed(s)[i]) || dashed(s)[i] == '-',
    decreases s.len(),
{
    if s.len() > 0 {
        let front = s.drop_last();
        let before = dashed(front);
        dashing_keeps_the_letters(front);
        let c = s.last();
        let low = lower_char(c);
        assert(before.push(low).drop_last() =~= before);
        assert(before.push('-').drop_last() =~= before);
        assert(is_alnum(c) ==> is_alnum(low) && lower_char(low) == low);
        assert(!is_alnum('-'));
    }
}

/// No part is empty, and every part that is not is kept, in order.
pub proof fn empty_parts_are_left_out(v: Seq<Seq<char>>, one: Seq<char>)
    ensures
        one.len() == 0 ==> filled(v.push(one)) == filled(v),
        one.len() > 0 ==> filled(v.push(one)) == filled(v).push(one),
        filled(seq![]) == Seq::<Seq<char>>::empty(),
{
    assert(v.push(one).drop_last() =~= v);
}

/// Two words with two blanks or more between them are two fields, and with a
/// single blank they are one.
pub proof fn wide_gaps_divide_fields(a: Seq<char>, b: Seq<char>, k: nat)
    requires
        a.len() > 0,
        b.len() > 0,
        k > 0,
        forall|i: int| 0 <= i < a.len() ==> !text::is_space(#[trigger] a[i]),
        forall|i: int| 0 <= i < b.len() ==> !text::is_space(#[trigger] b[i]),
    ensures
        k >= 2 ==> gap_fields(a + text::repeat(' ', k) + b) == seq![a, b],
        k == 1 ==> gap_fields(a + text::repeat(' ', k) + b) == seq![a + text::repeat(' ', k) + b],
{
    let s = a + text::repeat(' ', k) + b;
    assert(text::is_space(' '));
    whole_word_is_trimmed(a);
    whole_word_is_trimmed(b);
    scan_of_both(a, b, k, b.len());
    assert(b.take(b.len() as int) =~= b);
    assert(s =~= a + text::repeat(' ', k) + b.take(b.len() as int));
    if k >= 2 {
        assert(gap_fields(s) =~= seq![a, b]);
    } else {
        assert(text::repeat(' ', 1) =~= seq![' ']);
        let w = a.push(' ') + b;
        assert(w =~= s);
        assert(w[0] == a[0] && w.last() == b.last());
        assert(!text::is_space(a[0]) && !text::is_space(b[b.len() - 1]));
        text::trimming_takes_the_space_around(w, ' ');
        assert(gap_fields(s) =~= seq![s]);
    }
}

proof fn whole_word_is_trimmed(a: Seq<char>)
    requires
        a.len() > 0,
        forall|i: int| 0 <= i < a.len() ==> !text::is_space(#[trigger] a[i]),
    ensures
        text::trimmed(a) == a,
{
    assert(text::is_space(' '));
    assert(!text::is_space(a[0]) && !text::is_space(a[a.len() - 1]));
    text::trimming_takes_the_space_around(a, ' ');
}

proof fn scan_of_word(a: Seq<char>)
    requires
        forall|i: int| 0 <= i < a.len() ==> !text::is_space(#[trigger] a[i]),
    ensures
        gap_scan(a).out.len() == 0,
        gap_scan(a).cur == a,
        gap_scan(a).spaces == 0,
    decreases a.len(),
{
    if a.len() > 0 {
        let front = a.drop_last();
        assert forall|i: int| 0 <= i < front.len() implies !text::is_space(#[trigger] front[i]) by {
            assert(front[i] == a[i]);
        }
        scan_of_word(front);
        assert(text::is_space(' '));
        assert(a[a.len() - 1] == a.last());
        assert(front.push(a.last()) =~= a);
    }
}

proof fn scan_of_gap(a: Seq<char>, k: nat)
    requires
        forall|i: int| 0 <= i < a.len() ==> !text::is_space(#[trigger] a[i]),
    ensures
        gap_scan(a + text::repeat(' ', k)).out.len() == 0,
        gap_scan(a + text::repeat(' ', k)).cur == a,
        gap_scan(a + text::repeat(' ', k)).spaces == k,
    decreases k,
{
    let s = a + text::repeat(' ', k);
    if k == 0 {
        assert(s =~= a);
        scan_of_word(a);
    } else {
        scan_of_gap(a, (k - 1) as nat);
        assert(s.drop_last() =~= a + text::repeat(' ', (k - 1) as nat));
        assert(s.last() == ' ');
    }
}

proof fn scan_of_both(a: Seq<char>, b: Seq<char>, k: nat, n: nat)
    requires
        a.len() > 0,
        k > 0,
        1 <= n <= b.len(),
        forall|i: int| 0 <= i < a.len() ==> !text::is_space(#[trigger] a[i]),
        forall|i: int| 0 <= i < b.len() ==> !text::is_space(#[trigger] b[i]),
    ensures
        ({
            let g = gap_scan(a + text::repeat(' ', k) + b.take(n as int));
            &&& g.spaces == 0
            &&& k >= 2 ==> g.out == seq![a] && g.cur == b.take(n as int)
            &&& k == 1 ==> g.out.len() == 0 && g.cur == a.push(' ') + b.take(n as int)
        }),
    decreases n,
{
    let s = a + text::repeat(' ', k) + b.take(n as int);
    let c = b[n - 1];
    assert(text::is_space(' '));
    assert(s.last() == c);
    whole_word_is_trimmed(a);
    if n == 1 {
        assert(s.drop_last() =~= a + text::repeat(' ', k));
        scan_of_gap(a, k);
        assert(b.take(1) =~= seq![c]);
        assert(gap_scan(s) == gap_step(gap_scan(s.drop_last()), c));
        if k >= 2 {
            let none = gap_scan(s.drop_last()).out;
            assert(none.push(a) =~= seq![a]);
        } else {
            assert(a.push(' ').push(c) =~= a.push(' ') + b.take(1));
        }
    } else {
        scan_of_both(a, b, k, (n - 1) as nat);
        assert(s.drop_last() =~= a + text::repeat(' ', k) + b.take(n - 1));
        assert(b.take(n - 1).push(c) =~= b.take(n as int));
        assert((a.push(' ') + b.take(n - 1)).push(c) =~= a.push(' ') + b.take(n as int));
    }
}

/// A box is a grid exactly where a line with a joint stands in it, before its
/// bottom.
pub proof fn joints_make_a_grid(lines: Seq<Seq<char>>, i: int)
    requires
        0 <= i,
    ensures
        grid_from(lines, i) <==> exists|k: int|
            {
                &&& i <= k < lines.len()
                &&& has_join(#[trigger] lines[k])
                &&& forall|j: int| i <= j <= k ==> !is_bottom(#[trigger] lines[j])
            },
    decreases lines.len() - i,
{
    if i < lines.len() && !is_bottom(lines[i]) {
        joints_make_a_grid(lines, i + 1);
        if has_join(lines[i]) {
            assert(forall|j: int| i <= j <= i ==> !is_bottom(#[trigger] lines[j]));
        } else if grid_from(lines, i + 1) {
            let k = choose|k: int|
                {
                    &&& i + 1 <= k < lines.len()
                    &&& has_join(#[trigger] lines[k])
                    &&& forall|j: int| i + 1 <= j <= k ==> !is_bottom(#[trigger] lines[j])
                };
            assert forall|j: int| i <= j <= k implies !is_bottom(#[trigger] lines[j]) by {
                assert(j == i || i + 1 <= j);
            }
        }
    }
}

/// A box ends behind its first bottom, or with the text.
pub proof fn box_ends_at_its_bottom(lines: Seq<Seq<char>>, i: int, grid: bool, bottom: int)
    requires
        0 <= i <= bottom <= lines.len(),
        forall|j: int| i <= j < bottom ==> !is_bottom(#[trigger] lines[j]),
        bottom < lines.len() ==> is_bottom(lines[bottom]),
    ensures
        bottom < lines.len() ==> box_body(lines, i, grid).next == bottom + 1,
        bottom == lines.len() ==> box_body(lines, i, grid).next == lines.len(),
    decreases bottom - i,
{
    if i < bottom {
        assert(!is_bottom(lines[i]));
        box_ends_at_its_bottom(lines, i + 1, grid, bottom);
    }
}

/// A label has neither a dash nor a blank at its ends.
pub proof fn label_is_bare(top: Seq<char>)
    ensures
        label_of(top).len() > 0 ==> label_of(top)[0] != '─' && label_of(top)[0] != ' '
            && label_of(top).last() != '─' && label_of(top).last() != ' ',
{
    let s = text::strip_all_back(text::strip_all_front(top, "┌"@), "┐"@);
    bare_in_front(s);
    bare_at_the_back(undash_front(s));
}

proof fn bare_in_front(s: Seq<char>)
    ensures
        undash_front(s).len() > 0 ==> undash_front(s)[0] != '─' && undash_front(s)[0] != ' ',
    decreases s.len(),
{
    if s.len() > 0 && (s[0] == '─' || s[0] == ' ') {
        bare_in_front(s.drop_first());
    }
}

proof fn bare_at_the_back(s: Seq<char>)
    ensures
        undash_back(s).len() > 0 ==> undash_back(s).last() != '─' && undash_back(s).last() != ' '
            && undash_back(s)[0] == s[0],
    decreases s.len(),
{
    if s.len() > 0 && (s.last() == '─' || s.last() == ' ') {
        bare_at_the_back(s.drop_last());
    }
}

/// Every section of a chapter has its record, in order: under the chapter's title
/// and number, with its own title, and an id made of both.
pub proof fn record_is_of_its_section(ch: ChapterView, n: nat, i: int)
    requires
        0 <= i < n,
    ensures
        section_records(ch, n).len() == n,
        ({
            let r = section_records(ch, n)[i];
            &&& r.title == ch.sections[i].title
            &&& r.chapter == ch.title
            &&& r.id == chapter_slug(ch.title) + "-"@ + slug_of(ch.sections[i].title)
            &&& r.chapter_num == record_num(ch.title)
            &&& r.blocks == body_from(text::lines_of(ch.sections[i].body), 0).blocks
            &&& r.cross_refs == body_from(text::lines_of(ch.sections[i].body), 0).refs
        }),
    decreases n,
{
    if i < n - 1 {
        record_is_of_its_section(ch, (n - 1) as nat, i);
    } else if n > 1 {
        record_is_of_its_section(ch, (n - 1) as nat, 0);
    } else {
        assert(section_records(ch, 0).len() == 0);
    }
}

/// A chapter's records are those of its sections, after one of its own where there
/// is text before the first section.
pub proof fn preamble_has_its_own_record(ch: ChapterView)
    ensures
        ({
            let own = text::trimmed(ch.preamble).len() > 0;
            let v = chapter_records(ch);
            &&& own ==> v.len() == 1 + section_records(ch, ch.sections.len()).len() && v[0].id
                == chapter_slug(ch.title) && v[0].title == ch.title
            &&& !own ==> v =~= section_records(ch, ch.sections.len())
        }),
        number_of(ch.title) matches Some(n) ==> chapter_slug(ch.title) == "ch"@ + text::dec(n as nat),
        number_of(ch.title) is None ==> chapter_slug(ch.title) == "overview"@,
{
}

/// The records of a book are those of its chapters, in order.
pub proof fn records_go_chapter_by_chapter(chapters: Seq<ChapterView>, one: ChapterView)
    ensures
        records(chapters.push(one)) == records(chapters) + chapter_records(one),
        records(seq![]) == Seq::<RecordView>::empty(),
{
    assert(chapters.push(one).drop_last() =~= chapters);
}

/// A line of a section's body goes where its beginning says: a fence nowhere, a
/// reference to the references, anything else that opens no box to the prose.
pub proof fn lines_go_where_they_belong(lines: Seq<Seq<char>>, i: int)
    requires
        0 <= i < lines.len(),
    ensures
        ({
            let t = text::trimmed(lines[i]);
            let rest = body_from(lines, i + 1);
            let b = body_from(lines, i);
            &&& fences(t) ==> b == rest
            &&& !fences(t) && !text::begins(t, "── "@) && text::begins(t, "See:"@) ==> b.refs
                == refs_of(text::after(t, 4)) + rest.refs && b.prose == rest.prose && b.blocks
                == rest.blocks
            &&& !fences(t) && !text::begins(t, "── "@) && !text::begins(t, "See:"@) && !opens_box(t)
                ==> b.prose == seq![t] + rest.prose && b.blocks == rest.blocks && b.refs == rest.refs
                && b.tagline == rest.tagline
            &&& !fences(t) && text::begins(t, "── "@) ==> b.prose == rest.prose && b.blocks
                == rest.blocks && b.refs == rest.refs && b.tagline == (if tagline_of(t).len() > 0 {
                tagline_of(t)
            } else {
                rest.tagline
            })
        }),
{
}

/// An empty record is one without text and blocks, and each one is reported.
pub proof fn empty_records_are_reported(v: Seq<RecordView>, one: RecordView)
    ensures
        is_empty_record(one) <==> text::trimmed(one.prose).len() == 0 && one.blocks.len() == 0,
        is_empty_record(one) ==> empty_problems(v.push(one)).len() == empty_problems(v).len() + 1,
        !is_empty_record(one) ==> empty_problems(v.push(one)) == empty_problems(v),
{
    assert(v.push(one).drop_last() =~= v);
}

} // verus!
