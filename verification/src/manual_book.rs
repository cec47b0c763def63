//! The system manual as a tree of chapters and sections.
//!
//! A line that begins with one `#` and a space opens a chapter, one with two a
//! section. Inside fenced blocks neither does.
use vstd::prelude::*;

use crate::text;

verus! {

/// One section of a chapter.
#[derive(Debug)]
pub struct Section {
    pub title: String,
    pub body: String,
}

/// One chapter: what stands before its first section, and its sections.
#[derive(Debug)]
pub struct Chapter {
    pub title: String,
    pub preamble: String,
    pub sections: Vec<Section>,
}

/// A section with its texts as characters.
pub struct SectionView {
    pub title: Seq<char>,
    pub body: Seq<char>,
}

/// A chapter with its texts as characters.
pub struct ChapterView {
    pub title: Seq<char>,
    pub preamble: Seq<char>,
    pub sections: Seq<SectionView>,
}

impl View for Section {
    type V = SectionView;

    open spec fn view(&self) -> SectionView {
        SectionView { title: self.title@, body: self.body@ }
    }
}

/// The views of a list of sections.
pub open spec fn section_views(v: Seq<Section>) -> Seq<SectionView> {
    Seq::new(v.len(), |i: int| v[i]@)
}

impl View for Chapter {
    type V = ChapterView;

    open spec fn view(&self) -> ChapterView {
        ChapterView {
            title: self.title@,
            preamble: self.preamble@,
            sections: section_views(self.sections@),
        }
    }
}

/// The views of a list of chapters.
pub open spec fn chapter_views(v: Seq<Chapter>) -> Seq<ChapterView> {
    Seq::new(v.len(), |i: int| v[i]@)
}

/// Number of `#` in front.
pub open spec fn hashes(line: Seq<char>) -> nat
    decreases line.len(),
{
    if line.len() > 0 && line[0] == '#' { 1 + hashes(line.drop_first()) } else { 0 }
}

/// The heading level of a line: the number of `#` in front where a space
/// follows them, else 0.
pub open spec fn level_of(line: Seq<char>) -> nat {
    let h = hashes(line);
    if h >= 1 && h < line.len() && line[h as int] == ' ' { h } else { 0 }
}

/// The heading level of a line, 0 for no heading.
pub fn heading_level(line: &str) -> (r: usize)
    ensures
        r == level_of(line@),
        r <= line@.len(),
{
    let x = text::chars_of(line);
    let mut h: usize = 0;
    assert(text::after(line@, 0) =~= line@);
    while h < x.len() && x[h] == '#'
        invariant
            x@ == line@,
            h <= x@.len(),
            hashes(line@) == h + hashes(text::after(line@, h as int)),
        decreases x@.len() - h,
    {
        assert(text::after(line@, h as int).drop_first() =~= text::after(line@, h + 1));
        h += 1;
    }
    assert(hashes(text::after(line@, h as int)) == 0);
    if h >= 1 && h < x.len() && x[h] == ' ' {
        h
    } else {
        0
    }
}

/// The title of a chapter as it is listed.
pub open spec fn listed_title(raw: Seq<char>) -> Seq<char> {
    if text::occurs(raw, "OEM System Manual"@) { "Overview"@ } else { raw }
}

/// The title of a chapter as it is listed: the manual's own is the overview.
pub fn clean_chapter_title(raw: &str) -> (r: String)
    ensures
        r@ == listed_title(raw@),
{
    if text::contains(raw, "OEM System Manual") {
        "Overview".to_owned()
    } else {
        raw.to_owned()
    }
}

/// A line that opens or closes a fenced block.
pub open spec fn is_fence(line: Seq<char>) -> bool {
    text::begins(text::trim_start(line), "```"@) || text::begins(text::trim_start(line), "~~~"@)
}

/// A manual read up to some line.
pub struct Reading {
    pub done: Seq<ChapterView>,
    pub chapter: Option<ChapterView>,
    pub section: Option<SectionView>,
    pub in_fence: bool,
}

/// A chapter with a section added, where there is one.
pub open spec fn with_section(ch: ChapterView, s: Option<SectionView>) -> ChapterView {
    match s {
        Some(sec) => ChapterView { sections: ch.sections.push(sec), ..ch },
        None => ch,
    }
}

/// The chapters with the open one, and its open section, added.
pub open spec fn closed_up(r: Reading) -> Seq<ChapterView> {
    match r.chapter {
        Some(ch) => r.done.push(with_section(ch, r.section)),
        None => r.done,
    }
}

/// One more line.
pub open spec fn read_line(r: Reading, line: Seq<char>) -> Reading {
    let in_fence = if is_fence(line) { !r.in_fence } else { r.in_fence };
    let level = if in_fence { 0 } else { level_of(line) };
    if level == 1 {
        Reading {
            done: closed_up(r),
            chapter: Some(
                ChapterView {
                    title: listed_title(text::trimmed(text::after(line, 1))),
                    preamble: seq![],
                    sections: seq![],
                },
            ),
            section: if r.chapter is Some { None } else { r.section },
            in_fence,
        }
    } else if level == 2 {
        Reading {
            done: r.done,
            chapter: match r.chapter {
                Some(ch) => Some(with_section(ch, r.section)),
                None => None,
            },
            section: Some(
                SectionView { title: text::trimmed(text::after(line, 2)), body: seq![] },
            ),
            in_fence,
        }
    } else {
        match (r.section, r.chapter) {
            (Some(s), _) => Reading {
                section: Some(SectionView { body: s.body + line + "\n"@, ..s }),
                in_fence,
                ..r
            },
            (None, Some(ch)) => Reading {
                chapter: Some(ChapterView { preamble: ch.preamble + line + "\n"@, ..ch }),
                in_fence,
                ..r
            },
            (None, None) => Reading { in_fence, ..r },
        }
    }
}

/// The manual after the given lines.
pub open spec fn read_lines(lines: Seq<Seq<char>>) -> Reading
    decreases lines.len(),
{
    if lines.len() == 0 {
        Reading { done: seq![], chapter: None, section: None, in_fence: false }
    } else {
        read_line(read_lines(lines.drop_last()), lines.last())
    }
}

/// The chapters of a manual.
pub open spec fn book(md: Seq<char>) -> Seq<ChapterView> {
    closed_up(read_lines(text::lines_of(md)))
}

fn close_chapter(chapters: &mut Vec<Chapter>, chapter: Chapter, section: Option<Section>)
    ensures
        chapter_views(final(chapters)@) == chapter_views(old(chapters)@).push(
            with_section(
                chapter@,
                match section {
                    Some(s) => Some(s@),
                    None => None,
                },
            ),
        ),
{
    let done = add_section(chapter, section);
    chapters.push(done);
    assert(chapter_views(chapters@) =~= chapter_views(old(chapters)@).push(done@));
}

fn add_section(chapter: Chapter, section: Option<Section>) -> (r: Chapter)
    ensures
        r@ == with_section(
            chapter@,
            match section {
                Some(s) => Some(s@),
                None => None,
            },
        ),
{
    let mut ch = chapter;
    match section {
        Some(s) => {
            let ghost before = ch.sections@;
            ch.sections.push(s);
            assert(section_views(ch.sections@) =~= section_views(before).push(s@));
        },
        None => {},
    }
    ch
}

/// The view of an open chapter.
pub open spec fn chapter_view(c: Option<Chapter>) -> Option<ChapterView> {
    match c {
        Some(ch) => Some(ch@),
        None => None,
    }
}

/// The view of an open section.
pub open spec fn section_view(s: Option<Section>) -> Option<SectionView> {
    match s {
        Some(sec) => Some(sec@),
        None => None,
    }
}

/// Reads a manual into chapters and sections.
pub fn parse(md: &str) -> (r: Vec<Chapter>)
    ensures
        chapter_views(r@) == book(md@),
{
    let lines = text::lines(md);
    let ghost all = text::lines_of(md@);
    let mut chapters: Vec<Chapter> = Vec::new();
    let mut in_fence: bool = false;
    let mut chapter: Option<Chapter> = None;
    let mut section: Option<Section> = None;
    let mut i: usize = 0;
    assert(chapter_views(chapters@) =~= seq![]);
    while i < lines.len()
        invariant
            i <= lines@.len(),
            text::slices(lines@) == all,
            all.len() == lines@.len(),
            ({
                let now = read_lines(all.take(i as int));
                &&& chapter_views(chapters@) == now.done
                &&& chapter_view(chapter) == now.chapter
                &&& section_view(section) == now.section
                &&& in_fence == now.in_fence
            }),
        decreases lines@.len() - i,
    {
        let line: &str = lines[i];
        proof {
            assert(line@ == all[i as int]);
            assert(all.take(i + 1).drop_last() =~= all.take(i as int));
        }
        let t: &str = text::trim_front(line);
        if text::starts_with(t, "```") || text::starts_with(t, "~~~") {
            in_fence = !in_fence;
        }
        let level: usize = if in_fence {
            0
        } else {
            heading_level(line)
        };
        if level == 1 {
            match chapter {
                Some(ch) => {
                    close_chapter(&mut chapters, ch, section);
                    section = None;
                },
                None => {},
            }
            let n: usize = line.unicode_len();
            let fresh = Chapter {
                title: clean_chapter_title(text::trim(line.substring_char(1, n))),
                preamble: String::new(),
                sections: Vec::new(),
            };
            assert(section_views(fresh.sections@) =~= seq![]);
            chapter = Some(fresh);
        } else if level == 2 {
            chapter = match chapter {
                Some(ch) => Some(add_section(ch, section)),
                None => None,
            };
            let n: usize = line.unicode_len();
            section = Some(
                Section {
                    title: text::trim(line.substring_char(2, n)).to_owned(),
                    body: String::new(),
                },
            );
        } else {
            match section {
                Some(s) => {
                    let mut sec = s;
                    sec.body.append(line);
                    sec.body.append("\n");
                    section = Some(sec);
                },
                None => {
                    section = None;
                    match chapter {
                        Some(c) => {
                            let mut ch = c;
                            ch.preamble.append(line);
                            ch.preamble.append("\n");
                            chapter = Some(ch);
                        },
                        None => {
                            chapter = None;
                        },
                    }
                },
            }
        }
        i += 1;
    }
    assert(all.take(i as int) =~= all);
    match chapter {
        Some(ch) => {
            close_chapter(&mut chapters, ch, section);
        },
        None => {},
    }
    chapters
}

/// The chapters of the manual's text.
pub fn load(manual: &str) -> (r: Vec<Chapter>)
    ensures
        chapter_views(r@) == book(manual@),
{
    parse(manual)
}

/// Inside a fenced block no line opens a chapter or a section.
pub proof fn fenced_lines_are_no_headings(r: Reading, line: Seq<char>)
    requires
        r.in_fence,
        !is_fence(line),
    ensures
        read_line(r, line).done == r.done,
        read_line(r, line).in_fence,
        r.chapter is Some <==> read_line(r, line).chapter is Some,
        r.section is Some <==> read_line(r, line).section is Some,
{
}

/// Hashes and a blank make a heading of as many hashes; without the blank there
/// is none.
pub proof fn hashes_make_the_level(k: nat, c: char, rest: Seq<char>)
    requires
        c != '#',
        k > 0,
    ensures
        ({
            let line = text::repeat('#', k) + seq![c] + rest;
            &&& c == ' ' ==> level_of(line) == k
            &&& c != ' ' ==> level_of(line) == 0
        }),
{
    let line = text::repeat('#', k) + seq![c] + rest;
    count_of_hashes(k, c, rest);
    assert(line[k as int] == c);
}

proof fn count_of_hashes(k: nat, c: char, rest: Seq<char>)
    requires
        c != '#',
    ensures
        hashes(text::repeat('#', k) + seq![c] + rest) == k,
    decreases k,
{
    let line = text::repeat('#', k) + seq![c] + rest;
    if k == 0 {
        assert(line[0] == c);
    } else {
        assert(line[0] == '#');
        assert(line.drop_first() =~= text::repeat('#', (k - 1) as nat) + seq![c] + rest);
        count_of_hashes((k - 1) as nat, c, rest);
    }
}

/// Outside of a fence a heading of the first level ends the chapter before it and
/// opens one, and one of the second opens a section.
pub proof fn headings_open_parts(r: Reading, line: Seq<char>)
    requires
        !is_fence(line),
        !r.in_fence,
    ensures
        level_of(line) == 1 ==> ({
            let n = read_line(r, line);
            &&& n.chapter is Some && n.chapter->0.sections.len() == 0 && n.chapter->0.preamble.len()
                == 0
            &&& n.chapter->0.title == listed_title(text::trimmed(text::after(line, 1)))
            &&& n.done == closed_up(r)
            &&& r.chapter is Some ==> n.section is None
        }),
        level_of(line) == 2 ==> ({
            let n = read_line(r, line);
            &&& n.section is Some && n.section->0.body.len() == 0
            &&& n.section->0.title == text::trimmed(text::after(line, 2))
            &&& n.done == r.done
            &&& r.chapter is Some && r.section is Some ==> n.chapter is Some
                && n.chapter->0.sections == r.chapter->0.sections.push(r.section->0)
        }),
        level_of(line) != 1 && level_of(line) != 2 ==> read_line(r, line).done == r.done,
{
}

/// A line that is no heading goes to the open section, else to the chapter before
/// its first section, else nowhere; only a fence opens or closes a fence.
pub proof fn lines_go_to_the_open_part(r: Reading, line: Seq<char>)
    requires
        r.in_fence || level_of(line) != 1 && level_of(line) != 2,
    ensures
        read_line(r, line).in_fence == (r.in_fence != is_fence(line)),
        !is_fence(line) ==> ({
            let n = read_line(r, line);
            &&& r.section matches Some(s) ==> n.section is Some && n.section->0.body == s.body + line
                + "\n"@ && n.section->0.title == s.title
            &&& r.section is None ==> (r.chapter matches Some(c) ==> n.chapter is Some
                && n.chapter->0.preamble == c.preamble + line + "\n"@)
            &&& r.section is None && r.chapter is None ==> n.section is None && n.chapter is None
            &&& n.done == r.done
        }),
{
}

/// The end of the book closes the open chapter with its open section.
pub proof fn end_closes_the_chapter(r: Reading)
    ensures
        r.chapter is None ==> closed_up(r) == r.done,
        r.chapter is Some ==> closed_up(r).len() == r.done.len() + 1 && closed_up(r).last().title
            == r.chapter->0.title,
        r.chapter is Some && r.section is Some ==> closed_up(r).last().sections
            == r.chapter->0.sections.push(r.section->0),
        r.chapter is Some && r.section is None ==> closed_up(r).last().sections
            == r.chapter->0.sections,
{
}

} // verus!
