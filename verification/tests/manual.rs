use arieltune::manual_data::parse_body;

const SAMPLE: &str = "\
```
── A68H FCH ─────────────────────────── Bolton-D2H · discrete southbridge ──

A discrete AMD A68H southbridge, tied to the APU over a UMI x4 link.

┌─ CHIPSET ────────────────────────────────────────────────┐
│  Part             AMD A68H — Bolton-D2H, 65 nm   vendor 1022  │
│  Uplink           UMI x4 (PCIe 2.0-based)                     │
└───────────────────────────────────────────────────────────┘

See: Chapter 2 · Subsystem Internals — Chapter 3 · Security
```
";

#[test]
fn parses_tagline_prose_block_and_refs() {
    let p = parse_body(SAMPLE);
    assert_eq!(p.tagline, "Bolton-D2H · discrete southbridge");
    assert!(p.prose.contains("discrete AMD A68H southbridge"));
    assert_eq!(p.blocks.len(), 1);
    let b = &p.blocks[0];
    assert_eq!(b.label, "CHIPSET");
    assert_eq!(b.kind, "list");
    assert_eq!(
        b.rows[0],
        vec!["Part", "AMD A68H — Bolton-D2H, 65 nm", "vendor 1022"]
    );
    assert_eq!(b.rows[1], vec!["Uplink", "UMI x4 (PCIe 2.0-based)"]);
    assert!(b.text.contains("Part") && b.text.contains("Uplink"));
    assert_eq!(
        p.cross_refs,
        vec!["Chapter 2 · Subsystem Internals", "Chapter 3 · Security"]
    );
}

#[test]
fn grid_table_splits_on_bars() {
    let body = "\
```
┌──────────┬─────────┬──────────┐
│  Chipset │ SATA    │ USB 3.0  │
├──────────┼─────────┼──────────┤
│  A68H    │ 4× 6G   │ 2        │
└──────────┴─────────┴──────────┘
```
";
    let p = parse_body(body);
    assert_eq!(p.blocks.len(), 1);
    assert_eq!(p.blocks[0].kind, "grid");
    assert_eq!(p.blocks[0].rows[0], vec!["Chipset", "SATA", "USB 3.0"]);
    assert_eq!(p.blocks[0].rows[1], vec!["A68H", "4× 6G", "2"]);
}

use arieltune::manual_book;
use arieltune::manual_data::{
    box_label, chapter_num, collapse_blanks, header_tagline, integrity, load, slug, split_on_gaps,
    split_row, strip_borders,
};

const BOOK: &str = "\
# 1. Hardware

Intro.

## A68H FCH

Text about it.

```
# not a heading
```

## GPU

More.

# 2. Software

## GPU

Drivers.
";

#[test]
fn chapters_and_sections_are_split_at_headings() {
    let c = manual_book::parse(BOOK);
    assert_eq!(c.len(), 2);
    assert_eq!(c[0].sections.len(), 2);
    assert_eq!(c[0].sections[0].title, "A68H FCH");
    assert!(c[0].sections[0].body.contains("# not a heading"));
    assert!(c[0].preamble.contains("Intro."));
    assert_eq!(manual_book::heading_level("## x"), 2);
    assert_eq!(manual_book::heading_level("##x"), 0);
}

#[test]
fn records_have_stable_ids() {
    let s = load(BOOK);
    assert!(s.iter().any(|r| r.id == "ch1-a68h-fch"));
    assert!(s.iter().any(|r| r.id == "ch2-gpu"));
    assert_eq!(s[0].chapter_num, Some(1));
    assert!(integrity(&s).is_empty(), "{:?}", integrity(&s));
}

#[test]
fn repeated_and_empty_records_are_reported() {
    let s = load("# 1. X\n\n## A\n\nText.\n\n## A\n\n");
    let problems = integrity(&s);
    assert!(problems.iter().any(|p| p.contains("is empty")));
}

#[test]
fn small_readers() {
    assert_eq!(slug("A68H FCH (x86!) — southbridge"), "a68h-fch-x86");
    assert_eq!(chapter_num("12. Y"), Some(12));
    assert_eq!(chapter_num("Preface"), None);
    assert_eq!(split_on_gaps("a b   c  d"), vec!["a b", "c", "d"]);
    assert_eq!(box_label("┌─ CHIPSET ───┐"), "CHIPSET");
    assert_eq!(header_tagline("── A ─── b · c ──"), "b · c");
    assert_eq!(strip_borders("│  a  │").map(|s| s.trim().to_string()), Some("a".to_string()));
    assert_eq!(split_row("│ a │ b │", true), Some(vec!["a".to_string(), "b".to_string()]));
    let lines: Vec<String> = ["a", "", "", "b", ""].iter().map(|s| s.to_string()).collect();
    assert_eq!(collapse_blanks(&lines), "a\n\nb");
}
