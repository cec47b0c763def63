//! Board identity and how far the firmware is trusted.
//!
//! A BC-250 is told first by its APU and then by what the firmware says of the
//! board. The firmware's version decides which writes are let through.
use vstd::prelude::*;

use crate::text;

verus! {

/// The APU's silicon family.
#[derive(Clone, Copy, Debug, PartialEq, Eq, Structural)]
pub enum ApuFamily {
    CyanSkillfish,
}

/// The board that carries the APU.
#[derive(Clone, Copy, Debug, PartialEq, Eq, Structural)]
pub enum BoardProfile {
    Bc250,
}

/// An APU on its board.
#[derive(Clone, Copy, Debug, PartialEq, Eq, Structural)]
pub struct ApuBoard {
    pub family: ApuFamily,
    pub profile: BoardProfile,
}

/// How far the catalogue is trusted against the running firmware.
#[derive(Clone, Copy, Debug, PartialEq, Eq, Structural)]
pub enum Compat {
    /// A firmware version that was proven.
    Verified,
    /// A version of the same scheme that was not.
    ProbableAsrock,
    /// A BC-250 with an unrecognised firmware.
    UnknownBios,
    /// Another board.
    NotBc250,
}

/// How a write reaches the firmware.
#[derive(Clone, Copy, Debug, PartialEq, Eq, Structural)]
pub enum WriteClass {
    /// Through the firmware, recoverable by clearing its variables.
    EfiVar,
    /// Straight into flash at a catalogue offset.
    FlashClass,
}

/// Whether a write is let through.
#[derive(Debug)]
pub enum Gate {
    Allow,
    /// Go on, with this warning.
    Warn(String),
    /// Refuse unless forced.
    RequireForce(String),
    /// Refuse in any case.
    Refuse(String),
}

/// The identity that the firmware reports.
#[derive(Debug)]
pub struct Board {
    pub product: String,
    pub bios_vendor: String,
    pub bios_version: String,
    pub compat: Compat,
}

/// The name is one of the BC-250's, in any case.
pub open spec fn names_bc250(s: Seq<char>) -> bool {
    let u = text::upper(s);
    text::occurs(u, "BC-250"@) || text::occurs(u, "BC250"@) || text::occurs(u, "4U12G"@)
}

fn hits_bc250(s: &str) -> (r: bool)
    ensures
        r == names_bc250(s@),
{
    let u = text::uppercase(s);
    text::contains(u.as_str(), "BC-250") || text::contains(u.as_str(), "BC250") || text::contains(
        u.as_str(),
        "4U12G",
    )
}

/// Whether the product or the board name is one of the BC-250's.
pub fn is_bc250_dmi(product: &str, board: &str) -> (r: bool)
    ensures
        r == (names_bc250(product@) || names_bc250(board@)),
{
    hits_bc250(product) || hits_bc250(board)
}

/// A version of the board vendor's scheme: `P`, a number, a dot, a number of
/// which the first two characters count.
pub open spec fn asrock_scheme(v: Seq<char>) -> bool {
    let t = text::trimmed(v);
    &&& t.len() > 0
    &&& t[0] == 'P' || t[0] == 'p'
    &&& exists|i: int| #[trigger] dotted_at(t, i)
}

/// The number before the first dot ends at `i`, and something follows the dot.
pub open spec fn dotted_at(t: Seq<char>, i: int) -> bool {
    &&& 1 < i < t.len() - 1
    &&& t[i] == '.'
    &&& text::all_digits(t.subrange(1, i))
    &&& text::all_digits(t.subrange(i + 1, if i + 3 < t.len() { i + 3 } else { t.len() as int }))
}

/// Whether a version is of the board vendor's scheme.
pub fn is_asrock_version(v: &str) -> (r: bool)
    ensures
        r == asrock_scheme(v@),
{
    let t: &str = text::trim(v);
    let x = text::chars_of(t);
    let n: usize = x.len();
    if n == 0 || !(x[0] == 'P' || x[0] == 'p') {
        return false;
    }
    let mut i: usize = 1;
    while i < n && x[i] != '.'
        invariant
            x@ == t@,
            n == x@.len(),
            1 <= i <= n,
            forall|j: int| 1 <= j < i ==> #[trigger] x@[j] != '.',
        decreases n - i,
    {
        i += 1;
    }
    proof {
        // A dotted position is the first dot: all before it are digits.
        assert forall|k: int| #[trigger] dotted_at(t@, k) implies k == i by {
            if k > i {
                assert(t@.subrange(1, k)[i - 1] == t@[i as int]);
                assert(text::code('.') == 46);
            }
        }
    }
    if i >= n || i == 1 || i + 1 >= n {
        return false;
    }
    let end: usize = if n - i > 3 {
        i + 3
    } else {
        n
    };
    let r: bool = text::only_digits(t.substring_char(1, i)) && text::only_digits(
        t.substring_char(i + 1, end),
    );
    assert(r == dotted_at(t@, i as int));
    r
}

/// The version contains one of the proven ones, in any case.
pub open spec fn proven_version(version: Seq<char>) -> bool {
    let u = text::upper(version);
    text::occurs(u, "P2.00"@) || text::occurs(u, "P3.00"@) || text::occurs(u, "P5.00"@)
}

/// The verdict on a board's identity.
pub open spec fn verdict(product: Seq<char>, board: Seq<char>, version: Seq<char>) -> Compat {
    if !(names_bc250(product) || names_bc250(board)) {
        Compat::NotBc250
    } else if proven_version(version) {
        Compat::Verified
    } else if asrock_scheme(version) {
        Compat::ProbableAsrock
    } else {
        Compat::UnknownBios
    }
}

/// Judges a board by its product name, board name and firmware version.
pub fn classify(product: &str, board: &str, version: &str) -> (r: Compat)
    ensures
        r == verdict(product@, board@, version@),
{
    if !is_bc250_dmi(product, board) {
        return Compat::NotBc250;
    }
    let u = text::uppercase(version);
    if text::contains(u.as_str(), "P2.00") || text::contains(u.as_str(), "P3.00")
        || text::contains(u.as_str(), "P5.00") {
        Compat::Verified
    } else if is_asrock_version(version) {
        Compat::ProbableAsrock
    } else {
        Compat::UnknownBios
    }
}

/// The texts of the firmware's identity nodes; `None` where unreadable.
#[derive(Debug)]
pub struct DmiNodes {
    pub product_name: Option<String>,
    pub board_name: Option<String>,
    pub bios_version: Option<String>,
    pub bios_vendor: Option<String>,
}

/// A node's text without the space around it; empty where unreadable.
pub open spec fn node_text(t: Option<String>) -> Seq<char> {
    match t {
        Some(s) => text::trimmed(s@),
        None => seq![],
    }
}

fn dmi(t: &Option<String>) -> (r: String)
    ensures
        r@ == node_text(*t),
{
    match t {
        Some(s) => text::trim(s.as_str()).to_owned(),
        None => String::new(),
    }
}

/// The board's identity and the verdict on it.
pub fn detect_bios(nodes: &DmiNodes) -> (r: Board)
    ensures
        r.product@ == node_text(nodes.product_name),
        r.bios_vendor@ == node_text(nodes.bios_vendor),
        r.bios_version@ == node_text(nodes.bios_version),
        r.compat == verdict(
            node_text(nodes.product_name),
            node_text(nodes.board_name),
            node_text(nodes.bios_version),
        ),
{
    let product = dmi(&nodes.product_name);
    let board = dmi(&nodes.board_name);
    let bios_version = dmi(&nodes.bios_version);
    let bios_vendor = dmi(&nodes.bios_vendor);
    let compat = classify(product.as_str(), board.as_str(), bios_version.as_str());
    Board { product, bios_vendor, bios_version, compat }
}

/// The verdict on the running host's identity.
pub fn classify_running(nodes: &DmiNodes) -> (r: Compat)
    ensures
        r == verdict(
            node_text(nodes.product_name),
            node_text(nodes.board_name),
            node_text(nodes.bios_version),
        ),
{
    detect_bios(nodes).compat
}

/// The board is a BC-250: its APU is present and its identity does not say
/// otherwise. An identity that cannot be read says nothing.
pub open spec fn is_board(apu: bool, compat: Compat, dmi_readable: bool) -> bool {
    apu && !(compat == Compat::NotBc250 && dmi_readable)
}

/// The APU and its board, where it is a BC-250.
pub fn detect(apu_present: bool, compat: Compat, dmi_readable: bool) -> (r: Option<ApuBoard>)
    ensures
        r == (if is_board(apu_present, compat, dmi_readable) {
            Some(ApuBoard { family: ApuFamily::CyanSkillfish, profile: BoardProfile::Bc250 })
        } else {
            None
        }),
{
    if !apu_present {
        return None;
    }
    if compat == Compat::NotBc250 && dmi_readable {
        return None;
    }
    Some(ApuBoard { family: ApuFamily::CyanSkillfish, profile: BoardProfile::Bc250 })
}

/// Whether this host is a BC-250.
pub fn is_bc250(apu_present: bool, compat: Compat, dmi_readable: bool) -> (r: bool)
    ensures
        r == is_board(apu_present, compat, dmi_readable),
{
    detect(apu_present, compat, dmi_readable).is_some()
}

impl Compat {
    /// The verdict in words.
    pub open spec fn words(self) -> Seq<char> {
        match self {
            Compat::Verified => "verified (offsets proven on this BIOS)"@,
            Compat::ProbableAsrock => "probable (ASRock BC-250, version not explicitly tested)"@,
            Compat::UnknownBios => "UNKNOWN BIOS (offsets may not match this firmware)"@,
            Compat::NotBc250 => "NOT a BC-250 board"@,
        }
    }

    /// The verdict in words.
    pub fn label(self) -> (r: &'static str)
        ensures
            r@ == self.words(),
    {
        match self {
            Compat::Verified => "verified (offsets proven on this BIOS)",
            Compat::ProbableAsrock => "probable (ASRock BC-250, version not explicitly tested)",
            Compat::UnknownBios => "UNKNOWN BIOS (offsets may not match this firmware)",
            Compat::NotBc250 => "NOT a BC-250 board",
        }
    }

    /// Whether a write of a class is let through on such a board: never on
    /// another board; on an unknown firmware only where forced; into flash on an
    /// unproven one with a warning.
    pub fn gate(self, class: WriteClass) -> (r: Gate)
        ensures
            match (self, class) {
                (Compat::Verified, _) => r is Allow,
                (Compat::ProbableAsrock, WriteClass::EfiVar) => r is Allow,
                (Compat::ProbableAsrock, WriteClass::FlashClass) => r matches Gate::Warn(m) && m@
                    == "BIOS version not one of the explicitly-tested P2/P3/P5 — offsets are near-certain to match (same ASRock BC-250 IFR family) but unverified. Have a flash backup before applying."@,
                (Compat::UnknownBios, WriteClass::EfiVar) => r matches Gate::RequireForce(m) && m@
                    == "unrecognised BIOS: catalogue offsets are unverified against this firmware. An AmdSetup write is NVRAM-clear recoverable, but re-run with --force to accept the risk."@,
                (Compat::UnknownBios, WriteClass::FlashClass) => r matches Gate::RequireForce(m)
                    && m@
                    == "unrecognised BIOS: a flash-class write (SMM/flashrom) at an unverified offset is BRICK-CLASS on this firmware. Only proceed with --force if you have an external SPI programmer to recover."@,
                (Compat::NotBc250, _) => r matches Gate::Refuse(m) && m@
                    == "this is not a BC-250 board — the BC-250 catalogue offsets are meaningless here and a write could brick it. Refusing."@,
            },
    {
        match self {
            Compat::Verified => Gate::Allow,
            Compat::ProbableAsrock => match class {
                WriteClass::EfiVar => Gate::Allow,
                WriteClass::FlashClass => Gate::Warn(
                    "BIOS version not one of the explicitly-tested P2/P3/P5 — offsets are near-certain to match (same ASRock BC-250 IFR family) but unverified. Have a flash backup before applying.".to_owned(),
                ),
            },
            Compat::UnknownBios => match class {
                WriteClass::EfiVar => Gate::RequireForce(
                    "unrecognised BIOS: catalogue offsets are unverified against this firmware. An AmdSetup write is NVRAM-clear recoverable, but re-run with --force to accept the risk.".to_owned(),
                ),
                WriteClass::FlashClass => Gate::RequireForce(
                    "unrecognised BIOS: a flash-class write (SMM/flashrom) at an unverified offset is BRICK-CLASS on this firmware. Only proceed with --force if you have an external SPI programmer to recover.".to_owned(),
                ),
            },
            Compat::NotBc250 => Gate::Refuse(
                "this is not a BC-250 board — the BC-250 catalogue offsets are meaningless here and a write could brick it. Refusing.".to_owned(),
            ),
        }
    }
}

// ---------------------------------------------------------------------------
// Laws

/// The case of letters does not matter to a name or to a firmware version.
pub proof fn case_does_not_matter(a: Seq<char>, b: Seq<char>)
    requires
        text::upper(a) == text::upper(b),
    ensures
        names_bc250(a) == names_bc250(b),
        proven_version(a) == proven_version(b),
{
}

/// A board's product name and board name count alike, and one that names a
/// BC-250 is enough.
pub proof fn either_name_is_enough(a: Seq<char>, b: Seq<char>, version: Seq<char>)
    ensures
        verdict(a, b, version) == verdict(b, a, version),
        names_bc250(a) ==> verdict(a, b, version) != Compat::NotBc250,
        !names_bc250(a) && !names_bc250(b) ==> verdict(a, b, version) == Compat::NotBc250,
{
}

/// On a BC-250 a proven version is verified whatever else it looks like, one of
/// the vendor's scheme is probable, and any other is unknown.
pub proof fn version_decides_the_trust(a: Seq<char>, b: Seq<char>, version: Seq<char>)
    requires
        names_bc250(a) || names_bc250(b),
    ensures
        verdict(a, b, version) == Compat::Verified <==> proven_version(version),
        verdict(a, b, version) == Compat::ProbableAsrock <==> asrock_scheme(version)
            && !proven_version(version),
        verdict(a, b, version) == Compat::UnknownBios <==> !asrock_scheme(version)
            && !proven_version(version),
{
}

/// Each of the three names is found wherever it stands in an upper-case text,
/// and so is each of the three proven versions.
pub proof fn names_are_found_anywhere(before: Seq<char>, behind: Seq<char>)
    ensures
        text::upper(before + "BC-250"@ + behind) == before + "BC-250"@ + behind ==> names_bc250(
            before + "BC-250"@ + behind,
        ),
        text::upper(before + "BC250"@ + behind) == before + "BC250"@ + behind ==> names_bc250(
            before + "BC250"@ + behind,
        ),
        text::upper(before + "4U12G"@ + behind) == before + "4U12G"@ + behind ==> names_bc250(
            before + "4U12G"@ + behind,
        ),
        text::upper(before + "P2.00"@ + behind) == before + "P2.00"@ + behind ==> proven_version(
            before + "P2.00"@ + behind,
        ),
        text::upper(before + "P3.00"@ + behind) == before + "P3.00"@ + behind ==> proven_version(
            before + "P3.00"@ + behind,
        ),
        text::upper(before + "P5.00"@ + behind) == before + "P5.00"@ + behind ==> proven_version(
            before + "P5.00"@ + behind,
        ),
{
    text::part_occurs(before, "BC-250"@, behind);
    text::part_occurs(before, "BC250"@, behind);
    text::part_occurs(before, "4U12G"@, behind);
    text::part_occurs(before, "P2.00"@, behind);
    text::part_occurs(before, "P3.00"@, behind);
    text::part_occurs(before, "P5.00"@, behind);
}

/// Without the APU no board is a BC-250. With it, a board is one unless an
/// identity that could be read says otherwise.
pub proof fn apu_comes_first(compat: Compat, readable: bool)
    ensures
        !is_board(false, compat, readable),
        is_board(true, compat, false),
        compat != Compat::NotBc250 ==> is_board(true, compat, readable),
        !is_board(true, Compat::NotBc250, true),
{
}

/// A version of the vendor's scheme begins with a P, and what follows its first
/// two decimals does not matter.
pub proof fn scheme_goes_by_two_decimals(t: Seq<char>, i: int, tail: Seq<char>)
    requires
        dotted_at(t, i),
        i + 3 <= t.len(),
    ensures
        dotted_at(t + tail, i),
{
    let u = t + tail;
    assert(u.subrange(1, i) =~= t.subrange(1, i));
    assert(u.subrange(i + 1, i + 3) =~= t.subrange(i + 1, i + 3));
}

/// A version of the vendor's scheme begins with a P of either case and has its
/// dotted number behind it, white space around it aside.
pub proof fn scheme_begins_with_a_letter(v: Seq<char>, i: int)
    ensures
        ({
            let t = text::trimmed(v);
            &&& t.len() > 0 && t[0] == 'P' && dotted_at(t, i) ==> asrock_scheme(v)
            &&& t.len() > 0 && t[0] == 'p' && dotted_at(t, i) ==> asrock_scheme(v)
            &&& t.len() > 0 && t[0] != 'P' && t[0] != 'p' ==> !asrock_scheme(v)
            &&& t.len() == 0 ==> !asrock_scheme(v)
        }),
{
}

} // verus!
