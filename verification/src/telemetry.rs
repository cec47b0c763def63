//! Reading what the kernel publishes about the GPU, the board and the fan.
//!
//! Every function takes the text or the bytes of a node that was read and says
//! what it means; none reads or writes a node itself.
use vstd::prelude::*;

use crate::double::Double;
use crate::ocq3::{clamp, clamp_u32};
use crate::smu;
use crate::text;

verus! {

// ---------------------------------------------------------------------------
// Activity

/// What one word of the fence table adds to the sum: a hexadecimal number
/// behind `0x`, nothing otherwise.
pub open spec fn fence_value(word: Seq<char>) -> int {
    if text::begins(word, "0x"@) {
        match text::number(text::after(word, 2), 16, u64::MAX as int) {
            Some(v) => v,
            None => 0,
        }
    } else {
        0
    }
}

/// The sum over the words of a fence table.
pub open spec fn fence_total(words: Seq<Seq<char>>) -> int
    decreases words.len(),
{
    if words.len() == 0 {
        0
    } else {
        fence_total(words.drop_last()) + fence_value(words.last())
    }
}

/// Sum of all fence numbers of the rings, modulo the width of the counter. Only
/// the difference of two readings means something: the activity.
pub fn fence_sum(txt: &str) -> (r: u64)
    ensures
        r == fence_total(text::words_of(txt@)) % 0x1_0000_0000_0000_0000,
{
    let words = text::words(txt);
    let ghost all = text::words_of(txt@);
    let mut sum: u64 = 0;
    let mut i: usize = 0;
    proof {
        reveal_strlit("0x");
    }
    while i < words.len()
        invariant
            i <= words@.len(),
            text::slices(words@) == all,
            all.len() == words@.len(),
            "0x"@.len() == 2,
            sum == fence_total(all.take(i as int)) % 0x1_0000_0000_0000_0000,
        decreases words@.len() - i,
    {
        let word: &str = words[i];
        assert(word@ == all[i as int]);
        assert(all.take(i + 1).drop_last() =~= all.take(i as int));
        match text::strip_prefix(word, "0x") {
            Some(hex) => match text::parse_number(hex, 16, u64::MAX) {
                Some(v) => {
                    let ghost before = fence_total(all.take(i as int));
                    sum = sum.wrapping_add(v);
                    assert(fence_total(all.take(i + 1)) == before + v);
                },
                None => {},
            },
            None => {},
        }
        i += 1;
    }
    assert(all.take(i as int) =~= all);
    sum
}

// ---------------------------------------------------------------------------
// Sensors

/// A number as the sensor nodes print it.
pub open spec fn node_number(txt: Seq<char>) -> Option<int> {
    text::signed_number(text::trimmed(txt), i64::MIN as int, i64::MAX as int)
}

/// Reads a sensor node's number.
pub fn read_num(txt: &str) -> (r: Option<i64>)
    ensures
        r is Some <==> node_number(txt@) is Some,
        r is Some ==> node_number(txt@) == Some(r->0 as int),
{
    text::parse_i64(text::trim(txt))
}

/// A sensor directory: the text of its name node and its files with their
/// numbers, where there are any.
#[derive(Debug)]
pub struct SensorDir {
    pub name: String,
    pub files: Vec<(String, Option<Double>)>,
}

/// The name of a temperature input.
pub open spec fn temp_input(name: Seq<char>) -> bool {
    text::begins(name, "temp"@) && text::ends(name, "_input"@)
}

/// Whether a file of a sensor directory is a temperature input.
pub fn is_temp_input(name: &str) -> (r: bool)
    ensures
        r == temp_input(name@),
{
    text::starts_with(name, "temp") && text::ends_with(name, "_input")
}

/// The value of a temperature input, in thousandths of a degree.
pub open spec fn temp_value(file: (String, Option<Double>)) -> Option<Double> {
    if temp_input(file.0@) {
        file.1
    } else {
        None
    }
}

/// The higher of a reading and the highest so far.
pub open spec fn hotter(best: Option<Double>, now: Option<Double>) -> Option<Double> {
    match (best, now) {
        (Some(b), Some(n)) => Some(b.greater(n)),
        (Some(b), None) => Some(b),
        (None, n) => n,
    }
}

/// The higher of a number and the highest so far.
pub open spec fn higher(best: Option<int>, now: Option<int>) -> Option<int> {
    match (best, now) {
        (Some(b), Some(n)) => Some(if n > b { n } else { b }),
        (Some(b), None) => Some(b),
        (None, n) => n,
    }
}

/// The highest temperature input of a directory.
pub open spec fn hottest(files: Seq<(String, Option<Double>)>) -> Option<Double>
    decreases files.len(),
{
    if files.len() == 0 {
        None
    } else {
        hotter(hottest(files.drop_last()), temp_value(files.last()))
    }
}

/// The highest temperature of the first GPU directory that has one.
pub open spec fn junction(dirs: Seq<SensorDir>) -> Option<Double>
    decreases dirs.len(),
{
    if dirs.len() == 0 {
        None
    } else if text::trimmed(dirs[0].name@) == "amdgpu"@ && hottest(dirs[0].files@) is Some {
        hottest(dirs[0].files@)
    } else {
        junction(dirs.drop_first())
    }
}

fn hottest_input(files: &Vec<(String, Option<Double>)>) -> (r: Option<Double>)
    ensures
        r == hottest(files@),
{
    let mut best: Option<Double> = None;
    let mut i: usize = 0;
    while i < files.len()
        invariant
            i <= files@.len(),
            best == hottest(files@.take(i as int)),
        decreases files@.len() - i,
    {
        assert(files@.take(i + 1).drop_last() =~= files@.take(i as int));
        let file = &files[i];
        if is_temp_input(file.0.as_str()) {
            if let Some(now) = file.1 {
                best = match best {
                    Some(b) => Some(b.max(now)),
                    None => Some(now),
                };
            }
        }
        i += 1;
    }
    assert(files@.take(i as int) =~= files@);
    best
}

/// Hottest GPU sensor in thousandths of a degree: the highest temperature input
/// of the first GPU directory with a readable one.
pub fn junction_temp_mc(dirs: &Vec<SensorDir>) -> (r: Option<Double>)
    ensures
        r == junction(dirs@),
{
    let mut i: usize = 0;
    assert(dirs@.skip(0) =~= dirs@);
    while i < dirs.len()
        invariant
            i <= dirs@.len(),
            junction(dirs@.skip(i as int)) == junction(dirs@),
        decreases dirs@.len() - i,
    {
        assert(dirs@.skip(i as int).drop_first() =~= dirs@.skip(i + 1));
        let d = &dirs[i];
        if text::same(text::trim(d.name.as_str()), "amdgpu") {
            let h = hottest_input(&d.files);
            if h.is_some() {
                return h;
            }
        }
        i += 1;
    }
    None
}

/// Carrier-board sensors; what is not there is absent.
#[derive(Clone, Copy, Debug, PartialEq, Eq, Structural)]
pub struct Carrier {
    /// SoC temperature, in thousandths of a degree.
    pub soc_mc: Option<i64>,
    /// Hottest board thermistor, in thousandths of a degree.
    pub board_mc: Option<i64>,
    /// Fastest fan, in turns per minute.
    pub fan_rpm: Option<u32>,
    /// Duty of that fan, in percent.
    pub duty_pct: Option<u32>,
}

/// The greatest number present.
pub open spec fn greatest(v: Seq<Option<i64>>) -> Option<int>
    decreases v.len(),
{
    if v.len() == 0 {
        None
    } else {
        higher(
            greatest(v.drop_last()),
            match v.last() {
                Some(x) => Some(x as int),
                None => None,
            },
        )
    }
}

/// The speed that a channel reports; 0 where it reports none or stands still.
pub open spec fn rpm(reading: Option<i64>) -> int {
    match reading {
        Some(r) if r > 0 => r as int % 0x1_0000_0000,
        _ => 0,
    }
}

/// `ch` is the first of the fastest spinning channels.
pub open spec fn fastest(fans: Seq<Option<i64>>, ch: int) -> bool {
    &&& 0 <= ch < fans.len()
    &&& rpm(fans[ch]) > 0
    &&& forall|j: int| 0 <= j < ch ==> rpm(#[trigger] fans[j]) < rpm(fans[ch])
    &&& forall|j: int| ch <= j < fans.len() ==> rpm(#[trigger] fans[j]) <= rpm(fans[ch])
}

/// A duty of the fan controller (0 to 255) in percent, rounded down.
pub open spec fn duty_percent(pwm: int) -> int {
    clamp(pwm, 0, 255) * 100 / 255
}

/// The carrier sensors. `boards` are the board thermistors; `fans` and `pwms`
/// are the channels in order. Fan speed and duty describe the same channel: the
/// first of the fastest. Where nothing spins both are absent.
pub fn carrier(
    soc: Option<i64>,
    boards: &Vec<Option<i64>>,
    fans: &Vec<Option<i64>>,
    pwms: &Vec<Option<i64>>,
) -> (r: Carrier)
    requires
        pwms@.len() == fans@.len(),
    ensures
        r.soc_mc == soc,
        r.board_mc is Some <==> greatest(boards@) is Some,
        r.board_mc is Some ==> greatest(boards@) == Some(r.board_mc->0 as int),
        (forall|j: int| 0 <= j < fans@.len() ==> rpm(#[trigger] fans@[j]) == 0) ==> r.fan_rpm is None
            && r.duty_pct is None,
        forall|ch: int| #[trigger]
            fastest(fans@, ch) ==> {
                &&& r.fan_rpm == Some(rpm(fans@[ch]) as u32)
                &&& match pwms@[ch] {
                    Some(p) => r.duty_pct == Some(duty_percent(p as int) as u32),
                    None => r.duty_pct is None,
                }
            },
{
    let mut board: Option<i64> = None;
    let mut i: usize = 0;
    while i < boards.len()
        invariant
            i <= boards@.len(),
            board is Some <==> greatest(boards@.take(i as int)) is Some,
            board is Some ==> greatest(boards@.take(i as int)) == Some(board->0 as int),
        decreases boards@.len() - i,
    {
        assert(boards@.take(i + 1).drop_last() =~= boards@.take(i as int));
        if let Some(now) = boards[i] {
            board = match board {
                Some(b) => if now > b {
                    Some(now)
                } else {
                    Some(b)
                },
                None => Some(now),
            };
        }
        i += 1;
    }
    assert(boards@.take(i as int) =~= boards@);
    let mut best_rpm: u32 = 0;
    let mut best: usize = 0;
    let mut j: usize = 0;
    while j < fans.len()
        invariant
            j <= fans@.len(),
            best_rpm == 0 || best < j,
            best_rpm > 0 ==> best_rpm == rpm(fans@[best as int]),
            forall|k: int| 0 <= k < j ==> rpm(#[trigger] fans@[k]) <= best_rpm,
            best_rpm > 0 ==> forall|k: int| 0 <= k < best ==> rpm(#[trigger] fans@[k]) < best_rpm,
        decreases fans@.len() - j,
    {
        if let Some(r) = fans[j] {
            if r > 0 {
                let now: u32 = (r % 0x1_0000_0000) as u32;
                if now > best_rpm {
                    best_rpm = now;
                    best = j;
                }
            }
        }
        j += 1;
    }
    let mut out = Carrier { soc_mc: soc, board_mc: board, fan_rpm: None, duty_pct: None };
    if best_rpm > 0 {
        assert(fastest(fans@, best as int));
        out.fan_rpm = Some(best_rpm);
        if let Some(p) = pwms[best] {
            let held: u32 = if p < 0 {
                0
            } else if p > 255 {
                255
            } else {
                p as u32
            };
            out.duty_pct = Some(held * 100 / 255);
        }
        assert forall|ch: int| #[trigger] fastest(fans@, ch) implies ch == best by {
            assert(rpm(fans@[ch]) <= rpm(fans@[best as int]));
            assert(rpm(fans@[best as int]) <= best_rpm);
        }
    }
    out
}

/// The control mode of a fan channel from its node: 1 manual, 2 automatic.
pub fn fan_enable(value: Option<i64>) -> (r: Option<u8>)
    ensures
        r == (match value {
            Some(v) if 0 <= v <= 255 => Some(v as u8),
            _ => None,
        }),
{
    match value {
        Some(v) => if 0 <= v && v <= 255 {
            Some(v as u8)
        } else {
            None
        },
        None => None,
    }
}

/// A text to write to a node of the fan controller.
#[derive(Debug)]
pub struct NodeWrite {
    pub node: String,
    pub text: String,
}

/// The node and text of a write.
pub open spec fn write_view(w: NodeWrite) -> (Seq<char>, Seq<char>) {
    (w.node@, w.text@)
}

/// The writes that set a duty in percent (over 100 counts as 100), manual mode
/// first; without a percentage, those that hand the channel back to the
/// controller's own curve.
pub open spec fn duty_writes(channel: u8, pct: Option<u8>) -> Seq<(Seq<char>, Seq<char>)> {
    let node = "pwm"@ + text::dec(channel as nat);
    match pct {
        Some(p) => seq![
            (node + "_enable"@, "1\n"@),
            (node, text::dec((clamp(p as int, 0, 100) * 255 / 100) as nat) + "\n"@),
        ],
        None => seq![(node + "_enable"@, "2\n"@)],
    }
}

/// The writes that set the fan duty, in order; none where the writable driver
/// is not bound.
pub fn set_fan_duty(writable: bool, channel: u8, pct: Option<u8>) -> (r: Option<Vec<NodeWrite>>)
    ensures
        r is Some <==> writable,
        r is Some ==> (r->0)@.map_values(|w: NodeWrite| write_view(w)) == duty_writes(channel, pct),
{
    if !writable {
        return None;
    }
    let node = text::join2("pwm", text::decimal(channel as u64).as_str());
    let enable = text::join2(node.as_str(), "_enable");
    let mut out: Vec<NodeWrite> = Vec::new();
    match pct {
        Some(p) => {
            let held: u32 = if p > 100 {
                100
            } else {
                p as u32
            };
            let duty: u32 = held * 255 / 100;
            out.push(NodeWrite { node: enable, text: "1\n".to_owned() });
            out.push(
                NodeWrite { node, text: text::join2(text::decimal(duty as u64).as_str(), "\n") },
            );
        },
        None => {
            out.push(NodeWrite { node: enable, text: "2\n".to_owned() });
        },
    }
    assert(out@.map_values(|w: NodeWrite| write_view(w)) =~= duty_writes(channel, pct));
    Some(out)
}

/// GPU die temperature in hundredths of a degree from the metrics table: the
/// little-endian half-word at offset 4. A short table or a reading outside 5 to
/// 130 degrees counts as absent.
pub fn gfx_temp_centi(b: &Vec<u8>) -> (r: Option<u16>)
    ensures
        r == (if b@.len() >= 6 && 500 <= b@[4] + 256 * b@[5] < 13000 {
            Some((b@[4] + 256 * b@[5]) as u16)
        } else {
            None
        }),
{
    if b.len() < 6 {
        return None;
    }
    let t: u16 = b[4] as u16 + 256 * b[5] as u16;
    if 500 <= t && t < 13000 {
        Some(t)
    } else {
        None
    }
}

/// The rail voltage of the first GPU directory with a readable one.
pub open spec fn rail(dirs: Seq<(String, Option<String>)>) -> Option<int>
    decreases dirs.len(),
{
    if dirs.len() == 0 {
        None
    } else {
        let here = if text::trimmed(dirs[0].0@) == "amdgpu"@ && dirs[0].1 is Some {
            text::number(text::trimmed(dirs[0].1->0@), 10, u32::MAX as int)
        } else {
            None
        };
        if here is Some { here } else { rail(dirs.drop_first()) }
    }
}

/// Live GPU rail voltage in mV, from the name and voltage nodes of the sensor
/// directories in order.
pub fn vddgfx_mv(dirs: &Vec<(String, Option<String>)>) -> (r: Option<u32>)
    ensures
        r is Some <==> rail(dirs@) is Some,
        r is Some ==> rail(dirs@) == Some(r->0 as int),
{
    let mut i: usize = 0;
    assert(dirs@.skip(0) =~= dirs@);
    while i < dirs.len()
        invariant
            i <= dirs@.len(),
            rail(dirs@.skip(i as int)) == rail(dirs@),
        decreases dirs@.len() - i,
    {
        assert(dirs@.skip(i as int).drop_first() =~= dirs@.skip(i + 1));
        let d = &dirs[i];
        if text::same(text::trim(d.0.as_str()), "amdgpu") {
            if let Some(t) = &d.1 {
                let v = text::parse_u32(text::trim(t.as_str()));
                if v.is_some() {
                    return v;
                }
            }
        }
        i += 1;
    }
    None
}

// ---------------------------------------------------------------------------
// Overdrive

/// Why voltage writes would be inert.
#[derive(Debug)]
pub enum OverdriveError {
    /// The feature mask could not be read.
    NoModule,
    /// The feature mask is no hexadecimal number.
    BadMask { text: String },
    /// The overdrive bit is clear.
    Masked { mask: u32 },
    /// The bit is set and the node is missing.
    NoNode,
}

/// Whether the overdrive bit (bit 14) of a feature mask is set.
pub open spec fn overdrive_bit(mask: int) -> bool {
    (mask / 0x4000) % 2 == 1
}

/// The feature mask as the module parameter prints it.
pub open spec fn feature_mask(txt: Seq<char>) -> Option<int> {
    text::number(
        text::strip_all_front(text::trimmed(txt), "0x"@),
        16,
        u32::MAX as int,
    )
}

impl OverdriveError {
    /// The message shown to the operator.
    pub open spec fn text(&self) -> Seq<char> {
        match self {
            OverdriveError::NoModule => "amdgpu module not loaded (ppfeaturemask unreadable)"@,
            OverdriveError::BadMask { text } => "cannot parse amdgpu.ppfeaturemask: "@ + text@,
            OverdriveError::Masked { mask } =>
                "overdrive is disabled: PP_OVERDRIVE_MASK (bit 14, 0x4000) is cleared in amdgpu.ppfeaturemask (current 0x"@
                + text::hex_pad(*mask as nat, 8)
                + "), so pp_od_clk_voltage does not exist and every voltage write would be inert. Boot with amdgpu.ppfeaturemask=0x"@
                + text::hex_pad((*mask + 0x4000) as nat, 8) + " (current | 0x4000)."@,
            OverdriveError::NoNode =>
                "pp_od_clk_voltage not found despite the overdrive mask — is amdgpu up?"@,
        }
    }

    /// The message shown to the operator. A mask that lacks the bit is shown
    /// with the one to boot with, where it is set.
    pub fn message(&self) -> (r: String)
        ensures
            r@ == self.text(),
    {
        match self {
            OverdriveError::NoModule => {
                "amdgpu module not loaded (ppfeaturemask unreadable)".to_owned()
            },
            OverdriveError::BadMask { text } => text::join2(
                "cannot parse amdgpu.ppfeaturemask: ",
                text.as_str(),
            ),
            OverdriveError::Masked { mask } => {
                let mut r = text::join2(
                    "overdrive is disabled: PP_OVERDRIVE_MASK (bit 14, 0x4000) is cleared in amdgpu.ppfeaturemask (current 0x",
                    text::hexadecimal_padded(*mask as u64, 8).as_str(),
                );
                r.append(
                    "), so pp_od_clk_voltage does not exist and every voltage write would be inert. Boot with amdgpu.ppfeaturemask=0x",
                );
                r.append(text::hexadecimal_padded(*mask as u64 + 0x4000, 8).as_str());
                r.append(" (current | 0x4000).");
                r
            },
            OverdriveError::NoNode => {
                "pp_od_clk_voltage not found despite the overdrive mask — is amdgpu up?".to_owned()
            },
        }
    }
}

/// Whether voltage writes can work: the module's feature mask (`None` where
/// unreadable) has the overdrive bit and the overdrive node is there.
pub fn ensure_overdrive(mask_txt: Option<&str>, node_present: bool) -> (r: Result<
    (),
    OverdriveError,
>)
    ensures
        match mask_txt {
            None => r == Err::<(), OverdriveError>(OverdriveError::NoModule),
            Some(t) => match feature_mask(t@) {
                None => r matches Err(OverdriveError::BadMask { text }) && text@ == t@,
                Some(mask) => if !overdrive_bit(mask) {
                    r == Err::<(), OverdriveError>(OverdriveError::Masked { mask: mask as u32 })
                } else if !node_present {
                    r == Err::<(), OverdriveError>(OverdriveError::NoNode)
                } else {
                    r is Ok
                },
            },
        },
{
    match mask_txt {
        None => Err(OverdriveError::NoModule),
        Some(t) => match text::parse_number(
            text::trim_start_matches(text::trim(t), "0x"),
            16,
            0xFFFF_FFFF,
        ) {
            None => Err(OverdriveError::BadMask { text: t.to_owned() }),
            Some(mask) => {
                if (mask / 0x4000) % 2 != 1 {
                    Err(OverdriveError::Masked { mask: mask as u32 })
                } else if !node_present {
                    Err(OverdriveError::NoNode)
                } else {
                    Ok(())
                }
            },
        },
    }
}

/// What a scan of the overdrive table has found.
pub struct OdScan {
    pub sclk: Option<int>,
    pub vddc: Option<int>,
    /// The section: 1 clocks, 2 voltages, 0 any other.
    pub section: int,
}

/// The number behind the first colon of a trimmed line.
pub open spec fn od_value(t: Seq<char>) -> Option<int> {
    match text::after_first(t, ':') {
        Some(rest) => text::number(
            text::leading_digits(text::trimmed(rest)),
            10,
            u32::MAX as int,
        ),
        None => None,
    }
}

/// The scan after the given lines: a heading sets the section, a line with a
/// number sets that section's value.
pub open spec fn od_scan(lines: Seq<Seq<char>>) -> OdScan
    decreases lines.len(),
{
    if lines.len() == 0 {
        OdScan { sclk: None, vddc: None, section: 0 }
    } else {
        let before = od_scan(lines.drop_last());
        let t = text::trimmed(lines.last());
        if text::begins(t, "OD_SCLK"@) {
            OdScan { section: 1, ..before }
        } else if text::begins(t, "OD_VDDC"@) {
            OdScan { section: 2, ..before }
        } else if text::begins(t, "OD_"@) {
            OdScan { section: 0, ..before }
        } else if od_value(t) is Some && before.section == 1 {
            OdScan { sclk: od_value(t), ..before }
        } else if od_value(t) is Some && before.section == 2 {
            OdScan { vddc: od_value(t), ..before }
        } else {
            before
        }
    }
}

/// The operating point (clock in MHz, voltage in mV) of the overdrive table:
/// the last value of each section.
pub fn od_point(txt: &str) -> (r: Option<(u32, u32)>)
    ensures
        ({
            let scan = od_scan(text::lines_of(txt@));
            &&& r is Some <==> scan.sclk is Some && scan.vddc is Some
            &&& r is Some ==> scan.sclk == Some((r->0).0 as int) && scan.vddc == Some(
                (r->0).1 as int,
            )
        }),
{
    let lines = text::lines(txt);
    let ghost all = text::lines_of(txt@);
    let mut sclk: Option<u32> = None;
    let mut vddc: Option<u32> = None;
    let mut section: u8 = 0;
    let mut i: usize = 0;
    while i < lines.len()
        invariant
            i <= lines@.len(),
            text::slices(lines@) == all,
            all.len() == lines@.len(),
            section == od_scan(all.take(i as int)).section,
            sclk is Some <==> od_scan(all.take(i as int)).sclk is Some,
            sclk is Some ==> od_scan(all.take(i as int)).sclk == Some(sclk->0 as int),
            vddc is Some <==> od_scan(all.take(i as int)).vddc is Some,
            vddc is Some ==> od_scan(all.take(i as int)).vddc == Some(vddc->0 as int),
        decreases lines@.len() - i,
    {
        assert(all.take(i + 1).drop_last() =~= all.take(i as int));
        assert(lines@[i as int]@ == all[i as int]);
        let t: &str = text::trim(lines[i]);
        if text::starts_with(t, "OD_SCLK") {
            section = 1;
        } else if text::starts_with(t, "OD_VDDC") {
            section = 2;
        } else if text::starts_with(t, "OD_") {
            section = 0;
        } else {
            match text::rest_after(t, ':') {
                Some(rest) => {
                    let v = text::parse_u32(text::digits_in_front(text::trim(rest)));
                    if v.is_some() {
                        if section == 1 {
                            sclk = v;
                        } else if section == 2 {
                            vddc = v;
                        }
                    }
                },
                None => {},
            }
        }
        i += 1;
    }
    assert(all.take(i as int) =~= all);
    match (sclk, vddc) {
        (Some(s), Some(v)) => Some((s, v)),
        _ => None,
    }
}

/// The numbers among the words of a range line, the unit taken off each.
pub open spec fn range_numbers(words: Seq<Seq<char>>, unit: Seq<char>) -> Seq<int>
    decreases words.len(),
{
    if words.len() == 0 {
        seq![]
    } else {
        match text::number(text::strip_all_back(words.last(), unit), 10, u32::MAX as int) {
            Some(v) => range_numbers(words.drop_last(), unit).push(v),
            None => range_numbers(words.drop_last(), unit),
        }
    }
}

/// The two numbers of the first line with the label that has two.
pub open spec fn range_in(lines: Seq<Seq<char>>, label: Seq<char>, unit: Seq<char>) -> Option<
    (int, int),
>
    decreases lines.len(),
{
    if lines.len() == 0 {
        None
    } else {
        let t = text::trimmed(lines[0]);
        let nums = range_numbers(text::words_of(t), unit);
        if text::begins(t, label) && nums.len() == 2 {
            Some((nums[0], nums[1]))
        } else {
            range_in(lines.drop_first(), label, unit)
        }
    }
}

/// A range as exact numbers.
pub open spec fn pair(r: Option<(u32, u32)>) -> Option<(int, int)> {
    match r {
        Some((a, b)) => Some((a as int, b as int)),
        None => None,
    }
}

fn numbers_of_line(t: &str, unit: &str) -> (r: Vec<u32>)
    ensures
        r@.len() == range_numbers(text::words_of(t@), unit@).len(),
        forall|k: int|
            0 <= k < r@.len() ==> #[trigger] r@[k] == range_numbers(text::words_of(t@), unit@)[k],
{
    let words = text::words(t);
    let ghost all = text::words_of(t@);
    let mut r: Vec<u32> = Vec::new();
    let mut i: usize = 0;
    while i < words.len()
        invariant
            i <= words@.len(),
            text::slices(words@) == all,
            all.len() == words@.len(),
            r@.len() == range_numbers(all.take(i as int), unit@).len(),
            forall|k: int|
                0 <= k < r@.len() ==> #[trigger] r@[k] == range_numbers(
                    all.take(i as int),
                    unit@,
                )[k],
        decreases words@.len() - i,
    {
        assert(all.take(i + 1).drop_last() =~= all.take(i as int));
        assert(words@[i as int]@ == all[i as int]);
        match text::parse_u32(text::trim_end_matches(words[i], unit)) {
            Some(v) => {
                r.push(v);
            },
            None => {},
        }
        i += 1;
    }
    assert(all.take(i as int) =~= all);
    r
}

/// Reads a range line ("LABEL: <lo>unit <hi>unit") of the overdrive table.
pub fn od_range_line(txt: &str, label: &str, unit: &str) -> (r: Option<(u32, u32)>)
    ensures
        pair(r) == range_in(text::lines_of(txt@), label@, unit@),
{
    let lines = text::lines(txt);
    let ghost all = text::lines_of(txt@);
    let mut i: usize = 0;
    assert(all.skip(0) =~= all);
    while i < lines.len()
        invariant
            i <= lines@.len(),
            all == text::lines_of(txt@),
            text::slices(lines@) == all,
            all.len() == lines@.len(),
            range_in(all.skip(i as int), label@, unit@) == range_in(all, label@, unit@),
        decreases lines@.len() - i,
    {
        assert(all.skip(i as int).drop_first() =~= all.skip(i + 1));
        assert(lines@[i as int]@ == all[i as int]);
        let t: &str = text::trim(lines[i]);
        if text::starts_with(t, label) {
            let nums = numbers_of_line(t, unit);
            if nums.len() == 2 {
                return Some((nums[0], nums[1]));
            }
        }
        i += 1;
    }
    None
}

/// The allowed voltage range in mV.
pub fn od_vddc_range(txt: &str) -> (r: Option<(u32, u32)>)
    ensures
        pair(r) == range_in(text::lines_of(txt@), "VDDC:"@, "mV"@),
{
    od_range_line(txt, "VDDC:", "mV")
}

/// The allowed clock range in MHz.
pub fn od_sclk_range(txt: &str) -> (r: Option<(u32, u32)>)
    ensures
        pair(r) == range_in(text::lines_of(txt@), "SCLK:"@, "Mhz"@),
{
    od_range_line(txt, "SCLK:", "Mhz")
}

/// The overdrive ranges that the driver reports; a range that it does not
/// report is absent.
#[derive(Clone, Copy, Debug, PartialEq, Eq)]
pub struct OdRanges {
    pub vddc: Option<(u32, u32)>,
    pub sclk: Option<(u32, u32)>,
}

impl OdRanges {
    /// The voltage range is not inverted.
    pub open spec fn vddc_ordered(&self) -> bool {
        self.vddc matches Some((lo, hi)) ==> lo <= hi
    }

    /// Neither range is inverted.
    pub open spec fn wf(&self) -> bool {
        &&& self.vddc_ordered()
        &&& self.sclk matches Some((lo, hi)) ==> lo <= hi
    }

    /// The voltage range is not inverted.
    pub fn has_ordered_vddc(&self) -> (r: bool)
        ensures
            r == self.vddc_ordered(),
    {
        match self.vddc {
            Some((lo, hi)) => lo <= hi,
            None => true,
        }
    }

    /// Neither range is inverted.
    pub fn is_ordered(&self) -> (r: bool)
        ensures
            r == self.wf(),
    {
        let v: bool = self.has_ordered_vddc();
        let s: bool = match self.sclk {
            Some((lo, hi)) => lo <= hi,
            None => true,
        };
        v && s
    }
}

/// Division that drops the fraction, towards zero.
pub open spec fn quotient(a: int, b: int) -> int {
    if a < 0 { -((-a) / b) } else { a / b }
}

/// The stock voltage estimated at a clock: on the line through the measured
/// stock point (906 mV at 1500 MHz) and the top of both ranges.
pub open spec fn stock_estimate(mhz: int, vhi: int, smax: int) -> int {
    let run = if smax - 1500 < 1 { 1 } else { smax - 1500 };
    906 + quotient((mhz - 1500) * (vhi - 906), run)
}

/// The lowest safe voltage at a clock: 50 mV below the stock estimate, held in
/// the voltage range.
pub open spec fn safe_floor(mhz: int, ranges: OdRanges) -> int {
    let (vlo, vhi) = match ranges.vddc {
        Some((lo, hi)) => (lo as int, hi as int),
        None => (700, 1129),
    };
    let smax = match ranges.sclk {
        Some((lo, hi)) => hi as int,
        None => 2500,
    };
    clamp(stock_estimate(mhz, vhi, smax) - 50, vlo, vhi)
}

/// Lowest safe GPU voltage in mV for a top clock in MHz. An undervolt below it
/// would crash at that clock.
pub fn min_gfx_vddc(top_mhz: u32, ranges: &OdRanges) -> (r: u32)
    requires
        ranges.vddc_ordered(),
    ensures
        r == safe_floor(top_mhz as int, *ranges),
{
    let (vlo, vhi): (u32, u32) = match ranges.vddc {
        Some((lo, hi)) => (lo, hi),
        None => (700, 1129),
    };
    let smax: u32 = match ranges.sclk {
        Some((_, hi)) => hi,
        None => 2500,
    };
    let rise: i128 = vhi as i128 - 906;
    let dx: i128 = top_mhz as i128 - 1500;
    let den: i128 = if smax as i128 - 1500 < 1 {
        1
    } else {
        smax as i128 - 1500
    };
    assert(-0x1_0000_0000 * 0x1_0000_0000 <= dx * rise <= 0x1_0000_0000 * 0x1_0000_0000)
        by (nonlinear_arith)
        requires
            -1500 <= dx <= 0x1_0000_0000,
            -906 <= rise <= 0x1_0000_0000,
    ;
    let num: i128 = dx * rise;
    assert(num < 0 ==> 0 <= (-(num as int)) / (den as int) <= -num) by (nonlinear_arith)
        requires
            den >= 1,
    ;
    assert(num >= 0 ==> 0 <= (num as int) / (den as int) <= num) by (nonlinear_arith)
        requires
            den >= 1,
    ;
    let along: i128 = if num < 0 {
        -((-num) / den)
    } else {
        num / den
    };
    let floor: i128 = 906 + along - 50;
    if floor < vlo as i128 {
        vlo
    } else if floor > vhi as i128 {
        vhi
    } else {
        floor as u32
    }
}

/// The overdrive point that is staged for a top clock and a voltage: the clock
/// held in its range, the voltage never below that clock's floor and never
/// above the lower of the silicon ceiling and the driver's range.
pub open spec fn staged_point(top_mhz: int, vddc_mv: int, ranges: OdRanges) -> (int, int) {
    let sclk = match ranges.sclk {
        Some((lo, hi)) => clamp(top_mhz, lo as int, hi as int),
        None => top_mhz,
    };
    let floor = safe_floor(sclk, ranges);
    let ceiling = match ranges.vddc {
        Some((lo, hi)) if hi < smu::GFX_VID_CEILING_MV => hi as int,
        _ => smu::GFX_VID_CEILING_MV as int,
    };
    let raised = if vddc_mv < floor { floor } else { vddc_mv };
    (sclk, if raised > ceiling { ceiling } else { raised })
}

/// The line that stages a voltage for a top clock.
pub fn od_set_vddc(top_mhz: u32, vddc_mv: u32, ranges: &OdRanges) -> (r: String)
    requires
        ranges.wf(),
    ensures
        ({
            let (sclk, vddc) = staged_point(top_mhz as int, vddc_mv as int, *ranges);
            r@ == "vc 0 "@ + text::dec(sclk as nat) + " "@ + text::dec(vddc as nat) + "\n"@
        }),
{
    let sclk: u32 = match ranges.sclk {
        Some((lo, hi)) => clamp_u32(top_mhz, lo, hi),
        None => top_mhz,
    };
    let floor: u32 = min_gfx_vddc(sclk, ranges);
    let raised: u32 = if vddc_mv < floor {
        floor
    } else {
        vddc_mv
    };
    let ceiling: u32 = match ranges.vddc {
        Some((_, hi)) => if hi < smu::GFX_VID_CEILING_MV {
            hi
        } else {
            smu::GFX_VID_CEILING_MV
        },
        None => smu::GFX_VID_CEILING_MV,
    };
    let vddc: u32 = if raised > ceiling {
        ceiling
    } else {
        raised
    };
    let mut r = text::join3("vc 0 ", text::decimal(sclk as u64).as_str(), " ");
    r.append(text::decimal(vddc as u64).as_str());
    r.append("\n");
    r
}

/// A write of the overdrive sequence.
#[derive(Clone, Copy, Debug, PartialEq, Eq, Structural)]
pub enum OdStage {
    /// The point (or the reset) is to be staged.
    Stage,
    /// What was staged is to be committed.
    Commit,
    /// What was staged is to be discarded: the commit failed.
    Discard,
    Done,
    Failed,
}

/// What follows a write of the sequence.
pub open spec fn od_next(stage: OdStage, ok: bool) -> OdStage {
    match stage {
        OdStage::Stage => if ok { OdStage::Commit } else { OdStage::Failed },
        OdStage::Commit => if ok { OdStage::Done } else { OdStage::Discard },
        OdStage::Discard => OdStage::Failed,
        end => end,
    }
}

/// What follows a write of the sequence that sets a voltage. A failed commit
/// discards the staged point, so that no later commit can flush it.
pub fn od_set_after(stage: OdStage, ok: bool) -> (r: OdStage)
    ensures
        r == od_next(stage, ok),
{
    match stage {
        OdStage::Stage => if ok {
            OdStage::Commit
        } else {
            OdStage::Failed
        },
        OdStage::Commit => if ok {
            OdStage::Done
        } else {
            OdStage::Discard
        },
        OdStage::Discard => OdStage::Failed,
        end => end,
    }
}

/// The texts that restore the stock curve: reset, then commit.
pub fn od_reset() -> (r: Vec<String>)
    ensures
        text::texts(r@) == seq!["r\n"@, "c\n"@],
{
    let mut r: Vec<String> = Vec::new();
    r.push("r\n".to_owned());
    r.push("c\n".to_owned());
    assert(text::texts(r@) =~= seq!["r\n"@, "c\n"@]);
    r
}

// ---------------------------------------------------------------------------
// Clock

/// Below this a GPU clock is a broken reading.
pub const MIN_PLAUSIBLE_SCLK_MHZ: u32 = 350;

/// The clock of a line of the clock table that is marked active.
pub open spec fn active_clock(line: Seq<char>) -> Option<int> {
    let cut = text::pieces(line, ':');
    if text::ends(text::trim_end(line), "*"@) && cut.len() > 1 {
        text::number(
            text::leading_digits(text::trim_start(cut[1])),
            10,
            u32::MAX as int,
        )
    } else {
        None
    }
}

/// The clock of the first active line that has one.
pub open spec fn first_active(lines: Seq<Seq<char>>) -> Option<int>
    decreases lines.len(),
{
    if lines.len() == 0 {
        None
    } else if active_clock(lines[0]) is Some {
        active_clock(lines[0])
    } else {
        first_active(lines.drop_first())
    }
}

/// The active clock in MHz of a clock table ("1: 2500Mhz *"). A marked line
/// without a readable clock is passed over.
pub fn parse_active_sclk(txt: &str) -> (r: Option<u32>)
    ensures
        r is Some <==> first_active(text::lines_of(txt@)) is Some,
        r is Some ==> first_active(text::lines_of(txt@)) == Some(r->0 as int),
{
    let lines = text::lines(txt);
    let ghost all = text::lines_of(txt@);
    let mut i: usize = 0;
    assert(all.skip(0) =~= all);
    while i < lines.len()
        invariant
            i <= lines@.len(),
            all == text::lines_of(txt@),
            text::slices(lines@) == all,
            all.len() == lines@.len(),
            first_active(all.skip(i as int)) == first_active(all),
        decreases lines@.len() - i,
    {
        assert(all.skip(i as int).drop_first() =~= all.skip(i + 1));
        let line: &str = lines[i];
        assert(line@ == all[i as int]);
        if text::ends_with(text::trim_back(line), "*") {
            let cut = text::split_on(line, ':');
            assert(cut@.len() == text::slices(cut@).len());
            if cut.len() > 1 {
                assert(cut@[1]@ == text::slices(cut@)[1]);
                let v = text::parse_u32(text::digits_in_front(text::trim_front(cut[1])));
                if v.is_some() {
                    return v;
                }
            }
        }
        i += 1;
    }
    None
}

/// The active clock of the first table that has one.
pub open spec fn first_table(tables: Seq<String>) -> Option<int>
    decreases tables.len(),
{
    if tables.len() == 0 {
        None
    } else if first_active(text::lines_of(tables[0]@)) is Some {
        first_active(text::lines_of(tables[0]@))
    } else {
        first_table(tables.drop_first())
    }
}

/// Current GPU clock in MHz from the readable clock tables in order.
pub fn current_sclk_mhz(tables: &Vec<String>) -> (r: Option<u32>)
    ensures
        r is Some <==> first_table(tables@) is Some,
        r is Some ==> first_table(tables@) == Some(r->0 as int),
{
    let mut i: usize = 0;
    assert(tables@.skip(0) =~= tables@);
    while i < tables.len()
        invariant
            i <= tables@.len(),
            first_table(tables@.skip(i as int)) == first_table(tables@),
        decreases tables@.len() - i,
    {
        assert(tables@.skip(i as int).drop_first() =~= tables@.skip(i + 1));
        let v = parse_active_sclk(tables[i].as_str());
        if v.is_some() {
            return v;
        }
        i += 1;
    }
    None
}

/// The clock of the first line that starts with `GfxClk:`; absent where its
/// first word is no number.
pub open spec fn telemetry_clock(lines: Seq<Seq<char>>) -> Option<int>
    decreases lines.len(),
{
    if lines.len() == 0 {
        None
    } else {
        let t = text::trim_start(lines[0]);
        if text::begins(t, "GfxClk:"@) {
            let w = text::words_of(text::after(t, 7));
            if w.len() > 0 {
                text::number(w[0], 10, u32::MAX as int)
            } else {
                None
            }
        } else {
            telemetry_clock(lines.drop_first())
        }
    }
}

/// The GPU clock in MHz from the SMU telemetry dump.
pub fn smu_gfxclk_mhz(txt: &str) -> (r: Option<u32>)
    ensures
        r is Some <==> telemetry_clock(text::lines_of(txt@)) is Some,
        r is Some ==> telemetry_clock(text::lines_of(txt@)) == Some(r->0 as int),
{
    let lines = text::lines(txt);
    let ghost all = text::lines_of(txt@);
    let mut i: usize = 0;
    assert(all.skip(0) =~= all);
    proof {
        reveal_strlit("GfxClk:");
    }
    while i < lines.len()
        invariant
            i <= lines@.len(),
            all == text::lines_of(txt@),
            text::slices(lines@) == all,
            all.len() == lines@.len(),
            "GfxClk:"@.len() == 7,
            telemetry_clock(all.skip(i as int)) == telemetry_clock(all),
        decreases lines@.len() - i,
    {
        assert(all.skip(i as int).drop_first() =~= all.skip(i + 1));
        let line: &str = lines[i];
        assert(line@ == all[i as int]);
        match text::strip_prefix(text::trim_front(line), "GfxClk:") {
            Some(rest) => {
                let w = text::words(rest);
                assert(w@.len() == text::slices(w@).len());
                if w.len() > 0 {
                    assert(w@[0]@ == text::slices(w@)[0]);
                    return text::parse_u32(w[0]);
                }
                return None;
            },
            None => {},
        }
        i += 1;
    }
    None
}

/// Whether the clock table's value cannot be trusted, so that the SMU has to
/// be asked.
pub fn needs_smu_query(sys: Option<u32>) -> (r: bool)
    ensures
        r == !(sys is Some && sys->0 >= MIN_PLAUSIBLE_SCLK_MHZ),
        r <==> sys is None || sys->0 < 350,
{
    match sys {
        Some(v) => v < MIN_PLAUSIBLE_SCLK_MHZ,
        None => true,
    }
}

/// Current GPU clock in MHz: the clock table's where it is plausible, else what
/// the SMU answered.
pub fn gfxclk_mhz(sys: Option<u32>, smu: Option<u32>) -> (r: Option<u32>)
    ensures
        r == (if sys is Some && sys->0 >= MIN_PLAUSIBLE_SCLK_MHZ { sys } else { smu }),
        r == sys || r == smu,
        sys is Some && sys->0 >= 350 ==> r == sys,
{
    if needs_smu_query(sys) {
        smu
    } else {
        sys
    }
}

// ---------------------------------------------------------------------------
// The carrier's fan driver

/// The kernel release that the bundled fan driver was built for.
pub const NCT6687_KVER: &'static str = "7.0.9-1-cachyos";

/// The index of the first sensor directory with a name.
pub open spec fn named_dir(names: Seq<String>, name: Seq<char>, i: int) -> bool {
    &&& 0 <= i < names.len()
    &&& text::trimmed(names[i]@) == name
    &&& forall|j: int| 0 <= j < i ==> text::trimmed(#[trigger] names[j]@) != name
}

/// The carrier's sensor directory among the sensor directories, by the texts
/// of their name nodes.
pub fn nct6686_dir(names: &Vec<String>) -> (r: Option<usize>)
    ensures
        match r {
            Some(i) => named_dir(names@, "nct6686"@, i as int),
            None => forall|j: int|
                0 <= j < names@.len() ==> text::trimmed(#[trigger] names@[j]@) != "nct6686"@,
        },
{
    let mut i: usize = 0;
    while i < names.len()
        invariant
            i <= names@.len(),
            forall|j: int| 0 <= j < i ==> text::trimmed(#[trigger] names@[j]@) != "nct6686"@,
        decreases names@.len() - i,
    {
        if text::same(text::trim(names[i].as_str()), "nct6686") {
            return Some(i);
        }
        i += 1;
    }
    None
}

/// Whether the carrier's sensors are there.
pub fn carrier_present(names: &Vec<String>) -> (r: bool)
    ensures
        r == exists|j: int|
            0 <= j < names@.len() && text::trimmed(#[trigger] names@[j]@) == "nct6686"@,
{
    match nct6686_dir(names) {
        Some(i) => {
            assert(text::trimmed(names@[i as int]@) == "nct6686"@);
            true
        },
        None => false,
    }
}

/// Whether the fan can be written: the carrier's sensors are there and the
/// module behind them (`None` where it is unreadable) is the writable driver.
pub fn fan_writable(present: bool, module: Option<&str>) -> (r: bool)
    ensures
        r == (present && module is Some && module->0@ == "nct6687"@),
{
    match module {
        Some(m) => present && text::same(m, "nct6687"),
        None => false,
    }
}

/// What to do about the writable fan driver's module.
#[derive(Clone, Copy, Debug, PartialEq, Eq, Structural)]
pub enum ModuleStep {
    /// It can be loaded as it is.
    Available,
    /// Neither installed nor built for this kernel.
    Unavailable,
    /// Write the bundled module into the module tree.
    Install,
}

/// Whether the writable driver is there, has to be installed, or cannot be:
/// the bundled module loads on one kernel only.
pub fn writable_module_step(installed: bool, resolvable: bool, kver: &str) -> (r: ModuleStep)
    ensures
        r == (if installed || resolvable {
            ModuleStep::Available
        } else if kver@ == NCT6687_KVER@ {
            ModuleStep::Install
        } else {
            ModuleStep::Unavailable
        }),
{
    if installed || resolvable {
        ModuleStep::Available
    } else if text::same(kver, NCT6687_KVER) {
        ModuleStep::Install
    } else {
        ModuleStep::Unavailable
    }
}

/// One step of bringing up the carrier sensors.
#[derive(Clone, Copy, Debug, PartialEq, Eq, Structural)]
pub enum DriverStep {
    /// Make the writable driver the one that later boots load.
    PersistPolicy,
    /// Drop that policy.
    RemovePolicy,
    /// Unload the read-only driver, which holds the chip.
    UnloadReadOnly,
    LoadWritable,
    LoadReadOnly,
}

/// The steps before the fan is looked at again. A bound writable driver needs
/// no more than its policy.
pub fn carrier_bring_up(writable: bool, module_available: bool, present: bool) -> (r: Vec<
    DriverStep,
>)
    ensures
        r@ == (if writable {
            seq![DriverStep::PersistPolicy]
        } else if !module_available {
            seq![]
        } else if present {
            seq![DriverStep::UnloadReadOnly, DriverStep::LoadWritable]
        } else {
            seq![DriverStep::LoadWritable]
        }),
{
    let mut r: Vec<DriverStep> = Vec::new();
    if writable {
        r.push(DriverStep::PersistPolicy);
    } else if module_available {
        if present {
            r.push(DriverStep::UnloadReadOnly);
        }
        r.push(DriverStep::LoadWritable);
    }
    assert(r@ =~= (if writable {
        seq![DriverStep::PersistPolicy]
    } else if !module_available {
        seq![]
    } else if present {
        seq![DriverStep::UnloadReadOnly, DriverStep::LoadWritable]
    } else {
        seq![DriverStep::LoadWritable]
    }));
    r
}

/// The steps once the writable driver had its chance: its policy where it
/// bound, else back to read-only sensors with no policy left behind.
pub fn carrier_settle(writable: bool, present: bool) -> (r: Vec<DriverStep>)
    ensures
        r@ == (if writable {
            seq![DriverStep::PersistPolicy]
        } else if present {
            seq![DriverStep::RemovePolicy]
        } else {
            seq![DriverStep::RemovePolicy, DriverStep::LoadReadOnly]
        }),
{
    let mut r: Vec<DriverStep> = Vec::new();
    if writable {
        r.push(DriverStep::PersistPolicy);
    } else {
        r.push(DriverStep::RemovePolicy);
        if !present {
            r.push(DriverStep::LoadReadOnly);
        }
    }
    assert(r@ =~= (if writable {
        seq![DriverStep::PersistPolicy]
    } else if present {
        seq![DriverStep::RemovePolicy]
    } else {
        seq![DriverStep::RemovePolicy, DriverStep::LoadReadOnly]
    }));
    r
}

// ---------------------------------------------------------------------------
// Laws

/// The floor stays in the voltage range that the driver reports.
pub proof fn floor_is_in_range(mhz: u32, ranges: OdRanges)
    requires
        ranges.vddc_ordered(),
    ensures
        ranges.vddc matches Some((lo, hi)) ==> lo <= safe_floor(mhz as int, ranges) <= hi,
        ranges.vddc is None ==> 700 <= safe_floor(mhz as int, ranges) <= 1129,
{
}

/// A higher clock never has a lower floor, where the voltage range reaches the
/// stock voltage.
pub proof fn floor_rises_with_clock(lower: u32, higher: u32, ranges: OdRanges)
    requires
        lower <= higher,
        ranges.vddc_ordered(),
        ranges.vddc matches Some((lo, hi)) ==> hi >= 906,
    ensures
        safe_floor(lower as int, ranges) <= safe_floor(higher as int, ranges),
{
    let vhi = match ranges.vddc {
        Some((lo, hi)) => hi as int,
        None => 1129,
    };
    let smax = match ranges.sclk {
        Some((lo, hi)) => hi as int,
        None => 2500,
    };
    let run = if smax - 1500 < 1 { 1 } else { smax - 1500 };
    let rise = vhi - 906;
    let a = (lower - 1500) * rise;
    let b = (higher - 1500) * rise;
    assert(a <= b) by (nonlinear_arith)
        requires
            a == (lower - 1500) * rise,
            b == (higher - 1500) * rise,
            lower <= higher,
            rise >= 0,
    ;
    quotient_rises(a, b, run);
}

proof fn quotient_rises(a: int, b: int, d: int)
    requires
        a <= b,
        d >= 1,
    ensures
        quotient(a, d) <= quotient(b, d),
{
    if a < 0 && b < 0 {
        assert((-b) / d <= (-a) / d) by (nonlinear_arith)
            requires
                -b <= -a,
                d >= 1,
        ;
    } else if a >= 0 {
        assert(a / d <= b / d) by (nonlinear_arith)
            requires
                a <= b,
                d >= 1,
        ;
    } else {
        assert((-a) / d >= 0) by (nonlinear_arith)
            requires
                -a >= 0,
                d >= 1,
        ;
        assert(b / d >= 0) by (nonlinear_arith)
            requires
                b >= 0,
                d >= 1,
        ;
    }
}

/// A staged voltage is never over the silicon ceiling, and never under the
/// staged clock's floor unless that ceiling is.
pub proof fn staged_voltage_is_bounded(top_mhz: u32, vddc_mv: u32, ranges: OdRanges)
    requires
        ranges.wf(),
    ensures
        ({
            let (sclk, vddc) = staged_point(top_mhz as int, vddc_mv as int, ranges);
            let floor = safe_floor(sclk, ranges);
            &&& vddc <= smu::GFX_VID_CEILING_MV
            &&& vddc >= floor || vddc == smu::GFX_VID_CEILING_MV
            &&& ranges.sclk matches Some((lo, hi)) ==> lo <= sclk <= hi
        }),
{
}

/// A voltage between the staged clock's floor and the ceiling (1325 mV, or the
/// top of the driver's range where that is lower) is staged as it was asked for;
/// one below is raised to the floor, one above is lowered to the ceiling. A clock
/// in the driver's range is staged as it is, another at the nearer end.
pub proof fn asked_for_voltage_is_kept(top_mhz: u32, vddc_mv: u32, ranges: OdRanges)
    requires
        ranges.wf(),
    ensures
        ({
            let (sclk, vddc) = staged_point(top_mhz as int, vddc_mv as int, ranges);
            let floor = safe_floor(sclk, ranges);
            let top = match ranges.vddc {
                Some((lo, hi)) => if hi < 1325 { hi as int } else { 1325 },
                None => 1325,
            };
            &&& floor <= vddc_mv <= top ==> vddc == vddc_mv
            &&& vddc_mv < floor <= top ==> vddc == floor
            &&& vddc_mv > top || floor > top ==> vddc == top
            &&& match ranges.sclk {
                Some((lo, hi)) => {
                    &&& lo <= top_mhz <= hi ==> sclk == top_mhz
                    &&& top_mhz < lo ==> sclk == lo
                    &&& top_mhz > hi ==> sclk == hi
                },
                None => sclk == top_mhz,
            }
        }),
{
}

/// Staging what was staged changes nothing.
pub proof fn staging_again_changes_nothing(top_mhz: u32, vddc_mv: u32, ranges: OdRanges)
    requires
        ranges.wf(),
    ensures
        ({
            let (sclk, vddc) = staged_point(top_mhz as int, vddc_mv as int, ranges);
            staged_point(sclk, vddc, ranges) == (sclk, vddc)
        }),
{
}

/// The floor, where it is no end of the voltage range, is 50 mV below the line
/// from 906 mV at 1500 MHz to the top voltage at the top clock.
pub proof fn floor_is_below_the_stock_line(mhz: u32, ranges: OdRanges)
    requires
        ranges.vddc_ordered(),
    ensures
        ({
            let floor = safe_floor(mhz as int, ranges);
            let (lo, hi) = match ranges.vddc {
                Some((lo, hi)) => (lo as int, hi as int),
                None => (700, 1129),
            };
            let top = match ranges.sclk {
                Some((_, t)) => t as int,
                None => 2500,
            };
            let run = if top > 1501 { top - 1500 } else { 1 };
            let line = (mhz - 1500) * (hi - 906);
            &&& lo < floor < hi ==> -run < (floor - 856) * run - line < run
            &&& floor == lo && lo < hi ==> (lo - 856) * run >= line - run
            &&& floor == hi && lo < hi ==> (hi - 856) * run <= line + run
        }),
{
    let hi = match ranges.vddc {
        Some((_, hi)) => hi as int,
        None => 1129,
    };
    let lo = match ranges.vddc {
        Some((lo, _)) => lo as int,
        None => 700,
    };
    let top = match ranges.sclk {
        Some((_, t)) => t as int,
        None => 2500,
    };
    let run = if top > 1501 { top - 1500 } else { 1 };
    let line = (mhz - 1500) * (hi - 906);
    let q = quotient(line, run);
    assert(-run < q * run - line < run) by (nonlinear_arith)
        requires
            q == (if line < 0 { -((-line) / run) } else { line / run }),
            run >= 1,
    ;
    let floor = safe_floor(mhz as int, ranges);
    assert((906 + q - 50 - 856) * run == q * run);
    assert(lo >= 906 + q - 50 ==> (lo - 856) * run >= q * run) by (nonlinear_arith)
        requires
            run >= 1,
    ;
    assert(hi <= 906 + q - 50 ==> (hi - 856) * run <= q * run) by (nonlinear_arith)
        requires
            run >= 1,
    ;
}

/// A voltage counts as set only where both its staging and its commit went
/// well, and a failed commit is discarded before the sequence ends.
pub proof fn voltage_is_set_or_discarded(stage: OdStage, ok: bool)
    ensures
        od_next(stage, ok) == OdStage::Done <==> stage == OdStage::Done || (stage == OdStage::Commit
            && ok),
        od_next(stage, ok) == OdStage::Commit <==> stage == OdStage::Stage && ok,
        od_next(stage, ok) == OdStage::Discard <==> stage == OdStage::Commit && !ok,
        od_next(stage, ok) != OdStage::Stage,
{
}

/// A duty that is written reads back as the percentage that was asked for, or
/// one less, and never as more.
pub proof fn written_duty_reads_back(channel: u8, pct: u8)
    requires
        pct <= 100,
    ensures
        exists|duty: int|
            #![trigger text::dec(duty as nat)]
            {
                &&& 0 <= duty <= 255
                &&& pct - 1 <= duty_percent(duty) <= pct
                &&& duty_writes(channel, Some(pct)) =~= seq![
                    ("pwm"@ + text::dec(channel as nat) + "_enable"@, "1\n"@),
                    ("pwm"@ + text::dec(channel as nat), text::dec(duty as nat) + "\n"@),
                ]
            },
        pct == 100 ==> duty_writes(channel, Some(pct))[1].1 == text::dec(255) + "\n"@,
        duty_writes(channel, None) =~= seq![
            ("pwm"@ + text::dec(channel as nat) + "_enable"@, "2\n"@),
        ],
{
    let duty = pct * 255 / 100;
    assert(duty_writes(channel, Some(pct))[1].1 == text::dec(duty as nat) + "\n"@);
}

/// More than all is all.
pub proof fn duty_is_capped(channel: u8, pct: u8)
    requires
        pct >= 100,
    ensures
        duty_writes(channel, Some(pct)) == duty_writes(channel, Some(100)),
{
}

/// The duty shown is the share of 255 in percent, rounded down.
pub proof fn duty_is_a_share(pwm: int)
    requires
        0 <= pwm <= 255,
    ensures
        255 * duty_percent(pwm) <= 100 * pwm < 255 * (duty_percent(pwm) + 1),
{
}

/// The overdrive bit is the one of weight 0x4000: adding that weight to a mask
/// without it sets it, and taking it from a mask with it clears it.
pub proof fn overdrive_bit_has_its_weight(mask: u32)
    ensures
        overdrive_bit(mask as int) <==> mask & 0x4000 != 0,
        overdrive_bit(mask as int) ==> mask >= 0x4000 && !overdrive_bit(mask - 0x4000),
        !overdrive_bit(mask as int) ==> overdrive_bit(mask + 0x4000),
{
    assert(((mask / 0x4000) % 2 == 1) <==> mask & 0x4000 != 0) by (bit_vector);
}

/// The greatest number is one of those present, and none of them is greater.
pub proof fn greatest_is_one_of_them(v: Seq<Option<i64>>)
    ensures
        greatest(v) is None <==> (forall|i: int| 0 <= i < v.len() ==> #[trigger] v[i] is None),
        greatest(v) matches Some(m) ==> {
            &&& exists|i: int| 0 <= i < v.len() && #[trigger] v[i] is Some && v[i]->0 == m
            &&& forall|i: int| 0 <= i < v.len() && #[trigger] v[i] is Some ==> v[i]->0 <= m
        },
    decreases v.len(),
{
    if v.len() > 0 {
        let rest = v.drop_last();
        greatest_is_one_of_them(rest);
        assert forall|i: int| 0 <= i < rest.len() implies #[trigger] rest[i] == v[i] by {}
        assert(v.last() == v[v.len() - 1]);
        if greatest(rest) is Some {
            let k = choose|k: int|
                0 <= k < rest.len() && #[trigger] rest[k] is Some && rest[k]->0
                    == greatest(rest)->0;
            assert(v[k] is Some);
        }
        if greatest(v) is None {
            assert forall|i: int| 0 <= i < v.len() implies #[trigger] v[i] is None by {
                if i < rest.len() {
                    assert(rest[i] is None);
                }
            }
        } else {
            let m = greatest(v)->0;
            assert forall|i: int| 0 <= i < v.len() && #[trigger] v[i] is Some implies v[i]->0 <= m by {
                if i < rest.len() {
                    assert(rest[i] is Some);
                }
            }
        }
    }
}

/// A word counts for the hexadecimal number behind its `0x`, a word without one
/// for nothing, and the words of a table are summed up.
pub proof fn fences_are_summed_up(words: Seq<Seq<char>>, word: Seq<char>, n: nat)
    requires
        n <= u64::MAX,
    ensures
        fence_value("0x"@ + text::hex(n)) == n,
        !text::begins(word, "0x"@) ==> fence_value(word) == 0,
        fence_total(words.push(word)) == fence_total(words) + fence_value(word),
        fence_total(seq![]) == 0,
{
    reveal_strlit("0x");
    let w = "0x"@ + text::hex(n);
    assert(w.subrange(0, 2) =~= "0x"@);
    assert(text::after(w, 2) =~= text::hex(n));
    text::hexadecimal_reads_back(n, u64::MAX as int);
    assert(words.push(word).drop_last() =~= words);
}

/// The feature mask reads as the hexadecimal number that it is, with `0x` in front
/// of it or without.
pub proof fn feature_mask_reads_back(n: nat)
    requires
        n <= u32::MAX,
    ensures
        feature_mask("0x"@ + text::hex(n)) == Some(n as int),
        feature_mask(text::hex(n)) == Some(n as int),
        feature_mask(text::hex(n).push('\n')) == Some(n as int),
{
    reveal_strlit("0x");
    let h = text::hex(n);
    let w = "0x"@ + h;
    text::hexadecimal_reads_back(n, u32::MAX as int);
    assert(h.len() > 0);
    text::hexadecimal_is_bare(n, 0);
    text::hexadecimal_is_bare(n, h.len() - 1);
    assert(text::is_space(' ') && text::is_space('\n'));
    text::trimming_takes_the_space_around(h, '\n');
    text::trimming_takes_the_space_around(w, ' ');
    assert(w[0] == '0' && w.last() == h.last());
    assert(!text::begins(h, "0x"@)) by {
        if text::begins(h, "0x"@) {
            text::hexadecimal_is_bare(n, 1);
            assert(h.subrange(0, 2)[1] == h[1]);
        }
    }
    text::stripping_takes_all(h, "0x"@);
}

/// A value of the overdrive table is set by a line with a number under its
/// heading; a heading, and a line without a number, set none.
pub proof fn values_are_set_under_their_heading(lines: Seq<Seq<char>>, line: Seq<char>)
    ensures
        ({
            let t = text::trimmed(line);
            let before = od_scan(lines);
            let now = od_scan(lines.push(line));
            let heading = text::begins(t, "OD_"@) || text::begins(t, "OD_SCLK"@) || text::begins(
                t,
                "OD_VDDC"@,
            );
            &&& heading || od_value(t) is None ==> now.sclk == before.sclk && now.vddc == before.vddc
            &&& !heading ==> now.section == before.section
            &&& text::begins(t, "OD_SCLK"@) ==> now.section == 1
            &&& !text::begins(t, "OD_SCLK"@) && text::begins(t, "OD_VDDC"@) ==> now.section == 2
            &&& !heading && od_value(t) is Some && before.section == 1 ==> now.sclk == od_value(t)
                && now.vddc == before.vddc
            &&& !heading && od_value(t) is Some && before.section == 2 ==> now.vddc == od_value(t)
                && now.sclk == before.sclk
            &&& before.section == 0 && !heading ==> now == before
        }),
        od_scan(seq![]).sclk is None && od_scan(seq![]).vddc is None && od_scan(seq![]).section == 0,
{
    assert(lines.push(line).drop_last() =~= lines);
}

/// The value of a line is the number behind its first colon, without its unit.
pub proof fn value_is_behind_the_colon(label: Seq<char>, n: nat, unit: Seq<char>)
    requires
        n <= u32::MAX,
        forall|i: int| 0 <= i < label.len() ==> #[trigger] label[i] != ':',
        unit.len() > 0 && !text::is_space(unit.last()) && !(48 <= text::code(unit[0]) <= 57),
    ensures
        od_value(label + seq![':'] + (seq![' '] + text::dec(n) + unit)) == Some(n as int),
        od_value(label) is None,
{
    let rest = seq![' '] + text::dec(n) + unit;
    let bare = text::dec(n) + unit;
    text::first_occurrence_divides(label, ':', rest);
    text::decimal_is_digits(n);
    text::decimal_reads_back(n, u32::MAX as int);
    assert(rest =~= seq![' '] + bare);
    assert(text::is_space(' '));
    assert(bare[0] == text::dec(n)[0] && bare.last() == unit.last());
    assert(!text::is_space(bare[0]));
    text::trimming_takes_the_space_around(bare, ' ');
    digits_end_at_the_unit(text::dec(n), unit);
}

proof fn digits_end_at_the_unit(d: Seq<char>, unit: Seq<char>)
    requires
        text::all_digits(d),
        unit.len() > 0 && !(48 <= text::code(unit[0]) <= 57),
    ensures
        text::leading_digits(d + unit) == d,
    decreases d.len(),
{
    let s = d + unit;
    if d.len() == 0 {
        assert(s[0] == unit[0]);
        assert(d =~= seq![]);
    } else {
        let rest = d.drop_first();
        assert(s[0] == d[0]);
        assert(48 <= text::code(d[0]) <= 57);
        assert(s.drop_first() =~= rest + unit);
        assert forall|i: int| 0 <= i < rest.len() implies 48 <= text::code(#[trigger] rest[i])
            <= 57 by {
            assert(rest[i] == d[i + 1]);
        }
        digits_end_at_the_unit(rest, unit);
        assert(seq![d[0]] + rest =~= d);
    }
}

/// A range is that of the first line with its label and two numbers.
pub proof fn first_range_is_taken(
    line: Seq<char>,
    rest: Seq<Seq<char>>,
    label: Seq<char>,
    unit: Seq<char>,
)
    ensures
        ({
            let t = text::trimmed(line);
            let v = range_numbers(text::words_of(t), unit);
            let own = text::begins(t, label) && v.len() == 2;
            &&& own ==> range_in(seq![line] + rest, label, unit) == Some((v[0], v[1]))
            &&& !own ==> range_in(seq![line] + rest, label, unit) == range_in(rest, label, unit)
        }),
        range_in(seq![], label, unit) is None,
{
    assert((seq![line] + rest).drop_first() =~= rest);
}

/// A word of a number and its unit counts as the number.
pub proof fn unit_is_taken_off(words: Seq<Seq<char>>, n: nat, unit: Seq<char>)
    requires
        n <= u32::MAX,
        unit.len() > 0 && !(48 <= text::code(unit.last()) <= 57),
    ensures
        range_numbers(words.push(text::dec(n) + unit), unit) == range_numbers(words, unit).push(
            n as int,
        ),
        range_numbers(words.push(text::dec(n)), unit) == range_numbers(words, unit).push(n as int),
{
    let d = text::dec(n);
    text::decimal_is_digits(n);
    text::decimal_reads_back(n, u32::MAX as int);
    assert(!text::ends(d, unit)) by {
        if text::ends(d, unit) {
            assert(d.subrange(d.len() - unit.len(), d.len() as int).last() == d[d.len() - 1]);
            assert(48 <= text::code(d[d.len() - 1]) <= 57);
        }
    }
    text::stripping_takes_all(d, unit);
    assert(words.push(d + unit).drop_last() =~= words);
    assert(words.push(d).drop_last() =~= words);
}

/// A clock is active only where its line ends with the mark, and the first active
/// clock is taken: of the lines, and of the tables.
pub proof fn first_active_clock_is_taken(
    line: Seq<char>,
    rest: Seq<Seq<char>>,
    table: String,
    tables: Seq<String>,
)
    ensures
        !text::ends(text::trim_end(line), "*"@) ==> active_clock(line) is None,
        active_clock(line) is Some ==> first_active(seq![line] + rest) == active_clock(line),
        active_clock(line) is None ==> first_active(seq![line] + rest) == first_active(rest),
        first_active(seq![]) is None,
        ({
            let own = first_active(text::lines_of(table@));
            &&& own is Some ==> first_table(seq![table] + tables) == own
            &&& own is None ==> first_table(seq![table] + tables) == first_table(tables)
        }),
        first_table(seq![]) is None,
{
    assert((seq![line] + rest).drop_first() =~= rest);
    assert((seq![table] + tables).drop_first() =~= tables);
}

/// The telemetry's clock is that of the first line that names it, a number or not.
pub proof fn first_named_clock_is_taken(line: Seq<char>, rest: Seq<Seq<char>>)
    ensures
        ({
            let t = text::trim_start(line);
            let w = text::words_of(text::after(t, 7));
            let named = text::begins(t, "GfxClk:"@);
            &&& !named ==> telemetry_clock(seq![line] + rest) == telemetry_clock(rest)
            &&& named && w.len() == 0 ==> telemetry_clock(seq![line] + rest) is None
            &&& named && w.len() > 0 ==> telemetry_clock(seq![line] + rest) == text::number(
                w[0],
                10,
                u32::MAX as int,
            )
        }),
        telemetry_clock(seq![]) is None,
{
    assert((seq![line] + rest).drop_first() =~= rest);
}

/// The junction is the hottest input of the first GPU directory that has one, and
/// the rail that of the first with a number; other directories do not matter.
pub proof fn gpu_directory_is_read(
    d: SensorDir,
    dirs: Seq<SensorDir>,
    r: (String, Option<String>),
    rails: Seq<(String, Option<String>)>,
)
    ensures
        ({
            let own = text::trimmed(d.name@) == "amdgpu"@ && hottest(d.files@) is Some;
            &&& own ==> junction(seq![d] + dirs) == hottest(d.files@)
            &&& !own ==> junction(seq![d] + dirs) == junction(dirs)
        }),
        ({
            let named = text::trimmed(r.0@) == "amdgpu"@;
            &&& !named || r.1 is None ==> rail(seq![r] + rails) == rail(rails)
            &&& named ==> (r.1 matches Some(t) ==> ({
                let n = text::number(text::trimmed(t@), 10, u32::MAX as int);
                &&& n is Some ==> rail(seq![r] + rails) == n
                &&& n is None ==> rail(seq![r] + rails) == rail(rails)
            }))
        }),
        junction(seq![]) is None,
        rail(seq![]) is None,
{
    assert((seq![d] + dirs).drop_first() =~= dirs);
    assert((seq![r] + rails).drop_first() =~= rails);
}

/// Of the inputs of a directory the temperatures count, and of those the highest.
pub proof fn hottest_input_counts(files: Seq<(String, Option<Double>)>, f: (String, Option<Double>))
    ensures
        !temp_input(f.0@) || f.1 is None ==> hottest(files.push(f)) == hottest(files),
        temp_input(f.0@) ==> (f.1 matches Some(t) ==> ({
            &&& hottest(files) is None ==> hottest(files.push(f)) == Some(t)
            &&& hottest(files) matches Some(b) ==> hottest(files.push(f)) == Some(b.greater(t))
        })),
        hottest(seq![]) is None,
{
    assert(files.push(f).drop_last() =~= files);
}

/// A temperature input is told by both ends of its name.
pub proof fn temperature_inputs_are_named(middle: Seq<char>, name: Seq<char>)
    ensures
        temp_input("temp"@ + middle + "_input"@),
        !text::begins(name, "temp"@) ==> !temp_input(name),
        !text::ends(name, "_input"@) ==> !temp_input(name),
{
    let s = "temp"@ + middle + "_input"@;
    reveal_strlit("temp");
    reveal_strlit("_input");
    assert(s.subrange(0, 4) =~= "temp"@);
    assert(s.subrange(s.len() - 6, s.len() as int) =~= "_input"@);
}

/// A quotient drops its fraction: what is left over has the dividend's sign and is
/// smaller than the divisor.
pub proof fn quotient_drops_the_fraction(a: int, b: int)
    requires
        b > 0,
    ensures
        a >= 0 ==> 0 <= a - quotient(a, b) * b < b,
        a <= 0 ==> -b < a - quotient(a, b) * b <= 0,
{
    let n = if a < 0 { -a } else { a };
    let q = n / b;
    assert(0 <= n - q * b < b) by (nonlinear_arith)
        requires
            b > 0,
            q == n / b,
    ;
    assert((-q) * b == -(q * b)) by (nonlinear_arith);
}

/// The stock line goes through 906 mV at 1500 MHz and through the top of both
/// ranges.
pub proof fn stock_line_has_its_ends(vhi: int, smax: int)
    requires
        smax > 1500,
    ensures
        stock_estimate(1500, vhi, smax) == 906,
        stock_estimate(smax, vhi, smax) == vhi,
{
    let run = smax - 1500;
    let rise = vhi - 906;
    assert(0 * rise == 0);
    assert(quotient(0, run) == 0) by (nonlinear_arith)
        requires
            run > 0,
            quotient(0, run) == 0int / run,
    ;
    let p = run * rise;
    assert(quotient(p, run) == rise) by {
        if p < 0 {
            assert((-p) / run == -rise) by (nonlinear_arith)
                requires
                    p == run * rise,
                    run > 0,
            ;
        } else {
            assert(p / run == rise) by (nonlinear_arith)
                requires
                    p == run * rise,
                    run > 0,
            ;
        }
    }
}

/// The fastest channel spins, no other spins faster, and there is but one first of
/// them.
pub proof fn one_channel_is_the_fastest(fans: Seq<Option<i64>>, a: int, b: int)
    requires
        fastest(fans, a),
    ensures
        0 <= a < fans.len(),
        rpm(fans[a]) > 0,
        0 <= b < fans.len() ==> rpm(fans[b]) <= rpm(fans[a]),
        fastest(fans, b) ==> a == b,
{
}

/// A channel reports its speed where it turns, and none otherwise.
pub proof fn speed_is_what_is_reported(r: i64)
    ensures
        0 < r <= u32::MAX ==> rpm(Some(r)) == r,
        r <= 0 ==> rpm(Some(r)) == 0,
        rpm(None) == 0,
{
}

/// A range is in order where its ends are, be they the same, and one that is not
/// there is.
pub proof fn ranges_in_order(r: OdRanges, lo: u32, hi: u32)
    ensures
        r.vddc is None ==> r.vddc_ordered(),
        r.vddc == Some((lo, hi)) ==> (r.vddc_ordered() <==> lo <= hi),
{
}

} // verus!
