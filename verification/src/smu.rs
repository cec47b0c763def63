//! GPU clock messages for the kernel-serialized SMU node.
//!
//! The node takes one line per message: message id, parameter and extra, in
//! hexadecimal. The kernel sends it under the driver's own lock.
use vstd::prelude::*;

use crate::ocq3::clamp;
use crate::text;

verus! {

pub const MSG_FORCE_GFX_FREQ: u16 = 0x39;
pub const MSG_UNFORCE_GFX_FREQ: u16 = 0x3A;
pub const MSG_FORCE_GFX_VID: u16 = 0x3B;
pub const MSG_UNFORCE_GFX_VID: u16 = 0x3C;

/// GPU voltage ceiling in mV.
pub const GFX_VID_CEILING_MV: u32 = 1325;
/// Absolute lower bound of a raw GPU voltage in mV.
pub const GFX_VID_MIN_MV: u32 = 650;
/// Lowest GPU clock in MHz.
pub const SCLK_MIN_MHZ: u32 = 350;
/// Highest GPU clock in MHz.
pub const SCLK_MAX_MHZ: u32 = 2500;

/// The line of one message.
pub open spec fn raw_line(msgid: u16, param: u32, extra: u32) -> Seq<char> {
    text::hex(msgid as nat) + " "@ + text::hex(param as nat) + " "@ + text::hex(extra as nat)
        + "\n"@
}

/// A GPU voltage that is not sent.
#[derive(Clone, Copy, Debug, PartialEq, Eq, Structural)]
pub enum GfxVidError {
    OverCeiling { mv: u32 },
    UnderFloor { mv: u32 },
}

impl GfxVidError {
    /// The message shown to the operator.
    pub open spec fn text(&self) -> Seq<char> {
        match self {
            GfxVidError::OverCeiling { mv } => "refusing GFX Vid "@ + text::dec(*mv as nat)
                + " mV (> 1325 mV ceiling)"@,
            GfxVidError::UnderFloor { mv } => "refusing GFX Vid "@ + text::dec(*mv as nat)
                + " mV (< 650 mV floor)"@,
        }
    }

    /// The message shown to the operator.
    pub fn message(&self) -> (r: String)
        ensures
            r@ == self.text(),
    {
        match self {
            GfxVidError::OverCeiling { mv } => text::join3(
                "refusing GFX Vid ",
                text::decimal(*mv as u64).as_str(),
                " mV (> 1325 mV ceiling)",
            ),
            GfxVidError::UnderFloor { mv } => text::join3(
                "refusing GFX Vid ",
                text::decimal(*mv as u64).as_str(),
                " mV (< 650 mV floor)",
            ),
        }
    }
}

/// `mhz` in the range of the GPU clock.
pub open spec fn in_sclk_range(mhz: int) -> int {
    clamp(mhz, SCLK_MIN_MHZ as int, SCLK_MAX_MHZ as int)
}

/// The messages of the SMU node.
#[derive(Clone, Copy, Debug)]
pub struct Smu;

impl Smu {
    /// The line that sends one raw message.
    pub fn send_raw(msgid: u16, param: u32, extra: u32) -> (r: String)
        ensures
            r@ == raw_line(msgid, param, extra),
    {
        let mut r = text::hexadecimal(msgid as u64);
        r.append(" ");
        r.append(text::hexadecimal(param as u64).as_str());
        r.append(" ");
        r.append(text::hexadecimal(extra as u64).as_str());
        r.append("\n");
        r
    }

    /// Pins the GPU clock, held in its range: the line and the clock it sets.
    pub fn force_gfx_freq(mhz: u32) -> (r: (String, u32))
        ensures
            r.1 == in_sclk_range(mhz as int),
            350 <= r.1 <= 2500,
            350 <= mhz <= 2500 ==> r.1 == mhz,
            r.0@ == raw_line(0x39, r.1, 0),
    {
        let set: u32 = crate::ocq3::clamp_u32(mhz, SCLK_MIN_MHZ, SCLK_MAX_MHZ);
        (Self::send_raw(MSG_FORCE_GFX_FREQ, set, 0), set)
    }

    /// Releases the GPU clock.
    pub fn unforce_gfx_freq() -> (r: String)
        ensures
            r@ == raw_line(0x3A, 0, 0),
    {
        Self::send_raw(MSG_UNFORCE_GFX_FREQ, 0, 0)
    }

    /// Forces a raw GPU voltage. The overdrive interface is the safe way; this
    /// one races the driver's polling and has no caller.
    pub fn force_gfx_vid(mv: u32) -> (r: Result<String, GfxVidError>)
        ensures
            mv > GFX_VID_CEILING_MV ==> r == Err::<String, GfxVidError>(
                GfxVidError::OverCeiling { mv },
            ),
            mv < GFX_VID_MIN_MV ==> r == Err::<String, GfxVidError>(GfxVidError::UnderFloor { mv }),
            GFX_VID_MIN_MV <= mv <= GFX_VID_CEILING_MV ==> r is Ok && (r->Ok_0)@ == raw_line(
                0x3B,
                mv,
                0,
            ),
            r is Ok <==> 650 <= mv <= 1325,
    {
        if mv > GFX_VID_CEILING_MV {
            return Err(GfxVidError::OverCeiling { mv });
        }
        if mv < GFX_VID_MIN_MV {
            return Err(GfxVidError::UnderFloor { mv });
        }
        Ok(Self::send_raw(MSG_FORCE_GFX_VID, mv, 0))
    }

    /// Releases a raw GPU voltage.
    pub fn unforce_gfx_vid() -> (r: String)
        ensures
            r@ == raw_line(0x3C, 0, 0),
    {
        Self::send_raw(MSG_UNFORCE_GFX_VID, 0, 0)
    }
}

/// The text written to the performance-level node.
pub fn set_performance_level(level: &str) -> (r: String)
    ensures
        r@ == level@ + "\n"@,
{
    text::join2(level, "\n")
}

// ---------------------------------------------------------------------------
// Laws

/// A clock asked for is held in 350 to 2500 MHz: one in the range is kept, any
/// other gives the nearer end.
pub proof fn clock_is_kept_or_at_an_end(mhz: int)
    ensures
        350 <= mhz <= 2500 ==> in_sclk_range(mhz) == mhz,
        mhz < 350 ==> in_sclk_range(mhz) == 350,
        mhz > 2500 ==> in_sclk_range(mhz) == 2500,
{
}

/// A line holds its three numbers in hexadecimal, one blank between them, and ends
/// with the line's end.
pub proof fn line_holds_its_numbers(msgid: u16, param: u32, extra: u32)
    ensures
        raw_line(msgid, param, extra) == text::joined(
            seq![text::hex(msgid as nat), text::hex(param as nat), text::hex(extra as nat)],
            seq![' '],
        ) + seq!['\n'],
{
    reveal_strlit(" ");
    reveal_strlit("\n");
    reveal_with_fuel(text::joined, 3);
    let v = seq![text::hex(msgid as nat), text::hex(param as nat), text::hex(extra as nat)];
    assert(v.drop_last() =~= seq![v[0], v[1]]);
    assert(v.drop_last().drop_last() =~= seq![v[0]]);
    assert(raw_line(msgid, param, extra) =~= text::joined(v, seq![' ']) + seq!['\n']);
}

} // verus!
