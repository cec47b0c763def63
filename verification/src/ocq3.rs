//! The SMU queue-3 mailbox: CPU overclock, undervolt and the core-presence mask.
//!
//! Every voltage-affecting message is built here and hard-capped here: the Vid
//! never exceeds the ceiling, the curve scale is undervolt-only and the boost
//! clock is clamped to its range. Carrying a message to the hardware is one
//! register access at a time, see [`Transfer`].
use vstd::prelude::*;

use crate::sorted;
use crate::double::{round, rounded, rounding_is_close, size};
use crate::text;

verus! {

/// Queue-3 command register (SMN).
pub const Q3_CMD: u32 = 0x03B1_0A20;
/// Queue-3 response register (SMN).
pub const Q3_RSP: u32 = 0x03B1_0A80;
/// Queue-3 argument register (SMN); the high half follows four bytes on.
pub const Q3_ARG: u32 = 0x03B1_0A88;
/// The high argument register.
pub const Q3_ARG_HIGH: u32 = 0x03B1_0A8C;

pub const SMU_OK: u32 = 0x01;
pub const SMU_FAILED: u32 = 0xFF;
pub const SMU_UNKNOWN: u32 = 0xFE;
pub const SMU_REJECTED_PREREQ: u32 = 0xFD;
pub const SMU_REJECTED_BUSY: u32 = 0xFC;

/// Polls of the response register before a message counts as unanswered.
pub const POLL_LIMIT: u32 = 4000;

/// Voltage ceiling; above it the silicon is at risk.
pub const VID_CEILING_MV: u32 = 1325;
/// Underclock floor.
pub const BOOST_MIN_MHZ: u32 = 2800;
/// Stock boost clock.
pub const BOOST_STOCK_MHZ: u32 = 3500;
/// Highest boost clock offered.
pub const BOOST_MAX_MHZ: u32 = 4100;
/// Above this clock, stress-test thoroughly.
pub const BOOST_WARN_MHZ: u32 = 3900;
/// Deepest undervolt.
pub const SCALE_MIN: i32 = -50;
/// Stock curve; a positive scale would overvolt.
pub const SCALE_MAX: i32 = 0;
pub const TEMP_MAX_C: u32 = 100;
/// A temperature cap below any plausible operating point is refused.
pub const TEMP_MIN_C: u32 = 50;
/// Lowest hardware GPU temperature cap that is ever armed; the governor holds
/// lower caps in software.
pub const HW_TEMP_FLOOR_C: u32 = 95;

/// Core-presence mask register (SMN). Low byte: one bit per physical core.
pub const CORE_MASK_REG: u32 = 0x0115_A870;
/// Six cores, twelve threads.
pub const CORE_MASK_STOCK: u8 = 0x77;
/// Eight cores, sixteen threads.
pub const CORE_MASK_FULL: u8 = 0xFF;

/// Vid code of the voltage ceiling. Codes fall as the voltage rises.
pub const VID_CEILING_CODE: u32 = 36;

const MSG_TEST: u16 = 0x01;
const MSG_SET_CPU_GPU_VID: u16 = 0x0F;
const MSG_UNFORCE_CPU_GPU_VID: u16 = 0x10;
const MSG_SET_OC_CLK: u16 = 0x25;
const MSG_UNSET_OC_CLK: u16 = 0x26;
const MSG_GET_CPU_VOLTAGE: u16 = 0x36;
const MSG_GET_GPU_VOLTAGE: u16 = 0x37;
const MSG_GET_PSTATE_CLK: u16 = 0x3B;
const MSG_GET_CPU_TEMP_MAX: u16 = 0x40;
const MSG_GET_CORE_FREQ: u16 = 0x43;
const MSG_SCALE_VID_CURVE: u16 = 0x50;
const MSG_SET_CPU_MAX_TEMP: u16 = 0x8B;
const MSG_SET_GPU_MAX_TEMP: u16 = 0x8C;
const MSG_SET_MAX_BOOST_CLK: u16 = 0x8F;
const MSG_WRITE_SMN: u16 = 0x98;
const MSG_DISABLE_EXTRA_VOLTAGE: u16 = 0x9A;

// ---------------------------------------------------------------------------
// Voltage codec and curve

/// `x` held between `lo` and `hi`.
pub open spec fn clamp(x: int, lo: int, hi: int) -> int {
    if x < lo { lo } else if x > hi { hi } else { x }
}

/// The nearest Vid code to a voltage, before the ceiling: the codec is
/// `mv = 1550 - 6.25 * vid`, so `vid = (6200 - 4 * mv) / 25`, which is never
/// halfway between two codes.
pub open spec fn nearest_code(mv: int) -> int {
    (2 * (6200 - 4 * mv) + 25) / 50
}

/// The Vid code sent for a voltage: the nearest, never below the ceiling's code.
pub open spec fn vid_code(mv: int) -> int {
    clamp(nearest_code(mv), VID_CEILING_CODE as int, 0xFFFF)
}

/// The voltage of a Vid code in 2^-60 mV: `(1.55 - 0.00625 * vid) * 1000` in
/// double precision, in which 0.00625 is 7205759403792794 times 2^-60 and 1.55
/// is 6980579422424269 times 2^-52.
pub open spec fn code_units(vid: int) -> int {
    rounded(1000 * rounded(256 * 6_980_579_422_424_269 - rounded(7_205_759_403_792_794 * vid)))
}

/// The voltage of a Vid code in mV, to the nearest, never negative.
pub open spec fn code_mv(vid: int) -> int {
    let mv = (code_units(vid) + 0x800_0000_0000_0000) / 0x1000_0000_0000_0000;
    if mv < 0 { 0 } else { mv }
}

/// One millivolt of the curve.
pub const CURVE_MV: i128 = 0x1_0000_0000_0000_0000;

/// The F/Vid curve in 2^-64 mV: `0.0003 c^2 + (-1.519 + 0.004325 s) c + 2800 - 10 s`
/// at clock `c` and curve scale `s`, in double precision: from the left, each
/// product and each sum rounded. There 0.0003 is 5534023222112865 times 2^-64,
/// 0.004325 is 4986385507424613 times 2^-60 and 1.519 is 6840967833975783 times
/// 2^-52.
pub open spec fn curve_units(clock: int, scale: int) -> int {
    let square = rounded(rounded(5_534_023_222_112_865 * clock) * clock);
    let slope = rounded(rounded(4_986_385_507_424_613 * scale) - 256 * 6_840_967_833_975_783);
    let sum = rounded(square + 16 * rounded(slope * clock));
    rounded(sum + (2800 - 10 * scale) * 0x1_0000_0000_0000_0000)
}

/// The curve in whole millivolts: to the nearest, a half upwards, held in the
/// range of `u32`.
pub open spec fn curve_mv(clock: int, scale: int) -> int {
    clamp(
        (curve_units(clock, scale) + 0x8000_0000_0000_0000) / 0x1_0000_0000_0000_0000,
        0,
        u32::MAX as int,
    )
}

/// SMU Vid code of a voltage in mV.
///
/// A voltage over the ceiling gives the ceiling's code, never code 0, which is
/// the highest voltage there is.
pub fn mv_to_vid(mv: u32) -> (r: u32)
    ensures
        r == vid_code(mv as int),
{
    if mv >= VID_CEILING_MV {
        assert(nearest_code(mv as int) <= VID_CEILING_CODE);
        VID_CEILING_CODE
    } else {
        (2 * (6200 - 4 * mv) + 25) / 50
    }
}

/// Voltage in mV of a Vid code.
pub fn vid_to_mv(vid: u32) -> (r: u32)
    ensures
        r == code_mv(vid as int),
{
    let below: i128 = round(7_205_759_403_792_794 * vid as i128);
    let volts: i128 = round(256 * 6_980_579_422_424_269 - below);
    let units: i128 = round(1000 * volts);
    proof {
        code_is_near(vid as int);
    }
    let up: i128 = units + 0x800_0000_0000_0000;
    if up < 0 {
        0
    } else {
        (up / 0x1000_0000_0000_0000) as u32
    }
}

/// Rounding moves the voltage of a code by less than a thousandth of a
/// millivolt.
proof fn code_is_near(vid: int)
    requires
        0 <= vid <= u32::MAX,
    ensures
        -0x1_0000_0000_0000 <= code_units(vid) - 1000 * (256 * 6_980_579_422_424_269
            - 7_205_759_403_792_794 * vid) <= 0x1_0000_0000_0000,
        0 <= rounded(7_205_759_403_792_794 * vid) <= 2 * (7_205_759_403_792_794 * vid),
{
    let a = 7_205_759_403_792_794 * vid;
    let b = 256 * 6_980_579_422_424_269 - rounded(a);
    rounding_is_close(a);
    rounding_is_close(b);
    rounding_is_close(1000 * rounded(b));
}

/// Predicted Vid at `clock_mhz` for a curve `scale`, in 2^-64 mV.
pub fn vid_predict(clock_mhz: u32, scale: i32) -> (r: i128)
    ensures
        r == curve_units(clock_mhz as int, scale as int),
        -0x100_0000_0000_0000_0000_0000_0000_0000 <= r <= 0x100_0000_0000_0000_0000_0000_0000_0000,
{
    let c: i128 = clock_mhz as i128;
    let s: i128 = scale as i128;
    let first: i128 = round(5_534_023_222_112_865 * c);
    proof {
        times_clock(first as int, c as int, 23_800_000_000_000_000_000_000_000);
    }
    let square: i128 = round(first * c);
    let slope: i128 = round(round(4_986_385_507_424_613 * s) - 256 * 6_840_967_833_975_783);
    proof {
        times_clock(slope as int, c as int, 10_720_000_000_000_000_000_000_000);
    }
    let along: i128 = round(slope * c);
    let sum: i128 = round(square + 16 * along);
    round(sum + (2800 - 10 * s) * 0x1_0000_0000_0000_0000)
}

proof fn times_clock(x: int, c: int, limit: int)
    requires
        0 <= c < 0x1_0000_0000,
        -limit <= x <= limit,
    ensures
        -(limit * 0x1_0000_0000) <= x * c <= limit * 0x1_0000_0000,
{
    assert(x * c <= limit * 0x1_0000_0000 && -(limit * 0x1_0000_0000) <= x * c) by (nonlinear_arith)
        requires
            0 <= c < 0x1_0000_0000,
            -limit <= x <= limit,
    ;
}

/// Predicted Vid in whole millivolts at `clock_mhz` for a curve `scale`.
pub fn vid_predict_mv(clock_mhz: u32, scale: i32) -> (r: u32)
    ensures
        r == curve_mv(clock_mhz as int, scale as int),
{
    let up: i128 = vid_predict(clock_mhz, scale) + 0x8000_0000_0000_0000;
    if up < 0 {
        return 0;
    }
    let mv: i128 = up / 0x1_0000_0000_0000_0000;
    if mv > 0xFFFF_FFFF {
        0xFFFF_FFFF
    } else {
        mv as u32
    }
}

// ---------------------------------------------------------------------------
// Messages

/// One queue-3 message with its two arguments.
#[derive(Clone, Copy, Debug, PartialEq, Eq, Structural)]
pub struct Request {
    pub msg: u16,
    pub arg: u32,
    pub arg_high: u32,
}

/// Why a queue-3 operation was refused or failed.
#[derive(Debug)]
pub enum Q3Error {
    /// A register access failed.
    Io { msg: u16, cause: String },
    /// No answer within the poll limit; the command may still be in flight.
    TimedOut { msg: u16, status: u32 },
    /// The firmware does not know the command.
    Unknown { msg: u16 },
    /// A prerequisite is missing.
    Prerequisite { msg: u16 },
    /// The mailbox is busy.
    Busy { msg: u16 },
    /// Any other status.
    Status { msg: u16, status: u32 },
    /// The test echo returned something else than its argument plus one.
    Echo { got: u32 },
    /// A positive curve scale would overvolt.
    PositiveScale { scale: i32 },
    /// A forced CPU Vid over the ceiling.
    OverCeiling { mv: u32 },
    /// The core mask is neither stock nor full.
    UnexpectedMask { mask: u8 },
    /// The unlock message was not accepted.
    UnlockStatus { status: u32 },
    /// The mask did not read back full after the unlock.
    UnlockReadback { mask: u8 },
}

impl Q3Error {
    /// The message shown to the operator.
    pub open spec fn text(&self) -> Seq<char> {
        match self {
            Q3Error::Io { msg, cause } => "q3 msg 0x"@ + text::hex_pad(*msg as nat, 2)
                + ": SMN I/O failed ("@ + cause@ + ")"@,
            Q3Error::TimedOut { msg, status } => "q3 msg 0x"@ + text::hex_pad(*msg as nat, 2)
                + ": response poll timed out (last status 0x"@ + text::hex_pad(*status as nat, 2)
                + ") — the command MAY STILL BE IN FLIGHT; do not assume it was dropped"@,
            Q3Error::Unknown { msg } => "q3 msg 0x"@ + text::hex_pad(*msg as nat, 2)
                + ": unknown command (firmware lacks it)"@,
            Q3Error::Prerequisite { msg } => "q3 msg 0x"@ + text::hex_pad(*msg as nat, 2)
                + ": rejected (prerequisite)"@,
            Q3Error::Busy { msg } => "q3 msg 0x"@ + text::hex_pad(*msg as nat, 2)
                + ": rejected (busy)"@,
            Q3Error::Status { msg, status } => "q3 msg 0x"@ + text::hex_pad(*msg as nat, 2)
                + ": status 0x"@ + text::hex_pad(*status as nat, 2),
            Q3Error::Echo { got } => "queue-3 test echo returned "@ + text::dec(*got as nat)
                + ", expected 124 (wrong mailbox?)"@,
            Q3Error::PositiveScale { scale } => "refusing positive curve scale "@ + text::dec_int(
                *scale as int,
            ) + " (overvolt); use <= 0"@,
            Q3Error::OverCeiling { mv } => "refusing CPU Vid "@ + text::dec(*mv as nat)
                + " mV (> 1325 mV ceiling)"@,
            Q3Error::UnexpectedMask { mask } => "refusing: unexpected core mask 0x"@
                + text::hex_upper_pad(*mask as nat, 2) + " (expected 0x77)"@,
            Q3Error::UnlockStatus { status } => "q3 msg 0x98: status 0x"@ + text::hex_pad(
                *status as nat,
                2,
            ) + " — mask unchanged, nothing broken"@,
            Q3Error::UnlockReadback { mask } => "unlock FAILED — mask read back 0x"@
                + text::hex_upper_pad(*mask as nat, 2) + ", nothing broken"@,
        }
    }

    /// The message shown to the operator.
    pub fn message(&self) -> (r: String)
        ensures
            r@ == self.text(),
    {
        match self {
            Q3Error::Io { msg, cause } => {
                let mut r = q3_prefix(*msg);
                r.append(": SMN I/O failed (");
                r.append(cause.as_str());
                r.append(")");
                r
            },
            Q3Error::TimedOut { msg, status } => {
                let mut r = q3_prefix(*msg);
                r.append(": response poll timed out (last status 0x");
                r.append(text::hexadecimal_padded(*status as u64, 2).as_str());
                r.append(") — the command MAY STILL BE IN FLIGHT; do not assume it was dropped");
                r
            },
            Q3Error::Unknown { msg } => {
                let mut r = q3_prefix(*msg);
                r.append(": unknown command (firmware lacks it)");
                r
            },
            Q3Error::Prerequisite { msg } => {
                let mut r = q3_prefix(*msg);
                r.append(": rejected (prerequisite)");
                r
            },
            Q3Error::Busy { msg } => {
                let mut r = q3_prefix(*msg);
                r.append(": rejected (busy)");
                r
            },
            Q3Error::Status { msg, status } => {
                let mut r = q3_prefix(*msg);
                r.append(": status 0x");
                r.append(text::hexadecimal_padded(*status as u64, 2).as_str());
                r
            },
            Q3Error::Echo { got } => text::join3(
                "queue-3 test echo returned ",
                text::decimal(*got as u64).as_str(),
                ", expected 124 (wrong mailbox?)",
            ),
            Q3Error::PositiveScale { scale } => text::join3(
                "refusing positive curve scale ",
                text::decimal_signed(*scale as i64).as_str(),
                " (overvolt); use <= 0",
            ),
            Q3Error::OverCeiling { mv } => text::join3(
                "refusing CPU Vid ",
                text::decimal(*mv as u64).as_str(),
                " mV (> 1325 mV ceiling)",
            ),
            Q3Error::UnexpectedMask { mask } => text::join3(
                "refusing: unexpected core mask 0x",
                text::hexadecimal_upper_padded(*mask as u64, 2).as_str(),
                " (expected 0x77)",
            ),
            Q3Error::UnlockStatus { status } => text::join3(
                "q3 msg 0x98: status 0x",
                text::hexadecimal_padded(*status as u64, 2).as_str(),
                " — mask unchanged, nothing broken",
            ),
            Q3Error::UnlockReadback { mask } => text::join3(
                "unlock FAILED — mask read back 0x",
                text::hexadecimal_upper_padded(*mask as u64, 2).as_str(),
                ", nothing broken",
            ),
        }
    }
}

fn q3_prefix(msg: u16) -> (r: String)
    ensures
        r@ == "q3 msg 0x"@ + text::hex_pad(msg as nat, 2),
{
    text::join2("q3 msg 0x", text::hexadecimal_padded(msg as u64, 2).as_str())
}

/// Result of an unlock attempt.
#[derive(Clone, Copy, Debug, PartialEq, Eq, Structural)]
pub enum CoreUnlock {
    /// The mask was full already and nothing was sent.
    AlreadyUnlocked,
    /// The message was sent and the mask read back full; the cores appear
    /// after the next warm reboot.
    Unlocked,
}

/// What to do once the core mask has been read for an unlock.
#[derive(Clone, Copy, Debug, PartialEq, Eq, Structural)]
pub enum UnlockStep {
    /// Nothing to send.
    Done(CoreUnlock),
    /// Send this message, then call [`OcQ3::unlock_sent`].
    Send(Request),
}

/// A curve scale as the mailbox takes it: two's complement in sixteen bits.
pub open spec fn packed_scale(scale: int) -> int {
    if scale < 0 { 0x1_0000 + scale } else { scale }
}

/// A core and a clock in one argument.
pub open spec fn clock_word(core: u32, mhz: u32) -> int {
    (core % 256) * 0x1_0000 + mhz % 0x1_0000
}

/// The message surface of queue 3.
#[derive(Clone, Copy, Debug)]
pub struct OcQ3;

impl OcQ3 {
    /// Test echo: the firmware must answer with the argument plus one.
    pub fn test() -> (r: Request)
        ensures
            r == (Request { msg: 0x01, arg: 123, arg_high: 0 }),
    {
        Request { msg: MSG_TEST, arg: 123, arg_high: 0 }
    }

    /// Judges the answer to [`OcQ3::test`].
    pub fn test_answer(arg: u32) -> (r: Result<(), Q3Error>)
        ensures
            arg == 124 ==> r is Ok,
            arg != 124 ==> r == Err::<(), Q3Error>(Q3Error::Echo { got: arg }),
    {
        if arg != 124 {
            return Err(Q3Error::Echo { got: arg });
        }
        Ok(())
    }

    /// The core mask is the low byte of its register.
    pub fn core_mask(reg: u32) -> (r: u8)
        ensures
            r == reg % 256,
    {
        (reg % 256) as u8
    }

    /// Unlock of all eight cores, given the mask as it reads now. Only the
    /// known stock mask is ever written; a full one needs nothing.
    pub fn unlock_cores(before: u8) -> (r: Result<UnlockStep, Q3Error>)
        ensures
            before == CORE_MASK_FULL ==> r == Ok::<UnlockStep, Q3Error>(
                UnlockStep::Done(CoreUnlock::AlreadyUnlocked),
            ),
            before == CORE_MASK_STOCK ==> r == Ok::<UnlockStep, Q3Error>(
                UnlockStep::Send(Request { msg: 0x98, arg: CORE_MASK_REG, arg_high: 0 }),
            ),
            before != CORE_MASK_FULL && before != CORE_MASK_STOCK ==> r == Err::<
                UnlockStep,
                Q3Error,
            >(Q3Error::UnexpectedMask { mask: before }),
            r matches Ok(UnlockStep::Send(q)) ==> before == 0x77 && q.arg == 0x0115_A870,
            r matches Ok(UnlockStep::Done(_)) ==> before == 0xFF,
            r is Ok <==> before == 0x77 || before == 0xFF,
    {
        if before == CORE_MASK_FULL {
            return Ok(UnlockStep::Done(CoreUnlock::AlreadyUnlocked));
        }
        if before != CORE_MASK_STOCK {
            return Err(Q3Error::UnexpectedMask { mask: before });
        }
        Ok(UnlockStep::Send(Self::unlock_write()))
    }

    /// Unlock from any mask, for a board already running an abnormal one.
    pub fn unlock_cores_any(before: u8) -> (r: UnlockStep)
        ensures
            before == CORE_MASK_FULL ==> r == UnlockStep::Done(CoreUnlock::AlreadyUnlocked),
            before != CORE_MASK_FULL ==> r == UnlockStep::Send(
                Request { msg: 0x98, arg: CORE_MASK_REG, arg_high: 0 },
            ),
            r matches UnlockStep::Send(q) ==> q.arg == 0x0115_A870,
            r is Done <==> before == 0xFF,
    {
        if before == CORE_MASK_FULL {
            return UnlockStep::Done(CoreUnlock::AlreadyUnlocked);
        }
        UnlockStep::Send(Self::unlock_write())
    }

    /// The unlock message: the firmware stores 0xFF at the address it is given.
    fn unlock_write() -> (r: Request)
        ensures
            r == (Request { msg: 0x98, arg: CORE_MASK_REG, arg_high: 0 }),
    {
        Request { msg: MSG_WRITE_SMN, arg: CORE_MASK_REG, arg_high: 0 }
    }

    /// Judges the status of the unlock message. The mask is to be read again
    /// only where the firmware took it.
    pub fn unlock_sent(status: u32) -> (r: Result<(), Q3Error>)
        ensures
            status == SMU_OK ==> r is Ok,
            status != SMU_OK ==> r == Err::<(), Q3Error>(Q3Error::UnlockStatus { status }),
            r is Ok <==> status == 1,
    {
        if status != SMU_OK {
            return Err(Q3Error::UnlockStatus { status });
        }
        Ok(())
    }

    /// Judges the mask read after the unlock message.
    pub fn unlock_verified(after: u8) -> (r: Result<CoreUnlock, Q3Error>)
        ensures
            after == CORE_MASK_FULL ==> r == Ok::<CoreUnlock, Q3Error>(CoreUnlock::Unlocked),
            after != CORE_MASK_FULL ==> r == Err::<CoreUnlock, Q3Error>(
                Q3Error::UnlockReadback { mask: after },
            ),
            r is Ok <==> after == 0xFF,
    {
        if after != CORE_MASK_FULL {
            return Err(Q3Error::UnlockReadback { mask: after });
        }
        Ok(CoreUnlock::Unlocked)
    }

    /// Reads the CPU voltage in mV.
    pub fn cpu_voltage_mv() -> (r: Request)
        ensures
            r == (Request { msg: 0x36, arg: 0, arg_high: 0 }),
    {
        Request { msg: MSG_GET_CPU_VOLTAGE, arg: 0, arg_high: 0 }
    }

    /// Reads the GPU voltage in mV.
    pub fn gpu_voltage_mv() -> (r: Request)
        ensures
            r == (Request { msg: 0x37, arg: 0, arg_high: 0 }),
    {
        Request { msg: MSG_GET_GPU_VOLTAGE, arg: 0, arg_high: 0 }
    }

    /// Reads the clock of one core in MHz.
    pub fn core_freq_mhz(core: u32) -> (r: Request)
        ensures
            r == (Request { msg: 0x43, arg: core, arg_high: 0 }),
    {
        Request { msg: MSG_GET_CORE_FREQ, arg: core, arg_high: 0 }
    }

    /// Reads the clock of one P-state in MHz.
    pub fn pstate_clk_mhz(pstate: u32) -> (r: Request)
        ensures
            r == (Request { msg: 0x3B, arg: pstate, arg_high: 0 }),
    {
        Request { msg: MSG_GET_PSTATE_CLK, arg: pstate, arg_high: 0 }
    }

    /// Reads the CPU temperature limit.
    pub fn cpu_temp_max() -> (r: Request)
        ensures
            r == (Request { msg: 0x40, arg: 0, arg_high: 0 }),
    {
        Request { msg: MSG_GET_CPU_TEMP_MAX, arg: 0, arg_high: 0 }
    }

    /// Sets the boost clock, clamped to its range.
    pub fn set_max_boost_clk(mhz: u32) -> (r: Request)
        ensures
            r.msg == 0x8F,
            r.arg == clamp(mhz as int, BOOST_MIN_MHZ as int, BOOST_MAX_MHZ as int),
            2800 <= r.arg <= 4100,
            2800 <= mhz <= 4100 ==> r.arg == mhz,
            r.arg_high == 0,
    {
        Request {
            msg: MSG_SET_MAX_BOOST_CLK,
            arg: clamp_u32(mhz, BOOST_MIN_MHZ, BOOST_MAX_MHZ),
            arg_high: 0,
        }
    }

    /// Scales the F/Vid curve. A positive scale is refused, one below the
    /// deepest undervolt is held there.
    pub fn scale_vid_curve(scale: i32) -> (r: Result<Request, Q3Error>)
        ensures
            scale > 0 ==> r == Err::<Request, Q3Error>(Q3Error::PositiveScale { scale }),
            scale <= 0 ==> r is Ok && (r->Ok_0).msg == 0x50 && (r->Ok_0).arg == packed_scale(
                clamp(scale as int, SCALE_MIN as int, SCALE_MAX as int),
            ) && (r->Ok_0).arg_high == 0,
    {
        if scale > SCALE_MAX {
            return Err(Q3Error::PositiveScale { scale });
        }
        Ok(Self::undervolt(scale))
    }

    /// The curve message of a scale that does not overvolt.
    pub(crate) fn undervolt(scale: i32) -> (r: Request)
        requires
            scale <= SCALE_MAX,
        ensures
            r.msg == 0x50,
            r.arg == packed_scale(clamp(scale as int, SCALE_MIN as int, SCALE_MAX as int)),
            r.arg_high == 0,
    {
        let s: i32 = if scale < SCALE_MIN {
            SCALE_MIN
        } else {
            scale
        };
        let packed: u32 = if s < 0 {
            (0x1_0000 + s) as u32
        } else {
            s as u32
        };
        Request { msg: MSG_SCALE_VID_CURVE, arg: packed, arg_high: 0 }
    }

    /// Sets the CPU temperature limit, clamped to its range.
    pub fn set_cpu_max_temp(c: u32) -> (r: Request)
        ensures
            r.msg == 0x8B,
            r.arg == clamp(c as int, TEMP_MIN_C as int, TEMP_MAX_C as int),
            50 <= r.arg <= 100,
            50 <= c <= 100 ==> r.arg == c,
            r.arg_high == 0,
    {
        Request {
            msg: MSG_SET_CPU_MAX_TEMP,
            arg: clamp_u32(c, TEMP_MIN_C, TEMP_MAX_C),
            arg_high: 0,
        }
    }

    /// Sets the hardware GPU temperature limit, never below the safe backstop.
    pub fn set_gpu_max_temp(c: u32) -> (r: Request)
        ensures
            r.msg == 0x8C,
            r.arg == clamp(c as int, HW_TEMP_FLOOR_C as int, TEMP_MAX_C as int),
            95 <= r.arg <= 100,
            95 <= c <= 100 ==> r.arg == c,
            r.arg_high == 0,
    {
        Request {
            msg: MSG_SET_GPU_MAX_TEMP,
            arg: clamp_u32(c, HW_TEMP_FLOOR_C, TEMP_MAX_C),
            arg_high: 0,
        }
    }

    /// Switches the SMU's extra voltage padding off (`on`) or back on.
    pub fn disable_extra_voltage(on: bool) -> (r: Request)
        ensures
            r == (Request { msg: 0x9A, arg: if on { 1 } else { 0 }, arg_high: 0 }),
    {
        Request {
            msg: MSG_DISABLE_EXTRA_VOLTAGE,
            arg: if on {
                1
            } else {
                0
            },
            arg_high: 0,
        }
    }

    /// Forces an absolute CPU Vid; over the ceiling it is refused.
    pub fn force_cpu_vid_mv(mv: u32) -> (r: Result<Request, Q3Error>)
        ensures
            mv > VID_CEILING_MV ==> r == Err::<Request, Q3Error>(Q3Error::OverCeiling { mv }),
            mv <= VID_CEILING_MV ==> r is Ok && (r->Ok_0).msg == 0x0F && (r->Ok_0).arg == vid_code(
                mv as int,
            ) && (r->Ok_0).arg_high == 0,
            r is Ok <==> mv <= 1325,
    {
        if mv > VID_CEILING_MV {
            return Err(Q3Error::OverCeiling { mv });
        }
        Ok(Request { msg: MSG_SET_CPU_GPU_VID, arg: mv_to_vid(mv), arg_high: 0 })
    }

    /// Releases a forced CPU Vid.
    pub fn unforce_cpu_vid() -> (r: Request)
        ensures
            r == (Request { msg: 0x10, arg: 0, arg_high: 0 }),
    {
        Request { msg: MSG_UNFORCE_CPU_GPU_VID, arg: 0, arg_high: 0 }
    }

    /// Sets the clock of one core, or of all with core 0xFF: the core in bits
    /// 16 to 23, the clock below. It bypasses the curve's voltage cap.
    pub fn set_oc_clk(core: u32, mhz: u32) -> (r: Request)
        ensures
            r.msg == 0x25,
            r.arg == (core % 256) * 0x1_0000 + mhz % 0x1_0000,
            r.arg == clock_word(core, mhz),
            r.arg_high == 0,
    {
        Request { msg: MSG_SET_OC_CLK, arg: (core % 256) * 0x1_0000 + mhz % 0x1_0000, arg_high: 0 }
    }

    /// Releases the clock of one core.
    pub fn unset_oc_clk(core: u32) -> (r: Request)
        ensures
            r.msg == 0x26,
            r.arg == (core % 256) * 0x1_0000,
            r.arg == clock_word(core, 0),
            r.arg_high == 0,
    {
        Request { msg: MSG_UNSET_OC_CLK, arg: (core % 256) * 0x1_0000, arg_high: 0 }
    }

    /// The messages that restore the firmware defaults, in order: the boost
    /// clock comes down first, so that relaxing the curve cannot overvolt, and
    /// a forced Vid is released too.
    pub fn restore_defaults() -> (r: Vec<Request>)
        ensures
            r@ == restore_requests(),
    {
        let mut r: Vec<Request> = Vec::new();
        r.push(Self::set_max_boost_clk(BOOST_STOCK_MHZ));
        r.push(Self::undervolt(0));
        r.push(Self::unforce_cpu_vid());
        r.push(Self::disable_extra_voltage(false));
        r.push(Self::set_cpu_max_temp(TEMP_MAX_C));
        r.push(Self::set_gpu_max_temp(TEMP_MAX_C));
        assert(r@ =~= restore_requests());
        r
    }

    /// Judges an answered message: its value where the status is good.
    pub fn send_ok(msg: u16, status: u32, arg: u32) -> (r: Result<u32, Q3Error>)
        ensures
            r == answer(msg, status, arg),
    {
        if status == SMU_OK {
            Ok(arg)
        } else if status == SMU_UNKNOWN {
            Err(Q3Error::Unknown { msg })
        } else if status == SMU_REJECTED_PREREQ {
            Err(Q3Error::Prerequisite { msg })
        } else if status == SMU_REJECTED_BUSY {
            Err(Q3Error::Busy { msg })
        } else {
            Err(Q3Error::Status { msg, status })
        }
    }
}

/// The defaults: stock boost, stock curve, no forced Vid, the padding back on,
/// both temperature limits at their highest.
pub open spec fn restore_requests() -> Seq<Request> {
    seq![
        Request { msg: 0x8F, arg: BOOST_STOCK_MHZ, arg_high: 0 },
        Request { msg: 0x50, arg: 0, arg_high: 0 },
        Request { msg: 0x10, arg: 0, arg_high: 0 },
        Request { msg: 0x9A, arg: 0, arg_high: 0 },
        Request { msg: 0x8B, arg: TEMP_MAX_C, arg_high: 0 },
        Request { msg: 0x8C, arg: TEMP_MAX_C, arg_high: 0 },
    ]
}

/// What a status means for a message.
pub open spec fn answer(msg: u16, status: u32, arg: u32) -> Result<u32, Q3Error> {
    if status == SMU_OK {
        Ok(arg)
    } else if status == SMU_UNKNOWN {
        Err(Q3Error::Unknown { msg })
    } else if status == SMU_REJECTED_PREREQ {
        Err(Q3Error::Prerequisite { msg })
    } else if status == SMU_REJECTED_BUSY {
        Err(Q3Error::Busy { msg })
    } else {
        Err(Q3Error::Status { msg, status })
    }
}

/// `x` held between `lo` and `hi`.
pub fn clamp_u32(x: u32, lo: u32, hi: u32) -> (r: u32)
    requires
        lo <= hi,
    ensures
        r == clamp(x as int, lo as int, hi as int),
{
    if x < lo {
        lo
    } else if x > hi {
        hi
    } else {
        x
    }
}

// ---------------------------------------------------------------------------
// Carrying a message

/// One access to a mailbox register.
#[derive(Clone, Copy, Debug, PartialEq, Eq, Structural)]
pub enum Access {
    Write { reg: u32, value: u32 },
    Read { reg: u32 },
}

/// How far a message has got.
#[derive(Clone, Copy, Debug, PartialEq, Eq, Structural)]
pub enum TransferStage {
    ClearResponse,
    Argument,
    ArgumentHigh,
    Command,
    /// Waiting for an answer, after so many polls without one.
    Poll { polls: u32 },
    /// Answered with this status; the value is to be read.
    Answer { status: u32 },
}

/// What follows an access.
#[derive(Clone, Copy, Debug, PartialEq, Eq, Structural)]
pub enum Progress {
    /// Go on with the next access.
    Next(Transfer),
    /// The firmware answered.
    Answered { status: u32, arg: u32 },
    /// The poll limit was reached; `status` was read last.
    TimedOut { status: u32 },
}

/// A message on its way through the mailbox registers.
#[derive(Clone, Copy, Debug, PartialEq, Eq, Structural)]
pub struct Transfer {
    pub request: Request,
    pub stage: TransferStage,
}

/// A status by which the firmware says that it is done with a message.
pub open spec fn is_answer(status: u32) -> bool {
    status == SMU_OK || status == SMU_FAILED || status == SMU_UNKNOWN || status
        == SMU_REJECTED_PREREQ || status == SMU_REJECTED_BUSY
}

impl Transfer {
    /// The poll limit has not been passed.
    pub open spec fn wf(&self) -> bool {
        match self.stage {
            TransferStage::Poll { polls } => polls < POLL_LIMIT,
            _ => true,
        }
    }

    /// The register access that a stage makes.
    pub open spec fn access_of(&self) -> Access {
        match self.stage {
            TransferStage::ClearResponse => Access::Write { reg: Q3_RSP, value: 0 },
            TransferStage::Argument => Access::Write { reg: Q3_ARG, value: self.request.arg },
            TransferStage::ArgumentHigh => Access::Write {
                reg: Q3_ARG_HIGH,
                value: self.request.arg_high,
            },
            TransferStage::Command => Access::Write {
                reg: Q3_CMD,
                value: self.request.msg as u32,
            },
            TransferStage::Poll { polls } => Access::Read { reg: Q3_RSP },
            TransferStage::Answer { status } => Access::Read { reg: Q3_ARG },
        }
    }

    /// What follows once the access has been made; `value` is what a read
    /// returned.
    pub open spec fn after(&self, value: u32) -> Progress {
        let go = |stage: TransferStage| Progress::Next(Transfer { request: self.request, stage });
        match self.stage {
            TransferStage::ClearResponse => go(TransferStage::Argument),
            TransferStage::Argument => go(TransferStage::ArgumentHigh),
            TransferStage::ArgumentHigh => go(TransferStage::Command),
            TransferStage::Command => go(TransferStage::Poll { polls: 0 }),
            TransferStage::Poll { polls } => if is_answer(value) {
                go(TransferStage::Answer { status: value })
            } else if polls + 1 < POLL_LIMIT {
                go(TransferStage::Poll { polls: (polls + 1) as u32 })
            } else {
                Progress::TimedOut { status: value }
            },
            TransferStage::Answer { status } => Progress::Answered { status, arg: value },
        }
    }

    /// A message before its first access.
    pub fn new(request: Request) -> (r: Transfer)
        ensures
            r == (Transfer { request, stage: TransferStage::ClearResponse }),
            r.wf(),
    {
        Transfer { request, stage: TransferStage::ClearResponse }
    }

    /// The register access to make now.
    pub fn access(&self) -> (r: Access)
        ensures
            r == self.access_of(),
    {
        match self.stage {
            TransferStage::ClearResponse => Access::Write { reg: Q3_RSP, value: 0 },
            TransferStage::Argument => Access::Write { reg: Q3_ARG, value: self.request.arg },
            TransferStage::ArgumentHigh => Access::Write {
                reg: Q3_ARG_HIGH,
                value: self.request.arg_high,
            },
            TransferStage::Command => Access::Write {
                reg: Q3_CMD,
                value: self.request.msg as u32,
            },
            TransferStage::Poll { .. } => Access::Read { reg: Q3_RSP },
            TransferStage::Answer { .. } => Access::Read { reg: Q3_ARG },
        }
    }

    /// What follows the access; `value` is what a read returned.
    pub fn advance(self, value: u32) -> (r: Progress)
        requires
            self.wf(),
        ensures
            r == self.after(value),
            r is Next ==> r->Next_0.wf(),
    {
        match self.stage {
            TransferStage::ClearResponse => self.at(TransferStage::Argument),
            TransferStage::Argument => self.at(TransferStage::ArgumentHigh),
            TransferStage::ArgumentHigh => self.at(TransferStage::Command),
            TransferStage::Command => self.at(TransferStage::Poll { polls: 0 }),
            TransferStage::Poll { polls } => {
                if value == SMU_OK || value == SMU_FAILED || value == SMU_UNKNOWN || value
                    == SMU_REJECTED_PREREQ || value == SMU_REJECTED_BUSY {
                    self.at(TransferStage::Answer { status: value })
                } else if polls + 1 < POLL_LIMIT {
                    self.at(TransferStage::Poll { polls: polls + 1 })
                } else {
                    Progress::TimedOut { status: value }
                }
            },
            TransferStage::Answer { status } => Progress::Answered { status, arg: value },
        }
    }

    fn at(self, stage: TransferStage) -> (r: Progress)
        ensures
            r == Progress::Next(Transfer { request: self.request, stage }),
    {
        Progress::Next(Transfer { request: self.request, stage })
    }
}

/// What a message comes to when its accesses return `values` in turn.
pub open spec fn carried(t: Transfer, values: Seq<u32>) -> Progress
    decreases values.len(),
{
    if values.len() == 0 {
        Progress::Next(t)
    } else {
        match t.after(values[0]) {
            Progress::Next(u) => carried(u, values.drop_first()),
            done => done,
        }
    }
}

/// The response register is cleared and both arguments are in place before the
/// command is written, and nothing is polled before that.
pub proof fn command_is_written_last(request: Request, values: Seq<u32>)
    requires
        values.len() == 4,
    ensures
        ({
            let t0 = Transfer { request, stage: TransferStage::ClearResponse };
            let t1 = carried(t0, values.take(1));
            let t2 = carried(t0, values.take(2));
            let t3 = carried(t0, values.take(3));
            let t4 = carried(t0, values);
            &&& t0.access_of() == Access::Write { reg: Q3_RSP, value: 0 }
            &&& t1 is Next && t1->Next_0.access_of() == Access::Write {
                reg: Q3_ARG,
                value: request.arg,
            }
            &&& t2 is Next && t2->Next_0.access_of() == Access::Write {
                reg: Q3_ARG_HIGH,
                value: request.arg_high,
            }
            &&& t3 is Next && t3->Next_0.access_of() == Access::Write {
                reg: Q3_CMD,
                value: request.msg as u32,
            }
            &&& t4 == Progress::Next(Transfer { request, stage: TransferStage::Poll { polls: 0 } })
        }),
{
    reveal_with_fuel(carried, 6);
}

/// A message whose response register reads as no answer a number of times
/// below the limit, then as an answer, ends with that status and the value of
/// the argument register.
pub proof fn answered_message(request: Request, from: u32, waits: Seq<u32>, status: u32, arg: u32)
    requires
        from + waits.len() < POLL_LIMIT,
        forall|i: int| 0 <= i < waits.len() ==> !is_answer(#[trigger] waits[i]),
        is_answer(status),
    ensures
        carried(
            Transfer { request, stage: TransferStage::Poll { polls: from } },
            waits + seq![status, arg],
        ) == (Progress::Answered { status, arg }),
    decreases waits.len(),
{
    let t = Transfer { request, stage: TransferStage::Poll { polls: from } };
    let all = waits + seq![status, arg];
    if waits.len() == 0 {
        assert(all =~= seq![status, arg]);
        reveal_with_fuel(carried, 4);
    } else {
        assert(all.drop_first() =~= waits.drop_first() + seq![status, arg]);
        assert(all[0] == waits[0]);
        answered_message(request, (from + 1) as u32, waits.drop_first(), status, arg);
    }
}

/// A message that reads as no answer up to the limit times out, with the last
/// status read.
pub proof fn unanswered_message(request: Request, from: u32, waits: Seq<u32>)
    requires
        waits.len() > 0,
        from + waits.len() == POLL_LIMIT,
        forall|i: int| 0 <= i < waits.len() ==> !is_answer(#[trigger] waits[i]),
    ensures
        carried(Transfer { request, stage: TransferStage::Poll { polls: from } }, waits) == (
        Progress::TimedOut { status: waits.last() }),
    decreases waits.len(),
{
    if waits.len() > 1 {
        unanswered_message(request, (from + 1) as u32, waits.drop_first());
    }
}

/// The mailbox registers as the firmware sees them.
pub struct Mailbox {
    pub command: u32,
    pub response: u32,
    pub argument: u32,
    pub argument_high: u32,
}

/// The mailbox after an access: a write lands in the register at its address.
pub open spec fn landed(m: Mailbox, a: Access) -> Mailbox {
    match a {
        Access::Write { reg, value } => if reg == 0x03B1_0A20 {
            Mailbox { command: value, ..m }
        } else if reg == 0x03B1_0A80 {
            Mailbox { response: value, ..m }
        } else if reg == 0x03B1_0A88 {
            Mailbox { argument: value, ..m }
        } else if reg == 0x03B1_0A8C {
            Mailbox { argument_high: value, ..m }
        } else {
            m
        },
        Access::Read { reg } => m,
    }
}

/// Whatever the mailbox held before, when the command register is written the
/// firmware finds both arguments of the message in it and the response cleared;
/// from there on nothing is written any more: the response and then the
/// argument are only read.
pub proof fn message_reaches_the_mailbox(request: Request, m: Mailbox, polls: u32, status: u32)
    ensures
        ({
            let t0 = Transfer { request, stage: TransferStage::ClearResponse };
            let t1 = t0.after(0)->Next_0;
            let t2 = t1.after(0)->Next_0;
            let t3 = t2.after(0)->Next_0;
            let ready = landed(landed(landed(m, t0.access_of()), t1.access_of()), t2.access_of());
            &&& ready.command == m.command
            &&& ready.response == 0
            &&& ready.argument == request.arg
            &&& ready.argument_high == request.arg_high
            &&& landed(ready, t3.access_of()) == (Mailbox { command: request.msg as u32, ..ready })
        }),
        (Transfer { request, stage: TransferStage::Poll { polls } }).access_of() == (Access::Read {
            reg: 0x03B1_0A80,
        }),
        (Transfer { request, stage: TransferStage::Answer { status } }).access_of()
            == (Access::Read { reg: 0x03B1_0A88 }),
{
}

/// A poll goes on exactly while the response is none of the firmware's five
/// statuses and fewer than four thousand reads were made; the value is handed
/// out only where the status is the good one, and each refusal is told by its
/// own status.
pub proof fn statuses_are_told_apart(request: Request, polls: u32, status: u32, arg: u32)
    ensures
        ({
            let done = status == 1 || 0xFC <= status <= 0xFF;
            let next = (Transfer { request, stage: TransferStage::Poll { polls } }).after(status);
            &&& next is TimedOut <==> !done && polls >= 3999
            &&& next matches Progress::TimedOut { status: last } ==> last == status
            &&& next is Next
            ==> next->Next_0.request == request && (next->Next_0.stage is Answer <==> done)
            &&& !(next is Answered)
        }),
        (Transfer { request, stage: TransferStage::Answer { status } }).after(arg)
            == (Progress::Answered { status, arg }),
        answer(request.msg, status, arg) is Ok <==> status == 1,
        answer(request.msg, 1, arg) == Ok::<u32, Q3Error>(arg),
        answer(request.msg, 0xFE, arg) == Err::<u32, Q3Error>(Q3Error::Unknown { msg: request.msg }),
        answer(request.msg, 0xFD, arg) == Err::<u32, Q3Error>(
            Q3Error::Prerequisite { msg: request.msg },
        ),
        answer(request.msg, 0xFC, arg) == Err::<u32, Q3Error>(Q3Error::Busy { msg: request.msg }),
        status != 1 && !(0xFC <= status <= 0xFE) ==> answer(request.msg, status, arg) == Err::<
            u32,
            Q3Error,
        >(Q3Error::Status { msg: request.msg, status }),
{
}

/// A core and a clock can be read back from the argument that holds both.
pub proof fn clock_word_is_read_back(core: u32, mhz: u32)
    ensures
        clock_word(core, mhz) / 0x1_0000 == core % 256,
        clock_word(core, mhz) % 0x1_0000 == mhz % 0x1_0000,
{
}

/// The sixteen bits of a curve scale, read as a signed number, are the scale.
pub proof fn packed_scale_is_signed(scale: int)
    requires
        -0x8000 <= scale < 0x8000,
    ensures
        0 <= packed_scale(scale) < 0x1_0000,
        packed_scale(scale) < 0x8000 ==> packed_scale(scale) == scale,
        packed_scale(scale) >= 0x8000 ==> packed_scale(scale) - 0x1_0000 == scale,
{
}

/// A value held in a range lies in it, is kept where it lay there already, and
/// no value of the range is nearer.
pub proof fn held_value_is_nearest(x: int, lo: int, hi: int, other: int)
    requires
        lo <= other <= hi,
    ensures
        lo <= clamp(x, lo, hi) <= hi,
        lo <= x <= hi ==> clamp(x, lo, hi) == x,
        other <= clamp(x, lo, hi) <= x || x <= clamp(x, lo, hi) <= other || clamp(x, lo, hi) == x,
{
}

// ---------------------------------------------------------------------------
// Laws of the codec and the curve

/// No code at or under the ceiling's voltage stands for a voltage nearer to the
/// one asked for: a code stands for 1550 mV less 6.25 mV each.
pub proof fn code_is_the_nearest(mv: u32, other: int)
    requires
        36 <= other <= 0xFFFF,
    ensures
        36 <= vid_code(mv as int),
        ({
            let off = 6200 - 25 * vid_code(mv as int) - 4 * mv;
            let off_other = 6200 - 25 * other - 4 * mv;
            &&& off_other >= 0 ==> -off_other <= off <= off_other
            &&& off_other <= 0 ==> off_other <= off <= -off_other
        }),
{
}

/// A code reads as its voltage, 1550 mV less 6.25 mV each, to within half a
/// millivolt; a code past the last voltage reads as none.
pub proof fn code_reads_as_its_voltage(vid: u32)
    ensures
        vid <= 248 ==> -4 <= 8 * code_mv(vid as int) - (12400 - 50 * vid) <= 4,
        vid > 248 ==> code_mv(vid as int) == 0,
{
    code_is_near(vid as int);
}

/// No voltage encodes above the ceiling, however high it was asked for.
pub proof fn codec_holds_the_ceiling(mv: u32)
    ensures
        vid_code(mv as int) >= VID_CEILING_CODE,
        code_mv(vid_code(mv as int)) <= VID_CEILING_MV,
        mv >= VID_CEILING_MV ==> vid_code(mv as int) == VID_CEILING_CODE,
        code_mv(VID_CEILING_CODE as int) == VID_CEILING_MV,
{
    code_is_near(vid_code(mv as int));
    code_is_near(VID_CEILING_CODE as int);
}

/// Encoding and decoding a voltage at or below the ceiling gives it back to
/// within half a code.
pub proof fn codec_round_trip(mv: u32)
    requires
        mv <= VID_CEILING_MV,
    ensures
        -4 <= code_mv(vid_code(mv as int)) - mv <= 4,
{
    code_is_near(vid_code(mv as int));
}

/// The curve without rounding.
pub open spec fn unrounded(clock: int, scale: int) -> int {
    5_534_023_222_112_865 * (clock * clock) + 16 * ((4_986_385_507_424_613 * scale - 256
        * 6_840_967_833_975_783) * clock) + (2800 - 10 * scale) * 0x1_0000_0000_0000_0000
}

/// How far rounding can move the curve.
pub open spec fn slack(clock: int, scale: int) -> int {
    14 * (clock * clock) + 110 * (size(scale) * clock)
}

/// Rounding moves the curve by less than its slack, a minute part of a
/// millivolt.
pub proof fn curve_is_near(clock: int, scale: int)
    requires
        BOOST_MIN_MHZ <= clock <= u32::MAX,
        i32::MIN <= scale <= i32::MAX,
    ensures
        -slack(clock, scale) <= curve_units(clock, scale) - unrounded(clock, scale) <= slack(
            clock,
            scale,
        ),
{
    let c = clock;
    let s = size(scale);
    let cc = c * c;
    let sc = s * c;
    let square = rounded(rounded(5_534_023_222_112_865 * c) * c);
    let slope = rounded(rounded(4_986_385_507_424_613 * scale) - 256 * 6_840_967_833_975_783);
    let along = rounded(slope * c);
    let v = square + 16 * along;
    let k = 4_986_385_507_424_613 * scale - 256 * 6_840_967_833_975_783;
    let kc = k * c;
    square_is_near(c);
    along_is_near(c, scale);
    assert(cc >= 2800 * c) by (nonlinear_arith)
        requires
            c >= 2800,
            cc == c * c,
    ;
    assert(sc >= 2800 * s) by (nonlinear_arith)
        requires
            c >= 2800,
            s >= 0,
            sc == s * c,
    ;
    assert(-(0x20_0000_0000_0000 * sc + 0x20_0000_0000_0000 * (256 * c)) <= kc <= 0x20_0000_0000_0000
        * sc + 0x20_0000_0000_0000 * (256 * c)) by (nonlinear_arith)
        requires
            kc == k * c,
            sc == s * c,
            c >= 0,
            -(0x20_0000_0000_0000 * s + 0x20_0000_0000_0000 * 256) <= k <= 0x20_0000_0000_0000 * s
                + 0x20_0000_0000_0000 * 256,
    ;
    sum_is_near(square, along, cc, sc, c, kc);
    rounding_is_close(rounded(v) + (2800 - 10 * scale) * 0x1_0000_0000_0000_0000);
}

proof fn square_is_near(c: int)
    requires
        0 <= c,
    ensures
        ({
            let square = rounded(rounded(5_534_023_222_112_865 * c) * c);
            -2 * (c * c) <= square - 5_534_023_222_112_865 * (c * c) <= 2 * (c * c)
        }),
{
    let first = rounded(5_534_023_222_112_865 * c);
    let cc = c * c;
    rounding_is_close(5_534_023_222_112_865 * c);
    rounding_is_close(first * c);
    assert(-c <= first - 5_534_023_222_112_865 * c <= c);
    assert(-cc <= first * c - 5_534_023_222_112_865 * cc <= cc && 0 <= cc) by (nonlinear_arith)
        requires
            -c <= first - 5_534_023_222_112_865 * c <= c,
            c >= 0,
            cc == c * c,
    ;
}

proof fn along_is_near(c: int, scale: int)
    requires
        0 <= c,
    ensures
        ({
            let slope = rounded(
                rounded(4_986_385_507_424_613 * scale) - 256 * 6_840_967_833_975_783,
            );
            let k = 4_986_385_507_424_613 * scale - 256 * 6_840_967_833_975_783;
            let e = 3 * (size(scale) * c) + 512 * c;
            -e <= rounded(slope * c) - k * c <= e
        }),
{
    let s = size(scale);
    let sc = s * c;
    let t = rounded(4_986_385_507_424_613 * scale);
    let u = t - 256 * 6_840_967_833_975_783;
    let slope = rounded(u);
    let k = 4_986_385_507_424_613 * scale - 256 * 6_840_967_833_975_783;
    rounding_is_close(4_986_385_507_424_613 * scale);
    rounding_is_close(u);
    rounding_is_close(slope * c);
    assert(-s <= t - 4_986_385_507_424_613 * scale <= s);
    assert(-(s + 256) <= slope - u <= s + 256);
    assert(-(2 * sc + 256 * c) <= slope * c - k * c <= 2 * sc + 256 * c) by (nonlinear_arith)
        requires
            -(2 * s + 256) <= slope - k <= 2 * s + 256,
            sc == s * c,
            c >= 0,
    ;
    assert(-(0x20_0000_0000_0000 * sc + 0x20_0000_0000_0000 * (256 * c)) <= slope * c
        <= 0x20_0000_0000_0000 * sc + 0x20_0000_0000_0000 * (256 * c)) by (nonlinear_arith)
        requires
            sc == s * c,
            c >= 0,
            -(0x20_0000_0000_0000 * s + 0x20_0000_0000_0000 * 256) <= slope <= 0x20_0000_0000_0000
                * s + 0x20_0000_0000_0000 * 256,
    ;
}

proof fn sum_is_near(square: int, along: int, cc: int, sc: int, c: int, kc: int)
    requires
        0 <= cc,
        0 <= sc,
        0 <= c,
        -2 * cc <= square - 5_534_023_222_112_865 * cc <= 2 * cc,
        -(3 * sc + 512 * c) <= along - kc <= 3 * sc + 512 * c,
        -(0x20_0000_0000_0000 * sc + 0x20_0000_0000_0000 * (256 * c)) <= kc <= 0x20_0000_0000_0000 * sc
            + 0x20_0000_0000_0000 * (256 * c),
    ensures
        ({
            let sum = rounded(square + 16 * along);
            &&& -(3 * cc + 65 * sc + 12600 * c) <= sum - (5_534_023_222_112_865 * cc + 16 * kc)
                <= 3 * cc + 65 * sc + 12600 * c
            &&& -(0x20_0000_0000_0000 * (2 * cc + 18 * sc + 4400 * c)) <= sum
                <= 0x20_0000_0000_0000 * (2 * cc + 18 * sc + 4400 * c)
        }),
{
    let v = square + 16 * along;
    let m = cc + 17 * sc + 4200 * c;
    rounding_is_close(v);
    assert(size(v) <= 0x20_0000_0000_0000 * m);
    assert(-m <= rounded(v) - v <= m);
}

/// From the stock clock up, the curve rises with the clock at every allowed scale.
pub proof fn curve_rises_with_clock(c1: int, c2: int, scale: int)
    requires
        BOOST_STOCK_MHZ <= c1 < c2 <= u32::MAX,
        SCALE_MIN <= scale <= SCALE_MAX,
    ensures
        curve_units(c1, scale) < curve_units(c2, scale),
{
    let k = 16 * (4_986_385_507_424_613 * scale - 256 * 6_840_967_833_975_783);
    let g = 900_000_000_000_000int;
    curve_is_near(c1, scale);
    curve_is_near(c2, scale);
    let step = 5_534_023_222_112_865 * (c1 + c2) + k;
    assert(step >= g * (c1 + c2));
    assert(unrounded(c2, scale) - unrounded(c1, scale) == (c2 - c1) * step) by (nonlinear_arith)
        requires
            k == 16 * (4_986_385_507_424_613 * scale - 256 * 6_840_967_833_975_783),
            step == 5_534_023_222_112_865 * (c1 + c2) + k,
            unrounded(c1, scale) == 5_534_023_222_112_865 * (c1 * c1) + 16 * ((4_986_385_507_424_613 * scale - 256
                * 6_840_967_833_975_783) * c1) + (2800 - 10 * scale) * 0x1_0000_0000_0000_0000,
            unrounded(c2, scale) == 5_534_023_222_112_865 * (c2 * c2) + 16 * ((4_986_385_507_424_613 * scale - 256
                * 6_840_967_833_975_783) * c2) + (2800 - 10 * scale) * 0x1_0000_0000_0000_0000,
    ;
    assert((c2 - c1) * step >= step) by (nonlinear_arith)
        requires
            c2 - c1 >= 1,
            step >= 0,
    ;
    slack_is_small(c1, scale, c2, 50);
    slack_is_small(c2, scale, c2, 50);
}

/// At any clock of the envelope a deeper scale lowers the predicted Vid.
pub proof fn undervolt_lowers_vid(clock: int, deeper: int, milder: int)
    requires
        BOOST_MIN_MHZ <= clock <= u32::MAX,
        i32::MIN <= deeper < milder <= i32::MAX,
    ensures
        curve_units(clock, deeper) < curve_units(clock, milder),
{
    let d = milder - deeper;
    let step = 16 * (4_986_385_507_424_613 * clock) - 10 * 0x1_0000_0000_0000_0000;
    curve_is_near(clock, deeper);
    curve_is_near(clock, milder);
    assert(unrounded(clock, milder) - unrounded(clock, deeper) == d * step) by (nonlinear_arith)
        requires
            d == milder - deeper,
            step == 16 * (4_986_385_507_424_613 * clock) - 10 * 0x1_0000_0000_0000_0000,
            unrounded(clock, milder) == 5_534_023_222_112_865 * (clock * clock) + 16 * ((4_986_385_507_424_613 * milder
                - 256 * 6_840_967_833_975_783) * clock) + (2800 - 10 * milder) * 0x1_0000_0000_0000_0000,
            unrounded(clock, deeper) == 5_534_023_222_112_865 * (clock * clock) + 16 * ((4_986_385_507_424_613 * deeper
                - 256 * 6_840_967_833_975_783) * clock) + (2800 - 10 * deeper) * 0x1_0000_0000_0000_0000,
    ;
    assert(step >= 13_000_000_000_000_000 * clock) by (nonlinear_arith)
        requires
            step == 16 * (4_986_385_507_424_613 * clock) - 10 * 0x1_0000_0000_0000_0000,
            clock >= 2800,
    ;
    assert(d * step >= step) by (nonlinear_arith)
        requires
            d >= 1,
            step >= 0,
    ;
    slack_is_small(clock, deeper, clock, 0x8000_0000);
    slack_is_small(clock, milder, clock, 0x8000_0000);
}

proof fn slack_is_small(clock: int, scale: int, top: int, depth: int)
    requires
        0 <= clock <= top <= u32::MAX,
        size(scale) <= depth,
    ensures
        slack(clock, scale) <= 14 * (0x1_0000_0000 * top) + 110 * (depth * top),
{
    assert(clock * clock <= 0x1_0000_0000 * top) by (nonlinear_arith)
        requires
            0 <= clock <= top <= 0x1_0000_0000,
    ;
    let s = size(scale);
    assert(s * clock <= depth * top) by (nonlinear_arith)
        requires
            0 <= s <= depth,
            0 <= clock <= top,
    ;
}

// ---------------------------------------------------------------------------
// Cores present

/// One entry of the CPU directory: its name and, where it could be read, the
/// text of its core id.
#[derive(Debug)]
pub struct CpuEntry {
    pub name: String,
    pub core_id: Option<String>,
}

impl CpuEntry {
    /// The core id, for an entry of a logical CPU with a readable one.
    pub open spec fn id(&self) -> Option<int> {
        match self.core_id {
            Some(t) if cpu_dir(self.name@) => text::number(
                text::trimmed(t@),
                10,
                u32::MAX as int,
            ),
            _ => None,
        }
    }
}

/// The name of a logical CPU's directory: `cpu` and a decimal number.
pub open spec fn cpu_dir(name: Seq<char>) -> bool {
    text::begins(name, "cpu"@) && name.len() > 3 && text::all_digits(text::after(name, 3))
}

/// The core ids of the first `n` entries.
pub open spec fn ids_among(entries: Seq<CpuEntry>, n: int) -> Set<u32> {
    Set::new(|v: u32| exists|i: int| 0 <= i < n && (#[trigger] entries[i]).id() == Some(v as int))
}

/// The physical cores that the system reports, ascending; slots 0 to 5 where
/// it reports none.
pub fn enabled_core_ids(entries: &Vec<CpuEntry>) -> (r: Vec<u32>)
    ensures
        sorted::ascending(r@),
        ids_among(entries@, entries@.len() as int) =~= Set::empty() ==> r@ == seq![
            0u32,
            1,
            2,
            3,
            4,
            5,
        ],
        !(ids_among(entries@, entries@.len() as int) =~= Set::empty()) ==> r@.to_set()
            == ids_among(entries@, entries@.len() as int),
{
    let mut ids: Vec<u32> = Vec::new();
    assert(ids@.to_set() =~= ids_among(entries@, 0));
    let mut i: usize = 0;
    while i < entries.len()
        invariant
            i <= entries@.len(),
            sorted::ascending(ids@),
            ids@.to_set() == ids_among(entries@, i as int),
        decreases entries@.len() - i,
    {
        let e = &entries[i];
        let found: Option<u32> = entry_id(e);
        let ghost before = ids@.to_set();
        match found {
            Some(v) => {
                sorted::insert(&mut ids, v);
                assert(before.insert(v) =~= ids_among(entries@, i + 1)) by {
                    assert(entries@[i as int].id() == Some(v as int));
                }
            },
            None => {
                assert(before =~= ids_among(entries@, i + 1));
            },
        }
        i += 1;
    }
    if ids.len() == 0 {
        let r = vec![0u32, 1, 2, 3, 4, 5];
        assert(r@ =~= seq![0u32, 1, 2, 3, 4, 5]);
        r
    } else {
        assert(ids@.to_set().contains(ids@[0]));
        ids
    }
}

fn entry_id(e: &CpuEntry) -> (r: Option<u32>)
    ensures
        r is Some <==> e.id() is Some,
        r is Some ==> e.id() == Some(r->0 as int),
{
    proof {
        reveal_strlit("cpu");
    }
    match &e.core_id {
        Some(t) => match text::strip_prefix(e.name.as_str(), "cpu") {
            Some(n) if !n.is_empty() && text::only_digits(n) => text::parse_u32(
                text::trim(t.as_str()),
            ),
            _ => None,
        },
        None => None,
    }
}

// ---------------------------------------------------------------------------
// Laws of the core ids

/// A directory of `cpu` and a number is that of a logical CPU; `cpu` alone, and
/// `cpu` with anything else behind it, is not.
pub proof fn directories_of_cpus(n: nat, rest: Seq<char>)
    ensures
        cpu_dir("cpu"@ + text::dec(n)),
        !cpu_dir("cpu"@),
        rest.len() > 0 && !(48 <= text::code(rest[0]) <= 57) ==> !cpu_dir("cpu"@ + rest),
{
    reveal_strlit("cpu");
    let s = "cpu"@ + text::dec(n);
    text::decimal_is_digits(n);
    assert(s.subrange(0, 3) =~= "cpu"@);
    assert(text::after(s, 3) =~= text::dec(n));
    let t = "cpu"@ + rest;
    assert(text::after(t, 3) =~= rest);
}

/// An entry has the id that its node holds, and none where it is no logical CPU or
/// the node could not be read.
pub proof fn id_is_that_of_the_node(e: CpuEntry)
    ensures
        e.core_id is None ==> e.id() is None,
        !cpu_dir(e.name@) ==> e.id() is None,
        cpu_dir(e.name@) ==> (e.core_id matches Some(t) ==> e.id() == text::number(
            text::trimmed(t@),
            10,
            u32::MAX as int,
        )),
{
}

/// The curve in whole millivolts is the nearest to it, a half upwards, where it is
/// not negative.
pub proof fn whole_millivolts_are_nearest(clock: int, scale: int)
    requires
        0 <= curve_units(clock, scale) < 0xFFFF_FFFF * 0x1_0000_0000_0000_0000,
    ensures
        -0x8000_0000_0000_0000 < curve_mv(clock, scale) * 0x1_0000_0000_0000_0000 - curve_units(
            clock,
            scale,
        ) + 1 <= 0x8000_0000_0000_0000 + 1,
{
}

} // verus!
