//! Routing of the compute units: which work-group processors (WGPs) of each
//! shader array take work.
//!
//! A route is one mask per shader array, five WGPs to an array, two compute
//! units to a WGP. Work sent to a route with an empty array hangs the GPU, so
//! such a route is refused before anything is written.
use vstd::prelude::*;

use crate::cu::{count_ones, ones};
use crate::text;

verus! {

/// All five WGPs of an array.
pub const FULL_MASK: u32 = 0x1f;
/// The factory dispatch: the first three WGPs.
pub const FACTORY_MASK: u32 = 0x07;
/// Where the saved route lives.
pub const PROFILE_PATH: &'static str = "/var/lib/aputune/route.json";

/// Engine and array number of the four shader arrays, in grid order.
pub open spec fn array_at(i: int) -> (u32, u32) {
    if i == 0 { (0, 0) } else if i == 1 { (0, 1) } else if i == 2 { (1, 0) } else { (1, 1) }
}

/// Engine and array number of a shader array in grid order.
pub fn array_pos(i: usize) -> (r: (u32, u32))
    requires
        i < 4,
    ensures
        r == array_at(i as int),
{
    if i == 0 {
        (0, 0)
    } else if i == 1 {
        (0, 1)
    } else if i == 2 {
        (1, 0)
    } else {
        (1, 1)
    }
}

/// The WGP bits of a mask.
pub open spec fn routed(mask: u32) -> u32 {
    (mask % 32) as u32
}

/// Number of WGPs that a mask routes.
pub open spec fn wgps(mask: u32) -> nat {
    ones(mask, 5)
}

/// A register of the routing sequence.
#[derive(Clone, Copy, Debug, PartialEq, Eq, Structural)]
pub enum RouteReg {
    /// The harvest mask.
    Config,
    /// The dispatch mask of an array.
    Dispatch,
    /// The WGPs that are kept powered.
    AlwaysOn,
}

impl RouteReg {
    /// The register's full name.
    pub open spec fn path(&self) -> Seq<char> {
        match self {
            RouteReg::Config => "cyan_skillfish.gfx1013.mmCC_GC_SHADER_ARRAY_CONFIG"@,
            RouteReg::Dispatch => "cyan_skillfish.gfx1013.mmSPI_PG_ENABLE_STATIC_WGP_MASK"@,
            RouteReg::AlwaysOn => "cyan_skillfish.gfx1013.mmRLC_PG_ALWAYS_ON_WGP_MASK"@,
        }
    }

    /// The register's full name.
    pub fn name(&self) -> (r: &'static str)
        ensures
            r@ == self.path(),
    {
        match self {
            RouteReg::Config => "cyan_skillfish.gfx1013.mmCC_GC_SHADER_ARRAY_CONFIG",
            RouteReg::Dispatch => "cyan_skillfish.gfx1013.mmSPI_PG_ENABLE_STATIC_WGP_MASK",
            RouteReg::AlwaysOn => "cyan_skillfish.gfx1013.mmRLC_PG_ALWAYS_ON_WGP_MASK",
        }
    }
}

/// One register write of the routing sequence.
#[derive(Clone, Copy, Debug, PartialEq, Eq)]
pub struct RouteWrite {
    pub reg: RouteReg,
    pub value: u32,
    /// Engine and array of a banked write, which has to succeed; a global
    /// write is best-effort.
    pub bank: Option<(u32, u32)>,
}

/// Why a route is refused or a register could not be read.
#[derive(Debug)]
pub enum RouteError {
    /// The named arrays are empty.
    EmptyArrays { names: String },
    /// Array or WGP number out of range.
    OutOfRange { array: usize, wgp: u32 },
    /// The tool's output holds no value.
    NoValue,
    /// The tool's output holds no hexadecimal number.
    BadHex,
}

impl RouteError {
    /// The message shown to the operator.
    pub open spec fn text(&self) -> Seq<char> {
        match self {
            RouteError::EmptyArrays { names } => "refusing empty-shader-array route ("@ + names@
                + " empty): dispatching compute with a whole array gated off hangs gfx1013 and wedges the box. Populate every array, or pass the explicit unsafe override."@,
            RouteError::OutOfRange { array, wgp } => "toggle_wgp: array "@ + text::dec(
                *array as nat,
            ) + " / wgp "@ + text::dec(*wgp as nat)
                + " out of range (array 0..3, wgp 0..31)"@,
            RouteError::NoValue => "no value in umr output"@,
            RouteError::BadHex => "parse umr hex"@,
        }
    }

    /// The message shown to the operator.
    pub fn message(&self) -> (r: String)
        ensures
            r@ == self.text(),
    {
        match self {
            RouteError::EmptyArrays { names } => text::join3(
                "refusing empty-shader-array route (",
                names.as_str(),
                " empty): dispatching compute with a whole array gated off hangs gfx1013 and wedges the box. Populate every array, or pass the explicit unsafe override.",
            ),
            RouteError::OutOfRange { array, wgp } => {
                let mut r = text::join3(
                    "toggle_wgp: array ",
                    text::decimal(*array as u64).as_str(),
                    " / wgp ",
                );
                r.append(text::decimal(*wgp as u64).as_str());
                r.append(" out of range (array 0..3, wgp 0..31)");
                r
            },
            RouteError::NoValue => "no value in umr output".to_owned(),
            RouteError::BadHex => "parse umr hex".to_owned(),
        }
    }
}

// ---------------------------------------------------------------------------
// Register access

/// The arguments that read a banked register.
pub open spec fn read_argv(inst: Seq<char>, reg: RouteReg, se: u32, sh: u32) -> Seq<Seq<char>> {
    seq![
        "-i"@,
        inst,
        "-b"@,
        text::dec(se as nat),
        text::dec(sh as nat),
        "x"@,
        "-r"@,
        reg.path(),
    ]
}

/// The arguments that read a banked register of a device instance.
pub fn read_args(inst: &str, reg: RouteReg, se: u32, sh: u32) -> (r: Vec<String>)
    ensures
        text::texts(r@) == read_argv(inst@, reg, se, sh),
{
    let mut r: Vec<String> = Vec::new();
    r.push("-i".to_owned());
    r.push(inst.to_owned());
    r.push("-b".to_owned());
    r.push(text::decimal(se as u64));
    r.push(text::decimal(sh as u64));
    r.push("x".to_owned());
    r.push("-r".to_owned());
    r.push(reg.name().to_owned());
    assert(text::texts(r@) =~= read_argv(inst@, reg, se, sh));
    r
}

/// The value in the tool's output: a hexadecimal number behind the last arrow.
pub open spec fn read_value(out: Seq<char>) -> Result<int, RouteError> {
    let t = text::trimmed(text::after_last(out, "=>"@));
    if !text::begins(t, "0x"@) {
        Err(RouteError::NoValue)
    } else {
        match text::number(text::trimmed(text::after(t, 2)), 16, u32::MAX as int) {
            Some(v) => Ok(v),
            None => Err(RouteError::BadHex),
        }
    }
}

/// Reads the value out of the tool's output.
pub fn parse_read(out: &str) -> (r: Result<u32, RouteError>)
    ensures
        match read_value(out@) {
            Ok(v) => r == Ok::<u32, RouteError>(v as u32),
            Err(e) => r == Err::<u32, RouteError>(e),
        },
{
    proof {
        reveal_strlit("=>");
        reveal_strlit("0x");
    }
    match text::strip_prefix(text::trim(text::rest_after_last(out, "=>")), "0x") {
        Some(hex) => match text::parse_number(text::trim(hex), 16, 0xFFFF_FFFF) {
            Some(v) => Ok(v as u32),
            None => Err(RouteError::BadHex),
        },
        None => Err(RouteError::NoValue),
    }
}

/// The arguments of a register write.
pub open spec fn write_argv(inst: Seq<char>, w: RouteWrite) -> Seq<Seq<char>> {
    let head = seq!["-i"@, inst, "-w"@, w.reg.path(), "0x"@ + text::hex_pad(w.value as nat, 8)];
    match w.bank {
        Some((se, sh)) => head + seq![
            "-b"@,
            text::dec(se as nat),
            text::dec(sh as nat),
            "0xffffffff"@,
        ],
        None => head,
    }
}

/// The arguments of a register write on a device instance.
pub fn write_args(inst: &str, w: &RouteWrite) -> (r: Vec<String>)
    ensures
        text::texts(r@) == write_argv(inst@, *w),
{
    let mut r: Vec<String> = Vec::new();
    r.push("-i".to_owned());
    r.push(inst.to_owned());
    r.push("-w".to_owned());
    r.push(w.reg.name().to_owned());
    r.push(text::join2("0x", text::hexadecimal_padded(w.value as u64, 8).as_str()));
    if let Some((se, sh)) = w.bank {
        r.push("-b".to_owned());
        r.push(text::decimal(se as u64));
        r.push(text::decimal(sh as u64));
        r.push("0xffffffff".to_owned());
    }
    assert(text::texts(r@) =~= write_argv(inst@, *w));
    r
}

/// The live route from the four dispatch registers as read.
pub fn current_masks(regs: [u32; 4]) -> (r: [u32; 4])
    ensures
        forall|i: int| 0 <= i < 4 ==> #[trigger] r@[i] == routed(regs@[i]),
{
    [regs[0] % 32, regs[1] % 32, regs[2] % 32, regs[3] % 32]
}

// ---------------------------------------------------------------------------
// Routes

/// Some array has no WGP routed.
pub open spec fn empty_somewhere(masks: Seq<u32>) -> bool {
    exists|i: int| 0 <= i < 4 && routed(#[trigger] masks[i]) == 0
}

/// Whether some array has no WGP routed.
pub fn has_empty_array(masks: &[u32; 4]) -> (r: bool)
    ensures
        r == empty_somewhere(masks@),
{
    let mut i: usize = 0;
    while i < 4
        invariant
            i <= 4,
            forall|j: int| 0 <= j < i ==> routed(#[trigger] masks@[j]) != 0,
        decreases 4 - i,
    {
        if masks[i] % 32 == 0 {
            assert(routed(masks@[i as int]) == 0);
            return true;
        }
        i += 1;
    }
    false
}

/// The name of an array.
pub open spec fn array_name(i: int) -> Seq<char> {
    "SE"@ + text::dec(array_at(i).0 as nat) + ".SH"@ + text::dec(array_at(i).1 as nat)
}

pub(crate) fn name_of_array(i: usize) -> (r: String)
    requires
        i < 4,
    ensures
        r@ == array_name(i as int),
{
    let (se, sh) = array_pos(i);
    let mut r = text::join3("SE", text::decimal(se as u64).as_str(), ".SH");
    r.append(text::decimal(sh as u64).as_str());
    r
}

/// The positions below `n` of arrays that route nothing.
pub open spec fn empties(masks: Seq<u32>, n: nat) -> Seq<usize>
    decreases n,
{
    if n == 0 {
        seq![]
    } else if routed(masks[n - 1]) == 0 {
        empties(masks, (n - 1) as nat).push((n - 1) as usize)
    } else {
        empties(masks, (n - 1) as nat)
    }
}

/// The names of the given arrays.
pub open spec fn array_names(idx: Seq<usize>) -> Seq<Seq<char>> {
    Seq::new(idx.len(), |k: int| array_name(idx[k] as int))
}

fn empty_list(masks: &[u32; 4]) -> (r: Vec<usize>)
    ensures
        r@ == empties(masks@, 4),
        forall|k: int| 0 <= k < r@.len() ==> #[trigger] r@[k] < 4,
        r@.len() <= 4,
        r@.len() > 0 <==> empty_somewhere(masks@),
{
    let mut r: Vec<usize> = Vec::new();
    let mut i: usize = 0;
    while i < 4
        invariant
            i <= 4,
            r@ == empties(masks@, i as nat),
            forall|k: int| 0 <= k < r@.len() ==> #[trigger] r@[k] < 4,
            r@.len() <= i,
            r@.len() > 0 <==> exists|j: int| 0 <= j < i && routed(#[trigger] masks@[j]) == 0,
        decreases 4 - i,
    {
        if masks[i] % 32 == 0 {
            assert(routed(masks@[i as int]) == 0);
            r.push(i);
        }
        i += 1;
    }
    r
}

fn names_of(idx: &Vec<usize>) -> (r: String)
    requires
        forall|k: int| 0 <= k < idx@.len() ==> #[trigger] idx@[k] < 4,
    ensures
        r@ == text::joined(array_names(idx@), ", "@),
{
    let mut names: Vec<String> = Vec::new();
    let mut i: usize = 0;
    while i < idx.len()
        invariant
            i <= idx@.len(),
            forall|k: int| 0 <= k < idx@.len() ==> #[trigger] idx@[k] < 4,
            names@.len() == i,
            forall|k: int| 0 <= k < i ==> (#[trigger] names@[k])@ == array_name(idx@[k] as int),
        decreases idx@.len() - i,
    {
        names.push(name_of_array(idx[i]));
        i += 1;
    }
    assert(text::texts(names@) =~= array_names(idx@));
    text::join(&names, ", ")
}

/// The writes of a route: the harvest mask cleared globally, then for each
/// array its harvest mask and its dispatch mask, then the WGPs that any array
/// routes kept powered.
pub open spec fn route_writes(masks: Seq<u32>) -> Seq<RouteWrite> {
    let global = |reg: RouteReg, value: u32| RouteWrite { reg, value, bank: None };
    let clear = |i: int|
        RouteWrite { reg: RouteReg::Config, value: 0, bank: Some(array_at(i)) };
    let set = |i: int|
        RouteWrite {
            reg: RouteReg::Dispatch,
            value: routed(masks[i]),
            bank: Some(array_at(i)),
        };
    seq![
        global(RouteReg::Config, 0),
        clear(0),
        set(0),
        clear(1),
        set(1),
        clear(2),
        set(2),
        clear(3),
        set(3),
        global(RouteReg::AlwaysOn, union_of(masks)),
    ]
}

/// The WGPs that any array routes.
pub open spec fn union_of(masks: Seq<u32>) -> u32 {
    routed(masks[0]) | routed(masks[1]) | routed(masks[2]) | routed(masks[3])
}

/// The writes of a route, an empty array or not. For an explicit override only.
pub fn apply_forced(masks: [u32; 4]) -> (r: Vec<RouteWrite>)
    ensures
        r@ == route_writes(masks@),
{
    let mut r: Vec<RouteWrite> = Vec::new();
    r.push(RouteWrite { reg: RouteReg::Config, value: 0, bank: None });
    push_array(&mut r, 0, masks[0] % 32);
    push_array(&mut r, 1, masks[1] % 32);
    push_array(&mut r, 2, masks[2] % 32);
    push_array(&mut r, 3, masks[3] % 32);
    let union: u32 = (masks[0] % 32) | (masks[1] % 32) | (masks[2] % 32) | (masks[3] % 32);
    r.push(RouteWrite { reg: RouteReg::AlwaysOn, value: union, bank: None });
    assert(r@ =~= route_writes(masks@));
    r
}

fn push_array(r: &mut Vec<RouteWrite>, i: usize, mask: u32)
    requires
        i < 4,
    ensures
        final(r)@ == old(r)@.push(
            RouteWrite { reg: RouteReg::Config, value: 0, bank: Some(array_at(i as int)) },
        ).push(
            RouteWrite { reg: RouteReg::Dispatch, value: mask, bank: Some(array_at(i as int)) },
        ),
{
    let at = array_pos(i);
    r.push(RouteWrite { reg: RouteReg::Config, value: 0, bank: Some(at) });
    r.push(RouteWrite { reg: RouteReg::Dispatch, value: mask, bank: Some(at) });
}

/// Refusal of a route with empty arrays, which it names.
pub open spec fn refuses_empty(masks: Seq<u32>, e: RouteError) -> bool {
    e matches RouteError::EmptyArrays { names } && names@ == text::joined(
        array_names(empties(masks, 4)),
        ", "@,
    )
}

/// The writes of a route. One with an empty array is refused and nothing is
/// written.
pub fn apply(masks: [u32; 4]) -> (r: Result<Vec<RouteWrite>, RouteError>)
    ensures
        !empty_somewhere(masks@) ==> r is Ok && (r->Ok_0)@ == route_writes(masks@),
        empty_somewhere(masks@) ==> r is Err && refuses_empty(masks@, r->Err_0),
{
    let empty = empty_list(&masks);
    if empty.len() > 0 {
        return Err(RouteError::EmptyArrays { names: names_of(&empty) });
    }
    Ok(apply_forced(masks))
}

/// The writes that route every unit.
pub fn enable_all() -> (r: Vec<RouteWrite>)
    ensures
        r@ == route_writes(seq![FULL_MASK, FULL_MASK, FULL_MASK, FULL_MASK]),
{
    let masks: [u32; 4] = [FULL_MASK, FULL_MASK, FULL_MASK, FULL_MASK];
    assert(masks@ =~= seq![FULL_MASK, FULL_MASK, FULL_MASK, FULL_MASK]);
    apply_forced(masks)
}

/// The writes that restore the factory dispatch.
pub fn factory() -> (r: Vec<RouteWrite>)
    ensures
        r@ == route_writes(seq![FACTORY_MASK, FACTORY_MASK, FACTORY_MASK, FACTORY_MASK]),
{
    let masks: [u32; 4] = [FACTORY_MASK, FACTORY_MASK, FACTORY_MASK, FACTORY_MASK];
    assert(masks@ =~= seq![FACTORY_MASK, FACTORY_MASK, FACTORY_MASK, FACTORY_MASK]);
    apply_forced(masks)
}

/// Routes with every array populated are never refused: all units, and the
/// factory dispatch.
pub proof fn standard_routes_are_never_refused()
    ensures
        !empty_somewhere(seq![FULL_MASK, FULL_MASK, FULL_MASK, FULL_MASK]),
        !empty_somewhere(seq![FACTORY_MASK, FACTORY_MASK, FACTORY_MASK, FACTORY_MASK]),
{
}

/// A mask with one WGP's bit turned over; beyond the five WGPs nothing turns.
pub open spec fn toggled(mask: u32, wgp: u32) -> u32 {
    routed(mask ^ (1u32 << wgp))
}

/// Turns one WGP of the live route over: the new route and its writes. A turn
/// that would empty an array is refused unless forced.
pub fn toggle_wgp(current: [u32; 4], array: usize, wgp: u32, force: bool) -> (r: Result<
    ([u32; 4], Vec<RouteWrite>),
    RouteError,
>)
    ensures
        array >= 4 || wgp >= 32 ==> r == Err::<([u32; 4], Vec<RouteWrite>), RouteError>(
            RouteError::OutOfRange { array, wgp },
        ),
        array < 4 && wgp < 32 ==> {
            let next = current@.update(array as int, toggled(current@[array as int], wgp));
            &&& force || !empty_somewhere(next) ==> r is Ok && (r->Ok_0).0@ == next && (
            r->Ok_0).1@ == route_writes(next)
            &&& !force && empty_somewhere(next) ==> r is Err && refuses_empty(next, r->Err_0)
        },
{
    if array >= 4 || wgp >= 32 {
        return Err(RouteError::OutOfRange { array, wgp });
    }
    let mut m: [u32; 4] = current;
    m[array] = (m[array] ^ (1u32 << wgp)) % 32;
    assert(m@ =~= current@.update(array as int, toggled(current@[array as int], wgp)));
    if force {
        return Ok((m, apply_forced(m)));
    }
    match apply(m) {
        Ok(writes) => Ok((m, writes)),
        Err(e) => Err(e),
    }
}

/// Every array gets its own mask, in one dispatch write and no other, behind
/// the write that clears its harvest mask; so a route reads back as it was
/// written.
pub proof fn every_array_gets_its_mask(masks: Seq<u32>, i: int)
    requires
        0 <= i < 4,
    ensures
        ({
            let w = route_writes(masks);
            let at = 2 * i + 2;
            &&& w[at].reg == RouteReg::Dispatch
            &&& w[at].bank == Some(array_at(i))
            &&& w[at].value == routed(masks[i])
            &&& w[at - 1] == (RouteWrite {
                reg: RouteReg::Config,
                value: 0,
                bank: Some(array_at(i)),
            })
            &&& forall|k: int|
                0 <= k < w.len() && k != at && (#[trigger] w[k]).reg == RouteReg::Dispatch ==> w[k].bank
                    != Some(array_at(i))
            &&& routed(w[at].value) == routed(masks[i])
        }),
{
    let w = route_writes(masks);
    assert(w.len() == 10);
    assert forall|k: int|
        0 <= k < w.len() && k != 2 * i + 2 && (#[trigger] w[k]).reg
            == RouteReg::Dispatch implies w[k].bank != Some(array_at(i)) by {
        assert(k == 0 || k == 1 || k == 2 || k == 3 || k == 4 || k == 5 || k == 6 || k == 7 || k
            == 8 || k == 9);
    }
}

/// Turning a WGP over twice gives the route back.
pub proof fn toggle_twice(mask: u32, wgp: u32)
    requires
        mask < 32,
        wgp < 32,
    ensures
        toggled(toggled(mask, wgp), wgp) == mask,
{
    assert((((mask ^ (1u32 << wgp)) % 32) ^ (1u32 << wgp)) % 32 == mask) by (bit_vector)
        requires
            mask < 32,
            wgp < 32,
    ;
}

/// The saved route as a boot enacts it: the route, and its writes. One with an
/// empty array is replaced by the factory dispatch.
pub fn apply_saved(saved: [u32; 4]) -> (r: ([u32; 4], Vec<RouteWrite>))
    ensures
        !empty_somewhere(saved@) ==> r.0 == saved,
        empty_somewhere(saved@) ==> r.0@ == seq![
            FACTORY_MASK,
            FACTORY_MASK,
            FACTORY_MASK,
            FACTORY_MASK,
        ],
        !empty_somewhere(r.0@),
        r.1@ == route_writes(r.0@),
{
    if has_empty_array(&saved) {
        let masks: [u32; 4] = [FACTORY_MASK, FACTORY_MASK, FACTORY_MASK, FACTORY_MASK];
        assert(masks@ =~= seq![FACTORY_MASK, FACTORY_MASK, FACTORY_MASK, FACTORY_MASK]);
        return (masks, apply_forced(masks));
    }
    (saved, apply_forced(saved))
}

// ---------------------------------------------------------------------------
// Shape

/// Compute units that a route reaches, two per WGP.
pub open spec fn routed_cu(masks: Seq<u32>) -> nat {
    2 * (wgps(masks[0]) + wgps(masks[1]) + wgps(masks[2]) + wgps(masks[3]))
}

/// Compute units that a route reaches.
pub fn cu_count(masks: &[u32; 4]) -> (r: u32)
    ensures
        r == routed_cu(masks@),
        r <= 40,
{
    2 * (count_ones(masks[0], 5) + count_ones(masks[1], 5) + count_ones(masks[2], 5) + count_ones(
        masks[3],
        5,
    ))
}

/// Diagnosis of a route. Compute throughput goes by the shader engine with
/// fewer WGPs; how an engine's WGPs are spread over its arrays does not matter.
#[derive(Debug, PartialEq)]
pub struct RouteShape {
    /// Compute units routed.
    pub cu: u32,
    /// WGPs per array.
    pub per_array_wgp: [u32; 4],
    /// Arrays with a WGP.
    pub populated: usize,
    /// WGPs of the shallowest populated array, 0 where none is.
    pub min_populated_wgp: u32,
    /// Twice the units of the weaker engine.
    pub effective_cu: u32,
    /// Arrays without a WGP.
    pub empty_arrays: Vec<usize>,
    /// The engines hold different numbers of WGPs.
    pub unbalanced: bool,
}

/// WGPs of an engine: 0 has the first two arrays, 1 the others.
pub open spec fn engine_wgps(per: Seq<u32>, engine: int) -> int {
    if engine == 0 { per[0] + per[1] } else { per[2] + per[3] }
}

/// The smaller of two numbers.
pub open spec fn smaller(a: int, b: int) -> int {
    if a < b { a } else { b }
}

/// How many of the first `n` counts are above zero.
pub open spec fn populated_among(per: Seq<u32>, n: nat) -> nat
    decreases n,
{
    if n == 0 {
        0
    } else {
        populated_among(per, (n - 1) as nat) + (if per[n - 1] > 0 { 1nat } else { 0nat })
    }
}

/// The smallest of the first `n` counts that are above zero; 0 where none is.
pub open spec fn shallowest_among(per: Seq<u32>, n: nat) -> u32
    decreases n,
{
    if n == 0 {
        0
    } else {
        let m = shallowest_among(per, (n - 1) as nat);
        let c = per[n - 1];
        if c > 0 && (m == 0 || c < m) { c } else { m }
    }
}

impl RouteShape {
    /// The shape is that of the masks.
    pub open spec fn is_of(&self, masks: Seq<u32>) -> bool {
        let per = self.per_array_wgp@;
        &&& self.cu == routed_cu(masks)
        &&& forall|i: int| 0 <= i < 4 ==> #[trigger] per[i] == wgps(masks[i])
        &&& self.populated == populated_among(per, 4)
        &&& self.min_populated_wgp == shallowest_among(per, 4)
        &&& self.effective_cu == 4 * smaller(engine_wgps(per, 0), engine_wgps(per, 1))
        &&& self.empty_arrays@ == empties(masks, 4)
        &&& self.unbalanced == (engine_wgps(per, 0) != engine_wgps(per, 1))
    }
}

/// Analyses a route.
pub fn shape(masks: &[u32; 4]) -> (r: RouteShape)
    ensures
        r.is_of(masks@),
        forall|k: int| 0 <= k < r.empty_arrays@.len() ==> #[trigger] r.empty_arrays@[k] < 4,
        forall|k: int| 0 <= k < 4 ==> #[trigger] r.per_array_wgp@[k] <= 5,
{
    let per: [u32; 4] = [
        count_ones(masks[0], 5),
        count_ones(masks[1], 5),
        count_ones(masks[2], 5),
        count_ones(masks[3], 5),
    ];
    let mut populated: usize = 0;
    let mut shallowest: u32 = 0;
    let mut i: usize = 0;
    while i < 4
        invariant
            i <= 4,
            populated == populated_among(per@, i as nat),
            populated <= i,
            shallowest == shallowest_among(per@, i as nat),
        decreases 4 - i,
    {
        let c: u32 = per[i];
        if c > 0 {
            populated += 1;
            if shallowest == 0 || c < shallowest {
                shallowest = c;
            }
        }
        i += 1;
    }
    let se0: u32 = per[0] + per[1];
    let se1: u32 = per[2] + per[3];
    RouteShape {
        cu: cu_count(masks),
        per_array_wgp: per,
        populated,
        min_populated_wgp: shallowest,
        effective_cu: 4 * (if se0 < se1 {
            se0
        } else {
            se1
        }),
        empty_arrays: empty_list(masks),
        unbalanced: se0 != se1,
    }
}

/// The warning about empty arrays.
pub open spec fn empty_warning(empty: Seq<usize>) -> Seq<char> {
    "UNSAFE: "@ + text::dec(empty.len()) + " shader array(s) empty ("@ + text::joined(
        array_names(empty),
        ", "@,
    )
        + ") — dispatching compute with a whole array gated off can hang gfx1013 (untested since the legacy-race fix)."@
}

/// Four counts as a list.
pub open spec fn counts_text(per: Seq<u32>) -> Seq<char> {
    "["@ + text::dec(per[0] as nat) + ", "@ + text::dec(per[1] as nat) + ", "@ + text::dec(
        per[2] as nat,
    ) + ", "@ + text::dec(per[3] as nat) + "]"@
}

/// The warning about unequal engines.
pub open spec fn balance_warning(s: RouteShape) -> Seq<char> {
    let per = s.per_array_wgp@;
    "shader engines unbalanced ("@ + counts_text(per) + " WGP/array; SE0="@ + text::dec(
        engine_wgps(per, 0) as nat,
    ) + ", SE1="@ + text::dec(engine_wgps(per, 1) as nat)
        + " WGP) — throughput is gated by the weaker engine: only "@ + text::dec(
        s.effective_cu as nat,
    ) + " effective CU of "@ + text::dec(s.cu as nat)
        + " routed. Even the two engines to recover the rest."@
}

impl RouteShape {
    /// Warnings about this shape: one about empty arrays, one about unequal
    /// engines, where they apply.
    pub fn warnings(&self) -> (r: Vec<String>)
        requires
            forall|k: int|
                0 <= k < self.empty_arrays@.len() ==> #[trigger] self.empty_arrays@[k] < 4,
            forall|k: int| 0 <= k < 4 ==> #[trigger] self.per_array_wgp@[k] <= 5,
        ensures
            text::texts(r@) == (if self.empty_arrays@.len() > 0 {
                seq![empty_warning(self.empty_arrays@)]
            } else {
                seq![]
            }) + (if self.unbalanced {
                seq![balance_warning(*self)]
            } else {
                seq![]
            }),
    {
        let mut out: Vec<String> = Vec::new();
        if self.empty_arrays.len() > 0 {
            let mut w = text::join3(
                "UNSAFE: ",
                text::decimal(self.empty_arrays.len() as u64).as_str(),
                " shader array(s) empty (",
            );
            w.append(names_of(&self.empty_arrays).as_str());
            w.append(
                ") — dispatching compute with a whole array gated off can hang gfx1013 (untested since the legacy-race fix).",
            );
            out.push(w);
        }
        if self.unbalanced {
            let per: &[u32; 4] = &self.per_array_wgp;
            let mut list = text::join3("[", text::decimal(per[0] as u64).as_str(), ", ");
            list.append(text::decimal(per[1] as u64).as_str());
            list.append(", ");
            list.append(text::decimal(per[2] as u64).as_str());
            list.append(", ");
            list.append(text::decimal(per[3] as u64).as_str());
            list.append("]");
            let mut w = text::join3(
                "shader engines unbalanced (",
                list.as_str(),
                " WGP/array; SE0=",
            );
            w.append(text::decimal((per[0] + per[1]) as u64).as_str());
            w.append(", SE1=");
            w.append(text::decimal((per[2] + per[3]) as u64).as_str());
            w.append(" WGP) — throughput is gated by the weaker engine: only ");
            w.append(text::decimal(self.effective_cu as u64).as_str());
            w.append(" effective CU of ");
            w.append(text::decimal(self.cu as u64).as_str());
            w.append(" routed. Even the two engines to recover the rest.");
            out.push(w);
        }
        assert(text::texts(out@) =~= (if self.empty_arrays@.len() > 0 {
            seq![empty_warning(self.empty_arrays@)]
        } else {
            seq![]
        }) + (if self.unbalanced {
            seq![balance_warning(*self)]
        } else {
            seq![]
        }));
        out
    }
}

/// No route is worth more than it reaches; it is worth all of it exactly where
/// the engines are balanced.
pub proof fn effective_is_at_most_routed(masks: Seq<u32>, s: RouteShape)
    requires
        masks.len() == 4,
        s.is_of(masks),
    ensures
        s.effective_cu <= s.cu,
        s.effective_cu == s.cu <==> !s.unbalanced,
{
    assert(s.per_array_wgp@[0] == wgps(masks[0]));
    assert(s.per_array_wgp@[1] == wgps(masks[1]));
    assert(s.per_array_wgp@[2] == wgps(masks[2]));
    assert(s.per_array_wgp@[3] == wgps(masks[3]));
}

/// A mask routes no WGP exactly where its count of WGPs is zero, so the arrays
/// that a shape calls empty are those that a route is refused for.
pub proof fn empty_means_no_wgp(mask: u32)
    ensures
        routed(mask) == 0 <==> wgps(mask) == 0,
{
    reveal_with_fuel(ones, 6);
    assert(mask % 32 == 0 <==> (mask >> 0) & 1 != 1 && (mask >> 1) & 1 != 1 && (mask >> 2) & 1 != 1
        && (mask >> 3) & 1 != 1 && (mask >> 4) & 1 != 1) by (bit_vector);
}

/// What a write makes of the dispatch mask of one array.
pub open spec fn dispatch_after(before: u32, w: RouteWrite, se: u32, sh: u32) -> u32 {
    if w.reg == RouteReg::Dispatch && w.bank == Some((se, sh)) { w.value } else { before }
}

/// What the writes make of the dispatch mask of one array.
pub open spec fn dispatch_after_all(before: u32, ws: Seq<RouteWrite>, se: u32, sh: u32) -> u32
    decreases ws.len(),
{
    if ws.len() == 0 {
        before
    } else {
        dispatch_after(dispatch_after_all(before, ws.drop_last(), se, sh), ws.last(), se, sh)
    }
}

proof fn dispatch_unfolds(before: u32, ws: Seq<RouteWrite>, se: u32, sh: u32)
    requires
        ws.len() == 10,
    ensures
        ({
            let d0 = dispatch_after(before, ws[0], se, sh);
            let d1 = dispatch_after(d0, ws[1], se, sh);
            let d2 = dispatch_after(d1, ws[2], se, sh);
            let d3 = dispatch_after(d2, ws[3], se, sh);
            let d4 = dispatch_after(d3, ws[4], se, sh);
            let d5 = dispatch_after(d4, ws[5], se, sh);
            let d6 = dispatch_after(d5, ws[6], se, sh);
            let d7 = dispatch_after(d6, ws[7], se, sh);
            let d8 = dispatch_after(d7, ws[8], se, sh);
            dispatch_after_all(before, ws, se, sh) == dispatch_after(d8, ws[9], se, sh)
        }),
{
    reveal_with_fuel(dispatch_after_all, 12);
    assert(ws.drop_last() =~= ws.take(9));
    assert(ws.take(9).drop_last() =~= ws.take(8));
    assert(ws.take(8).drop_last() =~= ws.take(7));
    assert(ws.take(7).drop_last() =~= ws.take(6));
    assert(ws.take(6).drop_last() =~= ws.take(5));
    assert(ws.take(5).drop_last() =~= ws.take(4));
    assert(ws.take(4).drop_last() =~= ws.take(3));
    assert(ws.take(3).drop_last() =~= ws.take(2));
    assert(ws.take(2).drop_last() =~= ws.take(1));
    assert(ws.take(1).drop_last() =~= ws.take(0));
}

/// After the writes of a route the four arrays, two to each of two engines,
/// dispatch to the WGPs of their own masks and to no other, whatever they
/// dispatched to before.
pub proof fn route_is_dispatched(masks: Seq<u32>, before: u32)
    requires
        masks.len() == 4,
    ensures
        dispatch_after_all(before, route_writes(masks), 0, 0) == masks[0] & 0x1f,
        dispatch_after_all(before, route_writes(masks), 0, 1) == masks[1] & 0x1f,
        dispatch_after_all(before, route_writes(masks), 1, 0) == masks[2] & 0x1f,
        dispatch_after_all(before, route_writes(masks), 1, 1) == masks[3] & 0x1f,
{
    let ws = route_writes(masks);
    dispatch_unfolds(before, ws, 0, 0);
    dispatch_unfolds(before, ws, 0, 1);
    dispatch_unfolds(before, ws, 1, 0);
    dispatch_unfolds(before, ws, 1, 1);
    routed_is_the_low_bits(masks[0]);
    routed_is_the_low_bits(masks[1]);
    routed_is_the_low_bits(masks[2]);
    routed_is_the_low_bits(masks[3]);
}

/// The WGPs of a mask are its five low bits.
pub proof fn routed_is_the_low_bits(mask: u32)
    ensures
        routed(mask) == mask & 0x1f,
{
    assert(mask % 32 == mask & 0x1f) by (bit_vector);
}

/// The harvest masks are cleared, everywhere and per array, before any array is
/// dispatched to; last of all, the WGPs that some array dispatches to are kept
/// powered, and no other.
pub proof fn route_is_framed(masks: Seq<u32>, wgp: u32)
    requires
        masks.len() == 4,
        wgp < 32,
    ensures
        route_writes(masks).len() == 10,
        route_writes(masks)[0] == (RouteWrite { reg: RouteReg::Config, value: 0, bank: None }),
        route_writes(masks)[9].reg == RouteReg::AlwaysOn && route_writes(masks)[9].bank is None,
        ({
            let kept = route_writes(masks)[9].value;
            (kept >> wgp) & 1 == 1 <==> wgp < 5 && ((masks[0] >> wgp) & 1 == 1 || (masks[1] >> wgp)
                & 1 == 1 || (masks[2] >> wgp) & 1 == 1 || (masks[3] >> wgp) & 1 == 1)
        }),
{
    let a = masks[0];
    let b = masks[1];
    let c = masks[2];
    let d = masks[3];
    let kept = (a % 32) | (b % 32) | (c % 32) | (d % 32);
    assert(route_writes(masks)[9].value == kept);
    assert((kept >> wgp) & 1 == 1 <==> wgp < 5 && ((a >> wgp) & 1 == 1 || (b >> wgp) & 1 == 1 || (c
        >> wgp) & 1 == 1 || (d >> wgp) & 1 == 1)) by (bit_vector)
        requires
            kept == (a % 32) | (b % 32) | (c % 32) | (d % 32),
            wgp < 32,
    ;
}

/// Turning a WGP over changes its own bit and no other WGP's.
pub proof fn toggle_turns_one_bit(mask: u32, wgp: u32, other: u32)
    requires
        wgp < 5,
        other < 5,
    ensures
        toggled(mask, wgp) < 32,
        other != wgp ==> (toggled(mask, wgp) >> other) & 1 == (mask >> other) & 1,
        (toggled(mask, wgp) >> wgp) & 1 != (mask >> wgp) & 1,
{
    let t = toggled(mask, wgp);
    assert((mask ^ (1u32 << wgp)) % 32 < 32 && (other != wgp ==> ((((mask ^ (1u32 << wgp)) % 32)
        >> other) & 1 == (mask >> other) & 1)) && ((((mask ^ (1u32 << wgp)) % 32) >> wgp) & 1 != (
    mask >> wgp) & 1)) by (bit_vector)
        requires
            wgp < 5,
            other < 5,
    ;
}

/// A shape counts two units for every WGP of the four arrays, and is worth four
/// units for every WGP of the engine with fewer of them.
pub proof fn shape_counts_by_engine(masks: Seq<u32>, s: RouteShape)
    requires
        masks.len() == 4,
        s.is_of(masks),
    ensures
        ({
            let first = wgps(masks[0]) + wgps(masks[1]);
            let second = wgps(masks[2]) + wgps(masks[3]);
            &&& s.cu == 2 * (first + second)
            &&& first <= second ==> s.effective_cu == 4 * first
            &&& second <= first ==> s.effective_cu == 4 * second
            &&& s.unbalanced <==> first != second
        }),
{
    assert(s.per_array_wgp@[0] == wgps(masks[0]));
    assert(s.per_array_wgp@[1] == wgps(masks[1]));
    assert(s.per_array_wgp@[2] == wgps(masks[2]));
    assert(s.per_array_wgp@[3] == wgps(masks[3]));
}

/// The arrays called empty are those without a WGP, all of them, in order.
pub proof fn empties_are_the_empty_ones(masks: Seq<u32>, n: nat)
    requires
        n <= 4,
        masks.len() == 4,
    ensures
        forall|i: usize| #[trigger]
            empties(masks, n).contains(i) <==> i < n && masks[i as int] & 0x1f == 0,
        forall|a: int, b: int|
            0 <= a < b < empties(masks, n).len() ==> (#[trigger] empties(masks, n)[a]) < (
            #[trigger] empties(masks, n)[b]),
    decreases n,
{
    if n > 0 {
        let m = (n - 1) as nat;
        let before = empties(masks, m);
        let all = empties(masks, n);
        empties_are_the_empty_ones(masks, m);
        routed_is_the_low_bits(masks[n - 1]);
        assert forall|i: usize| #[trigger] all.contains(i) <==> i < n && masks[i as int] & 0x1f
            == 0 by {
            if all.contains(i) {
                let k = choose|k: int| 0 <= k < all.len() && all[k] == i;
                if k < before.len() {
                    assert(before[k] == i);
                    assert(before.contains(i));
                }
            }
            if before.contains(i) {
                let k = choose|k: int| 0 <= k < before.len() && before[k] == i;
                assert(all[k] == i);
            }
            if i == n - 1 && masks[n - 1] & 0x1f == 0 {
                assert(all[all.len() - 1] == i);
            }
        }
        assert forall|a: int, b: int| 0 <= a < b < all.len() implies (#[trigger] all[a]) < (
        #[trigger] all[b]) by {
            if b == before.len() {
                assert(before.contains(before[a]));
            }
        }
    }
}

/// The registers of the routing sequence by name, and how one of an array is
/// written: the value in hexadecimal, then the engine and the array.
pub proof fn registers_by_name(inst: Seq<char>, value: u32, se: u32, sh: u32)
    ensures
        RouteReg::Config.path() == "cyan_skillfish.gfx1013.mmCC_GC_SHADER_ARRAY_CONFIG"@,
        RouteReg::Dispatch.path() == "cyan_skillfish.gfx1013.mmSPI_PG_ENABLE_STATIC_WGP_MASK"@,
        RouteReg::AlwaysOn.path() == "cyan_skillfish.gfx1013.mmRLC_PG_ALWAYS_ON_WGP_MASK"@,
        ({
            let argv = write_argv(
                inst,
                RouteWrite { reg: RouteReg::Dispatch, value, bank: Some((se, sh)) },
            );
            &&& argv[1] == inst && argv[2] == "-w"@
            &&& argv[4] == "0x"@ + text::hex_pad(value as nat, 8)
            &&& argv[5] == "-b"@ && argv[6] == text::dec(se as nat) && argv[7] == text::dec(sh as nat)
        }),
{
}

/// The four arrays are named by their engine, two to each.
pub proof fn arrays_are_named_by_engine(i: int)
    requires
        0 <= i < 4,
    ensures
        array_name(i) == "SE"@ + text::dec((i / 2) as nat) + ".SH"@ + text::dec((i % 2) as nat),
{
    assert(i == 0 || i == 1 || i == 2 || i == 3);
}

/// A register is read from the bank of its engine and array.
pub proof fn reads_name_their_bank(inst: Seq<char>, reg: RouteReg, se: u32, sh: u32)
    ensures
        ({
            let v = read_argv(inst, reg, se, sh);
            &&& v.len() == 8
            &&& v[1] == inst
            &&& v[3] == text::dec(se as nat)
            &&& v[4] == text::dec(sh as nat)
            &&& v[7] == reg.path()
        }),
{
}

/// A value that the tool prints behind its last arrow reads as itself.
pub proof fn printed_value_reads_back(before: Seq<char>, n: nat)
    requires
        n <= u32::MAX,
    ensures
        read_value(before + "=>"@ + (" 0x"@ + text::hex(n))) == Ok::<int, RouteError>(n as int),
{
    reveal_strlit("=>");
    reveal_strlit(" 0x");
    reveal_strlit("0x");
    let h = text::hex(n);
    let tail = " 0x"@ + h;
    let s = before + "=>"@ + tail;
    let at = before.len() as int;
    text::hexadecimal_reads_back(n, u32::MAX as int);
    assert(s.subrange(at, at + 2) =~= "=>"@);
    assert(text::occurs_at(s, "=>"@, at));
    assert(text::after(s, at + 2) =~= tail);
    assert forall|j: int| j > at implies !text::occurs_at(s, "=>"@, j) by {
        if text::occurs_at(s, "=>"@, j) {
            assert(s.subrange(j, j + 2)[0] == s[j]);
            assert(s[j] == '=');
            if j > at + 1 {
                let k = j - at - 2;
                assert(s[j] == tail[k]);
                if k >= 3 {
                    hex_is_no_sign(n, k - 3);
                }
            }
        }
    }
    assert(text::follows_last(s, "=>"@, tail));
    let t = text::after_last(s, "=>"@);
    assert(text::follows_last(s, "=>"@, t));
    let i = choose|i: int|
        #![trigger text::occurs_at(s, "=>"@, i)]
        text::occurs_at(s, "=>"@, i) && t == text::after(s, i + "=>"@.len()) && forall|j: int|
            j > i ==> !text::occurs_at(s, "=>"@, j);
    assert(i == at);
    assert(t =~= tail);
    let bare = "0x"@ + h;
    assert(tail =~= seq![' '] + bare);
    assert(text::is_space(' '));
    text::hexadecimal_is_bare(n, h.len() - 1);
    assert(bare[0] == '0' && bare.last() == h.last());
    text::trimming_takes_the_space_around(bare, ' ');
    assert(bare.subrange(0, 2) =~= "0x"@);
    assert(text::after(bare, 2) =~= h);
    text::hexadecimal_is_bare(n, 0);
    text::trimming_takes_the_space_around(h, ' ');
}

proof fn hex_is_no_sign(n: nat, i: int)
    requires
        0 <= i < text::hex(n).len(),
    ensures
        text::hex(n)[i] != '=',
    decreases n,
{
    if n >= 16 && i < text::hex(n).len() - 1 {
        assert(text::hex(n)[i] == text::hex(n / 16)[i]);
        hex_is_no_sign(n / 16, i);
    }
}

/// The counts of the arrays are shown in order.
pub proof fn counts_are_shown_in_order(per: Seq<u32>)
    requires
        per.len() == 4,
    ensures
        counts_text(per) == "["@ + text::joined(
            Seq::new(4, |i: int| text::dec(per[i] as nat)),
            ", "@,
        ) + "]"@,
{
    reveal_with_fuel(text::joined, 4);
    let v = Seq::new(4, |i: int| text::dec(per[i] as nat));
    assert(v.drop_last() =~= seq![v[0], v[1], v[2]]);
    assert(v.drop_last().drop_last() =~= seq![v[0], v[1]]);
    assert(v.drop_last().drop_last().drop_last() =~= seq![v[0]]);
    assert(counts_text(per) =~= "["@ + text::joined(v, ", "@) + "]"@);
}

} // verus!
