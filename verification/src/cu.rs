//! Compute-unit topology: which units of each shader array are active.
//!
//! The kernel's device record holds the engine and array counts, the number of
//! active units and one bitmap per array. Each array has ten unit slots, two to
//! a work-group processor (WGP).
use vstd::prelude::*;

use crate::text;

verus! {

/// Drop-in that keeps all units enabled over reboots.
pub const MODPROBE_CONF: &'static str = "/etc/modprobe.d/aputune-40cu.conf";
/// What the drop-in says.
pub const MODPROBE_LINE: &'static str = "options amdgpu bc250_cc_write_mode=3\n";
/// Unit slots per shader array.
pub const SLOTS_PER_ARRAY: u32 = 10;

/// Bit `i` of a mask.
pub open spec fn bit(x: u32, i: u32) -> bool {
    (x >> i) & 1 == 1
}

/// Whether bit `i` of a mask is set.
pub fn bit_set(x: u32, i: u32) -> (r: bool)
    requires
        i < 32,
    ensures
        r == bit(x, i),
{
    (x >> i) & 1 == 1
}

/// Number of bits set among the lowest `n`.
pub open spec fn ones(x: u32, n: nat) -> nat
    decreases n,
{
    if n == 0 {
        0
    } else {
        ones(x, (n - 1) as nat) + (if bit(x, (n - 1) as u32) { 1nat } else { 0nat })
    }
}

/// Number of bits set among the lowest `n`.
pub fn count_ones(x: u32, n: u32) -> (r: u32)
    requires
        n <= 32,
    ensures
        r == ones(x, n as nat),
        r <= n,
{
    let mut c: u32 = 0;
    let mut i: u32 = 0;
    while i < n
        invariant
            i <= n <= 32,
            c == ones(x, i as nat),
            c <= i,
        decreases n - i,
    {
        if bit_set(x, i) {
            c += 1;
        }
        i += 1;
    }
    c
}

/// The request number of a read-write kernel call: direction, size of the
/// argument, the graphics group and the call's number.
pub fn iowr(nr: u32, size: u32) -> (r: u64)
    requires
        nr < 0x100,
        size < 0x4000,
    ensures
        r == 3 * 0x4000_0000 + size * 0x1_0000 + 0x64 * 0x100 + nr,
{
    3 * 0x4000_0000 + (size as u64) * 0x1_0000 + 0x64 * 0x100 + nr as u64
}

/// The little-endian word at an offset.
pub open spec fn word_at(buf: Seq<u8>, off: int) -> int {
    buf[off] + 0x100 * buf[off + 1] + 0x1_0000 * buf[off + 2] + 0x100_0000 * buf[off + 3]
}

/// The little-endian word at an offset.
pub fn u32_at(buf: &[u8], off: usize) -> (r: u32)
    requires
        off + 3 < buf@.len(),
    ensures
        r == word_at(buf@, off as int),
{
    buf[off] as u32 + 0x100 * (buf[off + 1] as u32) + 0x1_0000 * (buf[off + 2] as u32) + 0x100_0000
        * (buf[off + 3] as u32)
}

/// One shader array's layout.
#[derive(Debug)]
pub struct ArrayMap {
    pub se: u32,
    pub sh: u32,
    pub bitmap: u32,
    pub active: u32,
    /// `full`, `contiguous` or `scattered`.
    pub pattern: &'static str,
}

/// The whole harvest map.
#[derive(Debug)]
pub struct CuMap {
    pub num_se: u32,
    pub num_sh: u32,
    pub active: u32,
    pub possible: u32,
    pub arrays: Vec<ArrayMap>,
}

/// Every slot of an array is enabled.
pub open spec fn all_enabled(bitmap: u32) -> bool {
    forall|i: u32| 0 <= i < 10 ==> #[trigger] bit(bitmap, i)
}

/// The disabled slots are those from `lo` up to `hi`.
pub open spec fn gap_is(bitmap: u32, lo: u32, hi: u32) -> bool {
    forall|i: u32| 0 <= i < 10 ==> (!#[trigger] bit(bitmap, i) <==> lo <= i < hi)
}

/// The disabled slots lie side by side.
pub open spec fn gap_is_contiguous(bitmap: u32) -> bool {
    exists|lo: u32, hi: u32| #[trigger] gap_is(bitmap, lo, hi)
}

/// The harvest pattern of an array.
pub open spec fn pattern_of(bitmap: u32) -> Seq<char> {
    if all_enabled(bitmap) {
        "full"@
    } else if gap_is_contiguous(bitmap) {
        "contiguous"@
    } else {
        "scattered"@
    }
}

/// Names the harvest pattern of an array's bitmap.
pub fn classify(bitmap: u32) -> (r: &'static str)
    ensures
        r@ == pattern_of(bitmap),
{
    let mut lo: u32 = 0;
    while lo < SLOTS_PER_ARRAY && bit_set(bitmap, lo)
        invariant
            lo <= 10,
            forall|i: u32| 0 <= i < lo ==> #[trigger] bit(bitmap, i),
        decreases 10 - lo,
    {
        lo += 1;
    }
    if lo == SLOTS_PER_ARRAY {
        return "full";
    }
    assert(!bit(bitmap, lo));
    let mut hi: u32 = lo;
    while hi < SLOTS_PER_ARRAY && !bit_set(bitmap, hi)
        invariant
            lo <= hi <= 10,
            forall|i: u32| lo <= i < hi ==> !#[trigger] bit(bitmap, i),
        decreases 10 - hi,
    {
        hi += 1;
    }
    let mut k: u32 = hi;
    while k < SLOTS_PER_ARRAY
        invariant
            lo < hi <= k <= 10,
            !bit(bitmap, lo),
            hi < 10 ==> bit(bitmap, hi),
            forall|i: u32| 0 <= i < lo ==> #[trigger] bit(bitmap, i),
            forall|i: u32| lo <= i < hi ==> !#[trigger] bit(bitmap, i),
            forall|i: u32| hi <= i < k ==> #[trigger] bit(bitmap, i),
        decreases 10 - k,
    {
        if !bit_set(bitmap, k) {
            assert(!gap_is_contiguous(bitmap)) by {
                if gap_is_contiguous(bitmap) {
                    let (a, b) = choose|a: u32, b: u32| #[trigger] gap_is(bitmap, a, b);
                    assert(a <= lo && k < b);
                    assert(!bit(bitmap, hi));
                }
            }
            return "scattered";
        }
        k += 1;
    }
    assert(gap_is_contiguous(bitmap)) by {
        assert(gap_is(bitmap, lo, hi));
    }
    "contiguous"
}

/// Engine and array counts that a device record can hold.
pub open spec fn plausible(num_se: int, num_sh: int) -> bool {
    1 <= num_se <= 8 && 1 <= num_sh <= 8
}

/// The entry of array `k` in engine order.
pub open spec fn array_entry(buf: Seq<u8>, num_sh: int, k: int, a: ArrayMap) -> bool {
    let bitmap = word_at(buf, 56 + (k / num_sh * 4 + k % num_sh) * 4);
    &&& a.se == k / num_sh
    &&& a.sh == k % num_sh
    &&& a.bitmap == bitmap
    &&& a.active == ones(a.bitmap, 32)
    &&& a.pattern@ == pattern_of(a.bitmap)
}

/// The harvest map of a device record; none where the counts are implausible.
pub fn map(buf: &[u8; 1024]) -> (r: Option<CuMap>)
    ensures
        r is Some <==> plausible(word_at(buf@, 20), word_at(buf@, 24)),
        r is Some ==> {
            let m = r->0;
            &&& m.num_se == word_at(buf@, 20)
            &&& m.num_sh == word_at(buf@, 24)
            &&& m.active == word_at(buf@, 48)
            &&& m.possible == m.num_se * m.num_sh * 10
            &&& m.arrays@.len() == m.num_se * m.num_sh
            &&& forall|k: int|
                0 <= k < m.arrays@.len() ==> array_entry(
                    buf@,
                    m.num_sh as int,
                    k,
                    #[trigger] m.arrays@[k],
                )
        },
{
    let num_se: u32 = u32_at(buf, 20);
    let num_sh: u32 = u32_at(buf, 24);
    let active: u32 = u32_at(buf, 48);
    if num_se == 0 || num_se > 8 || num_sh == 0 || num_sh > 8 {
        return None;
    }
    let mut arrays: Vec<ArrayMap> = Vec::new();
    assert(num_se * num_sh <= 64) by (nonlinear_arith)
        requires
            num_se <= 8,
            num_sh <= 8,
    ;
    let mut se: u32 = 0;
    let mut sh: u32 = 0;
    let total: u32 = num_se * num_sh;
    let mut k: u32 = 0;
    while k < total
        invariant
            total == num_se * num_sh,
            1 <= num_se <= 8,
            1 <= num_sh <= 8,
            k <= total <= 64,
            k == se * num_sh + sh,
            sh < num_sh,
            k < total ==> se < num_se,
            arrays@.len() == k,
            forall|j: int|
                0 <= j < k ==> array_entry(buf@, num_sh as int, j, #[trigger] arrays@[j]),
        decreases total - k,
    {
        let bitmap: u32 = u32_at(buf, 56 + (se as usize * 4 + sh as usize) * 4);
        proof {
            vstd::arithmetic::div_mod::lemma_fundamental_div_mod_converse(
                k as int,
                num_sh as int,
                se as int,
                sh as int,
            );
        }
        arrays.push(
            ArrayMap {
                se,
                sh,
                bitmap,
                active: count_ones(bitmap, 32),
                pattern: classify(bitmap),
            },
        );
        k += 1;
        sh += 1;
        if sh == num_sh {
            assert((se + 1) * num_sh == se * num_sh + num_sh) by (nonlinear_arith);
            se += 1;
            sh = 0;
        }
        assert(k < total ==> se < num_se) by (nonlinear_arith)
            requires
                k == se * num_sh + sh,
                total == num_se * num_sh,
                num_sh >= 1,
        ;
    }
    Some(CuMap { num_se, num_sh, active, possible: num_se * num_sh * SLOTS_PER_ARRAY, arrays })
}

/// Active unit count, where the map could be read.
pub fn active_cu_count(m: &Option<CuMap>) -> (r: Option<u32>)
    ensures
        r == (match *m {
            Some(c) => Some(c.active),
            None => None,
        }),
{
    match m {
        Some(c) => Some(c.active),
        None => None,
    }
}

/// Either unit of WGP `w` is enabled.
pub open spec fn wgp_enabled(bitmap: u32, w: int) -> bool {
    bit(bitmap, (2 * w) as u32) || bit(bitmap, (2 * w + 1) as u32)
}

/// The weight of WGP `w` in a mask, where it is enabled.
pub open spec fn wgp_weight(bitmap: u32, w: int) -> int {
    if !wgp_enabled(bitmap, w) { 0 } else if w == 0 { 1 } else if w == 1 { 2 } else if w == 2 {
        4
    } else if w == 3 { 8 } else { 16 }
}

/// The WGP mask of an array's unit bitmap: bit `w` where a unit of WGP `w` is
/// enabled.
pub open spec fn wgp_mask(bitmap: u32) -> int {
    wgp_weight(bitmap, 0) + wgp_weight(bitmap, 1) + wgp_weight(bitmap, 2) + wgp_weight(bitmap, 3)
        + wgp_weight(bitmap, 4)
}

fn wgp_mask_of(bitmap: u32) -> (r: u32)
    ensures
        r == wgp_mask(bitmap),
{
    let a: u32 = if bit_set(bitmap, 0) || bit_set(bitmap, 1) { 1 } else { 0 };
    let b: u32 = if bit_set(bitmap, 2) || bit_set(bitmap, 3) { 2 } else { 0 };
    let c: u32 = if bit_set(bitmap, 4) || bit_set(bitmap, 5) { 4 } else { 0 };
    let d: u32 = if bit_set(bitmap, 6) || bit_set(bitmap, 7) { 8 } else { 0 };
    let e: u32 = if bit_set(bitmap, 8) || bit_set(bitmap, 9) { 16 } else { 0 };
    a + b + c + d + e
}

/// Position of an array among the four of the grid.
pub open spec fn grid_index(a: ArrayMap) -> int {
    a.se * 2 + a.sh
}

/// The WGP mask of the last array at a grid position; 0 where there is none.
pub open spec fn driver_mask(arrays: Seq<ArrayMap>, idx: int) -> int
    decreases arrays.len(),
{
    if arrays.len() == 0 {
        0
    } else if grid_index(arrays.last()) == idx {
        wgp_mask(arrays.last().bitmap)
    } else {
        driver_mask(arrays.drop_last(), idx)
    }
}

/// The WGPs that the driver enumerated at boot, per array of the grid: engine 0
/// array 0, engine 0 array 1, engine 1 array 0, engine 1 array 1.
pub fn driver_wgp_masks(m: &CuMap) -> (r: [u32; 4])
    ensures
        forall|idx: int| 0 <= idx < 4 ==> #[trigger] r@[idx] == driver_mask(m.arrays@, idx),
{
    let mut out: [u32; 4] = [0, 0, 0, 0];
    let mut i: usize = 0;
    while i < m.arrays.len()
        invariant
            i <= m.arrays@.len(),
            forall|idx: int|
                0 <= idx < 4 ==> #[trigger] out@[idx] == driver_mask(
                    m.arrays@.take(i as int),
                    idx,
                ),
        decreases m.arrays@.len() - i,
    {
        let a = &m.arrays[i];
        assert(m.arrays@.take(i + 1).drop_last() =~= m.arrays@.take(i as int));
        let idx: u64 = a.se as u64 * 2 + a.sh as u64;
        if idx < 4 {
            out[idx as usize] = wgp_mask_of(a.bitmap);
        }
        i += 1;
    }
    assert(m.arrays@.take(i as int) =~= m.arrays@);
    out
}

/// Whether the module parameter that enables all units is armed: its text
/// (`None` where unreadable) is neither empty nor `0`.
pub fn liberation_armed(param: Option<&str>) -> (r: bool)
    ensures
        r == (param is Some && text::trimmed(param->0@).len() > 0 && text::trimmed(param->0@)
            != "0"@),
{
    match param {
        Some(t) => {
            let v: &str = text::trim(t);
            !text::same(v, "0") && !v.is_empty()
        },
        None => false,
    }
}

/// The slots of an array, `#` enabled and `.` harvested.
pub open spec fn slot_bar(bitmap: u32) -> Seq<char> {
    Seq::new(10, |i: int| if bit(bitmap, i as u32) { '#' } else { '.' })
}

/// The line of one array.
pub open spec fn array_line(a: ArrayMap) -> Seq<char> {
    "SE"@ + text::dec(a.se as nat) + " SH"@ + text::dec(a.sh as nat) + ": "@ + slot_bar(a.bitmap)
        + "  "@ + text::pad_left(text::dec(a.active as nat), ' ', 2) + " CU  "@ + a.pattern@
        + "\n"@
}

/// The lines of all arrays.
pub open spec fn array_lines(arrays: Seq<ArrayMap>) -> Seq<char>
    decreases arrays.len(),
{
    if arrays.len() == 0 {
        seq![]
    } else {
        array_lines(arrays.drop_last()) + array_line(arrays.last())
    }
}

fn render_array(a: &ArrayMap) -> (r: String)
    ensures
        r@ == array_line(*a),
{
    let mut r = text::join3("SE", text::decimal(a.se as u64).as_str(), " SH");
    r.append(text::decimal(a.sh as u64).as_str());
    r.append(": ");
    let mut bar = String::new();
    let mut i: u32 = 0;
    while i < SLOTS_PER_ARRAY
        invariant
            i <= 10,
            bar@.len() == i,
            forall|j: int|
                0 <= j < i ==> #[trigger] bar@[j] == (if bit(a.bitmap, j as u32) {
                    '#'
                } else {
                    '.'
                }),
        decreases 10 - i,
    {
        if bit_set(a.bitmap, i) {
            bar.push('#');
        } else {
            bar.push('.');
        }
        i += 1;
    }
    assert(bar@ =~= slot_bar(a.bitmap));
    r.append(bar.as_str());
    r.append("  ");
    r.append(text::padded_left(text::decimal(a.active as u64).as_str(), ' ', 2).as_str());
    r.append(" CU  ");
    r.append(a.pattern);
    r.append("\n");
    r
}

/// The harvest map as text: a line per array, then the totals.
pub fn render(m: &CuMap) -> (r: String)
    requires
        m.active <= m.possible,
    ensures
        r@ == array_lines(m.arrays@) + text::dec(m.active as nat) + "/"@ + text::dec(
            m.possible as nat,
        ) + " CUs active, "@ + text::dec((m.possible - m.active) as nat) + " harvested\n"@,
{
    let mut r = String::new();
    let mut i: usize = 0;
    assert(r@ =~= array_lines(m.arrays@.take(0)));
    while i < m.arrays.len()
        invariant
            i <= m.arrays@.len(),
            r@ == array_lines(m.arrays@.take(i as int)),
        decreases m.arrays@.len() - i,
    {
        assert(m.arrays@.take(i + 1).drop_last() =~= m.arrays@.take(i as int));
        r.append(render_array(&m.arrays[i]).as_str());
        i += 1;
    }
    assert(m.arrays@.take(i as int) =~= m.arrays@);
    r.append(text::decimal(m.active as u64).as_str());
    r.append("/");
    r.append(text::decimal(m.possible as u64).as_str());
    r.append(" CUs active, ");
    r.append(text::decimal((m.possible - m.active) as u64).as_str());
    r.append(" harvested\n");
    r
}

/// A WGP is in an array's mask exactly where one of its two units is enabled.
pub proof fn mask_follows_the_units(bitmap: u32, w: u32)
    requires
        w < 5,
    ensures
        0 <= wgp_mask(bitmap) < 32,
        w == 0 ==> (wgp_mask(bitmap) % 2 == 1 <==> bit(bitmap, 0) || bit(bitmap, 1)),
        w == 1 ==> (wgp_mask(bitmap) / 2 % 2 == 1 <==> bit(bitmap, 2) || bit(bitmap, 3)),
        w == 2 ==> (wgp_mask(bitmap) / 4 % 2 == 1 <==> bit(bitmap, 4) || bit(bitmap, 5)),
        w == 3 ==> (wgp_mask(bitmap) / 8 % 2 == 1 <==> bit(bitmap, 6) || bit(bitmap, 7)),
        w == 4 ==> (wgp_mask(bitmap) / 16 % 2 == 1 <==> bit(bitmap, 8) || bit(bitmap, 9)),
{
}

/// The grid holds the array of engine `se` and number `sh` at place
/// `2 * se + sh`, and what another array has there does not move.
pub proof fn arrays_have_their_places(arrays: Seq<ArrayMap>, a: ArrayMap, other: int)
    ensures
        driver_mask(arrays.push(a), 2 * a.se + a.sh) == wgp_mask(a.bitmap),
        other != 2 * a.se + a.sh ==> driver_mask(arrays.push(a), other) == driver_mask(
            arrays,
            other,
        ),
{
    assert(arrays.push(a).drop_last() =~= arrays);
}

/// The bitmap of engine `se` and array `sh` stands at offset 56, sixteen bytes to
/// an engine and four to an array.
pub proof fn bitmaps_have_their_places(buf: Seq<u8>, num_sh: int, se: int, sh: int, a: ArrayMap)
    requires
        0 <= se,
        0 <= sh < num_sh,
        array_entry(buf, num_sh, se * num_sh + sh, a),
    ensures
        a.se == se,
        a.sh == sh,
        a.bitmap == word_at(buf, 56 + 16 * se + 4 * sh),
{
    vstd::arithmetic::div_mod::lemma_fundamental_div_mod_converse(
        se * num_sh + sh,
        num_sh,
        se,
        sh,
    );
}

/// A count of bits is the number of those that are set: it rises by one with
/// each that is, and by nothing with one that is not.
pub proof fn ones_counts_the_bits(x: u32, n: nat)
    ensures
        ones(x, n) <= n,
        ones(x, 0) == 0,
        ones(x, n + 1) == ones(x, n) + (if (x >> n as u32) & 1 == 1 { 1nat } else { 0nat }),
        ones(0, n) == 0 || n > 32,
    decreases n,
{
    if n > 0 {
        ones_counts_the_bits(x, (n - 1) as nat);
        let k = (n - 1) as u32;
        if n <= 32 {
            assert((0u32 >> k) & 1 != 1) by (bit_vector)
                requires
                    k < 32,
            ;
        }
    }
}

/// A slot is shown by its bit, ten to an array.
pub proof fn slots_are_shown_bit_by_bit(bitmap: u32, i: int)
    requires
        0 <= i < 10,
    ensures
        slot_bar(bitmap).len() == 10,
        slot_bar(bitmap)[i] == '#' <==> bit(bitmap, i as u32),
        slot_bar(bitmap)[i] == '.' <==> !bit(bitmap, i as u32),
{
}

/// The arrays are shown in order, a line each.
pub proof fn arrays_are_shown_line_by_line(arrays: Seq<ArrayMap>, a: ArrayMap)
    ensures
        array_lines(arrays.push(a)) == array_lines(arrays) + array_line(a),
        array_lines(seq![]) == Seq::<char>::empty(),
{
    assert(arrays.push(a).drop_last() =~= arrays);
}

/// A place of the grid has the mask of the last array there, and none where there
/// is no array.
pub proof fn last_array_of_a_place(arrays: Seq<ArrayMap>, a: ArrayMap, idx: int)
    ensures
        grid_index(a) == idx ==> driver_mask(arrays.push(a), idx) == wgp_mask(a.bitmap),
        grid_index(a) != idx ==> driver_mask(arrays.push(a), idx) == driver_mask(arrays, idx),
        driver_mask(seq![], idx) == 0,
{
    assert(arrays.push(a).drop_last() =~= arrays);
}

/// One to eight engines with one to eight arrays each are plausible, and nothing
/// else is.
pub proof fn plausible_counts(num_se: int, num_sh: int)
    ensures
        plausible(num_se, num_sh) <==> num_se >= 1 && num_se < 9 && num_sh >= 1 && num_sh < 9,
{
}

/// The bytes of a word can be read back from it, the lowest first.
pub proof fn word_holds_its_bytes(buf: Seq<u8>, off: int)
    ensures
        word_at(buf, off) % 256 == buf[off],
        (word_at(buf, off) / 256) % 256 == buf[off + 1],
        (word_at(buf, off) / 65536) % 256 == buf[off + 2],
        word_at(buf, off) / 16777216 == buf[off + 3],
{
}

} // verus!
