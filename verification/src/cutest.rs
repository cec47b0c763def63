//! Health test of the compute units: a known-answer test run at safe routes.
//!
//! Every invocation computes a fixed chain of integer operations that the CPU
//! reproduces bit for bit. A bad unit shows as a mismatch, a hang as a timeout.
//! The routes tested populate every shader array, because work on an empty
//! array hangs the GPU.
use vstd::prelude::*;

use crate::compute;
use crate::curoute;
use crate::double;
use crate::double::{Binary, BinaryView, MANT_FULL, MANT_LIMIT};
use crate::text;

verus! {

/// Invocations per run.
pub const KAT_N: u32 = 1_048_576;
/// Length of the chain of an invocation.
pub const KAT_ITERS: u32 = 2048;
/// Time after which a run counts as hung.
pub const KAT_TIMEOUT_NS: u64 = 10_000_000_000;
/// GPU clock during a test, so that throughput can be compared.
pub const TEST_CLK_MHZ: u32 = 1500;
/// Runs of a bench; the fastest counts.
pub const BENCH_REPS: u32 = 6;
/// Integer operations of one run.
pub const KAT_OPS: u64 = 8_589_934_592;
/// Work groups of a run: sixty-four invocations each.
pub const KAT_GROUPS: u32 = 16_384;

// ---------------------------------------------------------------------------
// The known answer

/// A number in the range of `u32`, wrapped around.
pub open spec fn wrapped(x: int) -> u32 {
    (x % 0x1_0000_0000) as u32
}

/// The chain after `n` rounds for an invocation.
pub open spec fn chain(idx: u32, n: nat) -> u32
    decreases n,
{
    if n == 0 {
        wrapped(idx * 2654435761 + 0x9e37_79b9)
    } else {
        let mixed = wrapped(chain(idx, (n - 1) as nat) * 1664525 + 1013904223);
        wrapped((mixed ^ (mixed >> 15)) + idx + (n - 1))
    }
}

/// The answer of one invocation.
pub fn cpu_kat(idx: u32, iters: u32) -> (r: u32)
    ensures
        r == chain(idx, iters as nat),
{
    let mut x: u32 = ((idx as u64 * 2654435761 + 0x9e37_79b9) % 0x1_0000_0000) as u32;
    let mut i: u32 = 0;
    while i < iters
        invariant
            i <= iters,
            x == chain(idx, i as nat),
        decreases iters - i,
    {
        let mixed: u32 = ((x as u64 * 1664525 + 1013904223) % 0x1_0000_0000) as u32;
        let folded: u32 = mixed ^ (mixed >> 15);
        x = ((folded as u64 + idx as u64 + i as u64) % 0x1_0000_0000) as u32;
        i += 1;
    }
    x
}

/// The answers of the first `n` invocations.
pub fn answers(n: u32, iters: u32) -> (r: Vec<u32>)
    ensures
        r@ == Seq::new(n as nat, |i: int| chain(i as u32, iters as nat)),
{
    let mut r: Vec<u32> = Vec::new();
    let mut i: u32 = 0;
    while i < n
        invariant
            i <= n,
            r@.len() == i,
            forall|j: int| 0 <= j < i ==> #[trigger] r@[j] == chain(j as u32, iters as nat),
        decreases n - i,
    {
        r.push(cpu_kat(i, iters));
        i += 1;
    }
    assert(r@ =~= Seq::new(n as nat, |i: int| chain(i as u32, iters as nat)));
    r
}

/// The answers of a whole run.
pub fn golden() -> (r: Vec<u32>)
    ensures
        r@ == Seq::new(KAT_N as nat, |i: int| chain(i as u32, KAT_ITERS as nat)),
        r@.len() == 1_048_576,
        forall|i: int| 0 <= i < r@.len() ==> #[trigger] r@[i] == chain(i as u32, 2048),
{
    answers(KAT_N, KAT_ITERS)
}

proof fn factor_is_undone(x: int, mixed: int)
    requires
        0 <= x < 0x1_0000_0000,
        mixed == (x * 1664525 + 1013904223) % 0x1_0000_0000,
    ensures
        ((mixed - 1013904223) * 4276115653) % 0x1_0000_0000 == x,
{
    let sum = x * 1664525 + 1013904223;
    let q = quotient_of(sum, mixed);
    let d = mixed - 1013904223;
    factors_cancel(x, q, d);
    remainder_is(x, x * 1657219 - q * 4276115653, d * 4276115653);
}

proof fn quotient_of(sum: int, rest: int) -> (q: int)
    requires
        rest == sum % 0x1_0000_0000,
    ensures
        rest == sum - q * 0x1_0000_0000,
{
    sum / 0x1_0000_0000
}

proof fn factors_cancel(x: int, q: int, d: int)
    requires
        d == x * 1664525 - q * 0x1_0000_0000,
    ensures
        d * 4276115653 == x + (x * 1657219 - q * 4276115653) * 0x1_0000_0000,
{
}

proof fn first_factors_cancel(x: int, q: int, d: int)
    requires
        d == x * 2654435761 - q * 0x1_0000_0000,
    ensures
        d * 244002641 == x + (x * 150801925 - q * 244002641) * 0x1_0000_0000,
{
}

proof fn remainder_is(x: int, t: int, y: int)
    requires
        0 <= x < 0x1_0000_0000,
        y == x + t * 0x1_0000_0000,
    ensures
        y % 0x1_0000_0000 == x,
{
}

proof fn sum_is_undone(folded: int, added: int, next: int)
    requires
        0 <= folded < 0x1_0000_0000,
        next == (folded + added) % 0x1_0000_0000,
    ensures
        (next - added) % 0x1_0000_0000 == folded,
{
}

proof fn fold_is_undone(mixed: u32, folded: u32)
    requires
        folded == mixed ^ (mixed >> 15),
    ensures
        folded ^ (folded >> 15) ^ (folded >> 30) == mixed,
{
    assert(folded ^ (folded >> 15) ^ (folded >> 30) == mixed) by (bit_vector)
        requires
            folded == mixed ^ (mixed >> 15),
    ;
}

/// Every round of the chain can be undone, so no answer loses what came before
/// it: take the invocation and the round's number off, fold the upper bits out
/// of the lower ones, take the increment off and divide by the factor.
#[verifier::spinoff_prover]
#[verifier::rlimit(60)]
pub proof fn round_can_be_undone(idx: u32, n: nat)
    ensures
        ({
            let bare = ((chain(idx, n + 1) - idx - n) % 0x1_0000_0000) as u32;
            let mixed = bare ^ (bare >> 15) ^ (bare >> 30);
            chain(idx, n) == ((mixed - 1013904223) * 4276115653) % 0x1_0000_0000
        }),
{
    let x = chain(idx, n);
    let mixed = wrapped(x * 1664525 + 1013904223);
    let folded = mixed ^ (mixed >> 15);
    let next = chain(idx, n + 1);
    assert(next == wrapped(folded + idx + n));
    sum_is_undone(folded as int, idx + n, next as int);
    let bare = ((next - idx - n) % 0x1_0000_0000) as u32;
    assert(next - idx - n == next - (idx + n));
    assert(bare == folded);
    fold_is_undone(mixed, folded);
    factor_is_undone(x as int, mixed as int);
}

proof fn first_factor_is_undone(idx: int, first: int)
    requires
        0 <= idx < 0x1_0000_0000,
        first == (idx * 2654435761 + 0x9e37_79b9) % 0x1_0000_0000,
    ensures
        ((first - 0x9e37_79b9) * 244002641) % 0x1_0000_0000 == idx,
{
    let sum = idx * 2654435761 + 0x9e37_79b9;
    let q = quotient_of(sum, first);
    let d = first - 0x9e37_79b9;
    first_factors_cancel(idx, q, d);
    remainder_is(idx, idx * 150801925 - q * 244002641, d * 244002641);
}

/// The start of a chain tells its invocation.
pub proof fn start_tells_the_invocation(idx: u32)
    ensures
        ((chain(idx, 0) - 0x9e37_79b9) * 244002641) % 0x1_0000_0000 == idx,
{
    first_factor_is_undone(idx as int, chain(idx, 0) as int);
}

proof fn first_round(idx: u32, x: u32)
    requires
        (idx * 2654435761 + 0x9e37_79b9) % 0x1_0000_0000 == x,
    ensures
        chain(idx, 0) == x,
{
}

proof fn next_round(idx: u32, n: nat, x: u32, mixed: u32, folded: u32, y: u32)
    requires
        chain(idx, n) == x,
        (x * 1664525 + 1013904223) % 0x1_0000_0000 == mixed,
        mixed ^ (mixed >> 15) == folded,
        (folded + idx + n) % 0x1_0000_0000 == y,
    ensures
        chain(idx, n + 1) == y,
{
}

/// Known answers of the first two invocations.
#[verifier::spinoff_prover]
#[verifier::rlimit(60)]
pub proof fn known_answers()
    ensures
        chain(0, 0) == 0x9e37_79b9,
        chain(0, 1) == 0x42d0_5265,
        chain(1, 0) == 1013904234,
        chain(1, 1) == 1214716687,
        chain(1, 2) == 2733312248,
{
    assert(chain(0, 0) == 0x9e37_79b9u32 && chain(0, 1) == 0x42d0_5265u32) by {
        first_round(0, 0x9e37_79b9);
        assert(1120982980u32 ^ (1120982980u32 >> 15) == 1120948837u32) by (bit_vector);
        next_round(0, 0, 0x9e37_79b9, 1120982980, 1120948837, 0x42d0_5265);
    }
    assert(chain(1, 0) == 1013904234u32 && chain(1, 1) == 1214716687u32) by {
        first_round(1, 1013904234);
        assert(1214745537u32 ^ (1214745537u32 >> 15) == 1214716686u32) by (bit_vector);
        next_round(1, 0, 1013904234, 1214745537, 1214716686, 1214716687);
    }
    assert(2733264162u32 ^ (2733264162u32 >> 15) == 2733312246u32) by (bit_vector);
    next_round(1, 1, 1214716687, 2733264162, 2733312246, 2733312248);
}

/// What the output buffer is filled with before a run: nowhere the right
/// answer, so that a run that never happened cannot pass.
pub fn poison(golden: &Vec<u32>) -> (r: Vec<u32>)
    ensures
        r@ == golden@.map_values(|g: u32| (0xFFFF_FFFF - g) as u32),
        forall|i: int| 0 <= i < r@.len() ==> #[trigger] r@[i] != golden@[i],
{
    let mut r: Vec<u32> = Vec::new();
    let mut i: usize = 0;
    while i < golden.len()
        invariant
            i <= golden@.len(),
            r@.len() == i,
            forall|j: int| 0 <= j < i ==> #[trigger] r@[j] == 0xFFFF_FFFF - golden@[j],
        decreases golden@.len() - i,
    {
        r.push(0xFFFF_FFFF - golden[i]);
        i += 1;
    }
    assert(r@ =~= golden@.map_values(|g: u32| (0xFFFF_FFFF - g) as u32));
    r
}

/// Number of places below `n` at which two buffers differ.
pub open spec fn differing(a: Seq<u32>, b: Seq<u32>, n: nat) -> nat
    decreases n,
{
    if n == 0 {
        0
    } else {
        differing(a, b, (n - 1) as nat) + (if a[n - 1] != b[n - 1] { 1nat } else { 0nat })
    }
}

/// Number of wrong answers of a run.
pub fn count_mismatches(gpu: &[u32], golden: &[u32]) -> (r: u64)
    requires
        gpu@.len() == golden@.len(),
        gpu@.len() <= u32::MAX,
    ensures
        r == differing(gpu@, golden@, gpu@.len()),
{
    let n: usize = gpu.len();
    let mut r: u64 = 0;
    let mut i: usize = 0;
    while i < n
        invariant
            n == gpu@.len(),
            n == golden@.len(),
            n <= u32::MAX,
            i <= n,
            r == differing(gpu@, golden@, i as nat),
            r <= i,
        decreases n - i,
    {
        if gpu[i] != golden[i] {
            r += 1;
        }
        i += 1;
    }
    r
}

/// A run whose buffer still holds the poison has every answer wrong.
pub proof fn dropped_run_never_passes(golden: Seq<u32>, buffer: Seq<u32>, n: nat)
    requires
        n <= golden.len(),
        buffer.len() == golden.len(),
        forall|i: int| 0 <= i < golden.len() ==> #[trigger] buffer[i] == 0xFFFF_FFFF - golden[i],
    ensures
        differing(buffer, golden, n) == n,
    decreases n,
{
    if n > 0 {
        dropped_run_never_passes(golden, buffer, (n - 1) as nat);
        assert(buffer[n - 1] == 0xFFFF_FFFF - golden[n - 1]);
    }
}

/// A run has no wrong answer exactly where every answer is the right one, and
/// never more wrong answers than answers.
pub proof fn no_mismatch_means_right(gpu: Seq<u32>, golden: Seq<u32>, n: nat)
    ensures
        differing(gpu, golden, n) <= n,
        differing(gpu, golden, n) == 0 <==> (forall|i: int|
            0 <= i < n ==> #[trigger] gpu[i] == golden[i]),
    decreases n,
{
    if n > 0 {
        no_mismatch_means_right(gpu, golden, (n - 1) as nat);
        if differing(gpu, golden, (n - 1) as nat) == 0 && gpu[n - 1] == golden[n - 1] {
            assert forall|i: int| 0 <= i < n implies #[trigger] gpu[i] == golden[i] by {
                assert(i == n - 1 || i < n - 1);
            }
        }
    }
}

/// One more wrong answer is one more mismatch.
pub proof fn every_wrong_answer_counts(gpu: Seq<u32>, golden: Seq<u32>, i: int, wrong: u32, n: nat)
    requires
        0 <= i < gpu.len(),
        gpu[i] == golden[i],
        wrong != golden[i],
        n <= gpu.len(),
    ensures
        differing(gpu.update(i, wrong), golden, n) == differing(gpu, golden, n) + (if i < n {
            1int
        } else {
            0
        }),
    decreases n,
{
    if n > 0 {
        every_wrong_answer_counts(gpu, golden, i, wrong, (n - 1) as nat);
    }
}

// ---------------------------------------------------------------------------
// Verdicts

/// Verdict on one route.
#[derive(Debug)]
pub struct KatResult {
    pub label: String,
    pub cu_count: u32,
    pub ok: bool,
    pub mismatches: u64,
    pub elapsed_ns: u64,
    /// The run did not complete.
    pub hung: bool,
}

impl KatResult {
    /// The verdict in a word.
    pub open spec fn word(&self) -> Seq<char> {
        if self.hung {
            "HUNG"@
        } else if self.ok {
            "ok"@
        } else {
            "FAIL"@
        }
    }

    /// The verdict in a word.
    pub fn verdict(&self) -> (r: &'static str)
        ensures
            r@ == self.word(),
    {
        if self.hung {
            "HUNG"
        } else if self.ok {
            "ok"
        } else {
            "FAIL"
        }
    }

    /// Throughput in billions of operations per second, to the nearest; 0 for a
    /// hung run.
    pub fn gflops(&self) -> (r: u64)
        ensures
            r == throughput(self.elapsed_ns, self.hung, 1, 1),
    {
        throughput_of(self.elapsed_ns, self.hung, 1, 1)
    }
}

/// Billions of operations per second of a run, in double precision. No run
/// counts as shorter than a nanosecond.
pub open spec fn billions(elapsed_ns: u64) -> BinaryView {
    let s = double::seconds_of(if elapsed_ns == 0 { 1 } else { elapsed_ns as int });
    double::over(double::over(double::whole(KAT_OPS as int), s), double::whole(1_000_000_000))
}

/// Throughput of a run in billions of operations per second, shared among
/// `share` and times `scale`, to the nearest; 0 for a hung run.
pub open spec fn throughput(elapsed_ns: u64, hung: bool, scale: int, share: int) -> int {
    if hung {
        0
    } else {
        double::times(double::over(billions(elapsed_ns), double::whole(share)), scale)
    }
}

fn billions_of(elapsed_ns: u64) -> (r: Binary)
    ensures
        r@ == billions(elapsed_ns),
        MANT_FULL <= r.mant <= MANT_LIMIT,
        -1000 <= r.exp <= -18,
{
    let ns: u64 = if elapsed_ns == 0 {
        1
    } else {
        elapsed_ns
    };
    let s = double::seconds(ns);
    let ops = Binary { mant: KAT_OPS, exp: 0 };
    let rate = double::quotient(ops, s);
    proof {
        double::some_powers();
        let t = double::two(70);
        assert(ops.mant * t < s.mant * 0x10_0000_0000_0000) by (nonlinear_arith)
            requires
                ops.mant == 0x2_0000_0000,
                t == 0x40_0000_0000_0000_0000,
                s.mant >= 0x10_0000_0000_0000,
        ;
        double::quotient_exponent(ops@, s@, 70);
    }
    let giga = Binary { mant: 1_000_000_000, exp: 0 };
    let r = double::quotient(rate, giga);
    proof {
        assert(double::two(28) == 0x1000_0000) by {
            reveal_with_fuel(double::two, 29);
        }
        assert(rate.mant * double::two(28) == rate.mant * 0x1000_0000);
        double::quotient_exponent(rate@, giga@, 28);
    }
    r
}

/// Throughput of a run, shared among `share` and times `scale`.
pub fn throughput_of(elapsed_ns: u64, hung: bool, scale: u64, share: u64) -> (r: u64)
    requires
        1 <= scale <= 10,
        1 <= share <= u32::MAX,
    ensures
        r == throughput(elapsed_ns, hung, scale as int, share as int),
{
    if hung {
        return 0;
    }
    let g = billions_of(elapsed_ns);
    let each = double::quotient(g, Binary { mant: share, exp: 0 });
    proof {
        double::quotient_of_more(g@, double::whole(share as int));
    }
    double::multiple(each, scale)
}

/// One run of the test.
#[derive(Clone, Copy, Debug, PartialEq, Eq, Structural)]
pub struct KatRun {
    pub elapsed_ns: u64,
    pub mismatches: u64,
    pub hung: bool,
}

/// Judges a run: one whose fence did not signal in time has hung, and all its
/// answers count as wrong; of any other the wrong answers are counted.
pub fn judge(elapsed_ns: u64, signaled: bool, gpu: &[u32], golden: &[u32]) -> (r: KatRun)
    requires
        gpu@.len() == golden@.len(),
        gpu@.len() <= u32::MAX,
    ensures
        r == (if signaled {
            KatRun {
                elapsed_ns,
                mismatches: differing(gpu@, golden@, gpu@.len()) as u64,
                hung: false,
            }
        } else {
            KatRun { elapsed_ns, mismatches: KAT_N as u64, hung: true }
        }),
{
    if signaled {
        KatRun { elapsed_ns, mismatches: count_mismatches(gpu, golden), hung: false }
    } else {
        KatRun { elapsed_ns, mismatches: KAT_N as u64, hung: true }
    }
}

/// The push constants of a run: invocations and chain length, as little-endian
/// words.
pub fn kat_push() -> (r: [u8; 8])
    ensures
        compute::word_le(r@, 0) == KAT_N,
        compute::word_le(r@, 1) == KAT_ITERS,
{
    [0x00, 0x00, 0x10, 0x00, 0x00, 0x08, 0x00, 0x00]
}


/// The verdict on a route from a run: good where it completed without a
/// mismatch.
pub fn kat_result(masks: &[u32; 4], label: String, run: KatRun) -> (r: KatResult)
    ensures
        r.label == label,
        r.cu_count == curoute::routed_cu(masks@),
        r.ok == (!run.hung && run.mismatches == 0),
        r.mismatches == run.mismatches,
        r.elapsed_ns == run.elapsed_ns,
        r.hung == run.hung,
{
    KatResult {
        label,
        cu_count: curoute::cu_count(masks),
        ok: !run.hung && run.mismatches == 0,
        mismatches: run.mismatches,
        elapsed_ns: run.elapsed_ns,
        hung: run.hung,
    }
}

/// Why a test is refused.
#[derive(Debug)]
pub enum KatError {
    /// The compute device is another one.
    WrongDevice { name: String },
    /// The route has an empty array.
    EmptyArray { masks: String },
}

impl KatError {
    /// The message shown to the operator.
    pub open spec fn text(&self) -> Seq<char> {
        match self {
            KatError::WrongDevice { name } =>
                "BC-250/GFX1013 Vulkan device not found (shared compute device is '"@ + name@
                + "') — refusing to health-test a different device (a software rasterizer would false-pass every config)"@,
            KatError::EmptyArray { masks } => "refusing to bench "@ + masks@
                + ": an empty shader array under compute hangs + wedges gfx1013. Populate every array."@,
        }
    }

    /// The message shown to the operator.
    pub fn message(&self) -> (r: String)
        ensures
            r@ == self.text(),
    {
        match self {
            KatError::WrongDevice { name } => text::join3(
                "BC-250/GFX1013 Vulkan device not found (shared compute device is '",
                name.as_str(),
                "') — refusing to health-test a different device (a software rasterizer would false-pass every config)",
            ),
            KatError::EmptyArray { masks } => text::join3(
                "refusing to bench ",
                masks.as_str(),
                ": an empty shader array under compute hangs + wedges gfx1013. Populate every array.",
            ),
        }
    }
}

/// The device under test, by its name in any case.
pub open spec fn is_device(name: Seq<char>) -> bool {
    text::occurs(text::upper(name), "BC-250"@) || text::occurs(text::upper(name), "GFX1013"@)
}

/// Refuses any compute device but the one under test: a software rasterizer
/// would pass every route.
pub fn ensure_bc250_device(name: &str) -> (r: Result<(), KatError>)
    ensures
        is_device(name@) ==> r is Ok,
        !is_device(name@) ==> (r matches Err(KatError::WrongDevice { name: n }) && n@ == name@),
{
    let up = text::uppercase(name);
    if text::contains(up.as_str(), "BC-250") || text::contains(up.as_str(), "GFX1013") {
        Ok(())
    } else {
        Err(KatError::WrongDevice { name: name.to_owned() })
    }
}

/// The first memory type of the test's buffer, from the properties of the types
/// in order.
pub fn find_mem_type(props: &Vec<u32>, bits: u32, flags: u32) -> (r: Option<u32>)
    requires
        props@.len() <= 32,
    ensures
        compute::first_suiting(props@, bits, flags, r),
{
    compute::find_mem(props, bits, flags)
}

// ---------------------------------------------------------------------------
// Bench of a route

/// Four masks as a list of two-digit hexadecimal numbers.
pub open spec fn masks_text(m: Seq<u32>) -> Seq<char> {
    "["@ + text::hex_pad(m[0] as nat, 2) + ", "@ + text::hex_pad(m[1] as nat, 2) + ", "@
        + text::hex_pad(m[2] as nat, 2) + ", "@ + text::hex_pad(m[3] as nat, 2) + "]"@
}

/// Four masks as a list of two-digit hexadecimal numbers.
pub fn masks_label(m: &[u32; 4]) -> (r: String)
    ensures
        r@ == masks_text(m@),
{
    let mut r = text::join3("[", text::hexadecimal_padded(m[0] as u64, 2).as_str(), ", ");
    r.append(text::hexadecimal_padded(m[1] as u64, 2).as_str());
    r.append(", ");
    r.append(text::hexadecimal_padded(m[2] as u64, 2).as_str());
    r.append(", ");
    r.append(text::hexadecimal_padded(m[3] as u64, 2).as_str());
    r.append("]");
    r
}

/// A bench between two runs.
#[derive(Clone, Copy, Debug, PartialEq, Eq, Structural)]
pub struct Bench {
    /// Runs made.
    pub runs: u32,
    /// Shortest run, at most an hour.
    pub best_ns: u64,
    /// Mismatches of the last run.
    pub mismatches: u64,
}

/// What a bench does after a run.
#[derive(Clone, Copy, Debug, PartialEq, Eq, Structural)]
pub enum BenchStep {
    Again(Bench),
    Done(KatRun),
}

/// Before the first run.
pub open spec fn fresh_bench() -> Bench {
    Bench { runs: 0, best_ns: 3_600_000_000_000, mismatches: 0 }
}

impl Bench {
    /// What follows a run. A hang ends the bench with that run. Otherwise the
    /// shortest time counts; a mismatch ends it, for it will not clear.
    pub open spec fn next(self, run: KatRun) -> BenchStep {
        let best = if run.elapsed_ns < self.best_ns { run.elapsed_ns } else { self.best_ns };
        if run.hung {
            BenchStep::Done(run)
        } else if run.mismatches != 0 || self.runs + 1 >= BENCH_REPS {
            BenchStep::Done(
                KatRun { elapsed_ns: best, mismatches: run.mismatches, hung: false },
            )
        } else {
            BenchStep::Again(
                Bench {
                    runs: (self.runs + 1) as u32,
                    best_ns: best,
                    mismatches: run.mismatches,
                },
            )
        }
    }

    /// Takes a run.
    pub fn step(self, run: KatRun) -> (r: BenchStep)
        requires
            self.runs < BENCH_REPS,
        ensures
            r == self.next(run),
            r matches BenchStep::Again(b) ==> b.runs < BENCH_REPS && b.runs == self.runs + 1,
    {
        if run.hung {
            return BenchStep::Done(run);
        }
        let best: u64 = if run.elapsed_ns < self.best_ns {
            run.elapsed_ns
        } else {
            self.best_ns
        };
        if run.mismatches != 0 || self.runs + 1 >= BENCH_REPS {
            return BenchStep::Done(
                KatRun { elapsed_ns: best, mismatches: run.mismatches, hung: false },
            );
        }
        BenchStep::Again(
            Bench { runs: self.runs + 1, best_ns: best, mismatches: run.mismatches },
        )
    }
}

/// A bench makes six runs at most. What it reports is no slower than any run
/// that it counted, it stops at the first wrong answer or hang and says so.
pub proof fn bench_reports_the_best(b: Bench, run: KatRun)
    requires
        b.runs < 6,
    ensures
        b.next(run) is Done <==> run.hung || run.mismatches > 0 || b.runs == 5,
        b.next(run) matches BenchStep::Done(d) ==> d.hung == run.hung && d.mismatches
            == run.mismatches && d.elapsed_ns <= run.elapsed_ns && (!run.hung ==> d.elapsed_ns
            <= b.best_ns && (d.elapsed_ns == run.elapsed_ns || d.elapsed_ns == b.best_ns)),
        b.next(run) matches BenchStep::Again(n) ==> n.runs == b.runs + 1 && n.best_ns <= b.best_ns
            && n.best_ns <= run.elapsed_ns && (n.best_ns == run.elapsed_ns || n.best_ns
            == b.best_ns),
        run.hung ==> b.next(run) == BenchStep::Done(run),
{
}

/// A run makes four operations in every round of every invocation.
pub proof fn operations_of_a_run()
    ensures
        KAT_OPS == 4 * (1_048_576 * 2048),
        KAT_N == 1_048_576,
        KAT_ITERS == 2048,
        KAT_GROUPS * 64 == KAT_N,
{
}

/// Begins the bench of a route. One with an empty array is refused before
/// anything is touched.
pub fn bench_masks(masks: &[u32; 4]) -> (r: Result<Bench, KatError>)
    ensures
        !curoute::empty_somewhere(masks@) ==> r == Ok::<Bench, KatError>(fresh_bench()),
        curoute::empty_somewhere(masks@) ==> (r matches Err(KatError::EmptyArray { masks: m })
            && m@ == masks_text(masks@)),
{
    if curoute::has_empty_array(masks) {
        return Err(KatError::EmptyArray { masks: masks_label(masks) });
    }
    Ok(Bench { runs: 0, best_ns: 3_600_000_000_000, mismatches: 0 })
}

// ---------------------------------------------------------------------------
// Finding a bad unit

/// The route of all units with one WGP left out.
pub open spec fn all_but(array: int, wgp: int) -> Seq<u32> {
    let left: u32 = if wgp == 0 { 0x1e } else if wgp == 1 { 0x1d } else if wgp == 2 { 0x1b } else if wgp
        == 3 { 0x17 } else { 0x0f };
    seq![
        curoute::FULL_MASK,
        curoute::FULL_MASK,
        curoute::FULL_MASK,
        curoute::FULL_MASK,
    ].update(array, left)
}

/// The route and the label of one step of the search: all units but one WGP.
pub fn localize_config(array: usize, wgp: u32) -> (r: ([u32; 4], String))
    requires
        array < 4,
        wgp < 5,
    ensures
        r.0@ == all_but(array as int, wgp as int),
        r.1@ == "-SE"@ + text::dec(curoute::array_at(array as int).0 as nat) + ".SH"@ + text::dec(
            curoute::array_at(array as int).1 as nat,
        ) + "/WGP"@ + text::dec(wgp as nat),
{
    let mut masks: [u32; 4] = [
        curoute::FULL_MASK,
        curoute::FULL_MASK,
        curoute::FULL_MASK,
        curoute::FULL_MASK,
    ];
    masks[array] = if wgp == 0 {
        0x1e
    } else if wgp == 1 {
        0x1d
    } else if wgp == 2 {
        0x1b
    } else if wgp == 3 {
        0x17
    } else {
        0x0f
    };
    assert(masks@ =~= all_but(array as int, wgp as int));
    let (se, sh) = curoute::array_pos(array);
    let mut label = text::join3("-SE", text::decimal(se as u64).as_str(), ".SH");
    label.append(text::decimal(sh as u64).as_str());
    label.append("/WGP");
    label.append(text::decimal(wgp as u64).as_str());
    (masks, label)
}

/// The place in the search after a run.
pub open spec fn searched_next(array: usize, wgp: u32, hung: bool) -> Option<(usize, u32)> {
    if !hung && wgp < 4 {
        Some((array, (wgp + 1) as u32))
    } else if array < 3 {
        Some(((array + 1) as usize, 0u32))
    } else {
        None
    }
}

/// The search goes through the twenty WGPs in order and leaves none out; a hang
/// leaves out the rest of its array alone.
pub proof fn search_misses_nothing(array: usize, wgp: u32, hung: bool)
    requires
        array < 4,
        wgp < 5,
    ensures
        ({
            let at = 5 * array + wgp;
            let next = if hung { 5 * (array + 1) } else { at + 1 };
            match searched_next(array, wgp, hung) {
                Some((a, w)) => a < 4 && w < 5 && 5 * a + w == next && next < 20,
                None => next >= 20,
            }
        }),
{
}

/// A step of the search leaves out the WGP that it names and no other.
pub proof fn search_leaves_one_out(array: int, wgp: int, i: int)
    requires
        0 <= array < 4,
        0 <= wgp < 5,
        0 <= i < 4,
    ensures
        all_but(array, wgp).len() == 4,
        i != array ==> all_but(array, wgp)[i] == 31,
        i == array ==> all_but(array, wgp)[i] == 31 - double::two(wgp as nat),
{
    reveal_with_fuel(double::two, 6);
}

/// The step after a run of the search: the array's next WGP or, after its last
/// one or a hang, the next array.
pub fn localize_next(array: usize, wgp: u32, hung: bool) -> (r: Option<(usize, u32)>)
    requires
        array < 4,
        wgp < 5,
    ensures
        r == searched_next(array, wgp, hung),
{
    if !hung && wgp < 4 {
        Some((array, wgp + 1))
    } else if array < 3 {
        Some((array + 1, 0))
    } else {
        None
    }
}

/// The search never leaves the safe routes: each array keeps four WGPs or more.
pub proof fn localize_stays_safe(array: int, wgp: int)
    requires
        0 <= array < 4,
        0 <= wgp < 5,
    ensures
        !curoute::empty_somewhere(all_but(array, wgp)),
        forall|i: int| 0 <= i < 4 ==> curoute::wgps(#[trigger] all_but(array, wgp)[i]) >= 4,
{
    reveal_with_fuel(crate::cu::ones, 6);
    let m = all_but(array, wgp);
    assert forall|i: int| 0 <= i < 4 implies curoute::wgps(#[trigger] m[i]) >= 4 && curoute::routed(
        m[i],
    ) != 0 by {
        assert((0x1fu32 >> 0) & 1 == 1 && (0x1fu32 >> 1) & 1 == 1 && (0x1fu32 >> 2) & 1 == 1 && (
        0x1fu32 >> 3) & 1 == 1 && (0x1fu32 >> 4) & 1 == 1) by (bit_vector);
        assert((0x1eu32 >> 1) & 1 == 1 && (0x1eu32 >> 2) & 1 == 1 && (0x1eu32 >> 3) & 1 == 1 && (
        0x1eu32 >> 4) & 1 == 1) by (bit_vector);
        assert((0x1du32 >> 0) & 1 == 1 && (0x1du32 >> 2) & 1 == 1 && (0x1du32 >> 3) & 1 == 1 && (
        0x1du32 >> 4) & 1 == 1) by (bit_vector);
        assert((0x1bu32 >> 0) & 1 == 1 && (0x1bu32 >> 1) & 1 == 1 && (0x1bu32 >> 3) & 1 == 1 && (
        0x1bu32 >> 4) & 1 == 1) by (bit_vector);
        assert((0x17u32 >> 0) & 1 == 1 && (0x17u32 >> 1) & 1 == 1 && (0x17u32 >> 2) & 1 == 1 && (
        0x17u32 >> 4) & 1 == 1) by (bit_vector);
        assert((0x0fu32 >> 0) & 1 == 1 && (0x0fu32 >> 1) & 1 == 1 && (0x0fu32 >> 2) & 1 == 1 && (
        0x0fu32 >> 3) & 1 == 1) by (bit_vector);
    }
}

/// The device under test is told by one of two words of its upper-case name.
pub proof fn device_is_told_by_its_name(before: Seq<char>, behind: Seq<char>)
    ensures
        text::upper(before + "BC-250"@ + behind) == before + "BC-250"@ + behind ==> is_device(
            before + "BC-250"@ + behind,
        ),
        text::upper(before + "GFX1013"@ + behind) == before + "GFX1013"@ + behind ==> is_device(
            before + "GFX1013"@ + behind,
        ),
{
    text::part_occurs(before, "BC-250"@, behind);
    text::part_occurs(before, "GFX1013"@, behind);
}

/// A hung run has no throughput, and before the first run nothing is the best: any
/// run within the hour is better.
pub proof fn hung_run_has_no_throughput(elapsed_ns: u64, scale: int, share: int)
    ensures
        throughput(elapsed_ns, true, scale, share) == 0,
        fresh_bench().runs == 0,
        fresh_bench().mismatches == 0,
        fresh_bench().best_ns == 3_600_000_000_000,
{
}

/// The masks are shown in order, two digits each.
pub proof fn masks_are_shown_in_order(m: Seq<u32>)
    requires
        m.len() == 4,
    ensures
        masks_text(m) == "["@ + text::joined(
            Seq::new(4, |i: int| text::hex_pad(m[i] as nat, 2)),
            ", "@,
        ) + "]"@,
{
    reveal_with_fuel(text::joined, 4);
    let v = Seq::new(4, |i: int| text::hex_pad(m[i] as nat, 2));
    assert(v.drop_last() =~= seq![v[0], v[1], v[2]]);
    assert(v.drop_last().drop_last() =~= seq![v[0], v[1]]);
    assert(v.drop_last().drop_last().drop_last() =~= seq![v[0]]);
    assert(masks_text(m) =~= "["@ + text::joined(v, ", "@) + "]"@);
}

/// A run that took no time counts as one of a nanosecond.
pub proof fn no_run_is_shorter_than_a_nanosecond(scale: int, share: int)
    ensures
        billions(0) == billions(1),
        throughput(0, false, scale, share) == throughput(1, false, scale, share),
{
}

} // verus!
