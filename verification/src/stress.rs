//! Judging a stability run: every block of work on every thread must give the
//! reference checksum, and the die must stay under the temperature ceiling.
use vstd::prelude::*;

use crate::double::Double;

verus! {

/// Outcome of a stability run.
#[derive(Clone, Copy, Debug, PartialEq, Eq, Structural)]
pub struct StressResult {
    /// Every block on every thread matched the reference, with no thermal abort.
    pub stable: bool,
    /// The run was cut short by the temperature ceiling.
    pub thermal_abort: bool,
    /// Highest junction temperature seen, in thousandths of a degree; 0 where
    /// none was readable.
    pub max_temp_mc: Double,
    /// Blocks completed over all threads.
    pub blocks: u64,
}

/// What the sampling side of a run has seen.
#[derive(Clone, Copy, Debug, PartialEq, Eq, Structural)]
pub struct ThermalWatch {
    pub max_temp_mc: Double,
    pub thermal_abort: bool,
}

/// A ceiling in degrees, in thousandths of one.
pub open spec fn ceiling_of(c: u32) -> Double {
    Double::Finite { negative: false, mant: (c * 1000) as u64, exp: 0 }
}

impl ThermalWatch {
    /// What has been seen after one more reading.
    pub open spec fn watched(self, temp_mc: Option<Double>, ceiling_c: u32) -> ThermalWatch {
        match temp_mc {
            None => self,
            Some(t) => ThermalWatch {
                max_temp_mc: self.max_temp_mc.greater(t),
                thermal_abort: self.thermal_abort || t.not_less(ceiling_of(ceiling_c)),
            },
        }
    }

    /// The outcome of a run.
    pub open spec fn result(self, mismatch: bool, blocks: u64) -> StressResult {
        StressResult {
            stable: !mismatch && !self.thermal_abort,
            thermal_abort: self.thermal_abort,
            max_temp_mc: self.max_temp_mc,
            blocks,
        }
    }

    /// Before the first reading.
    pub fn new() -> (r: ThermalWatch)
        ensures
            r == (ThermalWatch { max_temp_mc: Double::small(0), thermal_abort: false }),
    {
        ThermalWatch { max_temp_mc: Double::from_u32(0), thermal_abort: false }
    }

    /// Takes one reading (`None` where the sensor was unreadable). Returns
    /// whether the run has to stop: the reading is at the ceiling or above.
    pub fn sample(&mut self, temp_mc: Option<Double>, ceiling_c: u32) -> (stop: bool)
        ensures
            stop == (temp_mc is Some && temp_mc->0.not_less(ceiling_of(ceiling_c))),
            final(self).thermal_abort == (old(self).thermal_abort || stop),
            temp_mc is None ==> final(self).max_temp_mc == old(self).max_temp_mc,
            temp_mc is Some ==> final(self).max_temp_mc == old(self).max_temp_mc.greater(
                temp_mc->0,
            ),
            *final(self) == old(self).watched(temp_mc, ceiling_c),
    {
        match temp_mc {
            Some(t) => {
                self.max_temp_mc = self.max_temp_mc.max(t);
                let ceiling = Double::Finite {
                    negative: false,
                    mant: ceiling_c as u64 * 1000,
                    exp: 0,
                };
                if t.reaches(ceiling) {
                    self.thermal_abort = true;
                    true
                } else {
                    false
                }
            },
            None => false,
        }
    }

    /// The outcome once the threads are done. `mismatch` says whether any
    /// block missed the reference checksum.
    pub fn finish(self, mismatch: bool, blocks: u64) -> (r: StressResult)
        ensures
            r == (StressResult {
                stable: !mismatch && !self.thermal_abort,
                thermal_abort: self.thermal_abort,
                max_temp_mc: self.max_temp_mc,
                blocks,
            }),
            r == self.result(mismatch, blocks),
    {
        StressResult {
            stable: !mismatch && !self.thermal_abort,
            thermal_abort: self.thermal_abort,
            max_temp_mc: self.max_temp_mc,
            blocks,
        }
    }
}

/// Worker threads of a run: at least one.
pub fn worker_count(threads: usize) -> (r: usize)
    ensures
        r == (if threads == 0 { 1 } else { threads as int }),
{
    if threads == 0 {
        1
    } else {
        threads
    }
}

// ---------------------------------------------------------------------------
// Laws

/// What has been seen after readings in thousandths of a degree.
pub open spec fn watched_all(w: ThermalWatch, readings: Seq<u32>, ceiling_c: u32) -> ThermalWatch
    decreases readings.len(),
{
    if readings.len() == 0 {
        w
    } else {
        watched_all(w, readings.drop_last(), ceiling_c).watched(
            Some(Double::small(readings.last())),
            ceiling_c,
        )
    }
}

/// A run is stable exactly where no block missed the reference and every
/// reading stayed under the ceiling; the temperature reported is one of the
/// readings and no reading is above it.
pub proof fn stable_run_stayed_cool(readings: Seq<u32>, ceiling_c: u32, mismatch: bool, blocks: u64)
    requires
        readings.len() > 0,
    ensures
        ({
            let start = ThermalWatch { max_temp_mc: Double::small(0), thermal_abort: false };
            let r = watched_all(start, readings, ceiling_c).result(mismatch, blocks);
            &&& r.stable <==> !mismatch && forall|i: int|
                0 <= i < readings.len() ==> #[trigger] readings[i] < 1000 * ceiling_c
            &&& r.thermal_abort <==> exists|i: int|
                0 <= i < readings.len() && #[trigger] readings[i] >= 1000 * ceiling_c
            &&& r.blocks == blocks
            &&& exists|i: int|
                0 <= i < readings.len() && r.max_temp_mc == Double::small(#[trigger] readings[i])
            &&& r.max_temp_mc matches Double::Finite { negative, mant, exp } && forall|i: int|
                0 <= i < readings.len() ==> #[trigger] readings[i] <= mant
        }),
{
    let start = ThermalWatch { max_temp_mc: Double::small(0), thermal_abort: false };
    seen_so_far(readings, ceiling_c);
    let w = watched_all(start, readings, ceiling_c);
    if w.max_temp_mc == Double::small(0) {
        assert(w.max_temp_mc == Double::small(readings[0]));
    }
}

proof fn seen_so_far(readings: Seq<u32>, ceiling_c: u32)
    ensures
        ({
            let start = ThermalWatch { max_temp_mc: Double::small(0), thermal_abort: false };
            let w = watched_all(start, readings, ceiling_c);
            &&& w.thermal_abort <==> exists|i: int|
                0 <= i < readings.len() && #[trigger] readings[i] >= 1000 * ceiling_c
            &&& w.max_temp_mc == Double::small(0) || exists|i: int|
                0 <= i < readings.len() && w.max_temp_mc == Double::small(#[trigger] readings[i])
            &&& w.max_temp_mc matches Double::Finite { negative, mant, exp } && !negative && exp
                == 0 && forall|i: int| 0 <= i < readings.len() ==> #[trigger] readings[i] <= mant
        }),
    decreases readings.len(),
{
    if readings.len() > 0 {
        let front = readings.drop_last();
        let n = front.len() as int;
        seen_so_far(front, ceiling_c);
        assert(forall|i: int| 0 <= i < n ==> front[i] == #[trigger] readings[i]);
        assert(readings[n] == readings.last());
        assert(crate::double::two(0) == 1);
        let start = ThermalWatch { max_temp_mc: Double::small(0), thermal_abort: false };
        let before = watched_all(start, front, ceiling_c);
        let w = watched_all(start, readings, ceiling_c);
        if before.thermal_abort {
            let i = choose|i: int| 0 <= i < n && #[trigger] front[i] >= 1000 * ceiling_c;
            assert(readings[i] >= 1000 * ceiling_c);
        }
        if w.max_temp_mc == before.max_temp_mc {
            if before.max_temp_mc != Double::small(0) {
                let i = choose|i: int|
                    0 <= i < n && before.max_temp_mc == Double::small(#[trigger] front[i]);
                assert(w.max_temp_mc == Double::small(readings[i]));
            }
        } else {
            assert(w.max_temp_mc == Double::small(readings[n]));
        }
    }
}

} // verus!
