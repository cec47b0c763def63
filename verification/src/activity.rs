//! Activity of the logical CPUs, from the kernel's time counters.
use vstd::prelude::*;

use crate::double;
use crate::text;

verus! {

/// The numbers among words.
pub open spec fn word_numbers(words: Seq<Seq<char>>) -> Seq<u64>
    decreases words.len(),
{
    if words.len() == 0 {
        seq![]
    } else {
        let before = word_numbers(words.drop_last());
        match text::number(words.last(), 10, u64::MAX as int) {
            Some(v) => before.push(v as u64),
            None => before,
        }
    }
}

/// The sum of numbers.
pub open spec fn total_of(v: Seq<u64>) -> int
    decreases v.len(),
{
    if v.len() == 0 {
        0
    } else {
        total_of(v.drop_last()) + v.last()
    }
}

/// A line of a single CPU's times: `cpu` and a digit.
pub open spec fn is_cpu_line(line: Seq<char>) -> bool {
    text::begins(line, "cpu"@) && line.len() > 3 && 48 <= text::code(line[3]) <= 57
}

/// Idle and total time of a CPU line: the fourth and fifth number, and the sum
/// of all; none where there are fewer than four.
pub open spec fn cpu_times(line: Seq<char>) -> Option<(int, int)> {
    let w = text::words_of(line);
    let v = word_numbers(if w.len() > 0 { w.drop_first() } else { w });
    if is_cpu_line(line) && v.len() >= 4 {
        Some((v[3] + (if v.len() > 4 { v[4] as int } else { 0 }), total_of(v)))
    } else {
        None
    }
}

/// Idle and total times of all CPUs.
pub open spec fn jiffies(lines: Seq<Seq<char>>) -> Seq<(int, int)>
    decreases lines.len(),
{
    if lines.len() == 0 {
        seq![]
    } else {
        let before = jiffies(lines.drop_last());
        match cpu_times(lines.last()) {
            Some(t) => before.push(t),
            None => before,
        }
    }
}

/// Times that a counter of the machine can hold.
pub open spec fn times_fit(lines: Seq<Seq<char>>) -> bool {
    forall|i: int|
        0 <= i < lines.len() ==> (cpu_times(#[trigger] lines[i]) matches Some((idle, total))
            ==> idle <= u64::MAX && total <= u64::MAX)
}

fn numbers_after_first(w: &Vec<&str>) -> (r: Vec<u64>)
    ensures
        ({
            let s = text::slices(w@);
            r@ == word_numbers(if s.len() > 0 { s.drop_first() } else { s })
        }),
{
    let ghost s = text::slices(w@);
    let ghost rest = if s.len() > 0 { s.drop_first() } else { s };
    let mut r: Vec<u64> = Vec::new();
    let mut i: usize = 1;
    assert(r@ =~= word_numbers(rest.take(0)));
    while i < w.len()
        invariant
            1 <= i,
            s == text::slices(w@),
            rest == (if s.len() > 0 { s.drop_first() } else { s }),
            i <= w@.len() || w@.len() == 0,
            w@.len() > 0 ==> r@ == word_numbers(rest.take(i - 1)),
            w@.len() == 0 ==> r@.len() == 0,
        decreases w@.len() - i,
    {
        assert(rest.take(i as int).drop_last() =~= rest.take(i - 1));
        assert(rest[i - 1] == w@[i as int]@);
        match text::parse_number(w[i], 10, u64::MAX) {
            Some(v) => {
                r.push(v);
            },
            None => {},
        }
        i += 1;
    }
    proof {
        if w@.len() > 0 {
            assert(rest.take(i - 1) =~= rest);
        } else {
            assert(rest =~= seq![]);
            assert(r@ =~= seq![]);
        }
    }
    r
}

fn sum_saturating(v: &Vec<u64>) -> (r: Option<u64>)
    ensures
        match r {
            Some(t) => t == total_of(v@),
            None => total_of(v@) > u64::MAX,
        },
{
    let mut sum: u64 = 0;
    let mut i: usize = 0;
    while i < v.len()
        invariant
            i <= v@.len(),
            sum == total_of(v@.take(i as int)),
        decreases v@.len() - i,
    {
        assert(v@.take(i + 1).drop_last() =~= v@.take(i as int));
        match sum.checked_add(v[i]) {
            Some(next) => {
                sum = next;
            },
            None => {
                proof {
                    totals_grow(v@, i + 1);
                }
                return None;
            },
        }
        i += 1;
    }
    assert(v@.take(i as int) =~= v@);
    Some(sum)
}

proof fn totals_grow(v: Seq<u64>, n: int)
    requires
        0 <= n <= v.len(),
    ensures
        total_of(v.take(n)) <= total_of(v),
    decreases v.len() - n,
{
    if n == v.len() {
        assert(v.take(n) =~= v);
    } else {
        assert(v.take(n + 1).drop_last() =~= v.take(n));
        totals_grow(v, n + 1);
    }
}

/// Idle and total times of all CPUs, as the machine counts them.
pub open spec fn times_view(v: Seq<(u64, u64)>) -> Seq<(int, int)> {
    Seq::new(v.len(), |i: int| (v[i].0 as int, v[i].1 as int))
}

/// Idle and total time of every CPU, from the kernel's activity table; `None`
/// where a sum does not fit.
pub fn read_cpu_jiffies(stat: &str) -> (r: Option<Vec<(u64, u64)>>)
    ensures
        r is Some <==> times_fit(text::lines_of(stat@)),
        r is Some ==> times_view((r->0)@) == jiffies(text::lines_of(stat@)),
{
    let lines = text::lines(stat);
    let ghost all = text::lines_of(stat@);
    let mut out: Vec<(u64, u64)> = Vec::new();
    let mut i: usize = 0;
    assert(times_view(out@) =~= jiffies(all.take(0)));
    while i < lines.len()
        invariant
            i <= lines@.len(),
            all == text::lines_of(stat@),
            text::slices(lines@) == all,
            all.len() == lines@.len(),
            forall|j: int|
                0 <= j < i ==> (cpu_times(#[trigger] all[j]) matches Some((idle, total)) ==> idle
                    <= u64::MAX && total <= u64::MAX),
            times_view(out@) == jiffies(all.take(i as int)),
        decreases lines@.len() - i,
    {
        assert(all.take(i + 1).drop_last() =~= all.take(i as int));
        let l: &str = lines[i];
        assert(l@ == all[i as int]);
        match line_times(l) {
            LineTimes::Times(idle, total) => {
                let ghost before = times_view(out@);
                out.push((idle, total));
                assert(times_view(out@) =~= before.push((idle as int, total as int)));
            },
            LineTimes::Skip => {},
            LineTimes::TooLarge => {
                assert(!times_fit(all)) by {
                    assert(cpu_times(all[i as int]) is Some);
                }
                return None;
            },
        }
        i += 1;
    }
    assert(all.take(i as int) =~= all);
    Some(out)
}

enum LineTimes {
    Skip,
    Times(u64, u64),
    TooLarge,
}

fn line_times(l: &str) -> (r: LineTimes)
    ensures
        match r {
            LineTimes::Skip => cpu_times(l@) is None,
            LineTimes::Times(idle, total) => cpu_times(l@) == Some((idle as int, total as int)),
            LineTimes::TooLarge => cpu_times(l@) matches Some((idle, total)) && (idle > u64::MAX
                || total > u64::MAX),
        },
{
    let n: usize = l.unicode_len();
    if !text::starts_with(l, "cpu") || n <= 3 {
        return LineTimes::Skip;
    }
    let k: u32 = l.get_char(3) as u32;
    if k < 48 || k > 57 {
        return LineTimes::Skip;
    }
    let w = text::words(l);
    let v = numbers_after_first(&w);
    if v.len() < 4 {
        return LineTimes::Skip;
    }
    let wait: u64 = if v.len() > 4 {
        v[4]
    } else {
        0
    };
    match (v[3].checked_add(wait), sum_saturating(&v)) {
        (Some(idle), Some(total)) => LineTimes::Times(idle, total),
        _ => LineTimes::TooLarge,
    }
}

/// A part in whole percent, in double precision: the quotient, a hundred times
/// that, each rounded, and then the nearest whole, a half upwards, no more than
/// 100.
pub open spec fn percent(part: int, whole: int) -> int {
    let q = double::over(double::nearest(part, 1), double::nearest(whole, 1));
    let hundred = double::scaled(double::nearest(100 * q.mant, 1), q.exp);
    let up = double::half_up(hundred);
    if up > 100 { 100 } else { up }
}

/// Two readings between which what was idle is part of the whole, or no time
/// went by.
pub open spec fn consistent(prev: (u64, u64), now: (u64, u64)) -> bool {
    let dt = crate::dpm::since(now.1 as int, prev.1 as int);
    let di = crate::dpm::since(now.0 as int, prev.0 as int);
    dt == 0 || di <= dt
}

/// Activity of a CPU in percent between two readings.
pub open spec fn activity(prev: (u64, u64), now: (u64, u64)) -> int {
    let dt = crate::dpm::since(now.1 as int, prev.1 as int);
    let di = crate::dpm::since(now.0 as int, prev.0 as int);
    if dt == 0 { 0 } else { percent(dt - di, dt) }
}

/// The CPUs that are in both of two readings.
pub open spec fn in_both(prev: Seq<(u64, u64)>, now: Seq<(u64, u64)>) -> nat {
    if prev.len() < now.len() { prev.len() } else { now.len() }
}

/// Activity of the CPUs in percent between two readings of idle and total time,
/// as far as both go.
pub fn cpu_util_pct(prev: &Vec<(u64, u64)>, now: &Vec<(u64, u64)>) -> (r: Vec<u8>)
    requires
        forall|i: int| 0 <= i < in_both(prev@, now@) ==> consistent(prev@[i], #[trigger] now@[i]),
    ensures
        r@.len() == in_both(prev@, now@),
        forall|i: int| 0 <= i < r@.len() ==> #[trigger] r@[i] == activity(prev@[i], now@[i]),
{
    let mut r: Vec<u8> = Vec::new();
    let mut i: usize = 0;
    while i < now.len() && i < prev.len()
        invariant
            i <= in_both(prev@, now@),
            forall|k: int|
                0 <= k < in_both(prev@, now@) ==> consistent(prev@[k], #[trigger] now@[k]),
            r@.len() == i,
            forall|k: int| 0 <= k < i ==> #[trigger] r@[k] == activity(prev@[k], now@[k]),
        decreases now@.len() - i,
    {
        assert(consistent(prev@[i as int], now@[i as int]));
        let dt: u64 = now[i].1.saturating_sub(prev[i].1);
        let di: u64 = now[i].0.saturating_sub(prev[i].0);
        if dt == 0 {
            r.push(0);
        } else {
            r.push(whole_percent(dt - di, dt));
        }
        i += 1;
    }
    r
}

fn whole_percent(part: u64, whole: u64) -> (r: u8)
    requires
        whole > 0,
    ensures
        r == percent(part as int, whole as int),
        r <= 100,
{
    let q = double::quotient(double::divide(part as u128, 1), double::divide(whole as u128, 1));
    let h = double::divide(100 * (q.mant as u128), 1);
    double::up_to_hundred(double::Binary { mant: h.mant, exp: h.exp + q.exp })
}

// ---------------------------------------------------------------------------
// Laws

/// The numbers of words are found one word at a time: a word that is a number
/// gives it, any other gives nothing.
pub proof fn numbers_come_word_by_word(words: Seq<Seq<char>>, word: Seq<char>)
    ensures
        word_numbers(seq![]) == Seq::<u64>::empty(),
        text::number(word, 10, u64::MAX as int) is None ==> word_numbers(words.push(word))
            == word_numbers(words),
        text::number(word, 10, u64::MAX as int) matches Some(v) ==> word_numbers(words.push(word))
            == word_numbers(words).push(v as u64),
{
    assert(words.push(word).drop_last() =~= words);
}

/// The table is read line by line: a line of one CPU gives its times, any other
/// gives nothing.
pub proof fn table_is_read_line_by_line(lines: Seq<Seq<char>>, line: Seq<char>)
    ensures
        jiffies(seq![]) == Seq::<(int, int)>::empty(),
        cpu_times(line) is None ==> jiffies(lines.push(line)) == jiffies(lines),
        cpu_times(line) matches Some(t) ==> jiffies(lines.push(line)) == jiffies(lines).push(t),
{
    assert(lines.push(line).drop_last() =~= lines);
}

/// A line of one CPU is told by the digit behind `cpu`; the line of all of them
/// together has none.
pub proof fn digit_tells_a_cpu(rest: Seq<char>)
    requires
        rest.len() > 0,
    ensures
        is_cpu_line("cpu"@ + rest) <==> 48 <= text::code(rest[0]) <= 57,
        !is_cpu_line("cpu"@),
{
    reveal_strlit("cpu");
    let line = "cpu"@ + rest;
    assert(line.subrange(0, 3) =~= "cpu"@);
    assert(line[3] == rest[0]);
}

/// The numbers of a line behind its first word.
pub open spec fn line_numbers(line: Seq<char>) -> Seq<u64> {
    let w = text::words_of(line);
    word_numbers(if w.len() > 0 { w.drop_first() } else { w })
}

/// Of two lines that differ in one number, the total differs by as much; the
/// idle time does so too where it is the fourth number or the fifth, and else
/// is the same.
pub proof fn idle_is_the_fourth_and_fifth(a: Seq<char>, b: Seq<char>, k: int)
    requires
        is_cpu_line(a),
        is_cpu_line(b),
        line_numbers(a).len() >= 4,
        line_numbers(b).len() == line_numbers(a).len(),
        0 <= k < line_numbers(a).len(),
        forall|i: int|
            0 <= i < line_numbers(a).len() && i != k ==> #[trigger] line_numbers(b)[i]
                == line_numbers(a)[i],
    ensures
        cpu_times(a) is Some && cpu_times(b) is Some,
        ({
            let step = line_numbers(b)[k] - line_numbers(a)[k];
            let before = cpu_times(a)->0;
            let now = cpu_times(b)->0;
            &&& now.1 - before.1 == step
            &&& k == 3 || k == 4 ==> now.0 - before.0 == step
            &&& k != 3 && k != 4 ==> now.0 == before.0
        }),
{
    let v = line_numbers(a);
    let w = line_numbers(b);
    assert(w =~= v.update(k, w[k]));
    total_of_updated(v, k, w[k]);
}

proof fn total_of_updated(v: Seq<u64>, k: int, x: u64)
    requires
        0 <= k < v.len(),
    ensures
        total_of(v.update(k, x)) == total_of(v) + x - v[k],
    decreases v.len(),
{
    if k == v.len() - 1 {
        assert(v.update(k, x).drop_last() =~= v.drop_last());
    } else {
        assert(v.update(k, x).drop_last() =~= v.drop_last().update(k, x));
        total_of_updated(v.drop_last(), k, x);
    }
}

/// The times of a line without any time are none, and fewer than four numbers
/// give no times.
pub proof fn times_start_at_none(line: Seq<char>)
    requires
        is_cpu_line(line),
    ensures
        line_numbers(line).len() < 4 <==> cpu_times(line) is None,
        cpu_times(line) is Some && (forall|i: int|
            0 <= i < line_numbers(line).len() ==> #[trigger] line_numbers(line)[i] == 0)
            ==> cpu_times(line) == Some((0int, 0int)),
{
    if cpu_times(line) is Some && (forall|i: int|
        0 <= i < line_numbers(line).len() ==> #[trigger] line_numbers(line)[i] == 0) {
        total_of_nothing(line_numbers(line));
    }
}

proof fn total_of_nothing(v: Seq<u64>)
    requires
        forall|i: int| 0 <= i < v.len() ==> #[trigger] v[i] == 0,
    ensures
        total_of(v) == 0,
    decreases v.len(),
{
    if v.len() > 0 {
        assert forall|i: int| 0 <= i < v.len() - 1 implies #[trigger] v.drop_last()[i] == 0 by {
            assert(v.drop_last()[i] == v[i]);
        }
        total_of_nothing(v.drop_last());
    }
}

/// A CPU is not active at all where no time went by or all of it was idle, and
/// no CPU is more active than wholly.
pub proof fn idle_cpu_is_at_nought(prev: (u64, u64), now: (u64, u64))
    requires
        consistent(prev, now),
    ensures
        activity(prev, now) <= 100,
        now.1 <= prev.1 ==> activity(prev, now) == 0,
        now.1 >= prev.1 && now.0 >= prev.0 && now.1 - prev.1 == now.0 - prev.0 ==> activity(
            prev,
            now,
        ) == 0,
{
    assert(percent(0, now.1 - prev.1) == 0) by {
        double::some_powers();
        assert(double::two(0) == 1);
        assert(double::nearest(0, 1) == double::whole(0));
        assert(double::half_up(double::scaled(double::nearest(0, 1), 0)) == 0);
    }
}

/// The CPUs of a result are those of both readings.
pub proof fn shorter_reading_counts(prev: Seq<(u64, u64)>, now: Seq<(u64, u64)>)
    ensures
        in_both(prev, now) <= prev.len(),
        in_both(prev, now) <= now.len(),
        in_both(prev, now) == prev.len() || in_both(prev, now) == now.len(),
{
}

/// Counters that run forward, the idle time no faster than the total, are
/// consistent, and so are any between which no time went by.
pub proof fn forward_counters_are_consistent(prev: (u64, u64), now: (u64, u64))
    ensures
        prev.0 <= now.0 && prev.1 <= now.1 && now.0 - prev.0 <= now.1 - prev.1 ==> consistent(
            prev,
            now,
        ),
        now.1 <= prev.1 ==> consistent(prev, now),
        prev.0 <= now.0 && prev.1 < now.1 && now.0 - prev.0 > now.1 - prev.1 ==> !consistent(
            prev,
            now,
        ),
{
}

} // verus!
