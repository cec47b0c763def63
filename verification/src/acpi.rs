//! The tables that give the unlocked cores their idle states.
use vstd::prelude::*;

use crate::text;

verus! {

/// The number of CPUs without idle states: those whose directory cannot be read
/// or is empty. `entries` holds the number of entries of each one's directory.
pub open spec fn idle_less(entries: Seq<Option<usize>>) -> nat
    decreases entries.len(),
{
    if entries.len() == 0 {
        0
    } else {
        idle_less(entries.drop_last()) + match entries.last() {
            Some(n) if n > 0 => 0nat,
            _ => 1nat,
        }
    }
}

/// The number of CPUs without idle states.
pub fn cpus_without_idle(entries: &Vec<Option<usize>>) -> (r: usize)
    ensures
        r == idle_less(entries@),
{
    let mut n: usize = 0;
    let mut i: usize = 0;
    while i < entries.len()
        invariant
            n <= i <= entries@.len(),
            n == idle_less(entries@.take(i as int)),
        decreases entries@.len() - i,
    {
        assert(entries@.take(i + 1).drop_last() =~= entries@.take(i as int));
        let some: bool = match entries[i] {
            Some(k) => k > 0,
            None => false,
        };
        if !some {
            n += 1;
        }
        i += 1;
    }
    assert(entries@.take(i as int) =~= entries@);
    n
}

/// The report on the tables: threads, CPUs without idle states, objects of the
/// installed table (`None` where none is installed), and a hint where the
/// threads of the unlocked cores lack idle states.
pub open spec fn status_lines(threads: u32, no_idle: nat, objects: Option<usize>) -> Seq<Seq<char>> {
    let facts = seq![
        "logical threads: "@ + text::dec(threads as nat),
        "cpus without idle states: "@ + text::dec(no_idle),
        "installed CST processor objects: "@ + (match objects {
            Some(n) => text::dec(n as nat) + " (override installed)"@,
            None => text::dec(0) + " (none installed)"@,
        }),
    ];
    if no_idle > 0 && threads > 12 {
        facts.push(
            "hint: threads 12-15 lack C-states — 'aputune cores acpi install' fixes this"@,
        )
    } else {
        facts
    }
}

/// The report on the tables.
pub fn acpi_status(threads: u32, no_idle: usize, objects: Option<usize>) -> (r: Vec<String>)
    ensures
        text::texts(r@) == status_lines(threads, no_idle as nat, objects),
{
    let mut r: Vec<String> = Vec::new();
    r.push(text::join2("logical threads: ", text::decimal(threads as u64).as_str()));
    r.push(text::join2("cpus without idle states: ", text::decimal(no_idle as u64).as_str()));
    match objects {
        Some(n) => r.push(
            text::join3(
                "installed CST processor objects: ",
                text::decimal(n as u64).as_str(),
                " (override installed)",
            ),
        ),
        None => r.push(
            text::join3(
                "installed CST processor objects: ",
                text::decimal(0).as_str(),
                " (none installed)",
            ),
        ),
    }
    if no_idle > 0 && threads > 12 {
        r.push(
            "hint: threads 12-15 lack C-states — 'aputune cores acpi install' fixes this".to_owned(),
        );
    }
    proof {
        let want = status_lines(threads, no_idle as nat, objects);
        let got = text::texts(r@);
        assert(got[2] =~= want[2]);
        assert(got =~= want);
    }
    r
}

/// What becomes of an installed table.
#[derive(Clone, Copy, Debug, PartialEq, Eq, Structural)]
pub enum TableStep {
    /// Put its backup back.
    Restore,
    /// Remove it.
    Remove,
}

/// What becomes of the installed tables, and the line that reports it: a table
/// with a backup is restored, another one removed. `backups` says which tables
/// have one.
pub fn acpi_revert(backups: &Vec<bool>) -> (r: (Vec<TableStep>, &'static str))
    ensures
        r.0@.len() == backups@.len(),
        forall|i: int|
            0 <= i < backups@.len() ==> #[trigger] r.0@[i] == if backups@[i] {
                TableStep::Restore
            } else {
                TableStep::Remove
            },
        r.1@ == if exists|i: int| 0 <= i < backups@.len() && #[trigger] backups@[i] {
            "restored previous tables"@
        } else {
            "no backup found — override tables removed"@
        },
{
    let mut steps: Vec<TableStep> = Vec::new();
    let mut any: bool = false;
    let mut i: usize = 0;
    while i < backups.len()
        invariant
            i <= backups@.len(),
            steps@.len() == i,
            forall|j: int|
                0 <= j < i ==> #[trigger] steps@[j] == if backups@[j] {
                    TableStep::Restore
                } else {
                    TableStep::Remove
                },
            any == exists|j: int| 0 <= j < i && #[trigger] backups@[j],
        decreases backups@.len() - i,
    {
        if backups[i] {
            assert(backups@[i as int]);
            any = true;
            steps.push(TableStep::Restore);
        } else {
            steps.push(TableStep::Remove);
        }
        i += 1;
    }
    if any {
        (steps, "restored previous tables")
    } else {
        (steps, "no backup found — override tables removed")
    }
}

/// A CPU counts as one without idle states exactly where its directory cannot be
/// read or is empty.
pub proof fn idle_less_cpus_are_counted(entries: Seq<Option<usize>>, e: Option<usize>)
    ensures
        idle_less(Seq::<Option<usize>>::empty()) == 0,
        e is None || e->0 == 0 ==> idle_less(entries.push(e)) == idle_less(entries) + 1,
        e is Some && e->0 > 0 ==> idle_less(entries.push(e)) == idle_less(entries),
{
    assert(entries.push(e).drop_last() =~= entries);
}

/// The hint comes exactly where CPUs lack idle states on a machine with more
/// than twelve threads.
pub proof fn hint_is_for_the_unlocked(threads: u32, no_idle: nat, objects: Option<usize>)
    ensures
        status_lines(threads, no_idle, objects).len() == (if no_idle > 0 && threads > 12 {
            4int
        } else {
            3
        }),
{
}

} // verus!
