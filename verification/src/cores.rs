//! The eight-core unlock and the live control of single cores.
//!
//! The firmware's core mask takes effect at the next warm reboot and is written
//! as a whole. Below it, the system takes threads offline and online one by one.
//! Nothing here reboots by itself, and no saved verdict gates anything.
use vstd::prelude::*;

use crate::ocq3::{CORE_MASK_FULL, CORE_MASK_STOCK};
use crate::sorted;
use crate::text;

verus! {

pub const UNIT_NAME: &'static str = "aputune-cores.service";
pub const UNIT_PATH: &'static str = "/etc/systemd/system/aputune-cores.service";
pub const REBOOT_MODE_PATH: &'static str = "/sys/kernel/reboot/mode";
pub const ACPI_OVERRIDE_DIR: &'static str = "/etc/initcpio/acpi_override";
pub const ACPI_BACKUP_DIR: &'static str = "/etc/initcpio/acpi_override-backups";
pub const MKINITCPIO_CONF: &'static str = "/etc/mkinitcpio.conf";
pub const REPORT_DIR: &'static str = "/var/lib/aputune";

/// The boot unit.
pub const UNIT_TEXT: &'static str =
    "[Unit]\nDescription=BC-250 8-core unlock (SMU msg 0x98)\nAfter=multi-user.target\nConditionPathExists=/sys/bus/pci/devices/0000:00:00.0/config\n\n[Service]\nType=oneshot\nRemainAfterExit=yes\nExecStart=/usr/local/bin/arieltune apu cores boot\n\n[Install]\nWantedBy=multi-user.target\n";

// ---------------------------------------------------------------------------
// State

/// State of the cores, from live readings only.
#[derive(Clone, Copy, Debug, PartialEq, Eq, Structural)]
pub enum CoreState {
    /// Stock mask.
    Locked,
    /// Full mask, and fewer than eight cores visible.
    PendingReboot,
    /// Full mask and eight cores visible.
    Unlocked,
    /// Any other mask.
    Abnormal(u8),
}

impl CoreState {
    /// The state in a word.
    pub open spec fn word(self) -> Seq<char> {
        match self {
            CoreState::Locked => "LOCKED"@,
            CoreState::PendingReboot => "PENDING-REBOOT"@,
            CoreState::Unlocked => "UNLOCKED"@,
            CoreState::Abnormal(_) => "ABNORMAL"@,
        }
    }

    /// The state in a word.
    pub fn label(self) -> (r: &'static str)
        ensures
            r@ == self.word(),
    {
        match self {
            CoreState::Locked => "LOCKED",
            CoreState::PendingReboot => "PENDING-REBOOT",
            CoreState::Unlocked => "UNLOCKED",
            CoreState::Abnormal(_) => "ABNORMAL",
        }
    }
}

/// The state of a mask and a number of visible cores.
pub open spec fn state_of(mask: u8, visible: int) -> CoreState {
    if mask == CORE_MASK_STOCK {
        CoreState::Locked
    } else if mask != CORE_MASK_FULL {
        CoreState::Abnormal(mask)
    } else if visible >= 8 {
        CoreState::Unlocked
    } else {
        CoreState::PendingReboot
    }
}

/// The state of a mask and a number of visible cores.
pub fn state_for(mask: u8, visible_cores: u32) -> (r: CoreState)
    ensures
        r == state_of(mask, visible_cores as int),
{
    if mask == CORE_MASK_STOCK {
        CoreState::Locked
    } else if mask == CORE_MASK_FULL {
        if visible_cores >= 8 {
            CoreState::Unlocked
        } else {
            CoreState::PendingReboot
        }
    } else {
        CoreState::Abnormal(mask)
    }
}

/// Numbers below `n` whose bit in a mask is set, or those whose bit is not.
pub open spec fn bits_listed(mask: u8, set: bool, n: nat) -> Seq<Seq<char>>
    decreases n,
{
    if n == 0 {
        seq![]
    } else {
        let before = bits_listed(mask, set, (n - 1) as nat);
        if ((mask >> (n - 1) as u8) & 1 == 1) == set {
            before.push(text::dec((n - 1) as nat))
        } else {
            before
        }
    }
}

/// A mask with the cores that it enables and disables.
pub open spec fn mask_text(mask: u8) -> Seq<char> {
    "0x"@ + text::hex_upper_pad(mask as nat, 2) + "  enabled=["@ + text::joined(
        bits_listed(mask, true, 8),
        " "@,
    ) + "] disabled=["@ + text::joined(bits_listed(mask, false, 8), " "@) + "]"@
}

fn list_bits(mask: u8, set: bool) -> (r: Vec<String>)
    ensures
        text::texts(r@) == bits_listed(mask, set, 8),
{
    let mut r: Vec<String> = Vec::new();
    let mut i: u8 = 0;
    assert(text::texts(r@) =~= seq![]);
    while i < 8
        invariant
            i <= 8,
            text::texts(r@) == bits_listed(mask, set, i as nat),
        decreases 8 - i,
    {
        if ((mask >> i) & 1 == 1) == set {
            let t = text::decimal(i as u64);
            proof {
                text::texts_push(r@, t);
            }
            r.push(t);
        }
        i += 1;
    }
    r
}

/// A mask with the cores that it enables and disables.
pub fn describe_mask(mask: u8) -> (r: String)
    ensures
        r@ == mask_text(mask),
{
    let mut r = text::join3(
        "0x",
        text::hexadecimal_upper_padded(mask as u64, 2).as_str(),
        "  enabled=[",
    );
    r.append(text::join(&list_bits(mask, true), " ").as_str());
    r.append("] disabled=[");
    r.append(text::join(&list_bits(mask, false), " ").as_str());
    r.append("]");
    r
}

// ---------------------------------------------------------------------------
// Topology

/// The numbers of the names that are `cpu` and a number.
pub open spec fn cpu_numbers(names: Seq<String>) -> Seq<u32>
    decreases names.len(),
{
    if names.len() == 0 {
        seq![]
    } else {
        let before = cpu_numbers(names.drop_last());
        match cpu_number(names.last()@) {
            Some(n) => before.push(n as u32),
            None => before,
        }
    }
}

/// The number behind `cpu`.
pub open spec fn cpu_number(name: Seq<char>) -> Option<int> {
    if text::begins(name, "cpu"@) {
        text::number(text::after(name, 3), 10, u32::MAX as int)
    } else {
        None
    }
}

/// The logical CPUs among the entries of the CPU directory, rising. An offline
/// CPU keeps its entry.
pub fn cpu_dirs(names: &Vec<String>) -> (r: Vec<u32>)
    ensures
        sorted::rising(r@),
        r@.to_multiset() == cpu_numbers(names@).to_multiset(),
{
    let mut r: Vec<u32> = Vec::new();
    let mut i: usize = 0;
    proof {
        reveal_strlit("cpu");
        assert(r@ =~= cpu_numbers(names@.take(0)));
    }
    while i < names.len()
        invariant
            i <= names@.len(),
            "cpu"@.len() == 3,
            sorted::rising(r@),
            r@.to_multiset() == cpu_numbers(names@.take(i as int)).to_multiset(),
        decreases names@.len() - i,
    {
        assert(names@.take(i + 1).drop_last() =~= names@.take(i as int));
        let ghost before = cpu_numbers(names@.take(i as int));
        if let Some(n) = text::strip_prefix(names[i].as_str(), "cpu") {
            if let Some(cpu) = text::parse_u32(n) {
                sorted::insert_rising(&mut r, cpu);
                proof {
                    broadcast use vstd::seq_lib::group_to_multiset_ensures;

                    assert(before.push(cpu).to_multiset() =~= before.to_multiset().insert(cpu));
                }
            }
        }
        i += 1;
    }
    assert(names@.take(i as int) =~= names@);
    r
}

/// A logical CPU as the system shows it. An offline one has no core id.
#[derive(Clone, Copy, Debug, PartialEq, Eq, Structural)]
pub struct LogicalCpu {
    pub cpu: u32,
    pub core_id: Option<u32>,
    pub online: bool,
}

/// Whether a CPU is online, from its node: absent where it cannot be taken
/// offline, `Some(None)` where it cannot be read.
pub fn cpu_is_online(node: Option<Option<&str>>) -> (r: bool)
    ensures
        r == (match node {
            Some(Some(t)) => text::trimmed(t@) != "0"@,
            _ => true,
        }),
{
    match node {
        Some(inner) => match inner {
            Some(t) => !text::same(text::trim(t), "0"),
            None => true,
        },
        None => true,
    }
}

/// The core id that a CPU itself shows.
pub open spec fn own_core(all: Seq<LogicalCpu>, cpu: u32) -> Option<u32>
    decreases all.len(),
{
    if all.len() == 0 {
        None
    } else if all[0].cpu == cpu {
        all[0].core_id
    } else {
        own_core(all.drop_first(), cpu)
    }
}

/// The other thread of a CPU's core.
pub open spec fn sibling(cpu: u32) -> u32 {
    if cpu % 2 == 0 { (cpu + 1) as u32 } else { (cpu - 1) as u32 }
}

/// The core of a CPU: its own core id, else its sibling's, else half its number.
pub open spec fn core_of_cpu(all: Seq<LogicalCpu>, cpu: u32) -> u32 {
    match own_core(all, cpu) {
        Some(c) => c,
        None => match own_core(all, sibling(cpu)) {
            Some(c) => c,
            None => cpu / 2,
        },
    }
}

fn read_core(all: &Vec<LogicalCpu>, cpu: u32) -> (r: Option<u32>)
    ensures
        r == own_core(all@, cpu),
{
    let mut i: usize = 0;
    assert(all@.skip(0) =~= all@);
    while i < all.len()
        invariant
            i <= all@.len(),
            own_core(all@.skip(i as int), cpu) == own_core(all@, cpu),
        decreases all@.len() - i,
    {
        assert(all@.skip(i as int).drop_first() =~= all@.skip(i + 1));
        let c: LogicalCpu = all[i];
        if c.cpu == cpu {
            return c.core_id;
        }
        i += 1;
    }
    None
}

/// The core of a CPU; one that is offline stays grouped with its sibling.
pub fn core_of(all: &Vec<LogicalCpu>, cpu: u32) -> (r: u32)
    ensures
        r == core_of_cpu(all@, cpu),
{
    if let Some(c) = read_core(all, cpu) {
        return c;
    }
    let other: u32 = if cpu % 2 == 0 {
        cpu + 1
    } else {
        cpu - 1
    };
    if let Some(c) = read_core(all, other) {
        return c;
    }
    cpu / 2
}

/// The cores of the first `n` CPUs.
pub open spec fn cores_among(all: Seq<LogicalCpu>, n: int) -> Set<u32> {
    Set::new(
        |c: u32| exists|i: int| 0 <= i < n && core_of_cpu(all, (#[trigger] all[i]).cpu) == c,
    )
}

/// The cores, rising.
fn core_list(all: &Vec<LogicalCpu>) -> (r: Vec<u32>)
    ensures
        sorted::ascending(r@),
        r@.to_set() == cores_among(all@, all@.len() as int),
{
    let mut r: Vec<u32> = Vec::new();
    let mut i: usize = 0;
    assert(r@.to_set() =~= cores_among(all@, 0));
    while i < all.len()
        invariant
            i <= all@.len(),
            sorted::ascending(r@),
            r@.to_set() == cores_among(all@, i as int),
        decreases all@.len() - i,
    {
        let c: u32 = core_of(all, all[i].cpu);
        let ghost before = r@.to_set();
        sorted::insert(&mut r, c);
        assert(before.insert(c) =~= cores_among(all@, i + 1)) by {
            assert(core_of_cpu(all@, all@[i as int].cpu) == c);
        }
        i += 1;
    }
    r
}

/// The threads of a core among the first `n` CPUs, each with whether it is
/// online, in order.
pub open spec fn threads_of(all: Seq<LogicalCpu>, core: u32, n: nat) -> Seq<(u32, bool)>
    decreases n,
{
    if n == 0 {
        seq![]
    } else {
        let c = all[n - 1];
        let before = threads_of(all, core, (n - 1) as nat);
        if core_of_cpu(all, c.cpu) == core { before.push((c.cpu, c.online)) } else { before }
    }
}

/// The cores of a list, with their threads.
pub open spec fn grouped(all: Seq<LogicalCpu>, groups: Seq<(u32, Vec<(u32, bool)>)>) -> bool {
    &&& forall|i: int, j: int| 0 <= i < j < groups.len() ==> groups[i].0 < groups[j].0
    &&& forall|c: u32|
        cores_among(all, all.len() as int).contains(c) <==> exists|k: int|
            0 <= k < groups.len() && (#[trigger] groups[k]).0 == c
    &&& forall|k: int|
        0 <= k < groups.len() ==> (#[trigger] groups[k]).1@ == threads_of(
            all,
            groups[k].0,
            all.len(),
        )
}

/// The cores, rising, each with its threads in the order of the CPUs. Every CPU
/// is in it, so an offline core stays visible.
pub fn core_threads(all: &Vec<LogicalCpu>) -> (r: Vec<(u32, Vec<(u32, bool)>)>)
    ensures
        grouped(all@, r@),
        r@.len() <= all@.len(),
{
    let cores = core_list(all);
    let mut r: Vec<(u32, Vec<(u32, bool)>)> = Vec::new();
    let mut k: usize = 0;
    while k < cores.len()
        invariant
            k <= cores@.len(),
            sorted::ascending(cores@),
            r@.len() == k,
            forall|j: int| 0 <= j < k ==> (#[trigger] r@[j]).0 == cores@[j],
            forall|j: int|
                0 <= j < k ==> (#[trigger] r@[j]).1@ == threads_of(all@, r@[j].0, all@.len()),
        decreases cores@.len() - k,
    {
        let core: u32 = cores[k];
        let mut v: Vec<(u32, bool)> = Vec::new();
        let mut i: usize = 0;
        assert(v@ =~= seq![]);
        while i < all.len()
            invariant
                i <= all@.len(),
                v@ == threads_of(all@, core, i as nat),
            decreases all@.len() - i,
        {
            let c: LogicalCpu = all[i];
            if core_of(all, c.cpu) == core {
                v.push((c.cpu, c.online));
            }
            i += 1;
        }
        r.push((core, v));
        k += 1;
    }
    proof {
        assert forall|c: u32|
            cores_among(all@, all@.len() as int).contains(c) <==> exists|k: int|
                0 <= k < r@.len() && (#[trigger] r@[k]).0 == c by {
            assert(cores@.to_set().contains(c) <==> cores@.contains(c));
            if cores@.contains(c) {
                let k = choose|k: int| 0 <= k < cores@.len() && cores@[k] == c;
                assert(r@[k].0 == c);
            }
            if exists|k: int| 0 <= k < r@.len() && (#[trigger] r@[k]).0 == c {
                let k = choose|k: int| 0 <= k < r@.len() && (#[trigger] r@[k]).0 == c;
                assert(cores@[k] == c);
            }
        }
        few_cores(all@, cores@);
    }
    r
}

/// There are no more cores than CPUs.
proof fn few_cores(all: Seq<LogicalCpu>, cores: Seq<u32>)
    requires
        sorted::ascending(cores),
        cores.to_set() == cores_among(all, all.len() as int),
    ensures
        cores.len() <= all.len(),
{
    let names = all.map_values(|c: LogicalCpu| core_of_cpu(all, c.cpu));
    assert(cores.no_duplicates());
    cores.unique_seq_to_set();
    assert(cores.to_set() =~= names.to_set()) by {
        assert forall|c: u32| cores.to_set().contains(c) <==> names.to_set().contains(c) by {
            if cores.to_set().contains(c) {
                let i = choose|i: int|
                    0 <= i < all.len() && core_of_cpu(all, (#[trigger] all[i]).cpu) == c;
                assert(names[i] == c);
            }
            if names.contains(c) {
                let i = choose|i: int| 0 <= i < names.len() && names[i] == c;
                assert(core_of_cpu(all, all[i].cpu) == c);
            }
        }
    }
    names.lemma_cardinality_of_set();
}

/// The first CPU of a core.
pub open spec fn first_cpu(all: Seq<LogicalCpu>, core: u32, cpu: u32) -> bool {
    exists|i: int|
        0 <= i < all.len() && (#[trigger] all[i]).cpu == cpu && core_of_cpu(all, cpu) == core
            && forall|j: int| 0 <= j < i ==> core_of_cpu(all, (#[trigger] all[j]).cpu) != core
}

/// The cores, rising, each with its first CPU.
pub fn core_map(all: &Vec<LogicalCpu>) -> (r: Vec<(u32, u32)>)
    ensures
        forall|i: int, j: int| 0 <= i < j < r@.len() ==> r@[i].0 < r@[j].0,
        forall|c: u32|
            cores_among(all@, all@.len() as int).contains(c) <==> exists|k: int|
                0 <= k < r@.len() && (#[trigger] r@[k]).0 == c,
        forall|k: int| 0 <= k < r@.len() ==> first_cpu(all@, (#[trigger] r@[k]).0, r@[k].1),
{
    let cores = core_list(all);
    let mut r: Vec<(u32, u32)> = Vec::new();
    let mut k: usize = 0;
    while k < cores.len()
        invariant
            k <= cores@.len(),
            sorted::ascending(cores@),
            cores@.to_set() == cores_among(all@, all@.len() as int),
            r@.len() == k,
            forall|j: int| 0 <= j < k ==> (#[trigger] r@[j]).0 == cores@[j],
            forall|j: int| 0 <= j < k ==> first_cpu(all@, (#[trigger] r@[j]).0, r@[j].1),
        decreases cores@.len() - k,
    {
        let core: u32 = cores[k];
        assert(cores@.to_set().contains(core));
        let mut i: usize = 0;
        while i < all.len() && core_of(all, all[i].cpu) != core
            invariant
                i <= all@.len(),
                forall|j: int| 0 <= j < i ==> core_of_cpu(all@, (#[trigger] all@[j]).cpu) != core,
            decreases all@.len() - i,
        {
            i += 1;
        }
        if i < all.len() {
            assert(first_cpu(all@, core, all@[i as int].cpu));
            r.push((core, all[i].cpu));
        } else {
            assert(false) by {
                let w = choose|w: int|
                    0 <= w < all@.len() && core_of_cpu(all@, (#[trigger] all@[w]).cpu) == core;
                assert(core_of_cpu(all@, all@[w].cpu) != core);
            }
        }
        k += 1;
    }
    proof {
        assert forall|c: u32|
            cores_among(all@, all@.len() as int).contains(c) <==> exists|k: int|
                0 <= k < r@.len() && (#[trigger] r@[k]).0 == c by {
            assert(cores@.to_set().contains(c) <==> cores@.contains(c));
            if cores@.contains(c) {
                let k = choose|k: int| 0 <= k < cores@.len() && cores@[k] == c;
                assert(r@[k].0 == c);
            }
            if exists|k: int| 0 <= k < r@.len() && (#[trigger] r@[k]).0 == c {
                let k = choose|k: int| 0 <= k < r@.len() && (#[trigger] r@[k]).0 == c;
                assert(cores@[k] == c);
            }
        }
    }
    r
}

/// Number of offline CPUs.
pub open spec fn offline_count(all: Seq<LogicalCpu>) -> nat
    decreases all.len(),
{
    if all.len() == 0 {
        0
    } else {
        offline_count(all.drop_last()) + (if all.last().online { 0nat } else { 1nat })
    }
}

/// All threads, and those that are offline.
pub fn thread_counts(all: &Vec<LogicalCpu>) -> (r: (u32, u32))
    requires
        all@.len() <= u32::MAX,
    ensures
        r.0 == all@.len(),
        r.1 == offline_count(all@),
{
    let mut off: u32 = 0;
    let mut i: usize = 0;
    while i < all.len()
        invariant
            i <= all@.len() <= u32::MAX,
            off <= i,
            off == offline_count(all@.take(i as int)),
        decreases all@.len() - i,
    {
        assert(all@.take(i + 1).drop_last() =~= all@.take(i as int));
        if !all[i].online {
            off += 1;
        }
        i += 1;
    }
    assert(all@.take(i as int) =~= all@);
    (all.len() as u32, off)
}

/// Everything read at once about the cores.
#[derive(Debug)]
pub struct CoreSnapshot {
    pub state: CoreState,
    pub mask: u8,
    pub cores: u32,
    pub threads: u32,
    pub offline: u32,
    /// Cores, rising, each with its threads and whether they are online.
    pub per_core: Vec<(u32, Vec<(u32, bool)>)>,
}

/// The snapshot of a mask and the logical CPUs.
pub fn snapshot(mask: u8, all: &Vec<LogicalCpu>) -> (r: CoreSnapshot)
    requires
        all@.len() <= u32::MAX,
    ensures
        r.mask == mask,
        grouped(all@, r.per_core@),
        r.cores == r.per_core@.len(),
        r.threads == all@.len(),
        r.offline == offline_count(all@),
        r.state == state_of(mask, r.cores as int),
{
    let per_core = core_threads(all);
    let cores: u32 = per_core.len() as u32;
    let (threads, offline) = thread_counts(all);
    CoreSnapshot { state: state_for(mask, cores), mask, cores, threads, offline, per_core }
}

// ---------------------------------------------------------------------------
// Reports

/// A line of the kernel log about a machine check.
pub open spec fn is_mce(line: Seq<char>) -> bool {
    text::occurs(line, "Machine Check Exception"@) || (text::occurs(line, "mce:"@) && (
    text::occurs(line, "error"@) || text::occurs(line, "corrected"@)))
}

/// Number of lines about machine checks.
pub open spec fn mce_lines(lines: Seq<Seq<char>>) -> nat
    decreases lines.len(),
{
    if lines.len() == 0 {
        0
    } else {
        mce_lines(lines.drop_last()) + (if is_mce(lines.last()) { 1nat } else { 0nat })
    }
}

/// Number of lines of the kernel log about machine checks.
pub fn mce_count(log: &str) -> (r: usize)
    ensures
        r == mce_lines(text::lines_of(log@)),
{
    let lines = text::lines(log);
    let ghost all = text::lines_of(log@);
    let mut n: usize = 0;
    let mut i: usize = 0;
    while i < lines.len()
        invariant
            i <= lines@.len(),
            text::slices(lines@) == all,
            all.len() == lines@.len(),
            n <= i,
            n == mce_lines(all.take(i as int)),
        decreases lines@.len() - i,
    {
        assert(all.take(i + 1).drop_last() =~= all.take(i as int));
        let l: &str = lines[i];
        assert(l@ == all[i as int]);
        if text::contains(l, "Machine Check Exception") || (text::contains(l, "mce:") && (
        text::contains(l, "error") || text::contains(l, "corrected"))) {
            n += 1;
        }
        i += 1;
    }
    assert(all.take(i as int) =~= all);
    n
}

/// What a state means for the operator.
pub open spec fn state_advice(s: CoreState) -> Seq<char> {
    match s {
        CoreState::Locked =>
            "stock 6 cores / 12 threads — run 'aputune cores apply' to unlock"@,
        CoreState::Unlocked => "all 8 cores / 16 threads active"@,
        CoreState::PendingReboot =>
            "mask is set but the firmware has not re-enumerated yet — warm reboot needed"@,
        CoreState::Abnormal(m) => "unknown mask 0x"@ + text::hex_upper_pad(m as nat, 2)
            + " — all writes are refused"@,
    }
}

/// The status report.
pub open spec fn status_of(s: CoreSnapshot, mce: nat, installed: bool) -> Seq<Seq<char>> {
    seq![
        "SMN 0x115A870 = "@ + mask_text(s.mask),
        "state: "@ + s.state.word(),
        state_advice(s.state),
        "cores visible to this kernel: "@ + text::dec(s.cores as nat) + " ("@ + text::dec(
            s.threads as nat,
        ) + " threads, "@ + text::dec(s.offline as nat) + " offline)"@,
        "MCE entries in dmesg: "@ + text::dec(mce),
        "boot unit: "@ + (if installed { "installed"@ } else { "not installed"@ }),
        "state="@ + s.state.word(),
    ]
}

/// The status report.
pub fn status(s: &CoreSnapshot, mce: usize, installed: bool) -> (r: Vec<String>)
    ensures
        text::texts(r@) == status_of(*s, mce as nat, installed),
{
    let mut r: Vec<String> = Vec::new();
    r.push(text::join2("SMN 0x115A870 = ", describe_mask(s.mask).as_str()));
    r.push(text::join2("state: ", s.state.label()));
    let advice: String = match s.state {
        CoreState::Locked => {
            "stock 6 cores / 12 threads — run 'aputune cores apply' to unlock".to_owned()
        },
        CoreState::Unlocked => "all 8 cores / 16 threads active".to_owned(),
        CoreState::PendingReboot => {
            "mask is set but the firmware has not re-enumerated yet — warm reboot needed".to_owned()
        },
        CoreState::Abnormal(m) => text::join3(
            "unknown mask 0x",
            text::hexadecimal_upper_padded(m as u64, 2).as_str(),
            " — all writes are refused",
        ),
    };
    r.push(advice);
    let mut l = text::join3(
        "cores visible to this kernel: ",
        text::decimal(s.cores as u64).as_str(),
        " (",
    );
    l.append(text::decimal(s.threads as u64).as_str());
    l.append(" threads, ");
    l.append(text::decimal(s.offline as u64).as_str());
    l.append(" offline)");
    r.push(l);
    r.push(text::join2("MCE entries in dmesg: ", text::decimal(mce as u64).as_str()));
    r.push(
        text::join2(
            "boot unit: ",
            if installed {
                "installed"
            } else {
                "not installed"
            },
        ),
    );
    r.push(text::join2("state=", s.state.label()));
    assert(text::texts(r@) =~= status_of(*s, mce as nat, installed));
    r
}

/// What the boot unit does about a mask. It never reboots, and a mask that it
/// does not know is left alone.
#[derive(Clone, Copy, Debug, PartialEq, Eq, Structural)]
pub enum BootStep {
    AlreadyUnlocked,
    LeaveAlone { mask: u8 },
    Unlock,
}

/// What the boot unit does about a mask.
pub open spec fn booted(mask: u8) -> BootStep {
    if mask == CORE_MASK_FULL {
        BootStep::AlreadyUnlocked
    } else if mask == CORE_MASK_STOCK {
        BootStep::Unlock
    } else {
        BootStep::LeaveAlone { mask }
    }
}

/// What the boot unit does about a mask.
pub fn boot(mask: u8) -> (r: BootStep)
    ensures
        r == booted(mask),
{
    if mask == CORE_MASK_FULL {
        BootStep::AlreadyUnlocked
    } else if mask != CORE_MASK_STOCK {
        BootStep::LeaveAlone { mask }
    } else {
        BootStep::Unlock
    }
}

// ---------------------------------------------------------------------------
// Threads offline and online

/// Why a core operation is refused.
#[derive(Clone, Copy, Debug, PartialEq, Eq, Structural)]
pub enum CoresError {
    /// The core has no threads.
    NoCpus { core: u32 },
    /// The first CPU cannot be taken offline.
    Cpu0,
    /// The boot configuration has no line of hooks.
    NoHooks,
}

impl CoresError {
    /// The message shown to the operator.
    pub open spec fn text(&self) -> Seq<char> {
        match self {
            CoresError::NoCpus { core } => "core "@ + text::dec(*core as nat)
                + " has no known logical CPUs"@,
            CoresError::Cpu0 =>
                "refusing to offline cpu0 (core 0) — the kernel cannot offline cpu0"@,
            CoresError::NoHooks => "no HOOKS= line in /etc/mkinitcpio.conf"@,
        }
    }

    /// The message shown to the operator.
    pub fn message(&self) -> (r: String)
        ensures
            r@ == self.text(),
    {
        match self {
            CoresError::NoCpus { core } => text::join3(
                "core ",
                text::decimal(*core as u64).as_str(),
                " has no known logical CPUs",
            ),
            CoresError::Cpu0 => {
                "refusing to offline cpu0 (core 0) — the kernel cannot offline cpu0".to_owned()
            },
            CoresError::NoHooks => "no HOOKS= line in /etc/mkinitcpio.conf".to_owned(),
        }
    }
}

/// The numbers of a core's threads.
pub open spec fn thread_numbers(threads: Seq<(u32, bool)>) -> Seq<u32> {
    threads.map_values(|t: (u32, bool)| t.0)
}

/// The CPUs of a core: its threads or, where the core is not listed, the pair
/// that it has by its number.
pub open spec fn cpus_of(groups: Seq<(u32, Vec<(u32, bool)>)>, core: u32) -> Seq<u32>
    decreases groups.len(),
{
    if groups.len() == 0 {
        seq![(2 * core) as u32, (2 * core + 1) as u32]
    } else if groups[0].0 == core {
        thread_numbers(groups[0].1@)
    } else {
        cpus_of(groups.drop_first(), core)
    }
}

/// The CPUs whose node is to be written for a core to go online or offline. The
/// first CPU is never taken offline.
pub fn set_core_online(groups: &Vec<(u32, Vec<(u32, bool)>)>, core: u32, online: bool) -> (r:
    Result<Vec<u32>, CoresError>)
    requires
        core <= 0x7FFF_FFFF || exists|i: int|
            0 <= i < groups@.len() && (#[trigger] groups@[i]).0 == core,
    ensures
        ({
            let cpus = cpus_of(groups@, core);
            if cpus.len() == 0 {
                r == Err::<Vec<u32>, CoresError>(CoresError::NoCpus { core })
            } else if !online && cpus.contains(0) {
                r == Err::<Vec<u32>, CoresError>(CoresError::Cpu0)
            } else {
                r is Ok && (r->Ok_0)@ == cpus
            }
        }),
{
    let mut cpus: Vec<u32> = Vec::new();
    let mut found: bool = false;
    let mut i: usize = 0;
    assert(groups@.skip(0) =~= groups@);
    while i < groups.len() && !found
        invariant
            i <= groups@.len(),
            !found ==> cpus_of(groups@.skip(i as int), core) == cpus_of(groups@, core),
            !found ==> cpus@.len() == 0,
            !found ==> forall|k: int| 0 <= k < i ==> (#[trigger] groups@[k]).0 != core,
            found ==> cpus@ == cpus_of(groups@, core),
        decreases groups@.len() - i,
    {
        assert(groups@.skip(i as int).drop_first() =~= groups@.skip(i + 1));
        if groups[i].0 == core {
            let threads = &groups[i].1;
            let mut j: usize = 0;
            while j < threads.len()
                invariant
                    j <= threads@.len(),
                    cpus@ == thread_numbers(threads@.take(j as int)),
                decreases threads@.len() - j,
            {
                cpus.push(threads[j].0);
                j += 1;
                assert(cpus@ =~= thread_numbers(threads@.take(j as int)));
            }
            assert(threads@.take(j as int) =~= threads@);
            found = true;
        }
        i += 1;
    }
    if !found {
        cpus.push(2 * core);
        cpus.push(2 * core + 1);
        assert(cpus@ =~= seq![(2 * core) as u32, (2 * core + 1) as u32]);
    }
    if cpus.len() == 0 {
        return Err(CoresError::NoCpus { core });
    }
    if !online {
        let mut j: usize = 0;
        while j < cpus.len()
            invariant
                j <= cpus@.len(),
                cpus@ == cpus_of(groups@, core),
                cpus@.len() > 0,
                !online,
                forall|k: int| 0 <= k < j ==> #[trigger] cpus@[k] != 0,
            decreases cpus@.len() - j,
        {
            if cpus[j] == 0 {
                assert(cpus@.contains(0));
                return Err(CoresError::Cpu0);
            }
            j += 1;
        }
    }
    Ok(cpus)
}

/// The CPUs that are taken offline together: all but the first.
pub open spec fn all_but_first(cpus: Seq<u32>) -> Seq<u32>
    decreases cpus.len(),
{
    if cpus.len() == 0 {
        seq![]
    } else if cpus.last() == 0 {
        all_but_first(cpus.drop_last())
    } else {
        all_but_first(cpus.drop_last()).push(cpus.last())
    }
}

/// The CPUs whose node is to be written for all cores but the first to go
/// offline.
pub fn offline(cpus: &Vec<u32>) -> (r: Vec<u32>)
    ensures
        r@ == all_but_first(cpus@),
{
    let mut r: Vec<u32> = Vec::new();
    let mut i: usize = 0;
    while i < cpus.len()
        invariant
            i <= cpus@.len(),
            r@ == all_but_first(cpus@.take(i as int)),
        decreases cpus@.len() - i,
    {
        assert(cpus@.take(i + 1).drop_last() =~= cpus@.take(i as int));
        if cpus[i] != 0 {
            r.push(cpus[i]);
        }
        i += 1;
    }
    assert(cpus@.take(i as int) =~= cpus@);
    r
}

/// The line that reports a core's change.
pub fn core_line(core: u32, online: bool, threads: u32, offline: u32) -> (r: String)
    ensures
        r@ == "core "@ + text::dec(core as nat) + " "@ + (if online {
            "online"@
        } else {
            "offline"@
        }) + " — now "@ + text::dec(threads as nat) + " threads visible, "@ + text::dec(
            offline as nat,
        ) + " offline"@,
{
    let mut r = text::join3("core ", text::decimal(core as u64).as_str(), " ");
    if online {
        r.append("online");
    } else {
        r.append("offline");
    }
    r.append(" — now ");
    r.append(text::decimal(threads as u64).as_str());
    r.append(" threads visible, ");
    r.append(text::decimal(offline as u64).as_str());
    r.append(" offline");
    r
}

/// The first CPU is never among those that go offline.
pub proof fn cpu0_stays_online(cpus: Seq<u32>)
    ensures
        !all_but_first(cpus).contains(0),
    decreases cpus.len(),
{
    if cpus.len() > 0 {
        cpu0_stays_online(cpus.drop_last());
        let p = all_but_first(cpus.drop_last());
        let r = all_but_first(cpus);
        assert forall|i: int| 0 <= i < r.len() implies r[i] != 0 by {
            if i < p.len() {
                assert(p[i] == r[i]);
                assert(p.contains(p[i]));
            }
        }
    }
}

// ---------------------------------------------------------------------------
// The advisory sweep

/// The seventh word of the first line of a stress report that has one and begins
/// with `cpu`.
pub open spec fn rate_field(lines: Seq<Seq<char>>) -> Option<Seq<char>>
    decreases lines.len(),
{
    if lines.len() == 0 {
        None
    } else {
        let w = text::words_of(lines[0]);
        if w.len() >= 7 && w[0] == "cpu"@ { Some(w[6]) } else { rate_field(lines.drop_first()) }
    }
}

/// The rate in a stress report, as it is printed.
pub fn stress_rate(report: &str) -> (r: Option<String>)
    ensures
        match r {
            Some(t) => rate_field(text::lines_of(report@)) == Some(t@),
            None => rate_field(text::lines_of(report@)) is None,
        },
{
    let lines = text::lines(report);
    let ghost all = text::lines_of(report@);
    let mut i: usize = 0;
    assert(all.skip(0) =~= all);
    while i < lines.len()
        invariant
            i <= lines@.len(),
            all == text::lines_of(report@),
            text::slices(lines@) == all,
            all.len() == lines@.len(),
            rate_field(all.skip(i as int)) == rate_field(all),
        decreases lines@.len() - i,
    {
        assert(all.skip(i as int).drop_first() =~= all.skip(i + 1));
        let l: &str = lines[i];
        assert(l@ == all[i as int]);
        let w = text::words(l);
        assert(w@.len() == text::slices(w@).len());
        if w.len() >= 7 {
            assert(w@[0]@ == text::slices(w@)[0]);
            assert(w@[6]@ == text::slices(w@)[6]);
            if text::same(w[0], "cpu") {
                return Some(w[6].to_owned());
            }
        }
        i += 1;
    }
    None
}

/// The number in the first line that begins with a tag and a colon; absent where
/// its first word is no number.
pub open spec fn tag_number(lines: Seq<Seq<char>>, tag: Seq<char>) -> Option<int>
    decreases lines.len(),
{
    if lines.len() == 0 {
        None
    } else if text::begins(lines[0], tag + ":"@) {
        let w = text::words_of(text::after(lines[0], (tag + ":"@).len() as int));
        if w.len() > 0 { text::number(w[0], 10, u64::MAX as int) } else { None }
    } else {
        tag_number(lines.drop_first(), tag)
    }
}

/// The number behind a tag in a stress report.
pub fn stress_count(report: &str, tag: &str) -> (r: Option<u64>)
    ensures
        r is Some <==> tag_number(text::lines_of(report@), tag@) is Some,
        r is Some ==> tag_number(text::lines_of(report@), tag@) == Some(r->0 as int),
{
    let lines = text::lines(report);
    let ghost all = text::lines_of(report@);
    let mark = text::join2(tag, ":");
    let mut i: usize = 0;
    assert(all.skip(0) =~= all);
    while i < lines.len()
        invariant
            i <= lines@.len(),
            all == text::lines_of(report@),
            text::slices(lines@) == all,
            all.len() == lines@.len(),
            mark@ == tag@ + ":"@,
            tag_number(all.skip(i as int), tag@) == tag_number(all, tag@),
        decreases lines@.len() - i,
    {
        assert(all.skip(i as int).drop_first() =~= all.skip(i + 1));
        let l: &str = lines[i];
        assert(l@ == all[i as int]);
        match text::strip_prefix(l, mark.as_str()) {
            Some(rest) => {
                let w = text::words(rest);
                assert(w@.len() == text::slices(w@).len());
                if w.len() > 0 {
                    assert(w@[0]@ == text::slices(w@)[0]);
                    return text::parse_number(w[0], 10, u64::MAX);
                }
                return None;
            },
            None => {},
        }
        i += 1;
    }
    None
}

/// A core that the unlock adds.
pub open spec fn is_new_core(core: u32) -> bool {
    core == 3 || core == 7
}

/// A count, or a question mark.
pub open spec fn count_text(n: Option<u64>) -> Seq<char> {
    match n {
        Some(v) => text::dec(v as nat),
        None => "?"@,
    }
}

fn count_or_mark(n: Option<u64>) -> (r: String)
    ensures
        r@ == count_text(n),
{
    match n {
        Some(v) => text::decimal(v),
        None => "?".to_owned(),
    }
}

/// The row of a core in the sweep's report. `rate` is the rate as printed.
pub fn sweep_row(
    core: u32,
    cpu: u32,
    rate: Option<&str>,
    passed: Option<u64>,
    failed: Option<u64>,
) -> (r: String)
    ensures
        r@ == text::pad_right(text::dec(core as nat), ' ', 4) + " "@ + text::pad_right(
            text::dec(cpu as nat),
            ' ',
            4,
        ) + " "@ + text::pad_left(
            match rate {
                Some(t) => t@,
                None => "?"@,
            },
            ' ',
            12,
        ) + " "@ + text::pad_left(count_text(passed), ' ', 8) + " "@ + text::pad_left(
            count_text(failed),
            ' ',
            7,
        ) + "  "@ + (if is_new_core(core) {
            "NEW"@
        } else {
            ""@
        }),
{
    let mut r = text::padded_right(text::decimal(core as u64).as_str(), ' ', 4);
    r.append(" ");
    r.append(text::padded_right(text::decimal(cpu as u64).as_str(), ' ', 4).as_str());
    r.append(" ");
    match rate {
        Some(t) => {
            r.append(text::padded_left(t, ' ', 12).as_str());
        },
        None => {
            r.append(text::padded_left("?", ' ', 12).as_str());
        },
    }
    r.append(" ");
    r.append(text::padded_left(count_or_mark(passed).as_str(), ' ', 8).as_str());
    r.append(" ");
    r.append(text::padded_left(count_or_mark(failed).as_str(), ' ', 7).as_str());
    r.append("  ");
    if core == 3 || core == 7 {
        r.append("NEW");
    } else {
        r.append("");
    }
    r
}

/// The head of the sweep's report.
pub fn sweep_header(seconds: u64, cores: usize) -> (r: Vec<String>)
    ensures
        text::texts(r@) == seq![
            "per-core sweep ("@ + text::dec(seconds as nat)
                + "s each, 1 thread pinned per physical core) on "@ + text::dec(cores as nat)
                + " cores"@,
            "core  cpu  bogo-ops/s     passed failed  note"@,
        ],
{
    let mut first = text::join3(
        "per-core sweep (",
        text::decimal(seconds).as_str(),
        "s each, 1 thread pinned per physical core) on ",
    );
    first.append(text::decimal(cores as u64).as_str());
    first.append(" cores");
    let mut r: Vec<String> = Vec::new();
    r.push(first);
    r.push("core  cpu  bogo-ops/s     passed failed  note".to_owned());
    assert(text::texts(r@) =~= seq![
        "per-core sweep ("@ + text::dec(seconds as nat)
            + "s each, 1 thread pinned per physical core) on "@ + text::dec(cores as nat)
            + " cores"@,
        "core  cpu  bogo-ops/s     passed failed  note"@,
    ]);
    r
}

/// Position `a` comes before position `b` by rising rate; where the rates are
/// equal, the one measured first does.
pub open spec fn slower(rates: Seq<i64>, a: int, b: int) -> bool {
    rates[a] < rates[b] || (rates[a] == rates[b] && a < b)
}

/// The positions of rates in rising order. The median is the one in the middle,
/// of two the upper.
pub fn by_rate(rates: &Vec<i64>) -> (r: Vec<usize>)
    ensures
        r@.len() == rates@.len(),
        forall|i: int| 0 <= i < r@.len() ==> #[trigger] r@[i] < rates@.len(),
        forall|i: int, j: int|
            0 <= i < j < r@.len() ==> slower(rates@, #[trigger] r@[i] as int, #[trigger] r@[j] as int),
{
    let mut r: Vec<usize> = Vec::new();
    let mut k: usize = 0;
    while k < rates.len()
        invariant
            k <= rates@.len(),
            r@.len() == k,
            forall|i: int| 0 <= i < r@.len() ==> #[trigger] r@[i] < k,
            forall|i: int, j: int|
                0 <= i < j < r@.len() ==> slower(
                    rates@,
                    #[trigger] r@[i] as int,
                    #[trigger] r@[j] as int,
                ),
        decreases rates@.len() - k,
    {
        let mut pos: usize = k;
        while pos > 0 && rates[r[pos - 1]] > rates[k]
            invariant
                pos <= k < rates@.len(),
                r@.len() == k,
                forall|i: int| 0 <= i < r@.len() ==> #[trigger] r@[i] < k,
                forall|i: int|
                    pos <= i < r@.len() ==> rates@[#[trigger] r@[i] as int] > rates@[k as int],
            decreases pos,
        {
            pos -= 1;
        }
        let ghost was = r@;
        r.insert(pos, k);
        proof {
            assert forall|i: int, j: int| 0 <= i < j < r@.len() implies slower(
                rates@,
                #[trigger] r@[i] as int,
                #[trigger] r@[j] as int,
            ) by {
                if j < pos {
                    assert(r@[i] == was[i] && r@[j] == was[j]);
                } else if j == pos {
                    assert(r@[i] == was[i]);
                    if i < pos - 1 {
                        assert(slower(rates@, was[i] as int, was[pos - 1] as int));
                    }
                } else if i < pos {
                    assert(r@[i] == was[i] && r@[j] == was[j - 1]);
                } else if i == pos {
                    assert(r@[j] == was[j - 1]);
                } else {
                    assert(r@[i] == was[i - 1] && r@[j] == was[j - 1]);
                }
            }
        }
        k += 1;
    }
    r
}

/// One core's failures in a sweep.
pub open spec fn failure_text(core: u32, fails: u64) -> Seq<char> {
    "core "@ + text::dec(core as nat) + ": "@ + text::dec(fails as nat)
        + " verify failures (wrong results)"@
}

/// The failures of the cores that had any.
pub open spec fn failures(results: Seq<(u32, Option<u64>)>) -> Seq<Seq<char>>
    decreases results.len(),
{
    if results.len() == 0 {
        seq![]
    } else {
        let before = failures(results.drop_last());
        match results.last().1 {
            Some(n) if n > 0 => before.push(failure_text(results.last().0, n)),
            _ => before,
        }
    }
}

/// A text behind its heading.
pub open spec fn headed(heading: Seq<char>, body: Seq<char>) -> Seq<char> {
    heading + ": "@ + body
}

/// The verdict of a sweep over the cores' failure counts. It gates nothing.
pub fn sweep_verdict(results: &Vec<(u32, Option<u64>)>) -> (r: Vec<String>)
    ensures
        ({
            let f = failures(results@);
            text::texts(r@) == (if f.len() == 0 {
                seq![
                    headed(
                        "verdict"@,
                        "no verify failures observed (advisory only — this never gates anything)"@,
                    ),
                ]
            } else {
                seq![
                    headed("verdict"@, "PROBLEMS — "@ + text::joined(f, "; "@)),
                    "  a core that fails --verify produces WRONG results. Do not use it."@,
                ]
            })
        }),
{
    let mut problems: Vec<String> = Vec::new();
    let mut i: usize = 0;
    assert(text::texts(problems@) =~= failures(results@.take(0)));
    while i < results.len()
        invariant
            i <= results@.len(),
            text::texts(problems@) == failures(results@.take(i as int)),
        decreases results@.len() - i,
    {
        assert(results@.take(i + 1).drop_last() =~= results@.take(i as int));
        if let Some(n) = results[i].1 {
            if n > 0 {
                let mut p = text::join3("core ", text::decimal(results[i].0 as u64).as_str(), ": ");
                p.append(text::decimal(n).as_str());
                p.append(" verify failures (wrong results)");
                proof {
                    text::texts_push(problems@, p);
                }
                problems.push(p);
            }
        }
        i += 1;
    }
    assert(results@.take(i as int) =~= results@);
    let ghost f = failures(results@);
    assert(f.len() == problems@.len());
    let mut r: Vec<String> = Vec::new();
    if problems.len() == 0 {
        r.push(
            text::join3(
                "verdict",
                ": ",
                "no verify failures observed (advisory only — this never gates anything)",
            ),
        );
        assert(text::texts(r@) =~= seq![
            headed(
                "verdict"@,
                "no verify failures observed (advisory only — this never gates anything)"@,
            ),
        ]);
    } else {
        let list = text::join2("PROBLEMS — ", text::join(&problems, "; ").as_str());
        r.push(text::join3("verdict", ": ", list.as_str()));
        r.push(
            "  a core that fails --verify produces WRONG results. Do not use it.".to_owned(),
        );
        assert(text::texts(r@) =~= seq![
            headed("verdict"@, "PROBLEMS — "@ + text::joined(f, "; "@)),
            "  a core that fails --verify produces WRONG results. Do not use it."@,
        ]);
    }
    r
}

// ---------------------------------------------------------------------------
// ACPI tables

/// An ASCII hexadecimal digit.
pub open spec fn is_hex(b: u8) -> bool {
    48 <= b <= 57 || 65 <= b <= 70 || 97 <= b <= 102
}

/// A processor object's name stands at `i`: `C0` and two hexadecimal digits.
pub open spec fn object_at(bytes: Seq<u8>, i: int) -> bool {
    &&& 0 <= i && i + 3 < bytes.len()
    &&& bytes[i] == 0x43 && bytes[i + 1] == 0x30
    &&& is_hex(bytes[i + 2]) && is_hex(bytes[i + 3])
}

/// The last two characters of a name, as one number.
pub open spec fn object_code(bytes: Seq<u8>, i: int) -> u32 {
    (bytes[i + 2] * 256 + bytes[i + 3]) as u32
}

/// The processor objects that begin below `n`.
pub open spec fn objects(bytes: Seq<u8>, n: int) -> Set<u32> {
    Set::new(
        |c: u32|
            exists|i: int|
                0 <= i < n && #[trigger] object_at(bytes, i) && object_code(bytes, i) == c,
    )
}

/// Number of different processor objects in a table.
pub fn cst_objects(bytes: &Vec<u8>) -> (r: usize)
    ensures
        r == objects(bytes@, bytes@.len() as int).len(),
        objects(bytes@, bytes@.len() as int).finite(),
{
    let n: usize = bytes.len();
    let mut found: Vec<u32> = Vec::new();
    let mut i: usize = 0;
    assert(found@.to_set() =~= objects(bytes@, 0));
    while i < n && n - i > 3
        invariant
            n == bytes@.len(),
            i <= n,
            sorted::ascending(found@),
            found@.to_set() == objects(bytes@, i as int),
        decreases n - i,
    {
        let a: u8 = bytes[i + 2];
        let b: u8 = bytes[i + 3];
        let ghost before = found@.to_set();
        if bytes[i] == 0x43 && bytes[i + 1] == 0x30 && hex_digit(a) && hex_digit(b) {
            let code: u32 = a as u32 * 256 + b as u32;
            assert(object_at(bytes@, i as int));
            sorted::insert(&mut found, code);
            assert(before.insert(code) =~= objects(bytes@, i + 1)) by {
                assert(object_code(bytes@, i as int) == code);
            }
        } else {
            assert(before =~= objects(bytes@, i + 1));
        }
        i += 1;
    }
    proof {
        assert(objects(bytes@, i as int) =~= objects(bytes@, n as int));
        assert(found@.no_duplicates());
        found@.unique_seq_to_set();
    }
    found.len()
}

fn hex_digit(b: u8) -> (r: bool)
    ensures
        r == is_hex(b),
{
    (48 <= b && b <= 57) || (65 <= b && b <= 70) || (97 <= b && b <= 102)
}

/// The first line of hooks.
pub open spec fn hooks_line(lines: Seq<Seq<char>>) -> Option<Seq<char>>
    decreases lines.len(),
{
    if lines.len() == 0 {
        None
    } else if text::begins(lines[0], "HOOKS="@) {
        Some(lines[0])
    } else {
        hooks_line(lines.drop_first())
    }
}

/// The hooks of a line.
pub open spec fn hooks_of(line: Seq<char>) -> Seq<Seq<char>> {
    text::words_of(
        text::strip_all_back(text::strip_all_front(text::after(line, 6), "("@), ")"@),
    )
}

/// Hooks with the override before the last one.
pub open spec fn with_override(hooks: Seq<Seq<char>>) -> Seq<Seq<char>> {
    hooks.insert(if hooks.len() == 0 { 0 } else { hooks.len() - 1 }, "acpi_override"@)
}

/// A boot configuration with the override among its hooks: unchanged where it
/// speaks of it already, else with its line of hooks rewritten.
pub open spec fn with_acpi_hook(conf: Seq<char>) -> Option<Seq<char>> {
    if text::occurs(conf, "acpi_override"@) {
        Some(conf)
    } else {
        match hooks_line(text::lines_of(conf)) {
            Some(line) => Some(
                text::replaced(
                    conf,
                    line,
                    "HOOKS=("@ + text::joined(with_override(hooks_of(line)), " "@) + ")"@,
                ),
            ),
            None => None,
        }
    }
}

proof fn hooks_line_is_one(lines: Seq<Seq<char>>) -> (k: int)
    requires
        hooks_line(lines) is Some,
    ensures
        0 <= k < lines.len(),
        hooks_line(lines) == Some(lines[k]),
        text::begins(lines[k], "HOOKS="@),
    decreases lines.len(),
{
    if text::begins(lines[0], "HOOKS="@) {
        0
    } else {
        1 + hooks_line_is_one(lines.drop_first())
    }
}

proof fn joined_holds(parts: Seq<Seq<char>>, sep: Seq<char>, k: int)
    requires
        0 <= k < parts.len(),
    ensures
        text::occurs(text::joined(parts, sep), parts[k]),
    decreases parts.len(),
{
    let all = text::joined(parts, sep);
    if parts.len() == 1 {
        assert(all.subrange(0, all.len() as int) =~= parts[0]);
        assert(text::occurs_at(all, parts[k], 0));
    } else {
        let before = text::joined(parts.drop_last(), sep);
        if k == parts.len() - 1 {
            let at = (before.len() + sep.len()) as int;
            assert(all.subrange(at, at + parts[k].len()) =~= parts[k]);
            assert(text::occurs_at(all, parts[k], at));
        } else {
            joined_holds(parts.drop_last(), sep, k);
            let i = choose|i: int| text::occurs_at(before, parts[k], i);
            assert(all.subrange(i, i + parts[k].len()) =~= before.subrange(
                i,
                i + parts[k].len(),
            ));
            assert(text::occurs_at(all, parts[k], i));
        }
    }
}

/// Where the configuration has a line of hooks, the override is among them
/// afterwards, and installing it again changes nothing.
pub proof fn hook_is_installed_once(conf: Seq<char>)
    requires
        with_acpi_hook(conf) is Some,
    ensures
        text::occurs(with_acpi_hook(conf)->0, "acpi_override"@),
        with_acpi_hook(with_acpi_hook(conf)->0) == with_acpi_hook(conf),
{
    if !text::occurs(conf, "acpi_override"@) {
        let lines = text::lines_of(conf);
        let k = hooks_line_is_one(lines);
        let line = lines[k];
        text::line_stands(conf, k);
        reveal_strlit("HOOKS=");
        let hooks = hooks_of(line);
        let more = with_override(hooks);
        let at = if hooks.len() == 0 { 0 } else { hooks.len() - 1 };
        assert(more[at] == "acpi_override"@);
        joined_holds(more, " "@, at);
        let list = text::joined(more, " "@);
        let with = "HOOKS=("@ + list + ")"@;
        let hook = "acpi_override"@;
        let i = choose|i: int| text::occurs_at(list, hook, i);
        let j = "HOOKS=("@.len() + i;
        assert(with.subrange(j, j + hook.len()) =~= list.subrange(i, i + hook.len()));
        assert(text::occurs_at(with, hook, j));
        text::replacement_stands(conf, line, with);
        let next = text::replaced(conf, line, with);
        let a = choose|a: int| text::occurs_at(next, with, a);
        assert(next.subrange(a + j, a + j + hook.len()) =~= next.subrange(
            a,
            a + with.len(),
        ).subrange(j, j + hook.len()));
        assert(text::occurs_at(next, hook, a + j));
    }
}

/// A boot configuration with the override among its hooks.
pub fn acpi_install(conf: &str) -> (r: Result<String, CoresError>)
    ensures
        match with_acpi_hook(conf@) {
            Some(c) => r is Ok && (r->Ok_0)@ == c,
            None => r == Err::<String, CoresError>(CoresError::NoHooks),
        },
{
    if text::contains(conf, "acpi_override") {
        return Ok(conf.to_owned());
    }
    let lines = text::lines(conf);
    let ghost all = text::lines_of(conf@);
    let mut i: usize = 0;
    proof {
        assert(all.skip(0) =~= all);
        reveal_strlit("HOOKS=");
    }
    while i < lines.len()
        invariant
            i <= lines@.len(),
            all == text::lines_of(conf@),
            text::slices(lines@) == all,
            all.len() == lines@.len(),
            "HOOKS="@.len() == 6,
            !text::occurs(conf@, "acpi_override"@),
            hooks_line(all.skip(i as int)) == hooks_line(all),
        decreases lines@.len() - i,
    {
        assert(all.skip(i as int).drop_first() =~= all.skip(i + 1));
        let line: &str = lines[i];
        assert(line@ == all[i as int]);
        if let Some(inner) = text::strip_prefix(line, "HOOKS=") {
            let hooks = text::words(
                text::trim_end_matches(text::trim_start_matches(inner, "("), ")"),
            );
            let list = insert_override(&hooks);
            let line_new = text::join3("HOOKS=(", text::join(&list, " ").as_str(), ")");
            return Ok(text::replace(conf, line, line_new.as_str()));
        }
        i += 1;
    }
    Err(CoresError::NoHooks)
}

fn insert_override(hooks: &Vec<&str>) -> (r: Vec<String>)
    ensures
        text::texts(r@) == with_override(text::slices(hooks@)),
{
    let n: usize = hooks.len();
    let at: usize = if n == 0 {
        0
    } else {
        n - 1
    };
    let mut r: Vec<String> = Vec::new();
    let mut i: usize = 0;
    while i < n
        invariant
            n == hooks@.len(),
            i <= n,
            r@.len() == i,
            forall|j: int| 0 <= j < i ==> (#[trigger] r@[j])@ == hooks@[j]@,
        decreases n - i,
    {
        r.push(hooks[i].to_owned());
        i += 1;
    }
    r.insert(at, "acpi_override".to_owned());
    assert(text::texts(r@) =~= with_override(text::slices(hooks@)));
    r
}

// ---------------------------------------------------------------------------
// Laws

/// The stock mask, without the cores 3 and 7, is locked; the full one is unlocked
/// with eight cores to be seen and waits for a reboot with fewer; any other is
/// abnormal. The boot unit unlocks the stock mask and no other.
pub proof fn states_of_a_mask(mask: u8, visible: int)
    ensures
        mask == 0x77 ==> state_of(mask, visible) == CoreState::Locked && booted(mask)
            == BootStep::Unlock,
        mask == 0xFF && visible >= 8 ==> state_of(mask, visible) == CoreState::Unlocked,
        mask == 0xFF && visible < 8 ==> state_of(mask, visible) == CoreState::PendingReboot,
        mask == 0xFF ==> booted(mask) == BootStep::AlreadyUnlocked,
        mask != 0x77 && mask != 0xFF ==> state_of(mask, visible) == CoreState::Abnormal(mask)
            && booted(mask) == (BootStep::LeaveAlone { mask }),
{
}

/// The threads of a core are the CPUs with that core and no others, each with
/// its own state.
pub proof fn threads_are_those_of_the_core(all: Seq<LogicalCpu>, core: u32, n: nat)
    requires
        n <= all.len(),
    ensures
        forall|i: int|
            0 <= i < n && core_of_cpu(all, (#[trigger] all[i]).cpu) == core ==> threads_of(
                all,
                core,
                n,
            ).contains((all[i].cpu, all[i].online)),
        forall|t: (u32, bool)| #[trigger]
            threads_of(all, core, n).contains(t) ==> core_of_cpu(all, t.0) == core && exists|i: int|
                0 <= i < n && (#[trigger] all[i]).cpu == t.0 && all[i].online == t.1,
    decreases n,
{
    if n > 0 {
        let m = (n - 1) as nat;
        threads_are_those_of_the_core(all, core, m);
        let before = threads_of(all, core, m);
        let now = threads_of(all, core, n);
        let last = (all[n - 1].cpu, all[n - 1].online);
        assert forall|i: int|
            0 <= i < n && core_of_cpu(all, (#[trigger] all[i]).cpu) == core implies now.contains(
            (all[i].cpu, all[i].online),
        ) by {
            if i < m {
                assert(before.contains((all[i].cpu, all[i].online)));
                let k = choose|k: int|
                    0 <= k < before.len() && before[k] == (all[i].cpu, all[i].online);
                assert(now[k] == before[k]);
            } else {
                assert(now[now.len() - 1] == last);
            }
        }
        assert forall|t: (u32, bool)| #[trigger] now.contains(t) implies core_of_cpu(all, t.0)
            == core && exists|i: int|
            0 <= i < n && (#[trigger] all[i]).cpu == t.0 && all[i].online == t.1 by {
            let k = choose|k: int| 0 <= k < now.len() && now[k] == t;
            if k < before.len() {
                assert(before[k] == t);
                assert(before.contains(t));
            } else {
                assert(all[n - 1].cpu == t.0);
            }
        }
    }
}

/// Two threads that share a core name each other: the other of the other is
/// itself, and both have the same half of their numbers.
pub proof fn siblings_come_in_pairs(cpu: u32)
    requires
        cpu < u32::MAX,
    ensures
        sibling(cpu) != cpu,
        sibling(cpu) / 2 == cpu / 2,
        sibling(sibling(cpu)) == cpu,
{
}

/// A CPU is of the core that it shows; one that shows none is of its sibling's;
/// where that shows none either, of half its number.
pub proof fn core_of_an_offline_cpu(all: Seq<LogicalCpu>, cpu: u32)
    requires
        cpu < u32::MAX,
    ensures
        own_core(all, cpu) matches Some(c) ==> core_of_cpu(all, cpu) == c,
        own_core(all, cpu) is None && cpu % 2 == 0 ==> (own_core(all, (cpu + 1) as u32) matches Some(
            c,
        ) ==> core_of_cpu(all, cpu) == c),
        own_core(all, cpu) is None && cpu % 2 == 1 ==> (own_core(all, (cpu - 1) as u32) matches Some(
            c,
        ) ==> core_of_cpu(all, cpu) == c),
        own_core(all, cpu) is None && own_core(all, sibling(cpu)) is None ==> core_of_cpu(all, cpu)
            == cpu / 2,
{
}

/// A core that is not listed has the two CPUs of twice its number; a listed one
/// has its threads.
pub proof fn cpus_of_a_core(groups: Seq<(u32, Vec<(u32, bool)>)>, core: u32, k: int)
    requires
        0 <= k < groups.len(),
        groups[k].0 == core,
        forall|j: int| 0 <= j < k ==> (#[trigger] groups[j]).0 != core,
    ensures
        cpus_of(groups, core).len() == groups[k].1@.len(),
        forall|t: int|
            0 <= t < groups[k].1@.len() ==> #[trigger] cpus_of(groups, core)[t]
                == groups[k].1@[t].0,
        core <= 0x7FFF_FFFF ==> cpus_of(Seq::<(u32, Vec<(u32, bool)>)>::empty(), core) =~= seq![
            (2 * core) as u32,
            (2 * core + 1) as u32,
        ],
    decreases k,
{
    if k > 0 {
        assert(groups[0].0 != core);
        assert forall|j: int| 0 <= j < k - 1 implies (#[trigger] groups.drop_first()[j]).0
            != core by {
            assert(groups[j + 1].0 != core);
        }
        cpus_of_a_core(groups.drop_first(), core, k - 1);
    }
}

/// Every CPU but the first is among those that go offline together.
pub proof fn all_others_go_offline(cpus: Seq<u32>, i: int)
    requires
        0 <= i < cpus.len(),
        cpus[i] != 0,
    ensures
        all_but_first(cpus).contains(cpus[i]),
    decreases cpus.len(),
{
    let r = all_but_first(cpus);
    let p = all_but_first(cpus.drop_last());
    if i == cpus.len() - 1 {
        assert(r[r.len() - 1] == cpus[i]);
    } else {
        all_others_go_offline(cpus.drop_last(), i);
        let k = choose|k: int| 0 <= k < p.len() && p[k] == cpus[i];
        assert(r[k] == p[k]);
    }
}

/// The offline CPUs are counted one by one: none where all are online, and one
/// more with every one that goes offline.
pub proof fn offline_cpus_are_counted(all: Seq<LogicalCpu>, c: LogicalCpu)
    ensures
        offline_count(Seq::<LogicalCpu>::empty()) == 0,
        offline_count(all.push(c)) == offline_count(all) + (if c.online { 0nat } else { 1nat }),
        offline_count(all) <= all.len(),
    decreases all.len(),
{
    assert(all.push(c).drop_last() =~= all);
    if all.len() > 0 {
        offline_cpus_are_counted(all.drop_last(), c);
    }
}

/// The override goes among the hooks without moving any of them against another,
/// and a last hook stays the last.
pub proof fn hooks_keep_their_order(hooks: Seq<Seq<char>>)
    ensures
        with_override(hooks).len() == hooks.len() + 1,
        hooks.len() > 0 ==> with_override(hooks).last() == hooks.last() && with_override(
            hooks,
        )[hooks.len() - 1] == "acpi_override"@,
        forall|i: int| 0 <= i < hooks.len() - 1 ==> #[trigger] with_override(hooks)[i] == hooks[i],
        hooks.len() == 0 ==> with_override(hooks) =~= seq!["acpi_override"@],
{
}

/// A core with a failure is reported, by its number and its count, and one
/// without is not.
pub proof fn failures_are_reported(results: Seq<(u32, Option<u64>)>, core: u32, n: Option<u64>)
    ensures
        n is Some && n->0 > 0 ==> failures(results.push((core, n))) == failures(results).push(
            "core "@ + text::dec(core as nat) + ": "@ + text::dec(n->0 as nat)
                + " verify failures (wrong results)"@,
        ),
        n is None || n->0 == 0 ==> failures(results.push((core, n))) == failures(results),
        failures(Seq::<(u32, Option<u64>)>::empty()).len() == 0,
{
    assert(results.push((core, n)).drop_last() =~= results);
}

/// A line of the kernel log is about a machine check where it says so in full, or
/// where the machine-check handler tells of an error; each such line counts once.
pub proof fn machine_checks_are_counted(lines: Seq<Seq<char>>, line: Seq<char>)
    ensures
        text::occurs(line, "Machine Check Exception"@) ==> is_mce(line),
        text::occurs(line, "mce:"@) && text::occurs(line, "error"@) ==> is_mce(line),
        text::occurs(line, "mce:"@) && text::occurs(line, "corrected"@) ==> is_mce(line),
        !text::occurs(line, "Machine Check Exception"@) && !text::occurs(line, "mce:"@) ==> !is_mce(
            line,
        ),
        !text::occurs(line, "Machine Check Exception"@) && !text::occurs(line, "error"@)
            && !text::occurs(line, "corrected"@) ==> !is_mce(line),
        is_mce(line) ==> mce_lines(lines.push(line)) == mce_lines(lines) + 1,
        !is_mce(line) ==> mce_lines(lines.push(line)) == mce_lines(lines),
        mce_lines(seq![]) == 0,
{
    assert(lines.push(line).drop_last() =~= lines);
}

/// Every core of a mask is listed once, as enabled or as disabled; the cores that
/// a mask disables are those that its complement enables.
pub proof fn cores_of_a_mask_are_listed_once(mask: u8, n: nat)
    requires
        n <= 8,
    ensures
        bits_listed(mask, true, n).len() + bits_listed(mask, false, n).len() == n,
        bits_listed(mask, false, n) == bits_listed(!mask, true, n),
    decreases n,
{
    if n > 0 {
        cores_of_a_mask_are_listed_once(mask, (n - 1) as nat);
        let k = (n - 1) as u8;
        assert(((!mask >> k) & 1 == 1) == !((mask >> k) & 1 == 1)) by (bit_vector)
            requires
                k < 8,
        ;
    }
}

/// The cores that the unlock adds are those that the stock mask lacks.
pub proof fn new_cores_are_not_in_the_stock_mask(core: u32)
    requires
        core < 8,
    ensures
        is_new_core(core) <==> (0x77u32 >> core) & 1 == 0,
{
    assert((core == 3 || core == 7) <==> (0x77u32 >> core) & 1 == 0) by (bit_vector)
        requires
            core < 8,
    ;
}

/// A name of `cpu` and a number stands for that CPU, and a name without `cpu` in
/// front for none.
pub proof fn names_of_cpus(names: Seq<String>, name: String, n: nat)
    requires
        n <= u32::MAX,
    ensures
        cpu_number("cpu"@ + text::dec(n)) == Some(n as int),
        !text::begins(name@, "cpu"@) ==> cpu_number(name@) is None,
        cpu_number(name@) is None ==> cpu_numbers(names.push(name)) == cpu_numbers(names),
        cpu_number(name@) matches Some(v) ==> cpu_numbers(names.push(name)) == cpu_numbers(names).push(
            v as u32,
        ),
{
    reveal_strlit("cpu");
    let s = "cpu"@ + text::dec(n);
    assert(s.subrange(0, 3) =~= "cpu"@);
    assert(text::after(s, 3) =~= text::dec(n));
    text::decimal_reads_back(n, u32::MAX as int);
    assert(names.push(name).drop_last() =~= names);
}

/// A number is taken from the first line with its tag, and a rate from the first
/// line of a CPU that has one.
pub proof fn first_tagged_line_is_taken(line: Seq<char>, rest: Seq<Seq<char>>, tag: Seq<char>)
    ensures
        ({
            let own = text::begins(line, tag + ":"@);
            let w = text::words_of(text::after(line, tag.len() as int + 1));
            &&& !own ==> tag_number(seq![line] + rest, tag) == tag_number(rest, tag)
            &&& own && w.len() > 0 ==> tag_number(seq![line] + rest, tag) == text::number(
                w[0],
                10,
                u64::MAX as int,
            )
            &&& own && w.len() == 0 ==> tag_number(seq![line] + rest, tag) is None
        }),
        tag_number(seq![], tag) is None,
        ({
            let w = text::words_of(line);
            let own = w.len() >= 7 && w[0] == "cpu"@;
            &&& own ==> rate_field(seq![line] + rest) == Some(w[6])
            &&& !own ==> rate_field(seq![line] + rest) == rate_field(rest)
        }),
        rate_field(seq![]) is None,
{
    reveal_strlit(":");
    assert((seq![line] + rest).drop_first() =~= rest);
}

/// Of two positions exactly one comes before the other, the one of the lower rate,
/// and the earlier one where both have the same.
pub proof fn slower_comes_first(rates: Seq<i64>, a: int, b: int)
    requires
        a != b,
    ensures
        slower(rates, a, b) <==> !slower(rates, b, a),
        rates[a] < rates[b] ==> slower(rates, a, b),
        rates[a] == rates[b] && a < b ==> slower(rates, a, b),
        !slower(rates, a, a),
{
}

/// A CPU shows the core id of its own entry, the first of its number; without one
/// its sibling's counts, and without either half its number.
pub proof fn own_entry_shows_the_core(e: LogicalCpu, rest: Seq<LogicalCpu>, cpu: u32)
    ensures
        e.cpu == cpu ==> own_core(seq![e] + rest, cpu) == e.core_id,
        e.cpu != cpu ==> own_core(seq![e] + rest, cpu) == own_core(rest, cpu),
        own_core(seq![], cpu) is None,
        own_core(rest, cpu) matches Some(c) ==> core_of_cpu(rest, cpu) == c,
        own_core(rest, cpu) is None ==> (own_core(rest, sibling(cpu)) matches Some(c)
            ==> core_of_cpu(rest, cpu) == c),
        own_core(rest, cpu) is None && own_core(rest, sibling(cpu)) is None ==> core_of_cpu(rest, cpu)
            == cpu / 2,
{
    assert((seq![e] + rest).drop_first() =~= rest);
}

/// The report has the mask first, then the state and what it means, and says
/// whether the boot unit is installed.
pub proof fn report_has_its_lines(s: CoreSnapshot, mce: nat, installed: bool)
    ensures
        ({
            let v = status_of(s, mce, installed);
            &&& v.len() == 7
            &&& v[0] == "SMN 0x115A870 = "@ + mask_text(s.mask)
            &&& v[1] == "state: "@ + s.state.word()
            &&& v[2] == state_advice(s.state)
            &&& v[4] == "MCE entries in dmesg: "@ + text::dec(mce)
            &&& installed ==> v[5] == "boot unit: "@ + "installed"@
            &&& !installed ==> v[5] == "boot unit: "@ + "not installed"@
        }),
{
}

/// A hexadecimal digit is one of the ten digits or of the first six letters, in
/// either case.
pub proof fn hexadecimal_digits(b: u8)
    ensures
        0x30 <= b <= 0x39 ==> is_hex(b),
        0x41 <= b <= 0x46 ==> is_hex(b) && is_hex((b + 0x20) as u8),
        is_hex(b) ==> (text::digit_value(b as char, 16) is Some),
        !is_hex(b) ==> (text::digit_value(b as char, 16) is None),
{
}

/// The hooks of a line are the words between its brackets.
pub proof fn hooks_stand_between_brackets(words: Seq<char>)
    requires
        words.len() > 0,
        words[0] != '(',
        words.last() != ')',
    ensures
        hooks_of("HOOKS="@ + (seq!['('] + words + seq![')'])) == text::words_of(words),
{
    reveal_strlit("HOOKS=");
    reveal_strlit("(");
    reveal_strlit(")");
    let inner = words + seq![')'];
    let line = "HOOKS="@ + (seq!['('] + words + seq![')']);
    assert(text::after(line, 6) =~= seq!['('] + words + seq![')']);
    assert("("@ =~= seq!['(']);
    assert(")"@ =~= seq![')']);
    assert(seq!['('] + words + seq![')'] =~= "("@ + inner);
    assert(!text::begins(inner, "("@)) by {
        if text::begins(inner, "("@) {
            assert(inner.subrange(0, 1)[0] == inner[0]);
        }
    }
    text::stripping_takes_all(inner, "("@);
    assert(!text::ends(words, ")"@)) by {
        if text::ends(words, ")"@) {
            assert(words.subrange(words.len() - 1, words.len() as int)[0] == words[words.len() - 1]);
        }
    }
    text::stripping_takes_all(words, ")"@);
}

} // verus!
