use arieltune::acpi::{acpi_revert, acpi_status, cpus_without_idle, TableStep};
use arieltune::cores::{
    acpi_install, boot, by_rate, core_line, core_map, core_of, core_threads, cpu_dirs, cpu_is_online,
    cst_objects, describe_mask, mce_count, offline, set_core_online, snapshot, state_for, status,
    stress_count, stress_rate, sweep_header, sweep_row, sweep_verdict, thread_counts, BootStep, CoreState,
    CoresError, LogicalCpu,
};
use arieltune::ocq3::{CORE_MASK_FULL, CORE_MASK_STOCK};

#[test]
fn state_machine() {
    assert_eq!(state_for(CORE_MASK_STOCK, 6), CoreState::Locked);
    assert_eq!(state_for(CORE_MASK_STOCK, 8), CoreState::Locked);
    assert_eq!(state_for(CORE_MASK_FULL, 6), CoreState::PendingReboot);
    assert_eq!(state_for(CORE_MASK_FULL, 8), CoreState::Unlocked);
    assert_eq!(state_for(0x7F, 7), CoreState::Abnormal(0x7F));
    assert_eq!(state_for(0x03, 2), CoreState::Abnormal(0x03));
    assert_eq!(state_for(0x00, 0), CoreState::Abnormal(0x00));
}

#[test]
fn mask_descriptions() {
    assert!(describe_mask(0x77).contains("enabled=[0 1 2 4 5 6]"));
    assert!(describe_mask(0x77).contains("disabled=[3 7]"));
    assert!(describe_mask(0xFF).contains("enabled=[0 1 2 3 4 5 6 7]"));
}

#[test]
fn state_labels() {
    assert_eq!(CoreState::Locked.label(), "LOCKED");
    assert_eq!(CoreState::PendingReboot.label(), "PENDING-REBOOT");
    assert_eq!(CoreState::Unlocked.label(), "UNLOCKED");
    assert_eq!(CoreState::Abnormal(3).label(), "ABNORMAL");
}

fn cpu(n: u32, core_id: Option<u32>, online: bool) -> LogicalCpu {
    LogicalCpu {
        cpu: n,
        core_id,
        online,
    }
}

#[test]
fn cpu_directories_are_numbers_in_order() {
    let names: Vec<String> = ["cpu10", "cpufreq", "cpu2", "cpuidle", "cpu0", "online"]
        .iter()
        .map(|s| s.to_string())
        .collect();
    assert_eq!(cpu_dirs(&names), vec![0, 2, 10]);
}

#[test]
fn missing_online_node_means_online() {
    assert!(cpu_is_online(None));
    assert!(cpu_is_online(Some(Some("1\n"))));
    assert!(!cpu_is_online(Some(Some("0\n"))));
}

#[test]
fn offline_thread_takes_its_siblings_core() {
    let all = vec![cpu(0, Some(0), true), cpu(1, None, false)];
    assert_eq!(core_of(&all, 0), 0);
    assert_eq!(core_of(&all, 1), 0);
    let lone = vec![cpu(6, None, false)];
    assert_eq!(core_of(&lone, 6), 3);
}

#[test]
fn threads_are_grouped_by_core() {
    let all = vec![
        cpu(0, Some(0), true),
        cpu(1, Some(0), true),
        cpu(2, Some(1), true),
        cpu(3, None, false),
    ];
    assert_eq!(
        core_threads(&all),
        vec![(0, vec![(0, true), (1, true)]), (1, vec![(2, true), (3, false)])]
    );
    assert_eq!(core_map(&all), vec![(0, 0), (1, 2)]);
    assert_eq!(thread_counts(&all), (4, 1));
    let s = snapshot(0x77, &all);
    assert_eq!((s.cores, s.threads, s.offline), (2, 4, 1));
    assert_eq!(s.state, CoreState::Locked);
}

#[test]
fn status_report_names_the_state() {
    let all = vec![cpu(0, Some(0), true), cpu(1, Some(0), true)];
    let lines = status(&snapshot(0x7F, &all), 2, false);
    assert!(lines.iter().any(|l| l.contains("ABNORMAL")));
    assert!(lines.iter().any(|l| l.contains("0x7F")));
}

#[test]
fn machine_checks_are_counted() {
    let log = "mce: corrected error on CPU 3\nusb 1-1: error\nmce: CPU0\nMachine Check Exception: 5\n";
    assert_eq!(mce_count(log), 2);
    assert_eq!(mce_count("usb 1-1: new device\n"), 0);
}

#[test]
fn boot_leaves_unknown_masks_alone() {
    assert_eq!(boot(0xFF), BootStep::AlreadyUnlocked);
    assert_eq!(boot(0x77), BootStep::Unlock);
    assert_eq!(boot(0x3F), BootStep::LeaveAlone { mask: 0x3F });
}

#[test]
fn the_first_cpu_cannot_go_offline() {
    let groups = vec![(0u32, vec![(0u32, true), (1, true)]), (1, vec![(2, true)])];
    assert_eq!(set_core_online(&groups, 0, false), Err(CoresError::Cpu0));
    assert_eq!(set_core_online(&groups, 0, true), Ok(vec![0, 1]));
    assert_eq!(set_core_online(&groups, 1, false), Ok(vec![2]));
    // A core that is not listed is taken by its usual numbers.
    assert_eq!(set_core_online(&groups, 3, true), Ok(vec![6, 7]));
    assert_eq!(
        set_core_online(&vec![(2, vec![])], 2, true),
        Err(CoresError::NoCpus { core: 2 })
    );
    assert_eq!(offline(&vec![0, 1, 2, 5]), vec![1, 2, 5]);
}

#[test]
fn core_change_is_reported() {
    assert_eq!(
        core_line(3, false, 12, 2),
        "core 3 offline — now 12 threads visible, 2 offline"
    );
    assert_eq!(
        core_line(3, true, 12, 0),
        "core 3 online — now 12 threads visible, 0 offline"
    );
}

const REPORT: &str = "\
stress-ng: info: [1] setting to a 10 second run
stress-ng: metrc: [1] cpu 100 10.0 9.9 0.1 123.45 124.0
cpu 100 10.0 9.9 0.1 9.9 123.45 124.0
passed: 1 cpu (1)
failed: 0
skipped: none
";

#[test]
fn sweep_reads_the_report() {
    assert_eq!(stress_rate(REPORT), Some("123.45".to_string()));
    assert_eq!(stress_count(REPORT, "passed"), Some(1));
    assert_eq!(stress_count(REPORT, "failed"), Some(0));
    assert_eq!(stress_count(REPORT, "skipped"), None);
    assert_eq!(stress_count(REPORT, "untrustworthy"), None);
    assert_eq!(stress_rate("nothing"), None);
}

#[test]
fn sweep_verdict_names_failures() {
    let good = sweep_verdict(&vec![(0, Some(0)), (3, None)]);
    assert_eq!(good.len(), 1);
    assert_eq!(
        good[0].strip_prefix("verdict").unwrap(),
        ": no verify failures observed (advisory only — this never gates anything)"
    );
    let bad = sweep_verdict(&vec![(0, Some(0)), (3, Some(2)), (7, Some(1))]);
    assert_eq!(
        bad[0].strip_prefix("verdict").unwrap(),
        ": PROBLEMS — core 3: 2 verify failures (wrong results); core 7: 1 verify failures (wrong results)"
    );
    assert_eq!(
        bad[1],
        "  a core that fails --verify produces WRONG results. Do not use it."
    );
    assert_eq!(
        sweep_row(3, 6, Some("123"), Some(1), None),
        "3    6             123        1       ?  NEW"
    );
    assert_eq!(
        sweep_header(20, 8)[0],
        "per-core sweep (20s each, 1 thread pinned per physical core) on 8 cores"
    );
}

#[test]
fn rates_are_ordered_with_ties_in_place() {
    assert_eq!(by_rate(&vec![30, 10, 30, 20]), vec![1, 3, 0, 2]);
    assert_eq!(by_rate(&vec![]), Vec::<usize>::new());
}

#[test]
fn processor_objects_are_counted_once() {
    let mut aml = b"xxC000yyC001zzC000C0G1".to_vec();
    assert_eq!(cst_objects(&aml), 2);
    aml.extend_from_slice(b"C00F");
    assert_eq!(cst_objects(&aml), 3);
    assert_eq!(cst_objects(&vec![]), 0);
}

#[test]
fn hook_goes_before_the_last_one() {
    assert_eq!(
        acpi_install("MODULES=()\nHOOKS=(base udev filesystems)\n").unwrap(),
        "MODULES=()\nHOOKS=(base udev acpi_override filesystems)\n"
    );
    assert_eq!(
        acpi_install("HOOKS=(base acpi_override fsck)\n").unwrap(),
        "HOOKS=(base acpi_override fsck)\n"
    );
    assert_eq!(acpi_install("MODULES=()\n").unwrap_err(), CoresError::NoHooks);
    assert_eq!(acpi_install("HOOKS=()").unwrap(), "HOOKS=(acpi_override)");
}

#[test]
fn idle_states_are_reported() {
    assert_eq!(cpus_without_idle(&vec![Some(3), None, Some(0), Some(1)]), 2);
    let lines = acpi_status(16, 4, Some(12));
    assert_eq!(lines[0], "logical threads: 16");
    assert_eq!(lines[1], "cpus without idle states: 4");
    assert_eq!(
        lines[2],
        "installed CST processor objects: 12 (override installed)"
    );
    assert_eq!(lines.len(), 4);
    assert_eq!(acpi_status(12, 4, None).len(), 3);
    assert_eq!(
        acpi_status(12, 4, None)[2],
        "installed CST processor objects: 0 (none installed)"
    );
}

#[test]
fn tables_with_a_backup_are_restored() {
    let (steps, line) = acpi_revert(&vec![true, false]);
    assert_eq!(steps, vec![TableStep::Restore, TableStep::Remove]);
    assert_eq!(line, "restored previous tables");
    let (steps, line) = acpi_revert(&vec![false, false]);
    assert_eq!(steps, vec![TableStep::Remove, TableStep::Remove]);
    assert_eq!(line, "no backup found — override tables removed");
}

#[test]
fn hook_is_installed_once() {
    let once = acpi_install("HOOKS=(base udev)\n").unwrap();
    assert_eq!(once, "HOOKS=(base acpi_override udev)\n");
    assert_eq!(acpi_install(&once).unwrap(), once);
}
