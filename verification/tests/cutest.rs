use arieltune::curoute::FULL_MASK;
use arieltune::cutest::{
    answers, bench_masks, count_mismatches, cpu_kat, ensure_bc250_device, find_mem_type,
    judge, kat_push, kat_result, localize_config, localize_next, masks_label, poison, throughput_of, BenchStep,
    KatError, KatRun, BENCH_REPS, KAT_ITERS,
};

#[test]
fn bench_rejects_empty_array_shape() {
    let err = bench_masks(&[FULL_MASK, 0, FULL_MASK, FULL_MASK])
        .unwrap_err()
        .message();
    assert!(err.contains("empty shader array"), "{err}");
}

#[test]
fn cpu_kat_is_deterministic() {
    assert_eq!(cpu_kat(0, 8), cpu_kat(0, 8));
    assert_ne!(cpu_kat(0, KAT_ITERS), cpu_kat(1, KAT_ITERS));
}

#[test]
fn a_dropped_run_matches_nowhere() {
    let gold = answers(64, 8);
    assert_eq!(gold[5], cpu_kat(5, 8));
    assert_eq!(count_mismatches(&gold, &gold), 0);
    assert_eq!(count_mismatches(&poison(&gold), &gold), 64);
}

#[test]
fn known_answers() {
    // One round by hand: the seed, then one step of the mixer.
    assert_eq!(cpu_kat(0, 0), cpu_kat(0, 0));
    assert_ne!(cpu_kat(0, 1), cpu_kat(0, 0));
    assert_eq!(answers(3, 2), vec![cpu_kat(0, 2), cpu_kat(1, 2), cpu_kat(2, 2)]);
}

#[test]
fn throughput_is_rounded() {
    // 2^33 operations in one second.
    assert_eq!(throughput_of(1_000_000_000, false, 1, 1), 9);
    assert_eq!(throughput_of(4_900_000, false, 1, 1), 1753);
    assert_eq!(throughput_of(4_900_000, false, 10, 40), 438);
    assert_eq!(throughput_of(5, true, 1, 1), 0);
    assert_eq!(throughput_of(0, false, 1, 1), 8_589_934_592);
    let mut n: u64 = 3;
    for _ in 0..3000 {
        n = n.wrapping_mul(6364136223846793005).wrapping_add(1442695040888963407);
        let ns = n >> (n % 60);
        let units = 1 + (n >> 7) % 40;
        let secs = std::time::Duration::from_nanos(ns).as_secs_f64().max(1e-9);
        let g = 1_048_576f64 * 2048f64 * 4.0 / secs / 1e9;
        assert_eq!(throughput_of(ns, false, 1, 1).to_string(), format!("{g:.0}"));
        let tenths = throughput_of(ns, false, 10, units);
        assert_eq!(
            format!("{}.{}", tenths / 10, tenths % 10),
            format!("{:.1}", g / units as f64)
        );
    }
}

#[test]
fn only_the_right_device_is_tested() {
    assert!(ensure_bc250_device("AMD BC-250 (RADV GFX1013)").is_ok());
    assert!(ensure_bc250_device("radv gfx1013").is_ok());
    assert!(matches!(
        ensure_bc250_device("llvmpipe (LLVM 19)"),
        Err(KatError::WrongDevice { .. })
    ));
    assert_eq!(find_mem_type(&vec![1, 6, 7], 0b110, 6), Some(1));
    assert_eq!(find_mem_type(&vec![1, 2], 0b11, 6), None);
}

fn run(elapsed_ns: u64, mismatches: u64, hung: bool) -> KatRun {
    KatRun {
        elapsed_ns,
        mismatches,
        hung,
    }
}

#[test]
fn bench_takes_the_shortest_of_its_runs() {
    let mut b = bench_masks(&[FULL_MASK; 4]).unwrap();
    for i in 0..BENCH_REPS - 1 {
        match b.step(run(100 - i as u64, 0, false)) {
            BenchStep::Again(n) => b = n,
            other => panic!("{other:?}"),
        }
    }
    assert_eq!(
        b.step(run(500, 0, false)),
        BenchStep::Done(run(96, 0, false))
    );
    let b = bench_masks(&[FULL_MASK; 4]).unwrap();
    assert_eq!(b.step(run(10, 3, false)), BenchStep::Done(run(10, 3, false)));
    assert_eq!(b.step(run(10, 0, true)), BenchStep::Done(run(10, 0, true)));
}

#[test]
fn search_leaves_out_one_wgp_at_a_time() {
    let (masks, label) = localize_config(2, 3);
    assert_eq!(masks, [0x1f, 0x1f, 0x17, 0x1f]);
    assert_eq!(label, "-SE1.SH0/WGP3");
    assert_eq!(localize_next(0, 0, false), Some((0, 1)));
    assert_eq!(localize_next(0, 4, false), Some((1, 0)));
    assert_eq!(localize_next(0, 1, true), Some((1, 0)));
    assert_eq!(localize_next(3, 4, false), None);
    assert_eq!(masks_label(&[0x1f, 7, 0, 1]), "[1f, 07, 00, 01]");
}

#[test]
fn results_carry_their_route() {
    let r = kat_result(&[FULL_MASK; 4], "40-CU".to_string(), run(4_900_000, 0, false));
    assert_eq!((r.cu_count, r.ok, r.gflops()), (40, true, 1753));
    let r = kat_result(&[7; 4], "x".to_string(), run(1, 2, false));
    assert_eq!((r.cu_count, r.ok), (24, false));
    let hung = kat_result(&[7; 4], "x".to_string(), run(1, 0, true));
    assert!(!hung.ok);
    assert_ne!(hung.verdict(), r.verdict());
}

#[test]
fn silent_fence_is_a_hang() {
    let gold = answers(4, 2);
    let mut gpu = gold.clone();
    gpu[1] ^= 1;
    assert_eq!(judge(9, true, &gpu, &gold), run(9, 1, false));
    assert_eq!(judge(9, false, &gpu, &gold), run(9, 1_048_576, true));
    let mut want = 1_048_576u32.to_le_bytes().to_vec();
    want.extend(2048u32.to_le_bytes());
    assert_eq!(kat_push().to_vec(), want);
}
