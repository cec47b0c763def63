use arieltune::activity::{cpu_util_pct, read_cpu_jiffies};
use arieltune::board::{
    classify_running, detect, detect_bios, is_bc250, is_bc250_dmi, Compat, DmiNodes, Gate,
    WriteClass,
};
use arieltune::cu;
use arieltune::cu::{
    active_cu_count, classify, driver_wgp_masks, iowr, liberation_armed, render, u32_at,
};
use arieltune::detect::{probe, report, sclk_max_mhz, DoctorJson, KernelFacts, State};
use arieltune::hal::{
    amdgpu_dbg_dir, ariel_apu_present, require_root, running_kernel, ConfigAccess, DebugDir,
    HalError, PciIds, SmnAperture,
};
use arieltune::patches::{count, on_disk, optional, series, Tell};
use arieltune::popup::{patch_popup_lines, title, wrap_words};

fn facts(all: bool) -> KernelFacts {
    let mut modparams = Vec::new();
    let mut debugfs = Vec::new();
    if all {
        for p in series() {
            match p.tell {
                Tell::ModParam(n) => modparams.push(n.to_string()),
                Tell::Debugfs(n) => debugfs.push(n.to_string()),
                _ => {}
            }
        }
    }
    KernelFacts {
        modparams,
        debugfs: Some(debugfs),
        sclk_max: Some(if all { 2500 } else { 1000 }),
        active_cu: Some(if all { 40 } else { 24 }),
    }
}

#[test]
fn full_series_is_inferred_where_it_leaves_no_trace() {
    let rep = report(&facts(true), None, true);
    assert_eq!(rep.rows.len(), count());
    assert!(rep.fully_patched());
    assert!(rep.missing().is_empty());
    assert!(rep
        .rows
        .iter()
        .all(|r| matches!(r.state, State::Present | State::Inferred)));
    let d = DoctorJson::from_report(&rep, "6.12".to_string());
    assert_eq!((d.present, d.total, d.fully), (24, 24, true));
    assert_eq!(rep.live(), 24);
}

#[test]
fn stock_kernel_has_nothing() {
    let rep = report(&facts(false), None, true);
    assert!(!rep.fully_patched());
    assert!(!rep.missing().is_empty());
    assert!(rep.rows.iter().all(|r| r.state == State::Absent));
    assert_eq!(rep.on_disk.len(), on_disk().len());
}

#[test]
fn partial_series_leaves_the_rest_unknown() {
    let mut f = facts(true);
    f.active_cu = Some(24);
    f.sclk_max = Some(1000);
    f.debugfs = Some(vec![]);
    let rep = report(&f, None, true);
    assert!(rep
        .rows
        .iter()
        .any(|r| matches!(r.tell, Tell::Bundled) && r.state == State::Unknown));
}

#[test]
fn unreadable_traces_are_unknown() {
    let f = KernelFacts {
        modparams: vec![],
        debugfs: None,
        sclk_max: None,
        active_cu: None,
    };
    assert_eq!(probe(Tell::Debugfs("x"), &f), State::Unknown);
    assert_eq!(probe(Tell::SclkMax(2000), &f), State::Unknown);
    assert_eq!(probe(Tell::CuCount(40), &f), State::Unknown);
    assert_eq!(probe(Tell::ModParam("x"), &f), State::Absent);
    assert_eq!(probe(Tell::Bundled, &f), State::Inferred);
    assert_eq!(State::Present.glyph(), "[ok]");
}

#[test]
fn highest_clock_of_the_table() {
    assert_eq!(sclk_max_mhz("0: 350Mhz\n1: 2230Mhz *\n2: 1500Mhz\n"), Some(2230));
    assert_eq!(sclk_max_mhz("nothing"), None);
}

#[test]
fn series_has_one_file_per_member() {
    let all = series();
    assert_eq!(all.len(), 24);
    for p in &all {
        assert!(p.file.ends_with(".patch"), "{}", p.file);
        assert!(!p.title.is_empty() && !p.desc.is_empty());
    }
    assert!(all.iter().any(|p| optional(p.id)));
}

#[test]
fn popup_wraps_and_counts() {
    assert_eq!(wrap_words("aa bb ccc dd", 5), vec!["aa bb", "ccc", "dd"]);
    assert_eq!(wrap_words("abcdefgh ij", 4), vec!["abcdefgh", "ij"]);
    let states = vec![State::Present, State::Inferred, State::Absent];
    assert_eq!(
        title(&states),
        " liberation series — 2/24 live  [up/down scroll  esc close] "
    );
    assert!(patch_popup_lines(&vec![State::Present; 24]).len() > 24);
}

#[test]
fn bus_and_debug_directories() {
    let ids = |d: &str, v: &str| PciIds {
        device: d.to_string(),
        vendor: v.to_string(),
    };
    assert!(ariel_apu_present(&vec![ids("0x13FE\n", "0x1002\n")]));
    assert!(!ariel_apu_present(&vec![ids("0x13fe\n", "0x1022\n")]));
    assert_eq!(running_kernel(Some("6.12.4\n")), "6.12.4");
    assert_eq!(running_kernel(None), "unknown");
    let none = DebugDir {
        pm_info: false,
        gpu_recover: false,
        fence_info: false,
    };
    let gpu = DebugDir {
        fence_info: true,
        ..none
    };
    assert_eq!(amdgpu_dbg_dir(&vec![none, gpu]), Some(1));
    assert_eq!(amdgpu_dbg_dir(&vec![none]), None);
}

#[test]
fn register_aperture_selects_first() {
    assert_eq!(
        SmnAperture::wreg(7, 9),
        [
            ConfigAccess::Write { off: 0xB8, value: 7 },
            ConfigAccess::Write { off: 0xBC, value: 9 },
        ]
    );
    let r = SmnAperture::rreg(7);
    assert_eq!(r[1], ConfigAccess::Read { off: 0xBC });
    assert!(SmnAperture::transferred(r[1], 4).is_ok());
    assert_eq!(
        SmnAperture::transferred(r[1], 3),
        Err(HalError::ShortRead { off: 0xBC, n: 3 })
    );
    assert_eq!(
        SmnAperture::transferred(r[0], 0).unwrap_err().message(),
        "short PCI-config write at 0xb8 (0/4 bytes)"
    );
    assert!(require_root(0).is_ok());
    assert_eq!(require_root(1000), Err(HalError::NotRoot { euid: 1000 }));
}

fn nodes(product: &str, board: &str, version: &str) -> DmiNodes {
    DmiNodes {
        product_name: Some(format!("{product}\n")),
        board_name: Some(format!("{board}\n")),
        bios_version: Some(format!("{version}\n")),
        bios_vendor: None,
    }
}

#[test]
fn board_identity_is_read_from_its_nodes() {
    let b = detect_bios(&nodes("BC-250", "", "P5.00"));
    assert_eq!((b.product.as_str(), b.bios_version.as_str()), ("BC-250", "P5.00"));
    assert_eq!(b.bios_vendor, "");
    assert_eq!(b.compat, Compat::Verified);
    assert_eq!(classify_running(&nodes("X570", "", "P5.00")), Compat::NotBc250);
    assert!(is_bc250_dmi("ASRock BC-250", ""));
    // The APU decides where the identity cannot be read.
    assert!(is_bc250(true, Compat::NotBc250, false));
    assert!(!is_bc250(true, Compat::NotBc250, true));
    assert!(!is_bc250(false, Compat::Verified, true));
    assert!(detect(true, Compat::Verified, true).is_some());
    assert!(matches!(
        Compat::UnknownBios.gate(WriteClass::EfiVar),
        Gate::RequireForce(m) if m.contains("--force")
    ));
}

fn device_record(active: u32, bitmap: u32) -> [u8; 1024] {
    let mut buf = [0u8; 1024];
    buf[20..24].copy_from_slice(&2u32.to_le_bytes());
    buf[24..28].copy_from_slice(&2u32.to_le_bytes());
    buf[48..52].copy_from_slice(&active.to_le_bytes());
    for se in 0..2usize {
        for sh in 0..2usize {
            let at = 56 + (se * 4 + sh) * 4;
            buf[at..at + 4].copy_from_slice(&bitmap.to_le_bytes());
        }
    }
    buf
}

#[test]
fn harvest_map_is_decoded() {
    let m = cu::map(&device_record(40, 0x3ff)).unwrap();
    assert_eq!((m.num_se, m.num_sh, m.active, m.possible), (2, 2, 40, 40));
    assert_eq!(m.arrays.len(), 4);
    assert_eq!(m.arrays[3].pattern, "full");
    assert_eq!(driver_wgp_masks(&m), [0x1f; 4]);
    let out = render(&m);
    assert!(out.starts_with("SE0 SH0: ##########  10 CU  full\n"));
    assert!(out.ends_with("40/40 CUs active, 0 harvested\n"));
    assert_eq!(active_cu_count(&Some(m)), Some(40));
    let m = cu::map(&device_record(24, 0x03f)).unwrap();
    assert_eq!(driver_wgp_masks(&m), [0x07; 4]);
    assert_eq!(m.arrays[0].pattern, "contiguous");
    assert!(cu::map(&[0u8; 1024]).is_none());
    assert_eq!(classify(0x155), "scattered");
    assert_eq!(u32_at(&[1, 2, 0, 0, 0], 1), 2);
    assert!(liberation_armed(Some("3\n")));
    assert!(!liberation_armed(Some("0\n")));
    assert!(!liberation_armed(None));
}

#[test]
fn request_number_of_the_info_call() {
    // Both directions, 32 bytes, type 'd', command 0x45.
    assert_eq!(iowr(0x45, 32), 0xc020_6445);
}

#[test]
fn cpu_activity_is_the_part_that_was_not_idle() {
    let a = read_cpu_jiffies("cpu  9 9 9 9\ncpu0 10 0 10 80 0\ncpu1 0 0 0 100 0\nintr 1\n").unwrap();
    assert_eq!(a, vec![(80, 100), (100, 100)]);
    let b = read_cpu_jiffies("cpu0 60 0 60 80 0\ncpu1 0 0 0 150 50\n").unwrap();
    assert_eq!(cpu_util_pct(&a, &b), vec![100, 0]);
    assert_eq!(cpu_util_pct(&vec![(0, 0)], &vec![(1, 3)]), vec![67]);
    assert_eq!(cpu_util_pct(&vec![(5, 5)], &vec![(9, 5)]), vec![0]);
    assert_eq!(cpu_util_pct(&vec![(0, 0)], &vec![(0, 2), (0, 2)]), vec![100]);
    assert!(cpu_util_pct(&vec![], &vec![(0, 2)]).is_empty());
    let mut n: u64 = 11;
    for _ in 0..3000 {
        n = n.wrapping_mul(6364136223846793005).wrapping_add(1442695040888963407);
        let total = 1 + (n >> (n % 64));
        let idle = n.rotate_left(32) % total;
        let pct = ((total - idle) as f64 / total as f64 * 100.0).round().clamp(0.0, 100.0) as u8;
        assert_eq!(cpu_util_pct(&vec![(0, 0)], &vec![(idle, total)]), vec![pct], "{idle}/{total}");
    }
    for total in [200u64, 1000] {
        for idle in 0..=total {
            let pct = ((total - idle) as f64 / total as f64 * 100.0).round() as u8;
            assert_eq!(cpu_util_pct(&vec![(0, 0)], &vec![(idle, total)]), vec![pct]);
        }
    }
}

#[test]
fn wrapping_keeps_the_words() {
    let text = "  Adds two  read-only debugfs nodes\nthat dump the full table ";
    for width in [1, 7, 20, 200] {
        let lines = wrap_words(text, width);
        let words: Vec<&str> = text.split_whitespace().collect();
        assert_eq!(lines.join(" "), words.join(" "));
    }
}
