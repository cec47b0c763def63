use arieltune::detect::DoctorJson;
use arieltune::kbuild::{
    bc250_pci_path, check_request, drop_uid_for, extract_step, extracted_src, install_hint,
    missing_deps, missing_deps_message, mmio_base, patch_file_name, poll_target_online,
    post_extract_plan, preflight_deps, preflight_uma, preview_lines, required_deps,
    resolve_drop_uid, scp_argv, sh_quote, ssh_argv, staging_dir, step, valid_target,
    verify_remote, BuildError, BuildOpts, PollStep, Preflight, UmaReading, VERIFY_REMOTE_BIN,
    VERIFY_SSH_TIMEOUT_S,
};
use arieltune::patches;

#[test]
fn target_validation() {
    for ok in ["user@host", "user@example.com", "a-b@host.lan", "u_1@h-2.x"] {
        assert!(valid_target(ok).is_ok(), "{ok}");
    }
    for bad in [
        "",
        "nouser",
        "@host",
        "user@",
        "user@host;rm -rf /",
        "user@host x",
        "us er@host",
        "user@host$(reboot)",
        "user@host'",
    ] {
        assert!(valid_target(bad).is_err(), "should reject {bad:?}");
    }
}

#[test]
fn shell_quoting() {
    assert_eq!(sh_quote("plain"), "'plain'");
    assert_eq!(sh_quote("a b"), "'a b'");
    assert_eq!(sh_quote("a'b"), r"'a'\''b'");
}

#[test]
fn drop_uid_rules() {
    // Root drops to the package directory's owner.
    assert_eq!(drop_uid_for(0, 1000), Some(1000));
    // A root-owned directory has nobody to drop to.
    assert_eq!(drop_uid_for(0, 0), None);
    // Non-root never changes uid.
    assert_eq!(drop_uid_for(1000, 1000), None);
    assert_eq!(drop_uid_for(1000, 0), None);
}

#[test]
fn patch_steps_apply_with_zero_fuzz() {
    let opts = BuildOpts {
        pkgbuild_dir: Some("/tmp/pkg".to_string()),
        ..Default::default()
    };
    let steps = post_extract_plan(&opts, "/tmp/patches", "/tmp/src", None).unwrap();
    let patch_steps: Vec<_> = steps.iter().filter(|s| s.argv[0] == "patch").collect();
    assert_eq!(patch_steps.len(), patches::count());
    for s in patch_steps {
        assert!(
            s.argv.contains(&"--fuzz=0".to_string()),
            "missing --fuzz=0: {}",
            s.render()
        );
        assert!(s.argv.contains(&"--forward".to_string()));
    }
}

#[test]
fn ssh_scp_argv_shapes() {
    let v = ssh_argv("user@host", &["uname", "-r"]);
    assert_eq!(v[0], "ssh");
    assert!(v.contains(&format!("ConnectTimeout={VERIFY_SSH_TIMEOUT_S}")));
    assert!(v.contains(&"BatchMode=yes".to_string()));
    // Target precedes the remote command (nothing after it but the argv).
    let t = v.iter().position(|s| s == "user@host").unwrap();
    assert_eq!(&v[t + 1..], ["uname", "-r"]);

    let s = scp_argv("/proc/self/exe", "user@host", VERIFY_REMOTE_BIN);
    assert_eq!(s[0], "scp");
    assert_eq!(s.last().unwrap(), "user@host:/tmp/aputune-verify");
    assert!(s.contains(&"/proc/self/exe".to_string()));
}

#[test]
fn missing_deps_reports_absent_only() {
    let required: &[(&str, &str)] = &[
        ("makepkg", "pacman"),
        ("gcc-15", "gcc15"),
        ("g++-15", "gcc15"),
        ("bc", "bc"),
        ("patch", "base-devel"),
        ("make", "base-devel"),
        ("mkinitcpio", "mkinitcpio"),
    ];
    let present = |bin: &str| !matches!(bin, "gcc-15" | "bc");
    let missing = missing_deps(required, &present);
    assert_eq!(
        missing,
        vec![
            ("gcc-15".to_string(), "gcc15".to_string()),
            ("bc".to_string(), "bc".to_string()),
        ]
    );
}

#[test]
fn install_hint_starts_with_pacman_and_names_packages() {
    let missing = vec![
        ("gcc-15".to_string(), "gcc15".to_string()),
        ("bc".to_string(), "bc".to_string()),
    ];
    let hint = install_hint(&missing);
    assert!(
        hint.starts_with("sudo pacman -S --needed "),
        "unexpected hint: {hint}"
    );
    assert!(hint.contains("gcc15"), "{hint}");
    assert!(hint.contains("bc"), "{hint}");
}

#[test]
fn required_deps_local_vs_remote() {
    let local = BuildOpts {
        target: None,
        ..Default::default()
    };
    let names: Vec<String> = required_deps(&local).into_iter().map(|(b, _)| b).collect();
    assert!(names.contains(&"mkinitcpio".to_string()));

    let remote = BuildOpts {
        target: Some("user@host".to_string()),
        ..Default::default()
    };
    let names: Vec<String> = required_deps(&remote).into_iter().map(|(b, _)| b).collect();
    assert!(!names.contains(&"mkinitcpio".to_string()));
}

#[test]
fn required_deps_include_llvm_rust_toolchain() {
    let local = BuildOpts {
        target: None,
        ..Default::default()
    };
    let names: Vec<String> = required_deps(&local).into_iter().map(|(b, _)| b).collect();
    for need in [
        "clang",
        "ld.lld",
        "llvm-ar",
        "llvm-nm",
        "llvm-objcopy",
        "llvm-strip",
        "llvm-readelf",
        "pahole",
        "rustc",
        "bindgen",
    ] {
        assert!(
            names.contains(&need.to_string()),
            "missing preflight dep: {need}"
        );
    }
}

#[test]
fn options_come_from_the_environment() {
    let o = BuildOpts::from_env(None, Some("/home/u".to_string()), None, None);
    assert!(o.work_dir.starts_with("/home/u"));
    let o = BuildOpts::from_env(
        Some("/w".to_string()),
        Some("/home/u".to_string()),
        Some("/p".to_string()),
        Some("clang".to_string()),
    );
    assert_eq!(o.work_dir, "/w");
    assert_eq!(o.pkgbuild_dir, Some("/p".to_string()));
    assert_eq!(o.cc, "clang");
}

#[test]
fn hint_names_each_package_once_in_order() {
    let missing = vec![
        ("make".to_string(), "base-devel".to_string()),
        ("bc".to_string(), "bc".to_string()),
        ("patch".to_string(), "base-devel".to_string()),
    ];
    assert_eq!(install_hint(&missing), "sudo pacman -S --needed base-devel bc");
    assert!(missing_deps_message(&missing).contains("  bc (from package bc)"));
}

#[test]
fn root_owned_package_directory_is_refused() {
    assert!(matches!(
        resolve_drop_uid(0, 0, "/p"),
        Err(BuildError::RootOwned { .. })
    ));
    assert!(matches!(resolve_drop_uid(0, 1000, "/p"), Ok(Some(1000))));
    assert!(matches!(resolve_drop_uid(1000, 0, "/p"), Ok(None)));
}

#[test]
fn missing_tools_stop_a_run_and_warn_a_preview() {
    let missing = vec![("bc".to_string(), "bc".to_string())];
    assert!(matches!(
        preflight_deps(true, missing, true),
        Preflight::Abort(BuildError::MissingDeps { .. })
    ));
    let missing = vec![("bc".to_string(), "bc".to_string())];
    assert!(matches!(
        preflight_deps(false, missing, true),
        Preflight::Warn { .. }
    ));
    assert!(matches!(preflight_deps(true, vec![], true), Preflight::Ready));
}

#[test]
fn wrong_memory_carve_stops_a_run() {
    assert!(matches!(
        preflight_uma(true, UmaReading::Carve(8192)),
        Preflight::Abort(BuildError::WrongUma { mb: 8192 })
    ));
    assert!(matches!(
        preflight_uma(true, UmaReading::Carve(512)),
        Preflight::Ready
    ));
}

#[test]
fn register_base_is_the_sixth_line() {
    let res = "0x1 0x2\n0x3 0x4\n0x5 0x6\n0x7 0x8\n0x9 0xa\n0x00000000fe800000 0x00000000fe87ffff 0x0\n";
    assert_eq!(mmio_base(res), Some(0xfe80_0000));
    assert_eq!(mmio_base("0x1 0x2\n"), None);
}

#[test]
fn gpu_is_found_by_its_ids() {
    let dev = |v: &str, d: &str| (Some(v.to_string()), Some(d.to_string()));
    let bus = vec![
        (None, None),
        dev("0x1002\n", "0x73bf\n"),
        dev("0x1002\n", "0x13fe\n"),
    ];
    assert_eq!(bc250_pci_path(&bus), Some(2));
    assert_eq!(bc250_pci_path(&vec![(None, None)]), None);
}

#[test]
fn bad_requests_are_refused() {
    let none = BuildOpts::from_env(None, None, None, None);
    assert!(matches!(
        check_request(&none, false),
        Err(BuildError::NoPkgbuild) | Err(BuildError::NoPkgbuildDir)
    ));
    let opts = BuildOpts {
        pkgbuild_dir: Some("/p".to_string()),
        target: Some("nouser".to_string()),
        ..Default::default()
    };
    assert!(matches!(
        check_request(&opts, true),
        Err(BuildError::BadTarget { .. })
    ));
    let opts = BuildOpts {
        pkgbuild_dir: Some("/p".to_string()),
        ..Default::default()
    };
    assert!(matches!(
        check_request(&opts, false),
        Err(BuildError::MissingPkgbuild { .. })
    ));
    assert_eq!(check_request(&opts, true).unwrap(), "/p");
}

#[test]
fn one_source_tree_is_taken() {
    let e = |n: &str, d: bool| (n.to_string(), d);
    assert_eq!(
        extracted_src("/p/src", &vec![e("cachyos-6.12", true), e("config", false)]).unwrap(),
        "/p/src/cachyos-6.12"
    );
    assert!(matches!(
        extracted_src("/p/src", &vec![e("config", false)]),
        Err(BuildError::NoSource { .. })
    ));
    assert!(matches!(
        extracted_src("/p/src", &vec![e("cachyos-6.12", true), e("cachyos-6.13", true)]),
        Err(BuildError::ManySources { count: 2, .. })
    ));
}

#[test]
fn target_is_waited_for_until_the_limit() {
    assert!(matches!(poll_target_online("u@h", true, 0), PollStep::Online));
    assert!(matches!(
        poll_target_online("u@h", false, 299_000_000_000),
        PollStep::Wait
    ));
    assert!(matches!(
        poll_target_online("u@h", false, 300_000_000_000),
        PollStep::GiveUp(BuildError::NotOnline { .. })
    ));
}

fn doctor(kernel: &str, present: usize, fully: bool) -> DoctorJson {
    DoctorJson {
        is_bc250: true,
        kernel: kernel.to_string(),
        present,
        total: patches::count(),
        fully,
    }
}

#[test]
fn remote_must_run_the_new_kernel_fully_patched() {
    assert!(matches!(
        verify_remote("u@h", "6.11", &doctor("6.11", 24, true)),
        Err(BuildError::OldKernel { .. })
    ));
    assert!(matches!(
        verify_remote("u@h", "6.11", &doctor("6.12", 20, false)),
        Err(BuildError::NotFullyLive { present: 20, .. })
    ));
    assert!(verify_remote("u@h", "6.11", &doctor("6.12", 24, true)).is_ok());
}

#[test]
fn steps_render_as_shell_lines() {
    let s = step("say", "/tmp", &["echo", "a b"]).with_env("K", "v").with_uid(Some(1000));
    let line = s.render();
    assert!(line.contains("echo"), "{line}");
    assert_eq!(s.uid, Some(1000));
    assert_eq!(s.env, vec![("K".to_string(), "v".to_string())]);
    let x = extract_step("/p", Some(1000));
    assert_eq!(x.argv[0], "makepkg");
    assert_eq!(x.uid, Some(1000));
    assert!(!preview_lines(&vec![x], &None).is_empty());
}

#[test]
fn only_the_installation_runs_as_root() {
    let opts = BuildOpts {
        pkgbuild_dir: Some("/p".to_string()),
        ..Default::default()
    };
    let steps = post_extract_plan(&opts, "/w", "/s", Some(1000)).unwrap();
    assert!(steps.iter().any(|s| s.uid == Some(1000)));
    assert!(steps
        .iter()
        .filter(|s| s.argv[0] == "patch")
        .all(|s| s.uid == Some(1000)));
}

#[test]
fn staged_patches_have_names() {
    assert!(patch_file_name("01").ends_with(".patch"));
    let opts = BuildOpts {
        work_dir: "/w".to_string(),
        ..Default::default()
    };
    assert!(staging_dir(&opts, None).starts_with("/w"));
}
