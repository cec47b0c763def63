use arieltune::profile::{
    all, builtins, custom_path, find, valid_name, GpuMode, GpuTune, Profile, ProfileError,
    ProfileStep,
};

#[test]
fn accepts_plain_names() {
    for n in ["fast", "my-oc", "oc_4ghz", "v1.2"] {
        assert!(valid_name(n).is_ok(), "{n}");
    }
}

#[test]
fn rejects_traversal_and_odd_names() {
    for n in [
        "",
        ".",
        "..",
        "../x",
        "a/b",
        ".hidden",
        "a b",
        "x\n",
        "eviL/../y",
    ] {
        assert!(valid_name(n).is_err(), "should reject {n:?}");
    }
}

#[test]
fn builtins_are_valid_and_safe() {
    for p in builtins() {
        assert!(valid_name(&p.name).is_ok(), "builtin {}", p.name);
        if let Some(c) = &p.cpu {
            assert!(c.validate().is_ok(), "builtin {} cpu unsafe", p.name);
        }
    }
}

fn plain(name: &str) -> Profile {
    Profile {
        name: name.to_string(),
        description: String::new(),
        cu_40: None,
        gpu: None,
        cpu: None,
    }
}

#[test]
fn plan_says_what_is_enacted() {
    assert_eq!(plain("x").plan_lines(), vec!["(no-op: profile sets nothing)"]);
    let safe = &builtins()[0];
    assert_eq!(
        safe.plan_lines(),
        vec![
            "GPU: auto (release pin; persisted auto mode)",
            "CPU: boost 3500 MHz, curve scale 0 (~1158 mV @ boost), temp 100/100 C",
        ]
    );
}

#[test]
fn profile_is_checked_before_it_is_enacted() {
    let forced = Profile {
        gpu: Some(GpuTune {
            mode: GpuMode::Force,
            force_mhz: None,
        }),
        ..plain("bad")
    };
    assert!(matches!(
        forced.apply(true),
        Err(ProfileError::NoClock { .. })
    ));
    let performance = &builtins()[2];
    assert!(matches!(
        performance.apply(false),
        Err(ProfileError::NoMailbox)
    ));
    let steps = performance.apply(true).unwrap();
    assert!(matches!(steps[0], ProfileStep::Cpu { .. }));
    assert!(matches!(steps[1], ProfileStep::Force(2230)));
    let mut hot = builtins().remove(2);
    hot.cpu.as_mut().unwrap().curve_scale = 0;
    assert!(matches!(hot.apply(true), Err(ProfileError::Cpu(_))));
}

#[test]
fn custom_profiles_shadow_builtins() {
    let custom = Profile {
        description: "mine".to_string(),
        ..plain("safe")
    };
    assert_eq!(find("safe", vec![custom]).unwrap().description, "mine");
    assert!(find("nope", vec![]).is_none());
    assert_eq!(all(vec![plain("x")]).len(), 4);
    assert_eq!(all(vec![plain("safe")]).len(), 3);
    assert!(custom_path("x").ends_with("/x.json"));
    assert!(matches!(valid_name(""), Err(ProfileError::EmptyName)));
    assert_eq!(
        valid_name("a b").unwrap_err().message(),
        "invalid profile name 'a b' (use letters, digits, . _ -)"
    );
}
