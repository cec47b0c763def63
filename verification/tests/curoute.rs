use arieltune::curoute::{
    apply, apply_forced, apply_saved, array_pos, cu_count, current_masks, enable_all, factory,
    has_empty_array, parse_read, read_args, shape, toggle_wgp, write_args, RouteError, RouteReg,
    RouteWrite, FACTORY_MASK, FULL_MASK,
};

#[test]
fn shape_full_is_optimal() {
    let s = shape(&[FULL_MASK; 4]);
    assert_eq!(s.cu, 40);
    assert_eq!(s.populated, 4);
    assert_eq!(s.effective_cu, 40);
    assert!(s.empty_arrays.is_empty());
    assert!(!s.unbalanced);
    assert!(s.warnings().is_empty());
}

#[test]
fn shape_skewed_is_flagged_unbalanced() {
    // 4/2/1/1 -> 16 routed CU, but eff = 4 × min(SE0=6, SE1=2) = 8 CU.
    let s = shape(&[0x0f, 0x03, 0x01, 0x01]);
    assert_eq!(s.cu, 16);
    assert_eq!(s.effective_cu, 8);
    assert!(s.unbalanced);
    assert!(s.empty_arrays.is_empty());
    assert!(s.warnings().iter().any(|w| w.contains("unbalanced")));
}

#[test]
fn shape_engine_model_matches_sweep() {
    assert_eq!(shape(&[0x1f, 0x1f, 0x1f, 0x01]).effective_cu, 24); // 5/5/5/1
    assert_eq!(shape(&[0x1f, 0x0f, 0x03, 0x01]).effective_cu, 12); // 5/4/2/1
    assert_eq!(shape(&[0x1f, 0x1f, 0x01, 0x01]).effective_cu, 8); // 5/5/1/1
    assert_eq!(shape(&[0x0f, 0x0f, 0x0f, 0x0f]).effective_cu, 32); // 4/4/4/4
    // The same four arrays {5,5,1,1}: the grouping by engine decides.
    assert_eq!(shape(&[0x1f, 0x01, 0x1f, 0x01]).effective_cu, 24); // 5/1/5/1
    assert!(!shape(&[0x1f, 0x01, 0x1f, 0x01]).unbalanced); // engines even
    assert!(shape(&[0x1f, 0x1f, 0x01, 0x01]).unbalanced); // engines skewed
    assert_eq!(shape(&[0x07, 0x07, 0x07, 0x07]).effective_cu, 24); // 3/3/3/3
}

#[test]
fn shape_two_full_arrays_flags_empty() {
    let s = shape(&[FULL_MASK, 0, FULL_MASK, 0]);
    assert_eq!(s.cu, 20);
    assert_eq!(s.populated, 2);
    assert_eq!(s.effective_cu, 20);
    assert!(!s.unbalanced); // both engines hold 5 WGP
    assert_eq!(s.empty_arrays, vec![1, 3]);
    assert!(s.warnings().iter().any(|w| w.contains("empty")));
}

#[test]
fn shape_all_empty() {
    let s = shape(&[0; 4]);
    assert_eq!(s.cu, 0);
    assert_eq!(s.populated, 0);
    assert_eq!(s.effective_cu, 0);
    assert_eq!(s.empty_arrays, vec![0, 1, 2, 3]);
}

#[test]
fn apply_rejects_empty_array_shape() {
    for masks in [
        [FULL_MASK, 0, FULL_MASK, FULL_MASK],
        [0, 0, 0, 0],
        [FULL_MASK, FULL_MASK, FULL_MASK, 0],
    ] {
        let err = apply(masks).unwrap_err().message();
        assert!(err.contains("empty"), "masks {masks:02x?}: {err}");
    }
}

#[test]
fn empty_array_detection() {
    assert!(has_empty_array(&[FULL_MASK, 0, FULL_MASK, FULL_MASK]));
    assert!(!has_empty_array(&[FACTORY_MASK; 4]));
    assert!(!has_empty_array(&[FULL_MASK; 4]));
    // Only the 5 WGP bits count: 0x20 (bit 5) is not a routed WGP.
    assert!(has_empty_array(&[0x20, FULL_MASK, FULL_MASK, FULL_MASK]));
}

#[test]
fn route_is_written_harvest_first() {
    let w = apply([0x1f, 0x0f, 0x07, 0x03]).unwrap();
    assert_eq!(w.len(), 10);
    assert_eq!(
        w[0],
        RouteWrite {
            reg: RouteReg::Config,
            value: 0,
            bank: None
        }
    );
    assert_eq!(
        *w.last().unwrap(),
        RouteWrite {
            reg: RouteReg::AlwaysOn,
            value: 0x1f,
            bank: None
        }
    );
    assert!(w.contains(&RouteWrite {
        reg: RouteReg::Dispatch,
        value: 0x07,
        bank: Some((1, 0))
    }));
    // Bits above the WGPs are never written.
    assert_eq!(apply_forced([0xff, 0xff, 0xff, 0xff]), enable_all());
}

#[test]
fn standard_routes() {
    assert_eq!(enable_all(), apply([FULL_MASK; 4]).unwrap());
    assert_eq!(factory(), apply([FACTORY_MASK; 4]).unwrap());
    assert_eq!(cu_count(&[FACTORY_MASK; 4]), 24);
    assert_eq!(array_pos(2), (1, 0));
}

#[test]
fn toggling_twice_changes_nothing() {
    let start = [FACTORY_MASK; 4];
    let (once, _) = toggle_wgp(start, 1, 4, false).unwrap();
    assert_eq!(once, [0x07, 0x17, 0x07, 0x07]);
    let (twice, _) = toggle_wgp(once, 1, 4, false).unwrap();
    assert_eq!(twice, start);
    assert!(matches!(
        toggle_wgp(start, 4, 0, true),
        Err(RouteError::OutOfRange { array: 4, wgp: 0 })
    ));
    let lone = [0x1f, 0x01, 0x1f, 0x1f];
    let err = toggle_wgp(lone, 1, 0, false).unwrap_err();
    assert!(err.message().contains("SE0.SH1"));
    assert_eq!(toggle_wgp(lone, 1, 0, true).unwrap().0, [0x1f, 0, 0x1f, 0x1f]);
}

#[test]
fn unsafe_saved_route_falls_back_to_factory() {
    assert_eq!(apply_saved([0x1f; 4]).0, [0x1f; 4]);
    let (masks, writes) = apply_saved([0x1f, 0, 0x1f, 0x1f]);
    assert_eq!(masks, [FACTORY_MASK; 4]);
    assert_eq!(writes, factory());
}

#[test]
fn registers_are_read_from_the_last_arrow() {
    let out = "a => 0x1\ncyan_skillfish.gfx1013.mmSPI_PG_ENABLE_STATIC_WGP_MASK => 0x0000001f\n";
    assert_eq!(parse_read(out).unwrap(), 0x1f);
    assert!(matches!(parse_read("nothing"), Err(RouteError::NoValue)));
    assert!(matches!(parse_read("x => 0xzz"), Err(RouteError::BadHex)));
    assert_eq!(current_masks([0xff, 0x3f, 0x20, 7]), [0x1f, 0x1f, 0, 7]);
}

#[test]
fn tool_arguments() {
    assert_eq!(
        read_args("1", RouteReg::Dispatch, 1, 0),
        vec![
            "-i",
            "1",
            "-b",
            "1",
            "0",
            "x",
            "-r",
            "cyan_skillfish.gfx1013.mmSPI_PG_ENABLE_STATIC_WGP_MASK"
        ]
    );
    let w = RouteWrite {
        reg: RouteReg::Config,
        value: 0x1f,
        bank: Some((0, 1)),
    };
    assert_eq!(
        write_args("1", &w),
        vec![
            "-i",
            "1",
            "-w",
            "cyan_skillfish.gfx1013.mmCC_GC_SHADER_ARRAY_CONFIG",
            "0x0000001f",
            "-b",
            "0",
            "1",
            "0xffffffff"
        ]
    );
    assert_eq!(write_args("1", &RouteWrite { bank: None, ..w }).len(), 5);
}
