use arieltune::compute::{
    compute_queue_family, dispatch, find_mem, host_mem, pick_device, prepare, BufSpec,
    DispatchError, Readback, MAX_PUSH_BYTES,
};

#[test]
fn dispatch_rejects_bad_input() {
    // empty SPIR-V
    assert!(dispatch(&[], [1, 1, 1], &[], &[BufSpec::scratch(16)]).is_err());
    // SPIR-V not a multiple of 4
    assert!(dispatch(&[1, 2, 3], [1, 1, 1], &[], &[BufSpec::scratch(16)]).is_err());
    // no buffers
    assert!(dispatch(&[0, 0, 0, 0], [1, 1, 1], &[], &[]).is_err());
    // oversized push
    let big = vec![0u8; MAX_PUSH_BYTES + 4];
    assert!(dispatch(&[0, 0, 0, 0], [1, 1, 1], &big, &[BufSpec::scratch(16)]).is_err());
    // upload larger than the buffer
    let over = BufSpec {
        bytes: 4,
        upload: Some(vec![0u8; 8]),
        readback: false,
    };
    assert!(dispatch(&[0, 0, 0, 0], [1, 1, 1], &[], &[over]).is_err());
}

#[test]
fn bufspec_helpers() {
    let s = BufSpec::scratch(64);
    assert_eq!(s.bytes, 64);
    assert!(s.upload.is_none());
    assert!(!s.readback);

    let io = BufSpec::io(vec![1, 2, 3, 4]);
    assert_eq!(io.bytes, 4);
    assert!(io.readback);
}

fn ok_buffers() -> Vec<BufSpec> {
    vec![BufSpec::io(vec![1, 2, 3, 4])]
}

#[test]
fn each_fault_has_its_error() {
    let code = [0u8; 4];
    assert_eq!(
        dispatch(&[], [1, 1, 1], &[], &ok_buffers()),
        Err(DispatchError::EmptySpirv)
    );
    assert_eq!(
        dispatch(&[1, 2, 3], [1, 1, 1], &[], &ok_buffers()),
        Err(DispatchError::OddSpirv { len: 3 })
    );
    assert_eq!(
        dispatch(&code, [1, 1, 1], &[], &[]),
        Err(DispatchError::NoBuffer)
    );
    assert_eq!(
        dispatch(&code, [1, 70_000, 1], &[], &ok_buffers()),
        Err(DispatchError::TooManyGroups {
            dim: 1,
            groups: 70_000
        })
    );
    assert_eq!(
        dispatch(&code, [1, 1, 1], &[], &[BufSpec::scratch(0)]),
        Err(DispatchError::EmptyBuffer { index: 0 })
    );
    assert!(matches!(
        dispatch(&code, [1, 1, 1], &[], &[BufSpec::scratch(u64::MAX)]),
        Err(DispatchError::BufferTooLarge { index: 0, .. })
    ));
    assert!(dispatch(&code, [1, 1, 1], &[0; 8], &ok_buffers()).is_ok());
    assert!(!DispatchError::NoBuffer.message().is_empty());
}

#[test]
fn shader_is_read_in_either_byte_order() {
    let le = [0x03, 0x02, 0x23, 0x07, 0x01, 0x02, 0x03, 0x04];
    let be = [0x07, 0x23, 0x02, 0x03, 0x04, 0x03, 0x02, 0x01];
    let want = vec![0x0723_0203, 0x0403_0201];
    assert_eq!(prepare(&le, &[]).unwrap().code, want);
    assert_eq!(prepare(&be, &[]).unwrap().code, want);
    assert!(matches!(
        prepare(&[0, 0, 0, 0], &[]),
        Err(DispatchError::BadSpirv)
    ));
    assert!(matches!(prepare(&le[..7], &[]), Err(DispatchError::BadSpirv)));
    assert!(matches!(prepare(&[], &[]), Err(DispatchError::BadSpirv)));
}

#[test]
fn push_constants_are_whole_words() {
    let le = [0x03, 0x02, 0x23, 0x07];
    assert_eq!(
        prepare(&le, &[1, 2, 3, 4, 5]).unwrap().push,
        vec![1, 2, 3, 4, 5, 0, 0, 0]
    );
    assert!(prepare(&le, &[]).unwrap().push.is_empty());
    assert_eq!(prepare(&le, &[9; 4]).unwrap().push, vec![9; 4]);
}

#[test]
fn coherent_memory_is_preferred() {
    // host visible is 2, host coherent is 4
    assert_eq!(host_mem(&vec![1, 2, 6], 0b111), Some(2));
    assert_eq!(host_mem(&vec![1, 2, 6], 0b011), Some(1));
    assert_eq!(host_mem(&vec![1], 0b1), None);
    assert_eq!(find_mem(&vec![1, 1], 0b10, 1), Some(1));
}

#[test]
fn real_devices_come_first() {
    let names = |v: &[&str]| v.iter().map(|s| s.to_string()).collect::<Vec<String>>();
    assert_eq!(pick_device(&names(&["llvmpipe", "AMD BC-250"])), Some(1));
    assert_eq!(pick_device(&names(&["llvmpipe"])), Some(0));
    assert_eq!(pick_device(&vec![]), None);
    assert_eq!(compute_queue_family(&vec![1, 4, 2]), Some(2));
    assert_eq!(compute_queue_family(&vec![4]), None);
}

#[test]
fn first_readback_is_found() {
    let r = Readback {
        buffers: vec![None, Some(vec![1]), Some(vec![2])],
    };
    assert_eq!(r.first(), Some(&vec![1]));
    assert_eq!(Readback { buffers: vec![None] }.first(), None);
}

#[test]
fn buffers_start_with_their_contents_and_zeroes() {
    let b = BufSpec {
        bytes: 5,
        upload: Some(vec![1, 2, 3]),
        readback: false,
    };
    assert_eq!(b.initial(), vec![1, 2, 3, 0, 0]);
    assert_eq!(BufSpec::scratch(3).initial(), vec![0; 3]);
    let specs = [BufSpec::scratch(1), BufSpec::io(vec![7])];
    let r = Readback::new(&specs, vec![vec![1], vec![2]]);
    assert_eq!(r.buffers, vec![None, Some(vec![2])]);
}
