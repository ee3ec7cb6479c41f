use katamari_ffi::hook::entry::{DuplicateHook, HookTable, PAGE_COUNT, PAGE_LEN};
use katamari_ffi::hook::{
    fill_with_nops, generate_call, hook_code, patch_code, trampoline_code, TRAMPOLINE_LEN,
};

#[test]
fn nops_of_each_short_length() {
    let expected: [&[u8]; 10] = [
        &[],
        &[0x90],
        &[0x66, 0x90],
        &[0x0f, 0x1f, 0x00],
        &[0x0f, 0x1f, 0x40, 0x00],
        &[0x0f, 0x1f, 0x44, 0x00, 0x00],
        &[0x66, 0x0f, 0x1f, 0x44, 0x00, 0x00],
        &[0x0f, 0x1f, 0x80, 0x00, 0x00, 0x00, 0x00],
        &[0x0f, 0x1f, 0x84, 0x00, 0x00, 0x00, 0x00, 0x00],
        &[0x66, 0x0f, 0x1f, 0x84, 0x00, 0x00, 0x00, 0x00, 0x00],
    ];
    for (n, want) in expected.iter().enumerate() {
        let mut code = vec![0xAAu8; n];
        fill_with_nops(&mut code);
        assert_eq!(&code[..], *want, "length {n}");
    }
}

#[test]
fn long_nop_runs_use_nine_byte_nops_first() {
    let mut code = vec![0u8; 20];
    fill_with_nops(&mut code);
    let nine = [0x66, 0x0f, 0x1f, 0x84, 0x00, 0x00, 0x00, 0x00, 0x00];
    assert_eq!(code.len(), 20);
    assert_eq!(&code[0..9], &nine);
    assert_eq!(&code[9..18], &nine);
    assert_eq!(&code[18..20], &[0x66, 0x90]);
}

#[test]
fn call_forward() {
    let code = generate_call(0x1000, 0x2000).unwrap();
    // displacement = 0x2000 - (0x1000 + 5) = 0xffb
    assert_eq!(code, vec![0xE8, 0xfb, 0x0f, 0x00, 0x00]);
}

#[test]
fn call_backward() {
    let code = generate_call(0x2000, 0x1000).unwrap();
    // displacement = 0x1000 - 0x2005 = -0x1005
    assert_eq!(code, vec![0xE8, 0xfb, 0xef, 0xff, 0xff]);
}

#[test]
fn call_to_itself_end() {
    let code = generate_call(0x5000, 0x5005).unwrap();
    assert_eq!(code, vec![0xE8, 0, 0, 0, 0]);
}

#[test]
fn call_out_of_reach() {
    assert_eq!(generate_call(0x1000, 0x1_0000_1005), None);
    assert_eq!(generate_call(0x1_0000_1000, 0x0), None);
    // the farthest reachable targets
    assert!(generate_call(0x1000, 0x1005 + 0x7fff_ffff).is_some());
    assert!(generate_call(0x1_0000_0000, 0x1_0000_0005 - 0x8000_0000).is_some());
    assert!(generate_call(0x1_0000_0000, 0x1_0000_0004 - 0x8000_0000).is_none());
}

#[test]
fn hook_code_writes_address_into_marker() {
    let template = [0x48, 0xb8, 0xEE, 0xEE, 0xEE, 0xEE, 0xEE, 0xEE, 0xEE, 0xEE, 0xff, 0xe0];
    let code = hook_code(&template, 0x1122_3344_5566_7788);
    assert_eq!(
        code,
        vec![0x48, 0xb8, 0x88, 0x77, 0x66, 0x55, 0x44, 0x33, 0x22, 0x11, 0xff, 0xe0]
    );
}

#[test]
fn hook_code_without_marker_writes_at_start() {
    let template = [0xc3, 1, 2, 3, 4, 5, 6, 7, 8, 9];
    let code = hook_code(&template, 0x0102_0304_0506_0708);
    assert_eq!(code, vec![8, 7, 6, 5, 4, 3, 2, 1, 8, 9]);
}

#[test]
fn patch_is_call_then_nops() {
    let code = patch_code(0x1000, 0x2000, 8).unwrap();
    assert_eq!(code, vec![0xE8, 0xfb, 0x0f, 0x00, 0x00, 0x0f, 0x1f, 0x00]);
    let exact = patch_code(0x1000, 0x2000, 5).unwrap();
    assert_eq!(exact, vec![0xE8, 0xfb, 0x0f, 0x00, 0x00]);
    assert_eq!(patch_code(0x1000, 0x2_0000_0000, 12), None);
}

#[test]
fn trampoline_layout() {
    let code = trampoline_code(0x0011_2233_4455_6677);
    assert_eq!(code.len(), TRAMPOLINE_LEN);
    assert_eq!(&code[0..6], &[0xFF, 0x25, 0x0A, 0, 0, 0]);
    assert!(code[6..16].iter().all(|b| *b == 0xCC));
    assert_eq!(&code[16..24], &[0x77, 0x66, 0x55, 0x44, 0x33, 0x22, 0x11, 0x00]);
    assert!(code[24..32].iter().all(|b| *b == 0xCC));
    // JMP [RIP + 0xA] after the 6-byte instruction reads offset 6 + 0xA = 0x10
    assert_eq!(6 + 0x0A, 16);
}

#[test]
fn hook_table_register_and_lookup() {
    let base = 0x7ff0_0000_0000usize;
    let mut table = HookTable::new(base);
    assert_eq!(table.base(), base);
    assert_eq!(table.target_for(base + 0x1234), None);
    assert_eq!(table.register(base + 0x1234, 0xdead_beef), Ok(()));
    assert_eq!(table.target_for(base + 0x1234), Some(0xdead_beef));
    assert_eq!(table.target_for(base + 0x1235), None);
    assert_eq!(table.register(base + 0x5_0000, 0x42), Ok(()));
    assert_eq!(table.target_for(base + 0x5_0000), Some(0x42));
    assert_eq!(table.target_for(base + 0x1234), Some(0xdead_beef));
}

#[test]
fn hook_table_refuses_duplicates() {
    let base = 0x1000_0000usize;
    let mut table = HookTable::new(base);
    assert_eq!(table.register(base + 0x40, 7), Ok(()));
    assert_eq!(
        table.register(base + 0x40, 9),
        Err(DuplicateHook { offset: 0x40 })
    );
    assert_eq!(table.target_for(base + 0x40), Some(7));
}

#[test]
fn hook_table_outside_range() {
    let base = 0x1000_0000usize;
    let mut table = HookTable::new(base);
    let last = base + PAGE_COUNT * PAGE_LEN - 1;
    assert_eq!(table.register(last, 3), Ok(()));
    assert_eq!(table.target_for(last), Some(3));
    assert_eq!(table.target_for(base - 1), None);
    assert_eq!(table.target_for(last + 1), None);
}
