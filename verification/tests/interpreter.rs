use rvsim::errors::ExecError;
use rvsim::interpreter::{immed, reg, run, Registers};
use rvsim::memory::Memory;
use rvsim::program::{scan_labels, Program};

#[test]
fn test_interpret() {
    let mut regs = Registers::new();
    let mut mem = Memory::new();
    let mut program = Program::new();
    program.code = vec![
        "ADD x1, x1, x1".to_owned(),
        "ADDI x1, x1, 1".to_owned(),
        "LW x1, 0(x0)".to_owned(),
    ];
    regs.file[1] = 3;

    run(&mut regs, &mut mem, &mut program).unwrap();
    assert_eq!(regs.file[1], 6);

    run(&mut regs, &mut mem, &mut program).unwrap();
    assert_eq!(regs.file[1], 7);

    run(&mut regs, &mut mem, &mut program).unwrap();
    assert_eq!(regs.file[1], 0);
}

#[test]
fn resolver_aliases() {
    assert_eq!(reg("x0").unwrap(), 0);
    assert_eq!(reg("zero").unwrap(), 0);
    assert_eq!(reg("ra").unwrap(), 1);
    assert_eq!(reg("sp").unwrap(), 2);
    assert_eq!(reg("fp").unwrap(), 8);
    assert_eq!(reg("s0").unwrap(), 8);
    assert_eq!(reg("a7").unwrap(), 17);
    assert_eq!(reg("s11").unwrap(), 27);
    assert_eq!(reg("x27").unwrap(), 27);
}

#[test]
fn resolver_s4_outlier() {
    // the alias table maps both `x20` and `s4` to index 29
    assert_eq!(reg("s4").unwrap(), 29);
    assert_eq!(reg("x20").unwrap(), 29);
}

#[test]
fn resolver_unknown_register() {
    let e = reg("q7").unwrap_err();
    assert_eq!(e.message(), "Could not match register q7");
    assert!(reg("x28").is_err());
    assert!(reg("x31").is_err());
}

#[test]
fn immediates_parse() {
    assert_eq!(immed("0").unwrap(), 0);
    assert_eq!(immed("-42").unwrap(), -42);
    assert_eq!(immed("2147483647").unwrap(), 2147483647);
    assert_eq!(immed("-2147483648").unwrap(), -2147483648);
}

#[test]
fn immediates_rejected() {
    assert!(immed("2147483648").is_err());
    assert!(immed("-2147483649").is_err());
    assert!(immed("99999999999999999999").is_err());
    let e = immed("12ab").unwrap_err();
    assert_eq!(e.message(), "Could not convert immed `12ab` to integer");
    assert!(immed("").is_err());
    assert!(immed("-").is_err());
}

#[test]
fn memory_round_trip() {
    let mut mem = Memory::new();
    mem.write32(8, 0xDEAD_BEEF).unwrap();
    assert_eq!(mem.read32(8).unwrap(), 0xDEAD_BEEF);
    mem.write32(0, 7).unwrap();
    assert_eq!(mem.read32(0).unwrap(), 7);
    assert_eq!(mem.read32(8).unwrap(), 0xDEAD_BEEF);
    // last valid word
    mem.write32(508, 1).unwrap();
    assert_eq!(mem.read32(508).unwrap(), 1);
}

#[test]
fn memory_unaligned() {
    let mut mem = Memory::new();
    let e = mem.read32(2).unwrap_err();
    assert_eq!(
        e.message(),
        "Tried to read word from unaligned address 0x00000002"
    );
    let e = mem.write32(511, 3).unwrap_err();
    assert_eq!(
        e.message(),
        "Tried to write word to unaligned address 0x000001FF"
    );
}

#[test]
fn memory_out_of_bounds() {
    let mut mem = Memory::new();
    let e = mem.read32(512).unwrap_err();
    assert_eq!(
        e.message(),
        "Tried to read word from unmapped address 0x00000200"
    );
    let e = mem.write32(1024, 3).unwrap_err();
    assert_eq!(
        e.message(),
        "Tried to write word to unmapped address 0x00000400"
    );
}

#[test]
fn register_zero_erased_after_write() {
    let mut regs = Registers::new();
    let mut mem = Memory::new();
    let mut program = Program::new();
    program.code = vec!["LI x0, 5".to_owned(), "ADD x0, x1, x1".to_owned()];
    regs.file[1] = 9;
    run(&mut regs, &mut mem, &mut program).unwrap();
    assert_eq!(regs.file[0], 0);
    run(&mut regs, &mut mem, &mut program).unwrap();
    assert_eq!(regs.file[0], 0);
}

#[test]
fn arithmetic_wraps() {
    let mut regs = Registers::new();
    let mut mem = Memory::new();
    let mut program = Program::new();
    program.code = vec![
        "ADDI x1, x1, 1".to_owned(),   // x1 = 0xFFFFFFFF + 1 wraps to 0
        "SUBI x2, x2, 1".to_owned(),   // x2 = 0 - 1 wraps to 0xFFFFFFFF
        "MUL x3, x2, x2".to_owned(),   // (2^32 - 1)^2 mod 2^32 = 1
        "ADD x4, x2, x2".to_owned(),   // wraps to 0xFFFFFFFE
    ];
    regs.file[1] = 0xFFFF_FFFF;
    for _ in 0..4 {
        run(&mut regs, &mut mem, &mut program).unwrap();
    }
    assert_eq!(regs.file[1], 0);
    assert_eq!(regs.file[2], 0xFFFF_FFFF);
    assert_eq!(regs.file[3], 1);
    assert_eq!(regs.file[4], 0xFFFF_FFFE);
}

#[test]
fn logic_and_shifts() {
    let mut regs = Registers::new();
    let mut mem = Memory::new();
    let mut program = Program::new();
    program.code = vec![
        "LI x1, 12".to_owned(),
        "LI x2, 10".to_owned(),
        "AND x3, x1, x2".to_owned(),
        "OR x4, x1, x2".to_owned(),
        "XOR x5, x1, x2".to_owned(),
        "SLLI x6, x1, 2".to_owned(),
        "SLRI x7, x1, 2".to_owned(),
        "LI x8, 1".to_owned(),
        "SLL x9, x8, x6".to_owned(),
    ];
    for _ in 0..program.code.len() {
        run(&mut regs, &mut mem, &mut program).unwrap();
    }
    assert_eq!(regs.file[3], 8);
    assert_eq!(regs.file[4], 14);
    assert_eq!(regs.file[5], 6);
    assert_eq!(regs.file[6], 48);
    assert_eq!(regs.file[7], 3);
    assert_eq!(regs.file[9], 1u32.wrapping_shl(48));
}

#[test]
fn mv_and_li() {
    let mut regs = Registers::new();
    let mut mem = Memory::new();
    let mut program = Program::new();
    program.code = vec!["LI x1, -7".to_owned(), "MV x2, x1".to_owned()];
    run(&mut regs, &mut mem, &mut program).unwrap();
    run(&mut regs, &mut mem, &mut program).unwrap();
    assert_eq!(regs.file[1], (-7i32) as u32);
    assert_eq!(regs.file[2], (-7i32) as u32);
}

#[test]
fn store_then_load_round_trip() {
    let mut regs = Registers::new();
    let mut mem = Memory::new();
    let mut program = Program::new();
    program.code = vec![
        "LI x1, 42".to_owned(),
        "SW x1, 8(x0)".to_owned(),
        "LW x2, 8(x0)".to_owned(),
    ];
    run(&mut regs, &mut mem, &mut program).unwrap();
    run(&mut regs, &mut mem, &mut program).unwrap();
    run(&mut regs, &mut mem, &mut program).unwrap();
    assert_eq!(regs.file[2], 42);
    assert_eq!(mem.read32(8).unwrap(), 42);
}

#[test]
fn jal_and_labels() {
    let mut regs = Registers::new();
    let mut mem = Memory::new();
    let mut program = Program::new();
    program.code = vec![
        "JAL x1, end".to_owned(),
        "LI x2, 5".to_owned(),
        "end:".to_owned(),
    ];
    scan_labels(&mut program).unwrap();
    run(&mut regs, &mut mem, &mut program).unwrap();
    assert_eq!(regs.pc, 2);
    assert_eq!(regs.file[1], 1);
    assert_eq!(regs.file[2], 0);
}

#[test]
fn jal_unresolved_label() {
    let mut regs = Registers::new();
    let mut mem = Memory::new();
    let mut program = Program::new();
    program.code = vec!["JAL x1, nowhere".to_owned()];
    scan_labels(&mut program).unwrap();
    let e = run(&mut regs, &mut mem, &mut program).unwrap_err();
    assert_eq!(e.message(), "Could not find label nowhere");
    // nothing was written before the failure surfaced
    assert_eq!(regs.file[1], 0);
    assert_eq!(regs.pc, 0);
}

#[test]
fn jalr_jumps_and_links() {
    let mut regs = Registers::new();
    let mut mem = Memory::new();
    let mut program = Program::new();
    program.code = vec![
        "JALR x2, x1, 3".to_owned(),
        "".to_owned(),
        "".to_owned(),
        "".to_owned(),
    ];
    run(&mut regs, &mut mem, &mut program).unwrap();
    assert_eq!(regs.pc, 3);
    assert_eq!(regs.file[2], 1);
}

#[test]
fn label_line_with_trailing_text_is_marker() {
    let mut regs = Registers::new();
    let mut mem = Memory::new();
    let mut program = Program::new();
    program.code = vec!["foo: ADD x1, x1, x1".to_owned()];
    regs.file[1] = 3;
    run(&mut regs, &mut mem, &mut program).unwrap();
    assert_eq!(regs.file[1], 3);
    assert_eq!(regs.pc, 1);
}

#[test]
fn unknown_operator() {
    let mut regs = Registers::new();
    let mut mem = Memory::new();
    let mut program = Program::new();
    program.code = vec!["FOO x1, x2".to_owned()];
    let e = run(&mut regs, &mut mem, &mut program).unwrap_err();
    assert_eq!(e.message(), "Could not match operator FOO");
}

#[test]
fn shape_mismatch_messages() {
    let mut regs = Registers::new();
    let mut mem = Memory::new();
    let mut program = Program::new();
    program.code = vec![
        "ADD x1, x2".to_owned(),
        "ADDI x1, x2".to_owned(),
        "MV x1".to_owned(),
        "LW x1, 0".to_owned(),
    ];
    let e = run(&mut regs, &mut mem, &mut program).unwrap_err();
    assert_eq!(
        e.message(),
        "Could not match r-type fields: <OP> <RD>, <RS1>, <RS2>"
    );
    regs.pc = 1;
    let e = run(&mut regs, &mut mem, &mut program).unwrap_err();
    assert_eq!(
        e.message(),
        "Could not match i-type fields: <OP> <RD>, <RS1>, <IMM>"
    );
    regs.pc = 2;
    let e = run(&mut regs, &mut mem, &mut program).unwrap_err();
    assert_eq!(e.message(), "Could not match mv-type fields: <OP> <RD>, <RS>");
    regs.pc = 3;
    let e = run(&mut regs, &mut mem, &mut program).unwrap_err();
    assert_eq!(
        e.message(),
        "Could not match l/s-type fields: <OP> <RD>, <OFFS>(<RA>)"
    );
}

#[test]
fn empty_line_is_noop() {
    let mut regs = Registers::new();
    let mut mem = Memory::new();
    let mut program = Program::new();
    program.code = vec!["".to_owned()];
    run(&mut regs, &mut mem, &mut program).unwrap();
    assert_eq!(regs.pc, 1);
    assert!(regs.file.iter().all(|w| *w == 0));
}

#[test]
fn errors_expose_kinds() {
    let mut mem = Memory::new();
    assert!(matches!(
        mem.read32(2),
        Err(ExecError::UnalignedAccess(_, 2))
    ));
    assert!(matches!(mem.read32(512), Err(ExecError::OutOfBounds(_, 512))));
}
