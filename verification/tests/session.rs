use rvsim::{
    addBreakpoint, clearBreakpoints, getErr, getMem, getRegs, makeSimstate, removeBreakpoint,
    runAmount, setCodeText, step,
};

#[test]
fn scenario_three_instructions() {
    let mut state = makeSimstate();
    setCodeText(&mut state, "ADD x1, x1, x1\nADDI x1, x1, 1\nLW x1, 0(x0)");
    state.regs.file[1] = 3;

    assert!(step(&mut state));
    assert_eq!(getRegs(&state)[1], 6);
    assert!(step(&mut state));
    assert_eq!(getRegs(&state)[1], 7);
    assert!(step(&mut state));
    assert_eq!(getRegs(&state)[1], 0);
}

#[test]
fn fresh_session_is_zeroed() {
    let state = makeSimstate();
    let regs = getRegs(&state);
    assert_eq!(regs.len(), 32);
    assert!(regs.iter().all(|w| *w == 0));
    let mem = getMem(&state);
    assert_eq!(mem.len(), 128);
    assert!(mem.iter().all(|w| *w == 0));
    assert_eq!(getErr(&state), "");
}

#[test]
fn set_code_trims_lines() {
    let mut state = makeSimstate();
    setCodeText(&mut state, "   LI x1, 4  \n\t ADDI x1, x1, 1 \r\n");
    assert!(runAmount(&mut state, 2));
    assert_eq!(getRegs(&state)[1], 5);
}

#[test]
fn run_amount_runs_to_end() {
    let mut state = makeSimstate();
    setCodeText(&mut state, "LI x1, 1\nLI x2, 2\nLI x3, 3");
    assert!(runAmount(&mut state, 100));
    let regs = getRegs(&state);
    assert_eq!(&regs[1..4], &[1, 2, 3]);
}

#[test]
fn breakpoint_stops_before_line() {
    let mut state = makeSimstate();
    setCodeText(&mut state, "LI x1, 1\nLI x2, 2\nLI x3, 3");
    addBreakpoint(&mut state, 1);
    assert!(runAmount(&mut state, 10));
    let regs = getRegs(&state);
    assert_eq!(regs[1], 1);
    assert_eq!(regs[2], 0);
    // resuming from the breakpoint line executes it
    assert!(runAmount(&mut state, 10));
    let regs = getRegs(&state);
    assert_eq!(regs[2], 2);
    assert_eq!(regs[3], 3);
}

#[test]
fn breakpoint_stops_again_after_backward_jump() {
    let mut state = makeSimstate();
    setCodeText(&mut state, "loop:\nADDI x1, x1, 1\nJAL x2, loop");
    addBreakpoint(&mut state, 1);
    assert!(runAmount(&mut state, 10));
    assert_eq!(getRegs(&state)[1], 0);
    assert!(runAmount(&mut state, 10));
    assert_eq!(getRegs(&state)[1], 1);
    assert!(runAmount(&mut state, 10));
    assert_eq!(getRegs(&state)[1], 2);
}

#[test]
fn remove_and_clear_breakpoints() {
    let mut state = makeSimstate();
    setCodeText(&mut state, "LI x1, 1\nLI x2, 2\nLI x3, 3");
    addBreakpoint(&mut state, 1);
    addBreakpoint(&mut state, 2);
    removeBreakpoint(&mut state, 1);
    assert!(runAmount(&mut state, 10));
    let regs = getRegs(&state);
    assert_eq!(regs[1], 1);
    assert_eq!(regs[2], 2);
    assert_eq!(regs[3], 0);
    clearBreakpoints(&mut state);
    assert!(runAmount(&mut state, 10));
    assert_eq!(getRegs(&state)[3], 3);
}

#[test]
fn step_past_end_fails_without_mutation() {
    let mut state = makeSimstate();
    setCodeText(&mut state, "LI x1, 7");
    assert!(step(&mut state));
    let regs_before = getRegs(&state);
    let mem_before = getMem(&state);
    assert!(!step(&mut state));
    assert_eq!(getErr(&state), "Stepped over end of program!");
    assert_eq!(getRegs(&state), regs_before);
    assert_eq!(getMem(&state), mem_before);
}

#[test]
fn error_message_names_line_and_cause() {
    let mut state = makeSimstate();
    setCodeText(&mut state, "LI x1, 4\nMV x2, q7");
    assert!(!runAmount(&mut state, 5));
    assert_eq!(
        getErr(&state),
        "Error on line 1, `MV x2, q7`: \"Could not match register q7\""
    );
    assert_eq!(getRegs(&state)[1], 4);
}

#[test]
fn unresolved_label_reported() {
    let mut state = makeSimstate();
    setCodeText(&mut state, "JAL x1, nowhere");
    assert!(!step(&mut state));
    assert_eq!(
        getErr(&state),
        "Error on line 0, `JAL x1, nowhere`: \"Could not find label nowhere\""
    );
}

#[test]
fn label_table_rebuilt_on_new_text() {
    let mut state = makeSimstate();
    setCodeText(&mut state, "JAL x1, fin\nLI x2, 9\nfin:");
    assert!(runAmount(&mut state, 5));
    assert_eq!(getRegs(&state)[2], 0);
    // replacing the text drops the old label
    let mut state = makeSimstate();
    setCodeText(&mut state, "fin:");
    assert!(step(&mut state));
    setCodeText(&mut state, "JAL x1, fin


");
    state.regs.pc = 0;
    assert!(!step(&mut state));
    assert_eq!(
        getErr(&state),
        "Error on line 0, `JAL x1, fin`: \"Could not find label fin\""
    );
}

#[test]
fn memory_image_in_block_major_order() {
    let mut state = makeSimstate();
    setCodeText(&mut state, "LI x1, 42\nSW x1, 8(x0)\nSW x1, 64(x0)");
    assert!(runAmount(&mut state, 3));
    let mem = getMem(&state);
    assert_eq!(mem[2], 42);
    assert_eq!(mem[16], 42);
}

#[test]
fn unaligned_store_reported_through_session() {
    let mut state = makeSimstate();
    setCodeText(&mut state, "LI x1, 1\nSW x1, 2(x0)");
    assert!(!runAmount(&mut state, 2));
    assert_eq!(
        getErr(&state),
        "Error on line 1, `SW x1, 2(x0)`: \"Tried to write word to unaligned address 0x00000002\""
    );
}

#[test]
fn writes_to_s4_alias_reach_index_29() {
    let mut state = makeSimstate();
    setCodeText(&mut state, "LI s4, 5");
    assert!(step(&mut state));
    let regs = getRegs(&state);
    assert_eq!(regs[29], 5);
    assert_eq!(regs[20], 0);
}

#[test]
fn run_amount_executes_at_most_count_lines() {
    let mut state = makeSimstate();
    setCodeText(&mut state, "LI x1, 1\nLI x2, 2\nLI x3, 3");
    assert!(runAmount(&mut state, 2));
    let regs = getRegs(&state);
    assert_eq!(regs[1], 1);
    assert_eq!(regs[2], 2);
    assert_eq!(regs[3], 0);
}

#[test]
fn run_amount_zero_does_nothing() {
    let mut state = makeSimstate();
    setCodeText(&mut state, "LI x1, 1");
    assert!(runAmount(&mut state, 0));
    assert_eq!(getRegs(&state)[1], 0);
}
