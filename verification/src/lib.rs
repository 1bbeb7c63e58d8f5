#![allow(non_snake_case)]

use vstd::prelude::*;
use vstd::string::StrSliceExecFns;

pub mod errors;
pub mod grammar;
pub mod interpreter;
pub mod memory;
pub mod program;
pub mod text;

use crate::errors::{message_spec, step_error_message, step_error_spec, ErrSpec};
use crate::interpreter::{run, step_spec, Registers};
use crate::memory::{Memory, MoesiState};
use crate::program::{scan_labels, scan_map, Program};
use crate::text::{chars_of, is_space_char, lines_of, nl_end, space_char, split_from, trim_spec,
    trimmed, views_of};

verus! {

/// One live session: a program, a register file and a memory under stepping
/// control, plus the last recorded error message.
pub struct SimState {
    pub program: Program,
    pub regs: Registers,
    pub mem: Memory,
    pub error: String,
}

/// Everything observable about a session, in mathematical form.
#[verifier::ext_equal]
pub ghost struct SimView {
    pub code: Seq<Seq<char>>,
    pub labels: Map<Seq<char>, usize>,
    pub breakpoints: Seq<usize>,
    pub regs: Seq<u32>,
    pub pc: usize,
    pub mem: Seq<u32>,
    pub states: Seq<MoesiState>,
    pub error: Seq<char>,
}

impl View for SimState {
    type V = SimView;

    open spec fn view(&self) -> SimView {
        SimView {
            code: self.program.code_view(),
            labels: self.program.label_map(),
            breakpoints: self.program.breakpoints@,
            regs: self.regs.file@,
            pc: self.regs.pc,
            mem: self.mem.words(),
            states: self.mem.states(),
            error: self.error@,
        }
    }
}

pub open spec fn sim_wf(s: &SimState) -> bool {
    &&& s.regs.wf()
    &&& s.mem.wf()
    &&& s.program.wf()
}

/// `s` with only the recorded error message replaced.
pub open spec fn sv_with_error(s: SimView, e: Seq<char>) -> SimView {
    SimView { error: e, ..s }
}

/// `s` with the machine state after one executed line.
pub open spec fn sv_with_machine(s: SimView, regs: Seq<u32>, pc: usize, mem: Seq<u32>) -> SimView {
    SimView { regs: regs, pc: pc, mem: mem, ..s }
}

/// What a batch of up to `n` steps does, and whether it reports success.
/// A batch stops early, successfully, the moment the current line is a
/// registered breakpoint — except on its very first line; it fails with the
/// end-of-program condition only when already past the end as it starts,
/// and otherwise runs until an error, the program end, or `n` lines.
pub open spec fn run_batch(s: SimView, n: nat, first: bool) -> (SimView, bool)
    decreases n,
{
    if n == 0 {
        (s, true)
    } else if s.pc >= s.code.len() {
        if first {
            (sv_with_error(s, message_spec(ErrSpec::EndOfProgram)), false)
        } else {
            (s, true)
        }
    } else if !first && s.breakpoints.contains(s.pc) {
        (s, true)
    } else {
        match step_spec(s.regs, s.pc, s.mem, s.code, s.labels) {
            Ok(t) => run_batch(
                sv_with_machine(s, t.0, t.1 as usize, t.2),
                (n - 1) as nat,
                false,
            ),
            Err(e) => (sv_with_error(s, step_error_spec(s.pc as int, s.code[s.pc as int], e)), false),
        }
    }
}

/// A fresh session: empty program, zeroed registers and memory, no
/// breakpoints, no error.
pub fn makeSimstate() -> (r: SimState)
    ensures
        sim_wf(&r),
        r@.code.len() == 0,
        r@.labels == Map::<Seq<char>, usize>::empty(),
        r@.breakpoints.len() == 0,
        r@.pc == 0,
        forall|i: int| 0 <= i < crate::interpreter::REG_COUNT ==> r@.regs[i] == 0u32,
        forall|i: int| 0 <= i < crate::memory::TOTAL_WORDS ==> r@.mem[i] == 0u32,
        forall|i: int| 0 <= i < crate::memory::BLOCK_COUNT ==> r@.states[i] == MoesiState::Invalid,
        r@.error.len() == 0,
{
    SimState {
        program: Program::new(),
        regs: Registers::new(),
        mem: Memory::new(),
        error: String::new(),
    }
}

/// Replace the program text: split the text on line feeds, trim each line,
/// and rebuild the label table from the new lines.
pub fn setCodeText(state: &mut SimState, code: &str)
    requires
        sim_wf(old(state)),
    ensures
        sim_wf(final(state)),
        final(state)@ == (SimView {
            code: lines_of(code@),
            labels: scan_map(lines_of(code@)),
            ..old(state)@
        }),
{
    let v = chars_of(code);
    let n = v.len();
    let mut lines: Vec<String> = Vec::new();
    let mut p: usize = 0;
    loop
        invariant_except_break
            p <= n,
            views_of(lines@) + trimmed(split_from(code@, p as int)) == lines_of(code@),
        invariant
            n == v@.len(),
            v@ == code@,
        ensures
            views_of(lines@) == lines_of(code@),
        decreases n - p,
    {
        let mut e = p;
        while e < n && v[e] != '\n'
            invariant
                p <= e <= n,
                n == v@.len(),
                nl_end(v@, p as int) == nl_end(v@, e as int),
            decreases n - e,
        {
            e += 1;
        }
        proof {
            assert(nl_end(code@, p as int) == e);
        }
        let mut lo = p;
        while lo < e && space_char(v[lo])
            invariant
                p <= lo <= e,
                e <= n == v@.len(),
                v@ == code@,
                forall|j: int| p <= j < lo ==> is_space_char(v@[j]),
            decreases e - lo,
        {
            lo += 1;
        }
        let mut hi = e;
        while hi > lo && space_char(v[hi - 1])
            invariant
                lo <= hi <= e,
                e <= n == v@.len(),
                v@ == code@,
                forall|j: int| hi <= j < e ==> is_space_char(v@[j]),
            decreases hi,
        {
            hi -= 1;
        }
        let piece = code.substring_char(lo, hi).to_owned();
        proof {
            let seg = code@.subrange(p as int, e as int);
            assert forall|j: int| 0 <= j < lo - p implies is_space_char(seg[j]) by {
                assert(seg[j] == code@[p + j]);
            }
            if lo < e {
                assert(seg[lo - p] == code@[lo as int]);
            }
            crate::text::lemma_space_end_chars(seg, 0, lo - p);
            assert forall|q: int| hi - p <= q < e - p implies is_space_char(seg[q]) by {
                assert(seg[q] == code@[p + q]);
            }
            if hi > lo {
                assert(seg[hi - p - 1] == code@[hi - 1]);
                crate::text::lemma_rtrim_chars(seg, seg.len() as int, hi - p);
                assert(trim_spec(seg) =~= piece@);
            } else {
                if lo < e {
                    assert(is_space_char(seg[lo - p]));
                    assert(false);
                } else {
                    crate::text::lemma_rtrim_chars(seg, seg.len() as int, 0);
                    assert(trim_spec(seg) =~= piece@);
                }
            }
        }
        lines.push(piece);
        proof {
            if e < n {
                assert(trimmed(split_from(code@, p as int)) =~= seq![
                    trim_spec(code@.subrange(p as int, e as int)),
                ] + trimmed(split_from(code@, e as int + 1)));
            } else {
                assert(trimmed(split_from(code@, p as int)) =~= seq![
                    trim_spec(code@.subrange(p as int, e as int)),
                ]);
            }
            assert(views_of(lines@) =~= views_of(lines@.drop_last()) + seq![piece@]);
        }
        if e >= n {
            proof {
                assert(views_of(lines@) =~= lines_of(code@));
            }
            break ;
        }
        p = e + 1;
        proof {
            assert(views_of(lines@) + trimmed(split_from(code@, p as int)) =~= lines_of(code@));
        }
    }
    state.program.code = lines;
    let _ = scan_labels(&mut state.program);
    proof {
        assert(state@ =~= (SimView {
            code: lines_of(code@),
            labels: scan_map(lines_of(code@)),
            ..old(state)@
        }));
    }
}

/// Register a breakpoint at `line`.
pub fn addBreakpoint(state: &mut SimState, line: usize)
    requires
        sim_wf(old(state)),
    ensures
        sim_wf(final(state)),
        forall|x: usize|
            final(state)@.breakpoints.contains(x) <==> (old(state)@.breakpoints.contains(x) || x
                == line),
        final(state)@ == (SimView { breakpoints: final(state)@.breakpoints, ..old(state)@ }),
{
    state.program.add_breakpoint(line);
}

/// Drop every registered breakpoint.
pub fn clearBreakpoints(state: &mut SimState)
    requires
        sim_wf(old(state)),
    ensures
        sim_wf(final(state)),
        final(state)@.breakpoints.len() == 0,
        final(state)@ == (SimView { breakpoints: final(state)@.breakpoints, ..old(state)@ }),
{
    state.program.clear_breakpoints();
}

/// Remove the breakpoint at `line`, if one is registered.
pub fn removeBreakpoint(state: &mut SimState, line: usize)
    requires
        sim_wf(old(state)),
    ensures
        sim_wf(final(state)),
        forall|x: usize|
            final(state)@.breakpoints.contains(x) <==> (old(state)@.breakpoints.contains(x) && x
                != line),
        final(state)@ == (SimView { breakpoints: final(state)@.breakpoints, ..old(state)@ }),
{
    state.program.remove_breakpoint(line);
}

/// Execute one line: fails with the end-of-program condition when the
/// counter is already at or past the last line, and otherwise performs one
/// step, recording a message naming the line and the cause on any error.
fn run_inner(state: &mut SimState) -> (r: bool)
    requires
        sim_wf(old(state)),
    ensures
        sim_wf(final(state)),
        (if old(state)@.pc >= old(state)@.code.len() {
            r == false && final(state)@ == sv_with_error(
                old(state)@,
                message_spec(ErrSpec::EndOfProgram),
            )
        } else {
            match step_spec(
                old(state)@.regs,
                old(state)@.pc,
                old(state)@.mem,
                old(state)@.code,
                old(state)@.labels,
            ) {
                Ok(t) => r == true && final(state)@ == sv_with_machine(
                    old(state)@,
                    t.0,
                    t.1 as usize,
                    t.2,
                ) && final(state)@.states == old(state)@.states,
                Err(e) => r == false && final(state)@ == sv_with_error(
                    old(state)@,
                    step_error_spec(
                        old(state)@.pc as int,
                        old(state)@.code[old(state)@.pc as int],
                        e,
                    ),
                ),
            }
        }),
{
    if state.regs.pc >= state.program.code.len() {
        state.error = "Stepped over end of program!".to_owned();
        proof {
            assert(state@ =~= sv_with_error(
                old(state)@,
                message_spec(ErrSpec::EndOfProgram),
            ));
        }
        return false;
    }
    let pc0 = state.regs.pc;
    let res = run(&mut state.regs, &mut state.mem, &mut state.program);
    match res {
        Ok(_) => {
            proof {
                let t = step_spec(
                    old(state)@.regs,
                    old(state)@.pc,
                    old(state)@.mem,
                    old(state)@.code,
                    old(state)@.labels,
                )->Ok_0;
                assert(state@ =~= sv_with_machine(old(state)@, t.0, t.1 as usize, t.2));
            }
            true
        },
        Err(e) => {
            let msg = {
                let line = &state.program.code[pc0];
                step_error_message(pc0, line, &e)
            };
            state.error = msg;
            proof {
                assert(state@ =~= sv_with_error(
                    old(state)@,
                    step_error_spec(
                        old(state)@.pc as int,
                        old(state)@.code[old(state)@.pc as int],
                        e@,
                    ),
                ));
            }
            false
        },
    }
}

/// Rebuild the label table, then execute up to `count` lines, stopping
/// early on a breakpoint (except on the batch's first line), on the program
/// end, or on an error.
pub fn runAmount(state: &mut SimState, count: usize) -> (r: bool)
    requires
        sim_wf(old(state)),
    ensures
        sim_wf(final(state)),
        ({
            let s0 = SimView { labels: scan_map(old(state)@.code), ..old(state)@ };
            (final(state)@, r) == run_batch(s0, count as nat, true)
        }),
{
    let _ = scan_labels(&mut state.program);
    let ghost s0 = SimView { labels: scan_map(old(state)@.code), ..old(state)@ };
    proof {
        assert(state@ =~= s0);
    }
    let mut i: usize = 0;
    while i < count
        invariant
            sim_wf(state),
            i <= count,
            s0 == (SimView { labels: scan_map(old(state)@.code), ..old(state)@ }),
            run_batch(s0, count as nat, true) == run_batch(state@, (count - i) as nat, i == 0),
        decreases count - i,
    {
        proof {
            assert(state@.code.len() == state.program.code@.len());
        }
        if state.regs.pc >= state.program.code.len() {
            if i != 0 {
                proof {
                    assert(run_batch(state@, (count - i) as nat, false) == (state@, true));
                }
                return true;
            }
        } else {
            if i != 0 && state.program.has_breakpoint(state.regs.pc) {
                proof {
                    assert(state@.breakpoints.contains(state@.pc));
                    assert(run_batch(state@, (count - i) as nat, false) == (state@, true));
                }
                return true;
            }
        }
        if !run_inner(state) {
            return false;
        }
        i += 1;
    }
    true
}

/// Execute exactly one line; equivalent to a batch of one.
pub fn step(state: &mut SimState) -> (r: bool)
    requires
        sim_wf(old(state)),
    ensures
        sim_wf(final(state)),
        ({
            let s0 = SimView { labels: scan_map(old(state)@.code), ..old(state)@ };
            (final(state)@, r) == run_batch(s0, 1nat, true)
        }),
{
    runAmount(state, 1)
}

/// The full register file, in index order.
pub fn getRegs(state: &SimState) -> (r: Vec<u32>)
    ensures
        r@ == state@.regs,
{
    let mut r: Vec<u32> = Vec::new();
    let n = state.regs.file.len();
    while r.len() < n
        invariant
            n == state.regs.file@.len(),
            r@.len() <= n,
            r@ == state.regs.file@.subrange(0, r@.len() as int),
        decreases n - r@.len(),
    {
        let w = state.regs.file[r.len()];
        r.push(w);
        proof {
            assert(r@ =~= state.regs.file@.subrange(0, r@.len() as int));
        }
    }
    proof {
        assert(r@ =~= state.regs.file@);
    }
    r
}

/// The full memory image, words in block-major order.
pub fn getMem(state: &SimState) -> (r: Vec<u32>)
    requires
        sim_wf(state),
    ensures
        r@ == state@.mem,
{
    let mut r: Vec<u32> = Vec::new();
    let mut b: usize = 0;
    while b < crate::memory::BLOCK_COUNT
        invariant
            sim_wf(state),
            b <= crate::memory::BLOCK_COUNT,
            r@.len() == b * crate::memory::WORDS_PER_BLOCK,
            forall|k: int| 0 <= k < r@.len() ==> r@[k] == state@.mem[k],
        decreases crate::memory::BLOCK_COUNT - b,
    {
        let mut w: usize = 0;
        while w < crate::memory::WORDS_PER_BLOCK
            invariant
                sim_wf(state),
                b < crate::memory::BLOCK_COUNT,
                w <= crate::memory::WORDS_PER_BLOCK,
                r@.len() == b * crate::memory::WORDS_PER_BLOCK + w,
                forall|k: int| 0 <= k < r@.len() ==> r@[k] == state@.mem[k],
            decreases crate::memory::WORDS_PER_BLOCK - w,
        {
            let x = state.mem.file[b].data[w];
            proof {
                let k = r@.len() as int;
                assert(k == b * 16 + w);
                assert(k / 16 == b && k % 16 == w) by (nonlinear_arith)
                    requires
                        k == b * 16 + w,
                        0 <= w < 16,
                        b >= 0,
                ;
            }
            r.push(x);
            w += 1;
        }
        b += 1;
    }
    proof {
        assert(r@ =~= state@.mem);
    }
    r
}

/// The last recorded error message; empty while none has been recorded.
pub fn getErr(state: &SimState) -> (r: String)
    ensures
        r@ == state@.error,
{
    state.error.clone()
}

/// The per-block coherence tags are stored but never transitioned: no batch
/// of steps changes them.
pub proof fn lemma_coherence_tags_inert(s: SimView, n: nat, first: bool)
    ensures
        run_batch(s, n, first).0.states == s.states,
    decreases n,
{
    if n > 0 && s.pc < s.code.len() && !(!first && s.breakpoints.contains(s.pc)) {
        match step_spec(s.regs, s.pc, s.mem, s.code, s.labels) {
            Ok(t) => {
                lemma_coherence_tags_inert(
                    sv_with_machine(s, t.0, t.1 as usize, t.2),
                    (n - 1) as nat,
                    false,
                );
            },
            Err(_) => {},
        }
    }
}

/// A batch that continues past its first line stops, successfully and with
/// nothing executed, the moment the current line is a registered
/// breakpoint — in particular every time a jump brings that line back.
pub proof fn lemma_breakpoint_stops_batch(s: SimView, n: nat)
    requires
        n > 0,
        s.pc < s.code.len(),
        s.breakpoints.contains(s.pc),
    ensures
        run_batch(s, n, false) == (s, true),
{
}

/// A batch started at or past the last line fails with the end-of-program
/// condition, and only the recorded message changes.
pub proof fn lemma_step_past_end_fails(s: SimView, n: nat)
    requires
        n > 0,
        s.pc >= s.code.len(),
    ensures
        run_batch(s, n, true) == (sv_with_error(s, message_spec(ErrSpec::EndOfProgram)), false),
        run_batch(s, n, true).0.regs == s.regs,
        run_batch(s, n, true).0.pc == s.pc,
        run_batch(s, n, true).0.mem == s.mem,
{
}

} // verus!
