use vstd::prelude::*;
use vstd::string::StrSliceExecFns;

use crate::errors::{ErrSpec, ExecError, ShapeKind};
use crate::grammar::{
    find_i, find_j, find_label, find_li, find_ls, find_r, i_match, j_match, label_match, li_match,
    ls_match, r_match,
};
use crate::memory::{read32_spec, write32_spec, Memory};
use crate::program::{lookup_label, Program};
use crate::text::{chars_of, is_digit_char, str_eq};

verus! {

pub const REG_COUNT: usize = 32;

/// The register file: thirty-two 32-bit words plus the program counter.
/// Slot 0 is forced back to zero after every executed line.
pub struct Registers {
    pub file: Vec<u32>,
    pub pc: usize,
}

impl Registers {
    pub open spec fn wf(&self) -> bool {
        self.file@.len() == REG_COUNT
    }

    pub fn new() -> (r: Registers)
        ensures
            r.wf(),
            r.pc == 0,
            forall|i: int| 0 <= i < REG_COUNT ==> r.file@[i] == 0u32,
    {
        let mut file: Vec<u32> = Vec::new();
        while file.len() < REG_COUNT
            invariant
                file@.len() <= REG_COUNT,
                forall|i: int| 0 <= i < file@.len() ==> file@[i] == 0u32,
            decreases REG_COUNT - file@.len(),
        {
            file.push(0u32);
        }
        Registers { file, pc: 0 }
    }
}

/// The fixed register alias table: numeric names `x0` to `x27` and the
/// calling-convention aliases.  `s4` maps to index 29 in this table, apart
/// from its neighbours.
pub open spec fn reg_index(name: Seq<char>) -> Option<usize> {
    if name == "x0"@ || name == "zero"@ {
        Some(0usize)
    } else if name == "x1"@ || name == "ra"@ {
        Some(1usize)
    } else if name == "x2"@ || name == "sp"@ {
        Some(2usize)
    } else if name == "x3"@ || name == "gp"@ {
        Some(3usize)
    } else if name == "x4"@ || name == "tp"@ {
        Some(4usize)
    } else if name == "x5"@ || name == "t0"@ {
        Some(5usize)
    } else if name == "x6"@ || name == "t1"@ {
        Some(6usize)
    } else if name == "x7"@ || name == "t2"@ {
        Some(7usize)
    } else if name == "x8"@ || name == "s0"@ || name == "fp"@ {
        Some(8usize)
    } else if name == "x9"@ || name == "s1"@ {
        Some(9usize)
    } else if name == "x10"@ || name == "a0"@ {
        Some(10usize)
    } else if name == "x11"@ || name == "a1"@ {
        Some(11usize)
    } else if name == "x12"@ || name == "a2"@ {
        Some(12usize)
    } else if name == "x13"@ || name == "a3"@ {
        Some(13usize)
    } else if name == "x14"@ || name == "a4"@ {
        Some(14usize)
    } else if name == "x15"@ || name == "a5"@ {
        Some(15usize)
    } else if name == "x16"@ || name == "a6"@ {
        Some(16usize)
    } else if name == "x17"@ || name == "a7"@ {
        Some(17usize)
    } else if name == "x18"@ || name == "s2"@ {
        Some(18usize)
    } else if name == "x19"@ || name == "s3"@ {
        Some(19usize)
    } else if name == "x20"@ || name == "s4"@ {
        Some(29usize)
    } else if name == "x21"@ || name == "s5"@ {
        Some(21usize)
    } else if name == "x22"@ || name == "s6"@ {
        Some(22usize)
    } else if name == "x23"@ || name == "s7"@ {
        Some(23usize)
    } else if name == "x24"@ || name == "s8"@ {
        Some(24usize)
    } else if name == "x25"@ || name == "s9"@ {
        Some(25usize)
    } else if name == "x26"@ || name == "s10"@ {
        Some(26usize)
    } else if name == "x27"@ || name == "s11"@ {
        Some(27usize)
    } else {
        None
    }
}

/// Resolve a register mnemonic or alias to its index in the register file.
pub fn reg(name: &str) -> (r: Result<usize, ExecError>)
    ensures
        (match reg_index(name@) {
            Some(i) => r == Ok::<usize, ExecError>(i) && i < REG_COUNT,
            None => r matches Err(e) && e@ == ErrSpec::UnknownRegister(name@),
        }),
{
    if str_eq(name, "x0") || str_eq(name, "zero") {
        Ok(0)
    } else if str_eq(name, "x1") || str_eq(name, "ra") {
        Ok(1)
    } else if str_eq(name, "x2") || str_eq(name, "sp") {
        Ok(2)
    } else if str_eq(name, "x3") || str_eq(name, "gp") {
        Ok(3)
    } else if str_eq(name, "x4") || str_eq(name, "tp") {
        Ok(4)
    } else if str_eq(name, "x5") || str_eq(name, "t0") {
        Ok(5)
    } else if str_eq(name, "x6") || str_eq(name, "t1") {
        Ok(6)
    } else if str_eq(name, "x7") || str_eq(name, "t2") {
        Ok(7)
    } else if str_eq(name, "x8") || str_eq(name, "s0") || str_eq(name, "fp") {
        Ok(8)
    } else if str_eq(name, "x9") || str_eq(name, "s1") {
        Ok(9)
    } else if str_eq(name, "x10") || str_eq(name, "a0") {
        Ok(10)
    } else if str_eq(name, "x11") || str_eq(name, "a1") {
        Ok(11)
    } else if str_eq(name, "x12") || str_eq(name, "a2") {
        Ok(12)
    } else if str_eq(name, "x13") || str_eq(name, "a3") {
        Ok(13)
    } else if str_eq(name, "x14") || str_eq(name, "a4") {
        Ok(14)
    } else if str_eq(name, "x15") || str_eq(name, "a5") {
        Ok(15)
    } else if str_eq(name, "x16") || str_eq(name, "a6") {
        Ok(16)
    } else if str_eq(name, "x17") || str_eq(name, "a7") {
        Ok(17)
    } else if str_eq(name, "x18") || str_eq(name, "s2") {
        Ok(18)
    } else if str_eq(name, "x19") || str_eq(name, "s3") {
        Ok(19)
    } else if str_eq(name, "x20") || str_eq(name, "s4") {
        Ok(29)
    } else if str_eq(name, "x21") || str_eq(name, "s5") {
        Ok(21)
    } else if str_eq(name, "x22") || str_eq(name, "s6") {
        Ok(22)
    } else if str_eq(name, "x23") || str_eq(name, "s7") {
        Ok(23)
    } else if str_eq(name, "x24") || str_eq(name, "s8") {
        Ok(24)
    } else if str_eq(name, "x25") || str_eq(name, "s9") {
        Ok(25)
    } else if str_eq(name, "x26") || str_eq(name, "s10") {
        Ok(26)
    } else if str_eq(name, "x27") || str_eq(name, "s11") {
        Ok(27)
    } else {
        Err(ExecError::UnknownRegister(name.to_owned()))
    }
}

pub open spec fn digit_val(c: char) -> int {
    c as u32 - 48
}

/// The value of a digit string read in base ten.
pub open spec fn digits_val(s: Seq<char>) -> int
    decreases s.len(),
{
    if s.len() == 0 {
        0
    } else {
        digits_val(s.drop_last()) * 10 + digit_val(s.last())
    }
}

pub open spec fn all_digits(s: Seq<char>) -> bool {
    forall|i: int| 0 <= i < s.len() ==> is_digit_char(s[i])
}

/// The signed decimal integer a token denotes: an optional sign, then one or
/// more digits, the whole value fitting a 32-bit signed word.
pub open spec fn parse_i32_spec(s: Seq<char>) -> Option<i32> {
    if s.len() == 0 {
        None
    } else {
        let neg = s[0] == '-';
        let ds = if s[0] == '-' || s[0] == '+' {
            s.subrange(1, s.len() as int)
        } else {
            s
        };
        if ds.len() == 0 || !all_digits(ds) {
            None
        } else {
            let v = if neg {
                -digits_val(ds)
            } else {
                digits_val(ds)
            };
            if i32::MIN <= v <= i32::MAX {
                Some(v as i32)
            } else {
                None
            }
        }
    }
}

proof fn lemma_digits_val_nonneg(s: Seq<char>)
    requires
        all_digits(s),
    ensures
        digits_val(s) >= 0,
    decreases s.len(),
{
    if s.len() > 0 {
        assert(is_digit_char(s.last()));
        lemma_digits_val_nonneg(s.drop_last());
    }
}

proof fn lemma_digits_val_prefix(s: Seq<char>, j: int)
    requires
        all_digits(s),
        0 <= j <= s.len(),
    ensures
        digits_val(s.subrange(0, j)) <= digits_val(s),
    decreases s.len(),
{
    if j == s.len() {
        assert(s.subrange(0, j) =~= s);
    } else {
        let d = s.drop_last();
        assert(d =~= s.subrange(0, s.len() - 1));
        assert(d.subrange(0, j) =~= s.subrange(0, j));
        lemma_digits_val_prefix(d, j);
        lemma_digits_val_nonneg(d);
        assert(is_digit_char(s.last()));
    }
}

/// Parse an immediate token as a signed 32-bit decimal integer.
pub fn immed(field: &str) -> (r: Result<i32, ExecError>)
    ensures
        (match parse_i32_spec(field@) {
            Some(v) => r == Ok::<i32, ExecError>(v),
            None => r matches Err(e) && e@ == ErrSpec::InvalidImmediate(field@),
        }),
{
    let v = chars_of(field);
    let n = v.len();
    if n == 0 {
        return Err(ExecError::InvalidImmediate(field.to_owned()));
    }
    let c0 = v[0];
    let neg = c0 == '-';
    let start: usize = if c0 == '-' || c0 == '+' {
        1
    } else {
        0
    };
    let ghost ds = if start == 1 {
        field@.subrange(1, field@.len() as int)
    } else {
        field@
    };
    if start >= n {
        proof {
            assert(ds.len() == 0);
        }
        return Err(ExecError::InvalidImmediate(field.to_owned()));
    }
    let mut acc: u64 = 0;
    let mut i = start;
    proof {
        assert(ds.subrange(0, 0) =~= Seq::<char>::empty());
    }
    while i < n
        invariant
            n == v@.len(),
            v@ == field@,
            start <= i <= n,
            start < n,
            start == 1 || start == 0,
            (start == 1) == (field@[0] == '-' || field@[0] == '+'),
            neg == (field@[0] == '-'),
            ds == (if start == 1 {
                field@.subrange(1, n as int)
            } else {
                field@
            }),
            all_digits(ds.subrange(0, i - start)),
            acc == digits_val(ds.subrange(0, i - start)),
            acc <= 0xFFFF_FFFFu64 * 10 + 9,
        decreases n - i,
    {
        let c = v[i];
        proof {
            assert(ds[i - start] == field@[i as int]);
        }
        if !crate::text::digit_char(c) {
            proof {
                assert(!is_digit_char(ds[i - start]));
            }
            return Err(ExecError::InvalidImmediate(field.to_owned()));
        }
        if acc > 0xFFFF_FFFFu64 {
            proof {
                if all_digits(ds) {
                    lemma_digits_val_prefix(ds, i - start);
                    lemma_digits_val_nonneg(ds);
                }
            }
            return Err(ExecError::InvalidImmediate(field.to_owned()));
        }
        let d = ((c as u32) - 48) as u64;
        acc = acc * 10 + d;
        proof {
            let k = i - start;
            assert(ds.subrange(0, k + 1).drop_last() =~= ds.subrange(0, k));
            assert(ds.subrange(0, k + 1).last() == ds[k]);
        }
        i += 1;
    }
    proof {
        assert(ds.subrange(0, n - start) =~= ds);
    }
    if neg {
        if acc > 0x8000_0000u64 {
            return Err(ExecError::InvalidImmediate(field.to_owned()));
        }
        let m = -(acc as i64);
        proof {
            assert(i32::MIN <= m <= i32::MAX);
        }
        Ok(m as i32)
    } else {
        if acc > 0x7FFF_FFFFu64 {
            return Err(ExecError::InvalidImmediate(field.to_owned()));
        }
        Ok(acc as i32)
    }
}

/// The arithmetic, logical and shift operators of the three-operand and
/// immediate instruction forms.
#[derive(Clone, Copy, PartialEq, Eq, Structural, Debug)]
pub enum AluOp {
    Add,
    Sub,
    Mul,
    And,
    Or,
    Xor,
    Sll,
    Slr,
}

/// The value an operator computes: addition, subtraction and multiplication
/// wrap modulo 2^32, and a shift takes its amount modulo 32.
pub open spec fn alu_eval(op: AluOp, a: u32, b: u32) -> u32 {
    match op {
        AluOp::Add => vstd::wrapping::u32_specs::wrapping_add(a, b),
        AluOp::Sub => vstd::wrapping::u32_specs::wrapping_sub(a, b),
        AluOp::Mul => vstd::wrapping::u32_specs::wrapping_mul(a, b),
        AluOp::And => a & b,
        AluOp::Or => a | b,
        AluOp::Xor => a ^ b,
        AluOp::Sll => vstd::wrapping::u32_specs::wrapping_shl(a, b),
        AluOp::Slr => vstd::wrapping::u32_specs::wrapping_shr(a, b),
    }
}

fn alu_exec(op: AluOp, a: u32, b: u32) -> (r: u32)
    ensures
        r == alu_eval(op, a, b),
{
    match op {
        AluOp::Add => a.wrapping_add(b),
        AluOp::Sub => a.wrapping_sub(b),
        AluOp::Mul => a.wrapping_mul(b),
        AluOp::And => a & b,
        AluOp::Or => a | b,
        AluOp::Xor => a ^ b,
        AluOp::Sll => a.wrapping_shl(b),
        AluOp::Slr => a.wrapping_shr(b),
    }
}

/// One decoded instruction, operands resolved.
pub enum Instr {
    Mv { rd: usize, rs: usize },
    Li { rd: usize, imm: i32 },
    Alu { op: AluOp, rd: usize, rs1: usize, rs2: usize },
    AluImm { op: AluOp, rd: usize, rs1: usize, imm: i32 },
    Jalr { rd: usize, rs1: usize, imm: i32 },
    Jal { rd: usize, label: String },
    Lw { rd: usize, offs: i32, base: usize },
    Sw { rd: usize, offs: i32, base: usize },
    Nop,
}

/// Mathematical form of a decoded instruction.
pub ghost enum InstrSpec {
    Mv { rd: usize, rs: usize },
    Li { rd: usize, imm: i32 },
    Alu { op: AluOp, rd: usize, rs1: usize, rs2: usize },
    AluImm { op: AluOp, rd: usize, rs1: usize, imm: i32 },
    Jalr { rd: usize, rs1: usize, imm: i32 },
    Jal { rd: usize, label: Seq<char> },
    Lw { rd: usize, offs: i32, base: usize },
    Sw { rd: usize, offs: i32, base: usize },
    Nop,
}

impl View for Instr {
    type V = InstrSpec;

    open spec fn view(&self) -> InstrSpec {
        match self {
            Instr::Mv { rd, rs } => InstrSpec::Mv { rd: *rd, rs: *rs },
            Instr::Li { rd, imm } => InstrSpec::Li { rd: *rd, imm: *imm },
            Instr::Alu { op, rd, rs1, rs2 } => InstrSpec::Alu {
                op: *op,
                rd: *rd,
                rs1: *rs1,
                rs2: *rs2,
            },
            Instr::AluImm { op, rd, rs1, imm } => InstrSpec::AluImm {
                op: *op,
                rd: *rd,
                rs1: *rs1,
                imm: *imm,
            },
            Instr::Jalr { rd, rs1, imm } => InstrSpec::Jalr { rd: *rd, rs1: *rs1, imm: *imm },
            Instr::Jal { rd, label } => InstrSpec::Jal { rd: *rd, label: label@ },
            Instr::Lw { rd, offs, base } => InstrSpec::Lw { rd: *rd, offs: *offs, base: *base },
            Instr::Sw { rd, offs, base } => InstrSpec::Sw { rd: *rd, offs: *offs, base: *base },
            Instr::Nop => InstrSpec::Nop,
        }
    }
}

/// Every register operand of the instruction is a valid index.
pub open spec fn instr_wf(i: InstrSpec) -> bool {
    match i {
        InstrSpec::Mv { rd, rs } => rd < REG_COUNT && rs < REG_COUNT,
        InstrSpec::Li { rd, .. } => rd < REG_COUNT,
        InstrSpec::Alu { rd, rs1, rs2, .. } => rd < REG_COUNT && rs1 < REG_COUNT && rs2
            < REG_COUNT,
        InstrSpec::AluImm { rd, rs1, .. } => rd < REG_COUNT && rs1 < REG_COUNT,
        InstrSpec::Jalr { rd, rs1, .. } => rd < REG_COUNT && rs1 < REG_COUNT,
        InstrSpec::Jal { rd, .. } => rd < REG_COUNT,
        InstrSpec::Lw { rd, base, .. } => rd < REG_COUNT && base < REG_COUNT,
        InstrSpec::Sw { rd, base, .. } => rd < REG_COUNT && base < REG_COUNT,
        InstrSpec::Nop => true,
    }
}

/// End of the first whitespace-delimited token of a line: the operator is
/// everything before the first space character.
pub open spec fn token_end(s: Seq<char>, i: int) -> int
    recommends
        0 <= i <= s.len(),
    decreases s.len() - i when 0 <= i <= s.len()
{
    if i < s.len() && s[i] != ' ' {
        token_end(s, i + 1)
    } else {
        i
    }
}

pub open spec fn first_token(s: Seq<char>) -> Seq<char> {
    s.subrange(0, token_end(s, 0))
}

fn token_end_exec(v: &Vec<char>) -> (r: usize)
    ensures
        r == token_end(v@, 0),
        r <= v@.len(),
{
    let mut j: usize = 0;
    while j < v.len() && v[j] != ' '
        invariant
            j <= v@.len(),
            token_end(v@, 0) == token_end(v@, j as int),
        decreases v@.len() - j,
    {
        j += 1;
    }
    j
}

/// What decoding `line` for the operator's required shape yields: a resolved
/// instruction, or the error of the first field that fails to resolve.
pub open spec fn r_alu_decode(line: Seq<char>, op: AluOp) -> Result<InstrSpec, ErrSpec> {
    match r_match(line) {
        None => Err(ErrSpec::ShapeMismatch(ShapeKind::RType)),
        Some(c) => match reg_index(line.subrange(c.rs1.lo, c.rs1.hi)) {
            None => Err(ErrSpec::UnknownRegister(line.subrange(c.rs1.lo, c.rs1.hi))),
            Some(rs1) => match reg_index(line.subrange(c.rs2.lo, c.rs2.hi)) {
                None => Err(ErrSpec::UnknownRegister(line.subrange(c.rs2.lo, c.rs2.hi))),
                Some(rs2) => match reg_index(line.subrange(c.rd.lo, c.rd.hi)) {
                    None => Err(ErrSpec::UnknownRegister(line.subrange(c.rd.lo, c.rd.hi))),
                    Some(rd) => Ok(InstrSpec::Alu { op, rd, rs1, rs2 }),
                },
            },
        },
    }
}

pub open spec fn i_alu_decode(line: Seq<char>, op: AluOp) -> Result<InstrSpec, ErrSpec> {
    match i_match(line) {
        None => Err(ErrSpec::ShapeMismatch(ShapeKind::IType)),
        Some(c) => match reg_index(line.subrange(c.rs1.lo, c.rs1.hi)) {
            None => Err(ErrSpec::UnknownRegister(line.subrange(c.rs1.lo, c.rs1.hi))),
            Some(rs1) => match parse_i32_spec(line.subrange(c.imm.lo, c.imm.hi)) {
                None => Err(ErrSpec::InvalidImmediate(line.subrange(c.imm.lo, c.imm.hi))),
                Some(imm) => match reg_index(line.subrange(c.rd.lo, c.rd.hi)) {
                    None => Err(ErrSpec::UnknownRegister(line.subrange(c.rd.lo, c.rd.hi))),
                    Some(rd) => Ok(InstrSpec::AluImm { op, rd, rs1, imm }),
                },
            },
        },
    }
}

/// Decode one source line: a label line is a no-op marker; otherwise the
/// first token picks the mnemonic, the line must match that mnemonic's
/// operand shape, and only that shape's fields are resolved.
pub open spec fn decode_spec(line: Seq<char>) -> Result<InstrSpec, ErrSpec> {
    if label_match(line) is Some {
        Ok(InstrSpec::Nop)
    } else {
        let op = first_token(line);
        if op == "MV"@ {
            match j_match(line) {
                None => Err(ErrSpec::ShapeMismatch(ShapeKind::MvType)),
                Some(c) => match reg_index(line.subrange(c.arg.lo, c.arg.hi)) {
                    None => Err(ErrSpec::UnknownRegister(line.subrange(c.arg.lo, c.arg.hi))),
                    Some(rs) => match reg_index(line.subrange(c.rd.lo, c.rd.hi)) {
                        None => Err(ErrSpec::UnknownRegister(line.subrange(c.rd.lo, c.rd.hi))),
                        Some(rd) => Ok(InstrSpec::Mv { rd, rs }),
                    },
                },
            }
        } else if op == "LI"@ {
            match li_match(line) {
                None => Err(ErrSpec::ShapeMismatch(ShapeKind::LiType)),
                Some(c) => match parse_i32_spec(line.subrange(c.imm.lo, c.imm.hi)) {
                    None => Err(ErrSpec::InvalidImmediate(line.subrange(c.imm.lo, c.imm.hi))),
                    Some(imm) => match reg_index(line.subrange(c.rd.lo, c.rd.hi)) {
                        None => Err(ErrSpec::UnknownRegister(line.subrange(c.rd.lo, c.rd.hi))),
                        Some(rd) => Ok(InstrSpec::Li { rd, imm }),
                    },
                },
            }
        } else if op == "ADD"@ {
            r_alu_decode(line, AluOp::Add)
        } else if op == "SUB"@ {
            r_alu_decode(line, AluOp::Sub)
        } else if op == "AND"@ {
            r_alu_decode(line, AluOp::And)
        } else if op == "OR"@ {
            r_alu_decode(line, AluOp::Or)
        } else if op == "MUL"@ {
            r_alu_decode(line, AluOp::Mul)
        } else if op == "XOR"@ {
            r_alu_decode(line, AluOp::Xor)
        } else if op == "SLL"@ {
            r_alu_decode(line, AluOp::Sll)
        } else if op == "SLR"@ {
            r_alu_decode(line, AluOp::Slr)
        } else if op == "ADDI"@ {
            i_alu_decode(line, AluOp::Add)
        } else if op == "SUBI"@ {
            i_alu_decode(line, AluOp::Sub)
        } else if op == "ANDI"@ {
            i_alu_decode(line, AluOp::And)
        } else if op == "ORI"@ {
            i_alu_decode(line, AluOp::Or)
        } else if op == "XORI"@ {
            i_alu_decode(line, AluOp::Xor)
        } else if op == "SLLI"@ {
            i_alu_decode(line, AluOp::Sll)
        } else if op == "SLRI"@ {
            i_alu_decode(line, AluOp::Slr)
        } else if op == "JALR"@ {
            match i_match(line) {
                None => Err(ErrSpec::ShapeMismatch(ShapeKind::IType)),
                Some(c) => match reg_index(line.subrange(c.rd.lo, c.rd.hi)) {
                    None => Err(ErrSpec::UnknownRegister(line.subrange(c.rd.lo, c.rd.hi))),
                    Some(rd) => match reg_index(line.subrange(c.rs1.lo, c.rs1.hi)) {
                        None => Err(ErrSpec::UnknownRegister(line.subrange(c.rs1.lo, c.rs1.hi))),
                        Some(rs1) => match parse_i32_spec(line.subrange(c.imm.lo, c.imm.hi)) {
                            None => Err(ErrSpec::InvalidImmediate(
                                line.subrange(c.imm.lo, c.imm.hi),
                            )),
                            Some(imm) => Ok(InstrSpec::Jalr { rd, rs1, imm }),
                        },
                    },
                },
            }
        } else if op == "JAL"@ {
            match j_match(line) {
                None => Err(ErrSpec::ShapeMismatch(ShapeKind::JalType)),
                Some(c) => match reg_index(line.subrange(c.rd.lo, c.rd.hi)) {
                    None => Err(ErrSpec::UnknownRegister(line.subrange(c.rd.lo, c.rd.hi))),
                    Some(rd) => Ok(InstrSpec::Jal {
                        rd,
                        label: line.subrange(c.arg.lo, c.arg.hi),
                    }),
                },
            }
        } else if op == "LW"@ {
            match ls_match(line) {
                None => Err(ErrSpec::ShapeMismatch(ShapeKind::LsType)),
                Some(c) => match reg_index(line.subrange(c.base.lo, c.base.hi)) {
                    None => Err(ErrSpec::UnknownRegister(line.subrange(c.base.lo, c.base.hi))),
                    Some(base) => match parse_i32_spec(line.subrange(c.offs.lo, c.offs.hi)) {
                        None => Err(ErrSpec::InvalidImmediate(
                            line.subrange(c.offs.lo, c.offs.hi),
                        )),
                        Some(offs) => match reg_index(line.subrange(c.rd.lo, c.rd.hi)) {
                            None => Err(ErrSpec::UnknownRegister(line.subrange(c.rd.lo, c.rd.hi))),
                            Some(rd) => Ok(InstrSpec::Lw { rd, offs, base }),
                        },
                    },
                },
            }
        } else if op == "SW"@ {
            match ls_match(line) {
                None => Err(ErrSpec::ShapeMismatch(ShapeKind::LsType)),
                Some(c) => match reg_index(line.subrange(c.base.lo, c.base.hi)) {
                    None => Err(ErrSpec::UnknownRegister(line.subrange(c.base.lo, c.base.hi))),
                    Some(base) => match parse_i32_spec(line.subrange(c.offs.lo, c.offs.hi)) {
                        None => Err(ErrSpec::InvalidImmediate(
                            line.subrange(c.offs.lo, c.offs.hi),
                        )),
                        Some(offs) => match reg_index(line.subrange(c.rd.lo, c.rd.hi)) {
                            None => Err(ErrSpec::UnknownRegister(line.subrange(c.rd.lo, c.rd.hi))),
                            Some(rd) => Ok(InstrSpec::Sw { rd, offs, base }),
                        },
                    },
                },
            }
        } else if op.len() == 0 {
            Ok(InstrSpec::Nop)
        } else {
            Err(ErrSpec::UnknownOperator(op))
        }
    }
}

fn decode_r_shape(line: &String, v: &Vec<char>, aop: AluOp) -> (r: Result<Instr, ExecError>)
    requires
        v@ == line@,
    ensures
        (match r_alu_decode(line@, aop) {
            Ok(i) => r matches Ok(x) && x@ == i && instr_wf(i),
            Err(e) => r matches Err(x) && x@ == e,
        }),
{
    match find_r(v) {
        None => Err(ExecError::ShapeMismatch(ShapeKind::RType)),
        Some(f) => {
            let rs1 = reg(line.as_str().substring_char(f.rs1.lo, f.rs1.hi))?;
            let rs2 = reg(line.as_str().substring_char(f.rs2.lo, f.rs2.hi))?;
            let rd = reg(line.as_str().substring_char(f.rd.lo, f.rd.hi))?;
            Ok(Instr::Alu { op: aop, rd, rs1, rs2 })
        },
    }
}

fn decode_i_shape(line: &String, v: &Vec<char>, aop: AluOp) -> (r: Result<Instr, ExecError>)
    requires
        v@ == line@,
    ensures
        (match i_alu_decode(line@, aop) {
            Ok(i) => r matches Ok(x) && x@ == i && instr_wf(i),
            Err(e) => r matches Err(x) && x@ == e,
        }),
{
    match find_i(v) {
        None => Err(ExecError::ShapeMismatch(ShapeKind::IType)),
        Some(f) => {
            let rs1 = reg(line.as_str().substring_char(f.rs1.lo, f.rs1.hi))?;
            let imm = immed(line.as_str().substring_char(f.imm.lo, f.imm.hi))?;
            let rd = reg(line.as_str().substring_char(f.rd.lo, f.rd.hi))?;
            Ok(Instr::AluImm { op: aop, rd, rs1, imm })
        },
    }
}

/// Decode one source line into an instruction, or the error its text earns.
pub fn decode(line: &String) -> (r: Result<Instr, ExecError>)
    ensures
        (match decode_spec(line@) {
            Ok(i) => r matches Ok(x) && x@ == i && instr_wf(i),
            Err(e) => r matches Err(x) && x@ == e,
        }),
{
    let v = chars_of(line.as_str());
    if find_label(&v).is_some() {
        return Ok(Instr::Nop);
    }
    let te = token_end_exec(&v);
    let op = line.as_str().substring_char(0, te);
    if str_eq(op, "MV") {
        match find_j(&v) {
            None => Err(ExecError::ShapeMismatch(ShapeKind::MvType)),
            Some(f) => {
                let rs = reg(line.as_str().substring_char(f.arg.lo, f.arg.hi))?;
                let rd = reg(line.as_str().substring_char(f.rd.lo, f.rd.hi))?;
                Ok(Instr::Mv { rd, rs })
            },
        }
    } else if str_eq(op, "LI") {
        match find_li(&v) {
            None => Err(ExecError::ShapeMismatch(ShapeKind::LiType)),
            Some(f) => {
                let imm = immed(line.as_str().substring_char(f.imm.lo, f.imm.hi))?;
                let rd = reg(line.as_str().substring_char(f.rd.lo, f.rd.hi))?;
                Ok(Instr::Li { rd, imm })
            },
        }
    } else if str_eq(op, "ADD") {
        decode_r_shape(line, &v, AluOp::Add)
    } else if str_eq(op, "SUB") {
        decode_r_shape(line, &v, AluOp::Sub)
    } else if str_eq(op, "AND") {
        decode_r_shape(line, &v, AluOp::And)
    } else if str_eq(op, "OR") {
        decode_r_shape(line, &v, AluOp::Or)
    } else if str_eq(op, "MUL") {
        decode_r_shape(line, &v, AluOp::Mul)
    } else if str_eq(op, "XOR") {
        decode_r_shape(line, &v, AluOp::Xor)
    } else if str_eq(op, "SLL") {
        decode_r_shape(line, &v, AluOp::Sll)
    } else if str_eq(op, "SLR") {
        decode_r_shape(line, &v, AluOp::Slr)
    } else if str_eq(op, "ADDI") {
        decode_i_shape(line, &v, AluOp::Add)
    } else if str_eq(op, "SUBI") {
        decode_i_shape(line, &v, AluOp::Sub)
    } else if str_eq(op, "ANDI") {
        decode_i_shape(line, &v, AluOp::And)
    } else if str_eq(op, "ORI") {
        decode_i_shape(line, &v, AluOp::Or)
    } else if str_eq(op, "XORI") {
        decode_i_shape(line, &v, AluOp::Xor)
    } else if str_eq(op, "SLLI") {
        decode_i_shape(line, &v, AluOp::Sll)
    } else if str_eq(op, "SLRI") {
        decode_i_shape(line, &v, AluOp::Slr)
    } else if str_eq(op, "JALR") {
        match find_i(&v) {
            None => Err(ExecError::ShapeMismatch(ShapeKind::IType)),
            Some(f) => {
                let rd = reg(line.as_str().substring_char(f.rd.lo, f.rd.hi))?;
                let rs1 = reg(line.as_str().substring_char(f.rs1.lo, f.rs1.hi))?;
                let imm = immed(line.as_str().substring_char(f.imm.lo, f.imm.hi))?;
                Ok(Instr::Jalr { rd, rs1, imm })
            },
        }
    } else if str_eq(op, "JAL") {
        match find_j(&v) {
            None => Err(ExecError::ShapeMismatch(ShapeKind::JalType)),
            Some(f) => {
                let rd = reg(line.as_str().substring_char(f.rd.lo, f.rd.hi))?;
                let label = line.as_str().substring_char(f.arg.lo, f.arg.hi).to_owned();
                Ok(Instr::Jal { rd, label })
            },
        }
    } else if str_eq(op, "LW") {
        match find_ls(&v) {
            None => Err(ExecError::ShapeMismatch(ShapeKind::LsType)),
            Some(f) => {
                let base = reg(line.as_str().substring_char(f.base.lo, f.base.hi))?;
                let offs = immed(line.as_str().substring_char(f.offs.lo, f.offs.hi))?;
                let rd = reg(line.as_str().substring_char(f.rd.lo, f.rd.hi))?;
                Ok(Instr::Lw { rd, offs, base })
            },
        }
    } else if str_eq(op, "SW") {
        match find_ls(&v) {
            None => Err(ExecError::ShapeMismatch(ShapeKind::LsType)),
            Some(f) => {
                let base = reg(line.as_str().substring_char(f.base.lo, f.base.hi))?;
                let offs = immed(line.as_str().substring_char(f.offs.lo, f.offs.hi))?;
                let rd = reg(line.as_str().substring_char(f.rd.lo, f.rd.hi))?;
                Ok(Instr::Sw { rd, offs, base })
            },
        }
    } else if op.is_empty() {
        Ok(Instr::Nop)
    } else {
        Err(ExecError::UnknownOperator(op.to_owned()))
    }
}

/// What executing one resolved instruction does to the machine: the new
/// register file (slot 0 forced back to zero), the new program counter, and
/// the new memory image; or the error that stops the step with nothing
/// changed.
pub open spec fn exec_spec(
    i: InstrSpec,
    regs: Seq<u32>,
    pc: usize,
    mem: Seq<u32>,
    labels: Map<Seq<char>, usize>,
) -> Result<(Seq<u32>, int, Seq<u32>), ErrSpec> {
    match i {
        InstrSpec::Nop => Ok((regs.update(0, 0u32), pc + 1, mem)),
        InstrSpec::Mv { rd, rs } => Ok(
            (regs.update(rd as int, regs[rs as int]).update(0, 0u32), pc + 1, mem),
        ),
        InstrSpec::Li { rd, imm } => Ok(
            (regs.update(rd as int, imm as u32).update(0, 0u32), pc + 1, mem),
        ),
        InstrSpec::Alu { op, rd, rs1, rs2 } => Ok(
            (
                regs.update(rd as int, alu_eval(op, regs[rs1 as int], regs[rs2 as int])).update(
                    0,
                    0u32,
                ),
                pc + 1,
                mem,
            ),
        ),
        InstrSpec::AluImm { op, rd, rs1, imm } => Ok(
            (
                regs.update(rd as int, alu_eval(op, regs[rs1 as int], imm as u32)).update(0, 0u32),
                pc + 1,
                mem,
            ),
        ),
        InstrSpec::Jalr { rd, rs1, imm } => {
            let link = vstd::wrapping::u32_specs::wrapping_add(pc as u32, 1);
            let target = vstd::wrapping::u32_specs::wrapping_add(regs[rs1 as int], imm as u32);
            Ok((regs.update(rd as int, link).update(0, 0u32), target as int, mem))
        },
        InstrSpec::Jal { rd, label } => {
            if labels.contains_key(label) {
                let link = vstd::wrapping::u32_specs::wrapping_add(pc as u32, 1);
                Ok((regs.update(rd as int, link).update(0, 0u32), labels[label] as int, mem))
            } else {
                Err(ErrSpec::UnresolvedLabel(label))
            }
        },
        InstrSpec::Lw { rd, offs, base } => {
            let addr = vstd::wrapping::u32_specs::wrapping_add(regs[base as int], offs as u32);
            match read32_spec(mem, addr) {
                Ok(w) => Ok((regs.update(rd as int, w).update(0, 0u32), pc + 1, mem)),
                Err(e) => Err(e),
            }
        },
        InstrSpec::Sw { rd, offs, base } => {
            let addr = vstd::wrapping::u32_specs::wrapping_add(regs[base as int], offs as u32);
            match write32_spec(mem, addr, regs[rd as int]) {
                Ok(m2) => Ok((regs.update(0, 0u32), pc + 1, m2)),
                Err(e) => Err(e),
            }
        },
    }
}

/// One full step at line `pc`: decode the line, then execute it.
pub open spec fn step_spec(
    regs: Seq<u32>,
    pc: usize,
    mem: Seq<u32>,
    code: Seq<Seq<char>>,
    labels: Map<Seq<char>, usize>,
) -> Result<(Seq<u32>, int, Seq<u32>), ErrSpec>
    recommends
        pc < code.len(),
{
    match decode_spec(code[pc as int]) {
        Ok(i) => exec_spec(i, regs, pc, mem, labels),
        Err(e) => Err(e),
    }
}

/// Execute the line at the current program counter against the registers,
/// the memory and the program's label table.  On an error nothing is
/// changed; on success the registers, the program counter and the memory
/// hold exactly what the step semantics gives them, and register 0 is zero.
pub fn run(regs: &mut Registers, mem: &mut Memory, program: &mut Program) -> (r: Result<
    (),
    ExecError,
>)
    requires
        old(regs).wf(),
        old(mem).wf(),
        old(regs).pc < old(program).code@.len(),
    ensures
        final(regs).wf(),
        final(mem).wf(),
        *final(program) == *old(program),
        r is Ok ==> final(regs).file@[0] == 0u32,
        (match step_spec(
            old(regs).file@,
            old(regs).pc,
            old(mem).words(),
            old(program).code_view(),
            old(program).label_map(),
        ) {
            Ok(t) => r is Ok && final(regs).file@ == t.0 && final(regs).pc as int == t.1
                && final(mem).words() == t.2 && final(mem).states() == old(mem).states(),
            Err(e) => r matches Err(x) && x@ == e && *final(regs) == *old(regs) && *final(mem)
                == *old(mem),
        }),
{
    let pc0 = regs.pc;
    let code_len = program.code.len();
    proof {
        assert(old(program).code_view()[pc0 as int] == old(program).code@[pc0 as int]@);
    }
    let dres = {
        let line = &program.code[pc0];
        decode(line)
    };
    let instr = match dres {
        Ok(i) => i,
        Err(e) => {
            return Err(e);
        },
    };
    let mut advance = true;
    match instr {
        Instr::Mv { rd, rs } => {
            let val = regs.file[rs];
            regs.file[rd] = val;
        },
        Instr::Li { rd, imm } => {
            regs.file[rd] = #[verifier::truncate] (imm as u32);
        },
        Instr::Alu { op, rd, rs1, rs2 } => {
            let a = regs.file[rs1];
            let b = regs.file[rs2];
            regs.file[rd] = alu_exec(op, a, b);
        },
        Instr::AluImm { op, rd, rs1, imm } => {
            let a = regs.file[rs1];
            regs.file[rd] = alu_exec(op, a, #[verifier::truncate] (imm as u32));
        },
        Instr::Jalr { rd, rs1, imm } => {
            let link = (pc0 as u32).wrapping_add(1);
            let target = regs.file[rs1].wrapping_add(#[verifier::truncate] (imm as u32));
            regs.file[rd] = link;
            regs.pc = target as usize;
            advance = false;
        },
        Instr::Jal { rd, label } => {
            let target = match lookup_label(program, label.as_str()) {
                Some(t) => t,
                None => {
                    return Err(ExecError::UnresolvedLabel(label));
                },
            };
            let link = (pc0 as u32).wrapping_add(1);
            regs.file[rd] = link;
            regs.pc = target;
            advance = false;
        },
        Instr::Lw { rd, offs, base } => {
            let addr = regs.file[base].wrapping_add(#[verifier::truncate] (offs as u32));
            let w = match mem.read32(addr) {
                Ok(w) => w,
                Err(e) => {
                    return Err(e);
                },
            };
            regs.file[rd] = w;
        },
        Instr::Sw { rd, offs, base } => {
            let addr = regs.file[base].wrapping_add(#[verifier::truncate] (offs as u32));
            let val = regs.file[rd];
            match mem.write32(addr, val) {
                Ok(_) => {},
                Err(e) => {
                    return Err(e);
                },
            }
        },
        Instr::Nop => {},
    }
    regs.file[0] = 0;
    if advance {
        regs.pc = pc0 + 1;
    }
    Ok(())
}

/// Register 0 reads as zero after every successfully executed instruction,
/// regardless of what the instruction wrote to it.
pub proof fn lemma_register_zero_stays_zero(
    i: InstrSpec,
    regs: Seq<u32>,
    pc: usize,
    mem: Seq<u32>,
    labels: Map<Seq<char>, usize>,
)
    requires
        regs.len() == REG_COUNT,
        instr_wf(i),
        exec_spec(i, regs, pc, mem, labels) is Ok,
    ensures
        (exec_spec(i, regs, pc, mem, labels)->Ok_0).0[0] == 0u32,
{
    let t = exec_spec(i, regs, pc, mem, labels)->Ok_0;
    match i {
        InstrSpec::Nop => {
            assert(t.0 == regs.update(0, 0u32));
        },
        InstrSpec::Mv { rd, rs } => {
            assert(t.0 == regs.update(rd as int, regs[rs as int]).update(0, 0u32));
        },
        InstrSpec::Li { rd, imm } => {
            assert(t.0 == regs.update(rd as int, imm as u32).update(0, 0u32));
        },
        InstrSpec::Alu { op, rd, rs1, rs2 } => {
            assert(t.0 == regs.update(rd as int, alu_eval(op, regs[rs1 as int], regs[rs2 as int]))
                .update(0, 0u32));
        },
        InstrSpec::AluImm { op, rd, rs1, imm } => {
            assert(t.0 == regs.update(rd as int, alu_eval(op, regs[rs1 as int], imm as u32))
                .update(0, 0u32));
        },
        InstrSpec::Jalr { rd, rs1, imm } => {
            let link = vstd::wrapping::u32_specs::wrapping_add(pc as u32, 1);
            assert(t.0 == regs.update(rd as int, link).update(0, 0u32));
        },
        InstrSpec::Jal { rd, label } => {
            let link = vstd::wrapping::u32_specs::wrapping_add(pc as u32, 1);
            assert(t.0 == regs.update(rd as int, link).update(0, 0u32));
        },
        InstrSpec::Lw { rd, offs, base } => {
            let addr = vstd::wrapping::u32_specs::wrapping_add(regs[base as int], offs as u32);
            assert(t.0 == regs.update(rd as int, read32_spec(mem, addr)->Ok_0).update(0, 0u32));
        },
        InstrSpec::Sw { rd, offs, base } => {
            assert(t.0 == regs.update(0, 0u32));
        },
    }
}

/// Addition, subtraction and multiplication wrap modulo 2^32.
pub proof fn lemma_arithmetic_wraps(op: AluOp, a: u32, b: u32)
    ensures
        op is Add ==> alu_eval(op, a, b) == (a + b) % 0x1_0000_0000,
        op is Sub ==> alu_eval(op, a, b) == (a - b + 0x1_0000_0000) % 0x1_0000_0000,
        op is Mul ==> alu_eval(op, a, b) == (a * b) % 0x1_0000_0000,
{
    let m: int = 0x1_0000_0000;
    match op {
        AluOp::Add => {
            if a + b > u32::MAX {
                vstd::arithmetic::div_mod::lemma_mod_multiples_vanish(1, a + b - m, m);
                vstd::arithmetic::div_mod::lemma_small_mod((a + b - m) as nat, m as nat);
            } else {
                vstd::arithmetic::div_mod::lemma_small_mod((a + b) as nat, m as nat);
            }
        },
        AluOp::Sub => {
            if a - b < 0 {
                vstd::arithmetic::div_mod::lemma_small_mod((a - b + m) as nat, m as nat);
            } else {
                vstd::arithmetic::div_mod::lemma_mod_multiples_vanish(1, a - b, m);
                vstd::arithmetic::div_mod::lemma_small_mod((a - b) as nat, m as nat);
            }
        },
        AluOp::Mul => {
            assert(a * b >= 0) by (nonlinear_arith);
            assert(a as nat * b as nat == (a * b) as nat);
            assert(alu_eval(op, a, b) == ((a * b) as nat % m as nat) as u32);
        },
        _ => {},
    }
}

/// An arithmetic, logical or shift instruction never faults: it executes,
/// writes the wrapped value to its destination, and advances the counter.
pub proof fn lemma_alu_instruction_never_faults(
    i: InstrSpec,
    regs: Seq<u32>,
    pc: usize,
    mem: Seq<u32>,
    labels: Map<Seq<char>, usize>,
)
    requires
        regs.len() == REG_COUNT,
        instr_wf(i),
        i matches InstrSpec::Alu { .. } || i matches InstrSpec::AluImm { .. },
    ensures
        exec_spec(i, regs, pc, mem, labels) is Ok,
        (exec_spec(i, regs, pc, mem, labels)->Ok_0).1 == pc + 1,
        i matches InstrSpec::Alu { op, rd, rs1, rs2 } ==> (exec_spec(
            i,
            regs,
            pc,
            mem,
            labels,
        )->Ok_0).0 == regs.update(rd as int, alu_eval(op, regs[rs1 as int], regs[rs2 as int]))
            .update(0, 0u32),
        i matches InstrSpec::AluImm { op, rd, rs1, imm } ==> (exec_spec(
            i,
            regs,
            pc,
            mem,
            labels,
        )->Ok_0).0 == regs.update(rd as int, alu_eval(op, regs[rs1 as int], imm as u32)).update(
            0,
            0u32,
        ),
{
}

/// A jump-and-link to a label absent from the label table fails with an
/// unresolved-label error.
pub proof fn lemma_jal_unresolved_label_fails(
    rd: usize,
    label: Seq<char>,
    regs: Seq<u32>,
    pc: usize,
    mem: Seq<u32>,
    labels: Map<Seq<char>, usize>,
)
    requires
        !labels.contains_key(label),
    ensures
        exec_spec(InstrSpec::Jal { rd, label }, regs, pc, mem, labels) == Err::<
            (Seq<u32>, int, Seq<u32>),
            ErrSpec,
        >(ErrSpec::UnresolvedLabel(label)),
{
}

} // verus!
