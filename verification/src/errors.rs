use vstd::prelude::*;
use vstd::string::StringExecFns;

verus! {

/// Which operand pattern a mnemonic requires of its source line.
#[derive(Clone, Copy, PartialEq, Eq, Structural, Debug)]
pub enum ShapeKind {
    RType,
    JalType,
    MvType,
    IType,
    LiType,
    LsType,
}

/// Whether a memory fault arose on a load or on a store.
#[derive(Clone, Copy, PartialEq, Eq, Structural, Debug)]
pub enum AccessKind {
    Read,
    Write,
}

/// Mathematical form of an execution error; operand text is carried as a
/// sequence of characters.
pub enum ErrSpec {
    UnknownRegister(Seq<char>),
    InvalidImmediate(Seq<char>),
    ShapeMismatch(ShapeKind),
    UnknownOperator(Seq<char>),
    UnresolvedLabel(Seq<char>),
    UnalignedAccess(AccessKind, u32),
    OutOfBounds(AccessKind, u32),
    EndOfProgram,
}

/// An error raised while decoding or executing one source line.
#[derive(Debug)]
pub enum ExecError {
    /// A register token was not in the alias table.
    UnknownRegister(String),
    /// An immediate token was not a decimal integer fitting 32 bits.
    InvalidImmediate(String),
    /// The line does not match the operand pattern its operator requires.
    ShapeMismatch(ShapeKind),
    /// The first token of the line is not a supported mnemonic.
    UnknownOperator(String),
    /// A jump named a label absent from the label table.
    UnresolvedLabel(String),
    /// A memory access at an address that is not a multiple of four.
    UnalignedAccess(AccessKind, u32),
    /// A memory access whose block index is past the last block.
    OutOfBounds(AccessKind, u32),
    /// A step was requested with the program counter at or past the last line.
    EndOfProgram,
}

impl View for ExecError {
    type V = ErrSpec;

    open spec fn view(&self) -> ErrSpec {
        match self {
            ExecError::UnknownRegister(s) => ErrSpec::UnknownRegister(s@),
            ExecError::InvalidImmediate(s) => ErrSpec::InvalidImmediate(s@),
            ExecError::ShapeMismatch(k) => ErrSpec::ShapeMismatch(*k),
            ExecError::UnknownOperator(s) => ErrSpec::UnknownOperator(s@),
            ExecError::UnresolvedLabel(s) => ErrSpec::UnresolvedLabel(s@),
            ExecError::UnalignedAccess(k, a) => ErrSpec::UnalignedAccess(*k, *a),
            ExecError::OutOfBounds(k, a) => ErrSpec::OutOfBounds(*k, *a),
            ExecError::EndOfProgram => ErrSpec::EndOfProgram,
        }
    }
}

/// The decimal digit `d` as a character.
pub open spec fn dec_digit(d: int) -> char {
    if d == 0 {
        '0'
    } else if d == 1 {
        '1'
    } else if d == 2 {
        '2'
    } else if d == 3 {
        '3'
    } else if d == 4 {
        '4'
    } else if d == 5 {
        '5'
    } else if d == 6 {
        '6'
    } else if d == 7 {
        '7'
    } else if d == 8 {
        '8'
    } else {
        '9'
    }
}

/// The decimal digit string of a non-negative integer.
pub open spec fn dec_str(n: int) -> Seq<char>
    recommends
        n >= 0,
    decreases n when n >= 0
{
    if n < 10 {
        seq![dec_digit(n)]
    } else {
        dec_str(n / 10).push(dec_digit(n % 10))
    }
}

/// The hexadecimal digit `d` as an upper-case character.
pub open spec fn hex_digit(d: int) -> char {
    if d < 10 {
        dec_digit(d)
    } else if d == 10 {
        'A'
    } else if d == 11 {
        'B'
    } else if d == 12 {
        'C'
    } else if d == 13 {
        'D'
    } else if d == 14 {
        'E'
    } else {
        'F'
    }
}

/// A 32-bit word as eight upper-case hexadecimal digits.
pub open spec fn hex8(a: u32) -> Seq<char> {
    seq![
        hex_digit(((a >> 28) & 0xF) as int),
        hex_digit(((a >> 24) & 0xF) as int),
        hex_digit(((a >> 20) & 0xF) as int),
        hex_digit(((a >> 16) & 0xF) as int),
        hex_digit(((a >> 12) & 0xF) as int),
        hex_digit(((a >> 8) & 0xF) as int),
        hex_digit(((a >> 4) & 0xF) as int),
        hex_digit((a & 0xF) as int),
    ]
}

/// The decode-failure message of each operand shape, naming the textual
/// form the operator expected.
pub open spec fn shape_message(k: ShapeKind) -> Seq<char> {
    match k {
        ShapeKind::RType => "Could not match r-type fields: <OP> <RD>, <RS1>, <RS2>"@,
        ShapeKind::JalType => "Could not match jal-type fields: <OP> <RD>, <LABEL>"@,
        ShapeKind::MvType => "Could not match mv-type fields: <OP> <RD>, <RS>"@,
        ShapeKind::IType => "Could not match i-type fields: <OP> <RD>, <RS1>, <IMM>"@,
        ShapeKind::LiType => "Could not match li-type fields: <OP> <RD>, <IMM>"@,
        ShapeKind::LsType => "Could not match l/s-type fields: <OP> <RD>, <OFFS>(<RA>)"@,
    }
}

/// The one-line description of each error.
pub open spec fn message_spec(e: ErrSpec) -> Seq<char> {
    match e {
        ErrSpec::UnknownRegister(s) => "Could not match register "@ + s,
        ErrSpec::InvalidImmediate(s) => "Could not convert immed `"@ + s + "` to integer"@,
        ErrSpec::ShapeMismatch(k) => shape_message(k),
        ErrSpec::UnknownOperator(s) => "Could not match operator "@ + s,
        ErrSpec::UnresolvedLabel(s) => "Could not find label "@ + s,
        ErrSpec::UnalignedAccess(AccessKind::Read, a) => "Tried to read word from unaligned address 0x"@
            + hex8(a),
        ErrSpec::UnalignedAccess(AccessKind::Write, a) => "Tried to write word to unaligned address 0x"@
            + hex8(a),
        ErrSpec::OutOfBounds(AccessKind::Read, a) => "Tried to read word from unmapped address 0x"@
            + hex8(a),
        ErrSpec::OutOfBounds(AccessKind::Write, a) => "Tried to write word to unmapped address 0x"@
            + hex8(a),
        ErrSpec::EndOfProgram => "Stepped over end of program!"@,
    }
}

/// The message the session records when a step fails: the line number, the
/// line's text, and the underlying cause.
pub open spec fn step_error_spec(pc: int, line: Seq<char>, cause: ErrSpec) -> Seq<char> {
    "Error on line "@ + dec_str(pc) + ", `"@ + line + "`: \""@ + message_spec(cause) + "\""@
}

fn dec_digit_str(d: usize) -> (r: &'static str)
    requires
        d < 10,
    ensures
        r@ == seq![dec_digit(d as int)],
{
    let r: &'static str = if d == 0 {
        "0"
    } else if d == 1 {
        "1"
    } else if d == 2 {
        "2"
    } else if d == 3 {
        "3"
    } else if d == 4 {
        "4"
    } else if d == 5 {
        "5"
    } else if d == 6 {
        "6"
    } else if d == 7 {
        "7"
    } else if d == 8 {
        "8"
    } else {
        "9"
    };
    proof {
        reveal_strlit("0");
        reveal_strlit("1");
        reveal_strlit("2");
        reveal_strlit("3");
        reveal_strlit("4");
        reveal_strlit("5");
        reveal_strlit("6");
        reveal_strlit("7");
        reveal_strlit("8");
        reveal_strlit("9");
        assert(r@ =~= seq![dec_digit(d as int)]);
    }
    r
}

fn hex_digit_str(d: u32) -> (r: &'static str)
    requires
        d < 16,
    ensures
        r@ == seq![hex_digit(d as int)],
{
    if d < 10 {
        dec_digit_str(d as usize)
    } else {
        let r: &'static str = if d == 10 {
            "A"
        } else if d == 11 {
            "B"
        } else if d == 12 {
            "C"
        } else if d == 13 {
            "D"
        } else if d == 14 {
            "E"
        } else {
            "F"
        };
        proof {
            reveal_strlit("A");
            reveal_strlit("B");
            reveal_strlit("C");
            reveal_strlit("D");
            reveal_strlit("E");
            reveal_strlit("F");
            assert(r@ =~= seq![hex_digit(d as int)]);
        }
        r
    }
}

/// A line number in decimal.
pub fn usize_dec(n: usize) -> (r: String)
    ensures
        r@ == dec_str(n as int),
    decreases n,
{
    if n < 10 {
        let s = dec_digit_str(n).to_owned();
        s
    } else {
        let mut s = usize_dec(n / 10);
        s.append(dec_digit_str(n % 10));
        proof {
            assert(s@ =~= dec_str(n as int / 10).push(dec_digit(n as int % 10)));
        }
        s
    }
}

/// An address as eight upper-case hexadecimal digits.
pub fn hex8_str(a: u32) -> (r: String)
    ensures
        r@ == hex8(a),
{
    proof {
        assert(((a >> 28) & 0xF) < 16 && ((a >> 24) & 0xF) < 16 && ((a >> 20) & 0xF) < 16 && ((a
            >> 16) & 0xF) < 16 && ((a >> 12) & 0xF) < 16 && ((a >> 8) & 0xF) < 16 && ((a >> 4)
            & 0xF) < 16 && (a & 0xF) < 16) by (bit_vector);
    }
    let mut s = String::new();
    s.append(hex_digit_str((a >> 28) & 0xF));
    s.append(hex_digit_str((a >> 24) & 0xF));
    s.append(hex_digit_str((a >> 20) & 0xF));
    s.append(hex_digit_str((a >> 16) & 0xF));
    s.append(hex_digit_str((a >> 12) & 0xF));
    s.append(hex_digit_str((a >> 8) & 0xF));
    s.append(hex_digit_str((a >> 4) & 0xF));
    s.append(hex_digit_str(a & 0xF));
    proof {
        assert(s@ =~= hex8(a));
    }
    s
}

impl ExecError {
    /// Render this error as its one-line description.
    pub fn message(&self) -> (r: String)
        ensures
            r@ == message_spec(self@),
    {
        match self {
            ExecError::UnknownRegister(s) => {
                let mut m = "Could not match register ".to_owned();
                m.append(s.as_str());
                proof {
                    assert(m@ =~= message_spec(self@));
                }
                m
            },
            ExecError::InvalidImmediate(s) => {
                let mut m = "Could not convert immed `".to_owned();
                m.append(s.as_str());
                m.append("` to integer");
                proof {
                    assert(m@ =~= message_spec(self@));
                }
                m
            },
            ExecError::ShapeMismatch(k) => {
                let m = match k {
                    ShapeKind::RType => "Could not match r-type fields: <OP> <RD>, <RS1>, <RS2>",
                    ShapeKind::JalType => "Could not match jal-type fields: <OP> <RD>, <LABEL>",
                    ShapeKind::MvType => "Could not match mv-type fields: <OP> <RD>, <RS>",
                    ShapeKind::IType => "Could not match i-type fields: <OP> <RD>, <RS1>, <IMM>",
                    ShapeKind::LiType => "Could not match li-type fields: <OP> <RD>, <IMM>",
                    ShapeKind::LsType => "Could not match l/s-type fields: <OP> <RD>, <OFFS>(<RA>)",
                };
                m.to_owned()
            },
            ExecError::UnknownOperator(s) => {
                let mut m = "Could not match operator ".to_owned();
                m.append(s.as_str());
                proof {
                    assert(m@ =~= message_spec(self@));
                }
                m
            },
            ExecError::UnresolvedLabel(s) => {
                let mut m = "Could not find label ".to_owned();
                m.append(s.as_str());
                proof {
                    assert(m@ =~= message_spec(self@));
                }
                m
            },
            ExecError::UnalignedAccess(k, a) => {
                let mut m = match k {
                    AccessKind::Read => "Tried to read word from unaligned address 0x".to_owned(),
                    AccessKind::Write => "Tried to write word to unaligned address 0x".to_owned(),
                };
                let h = hex8_str(*a);
                m.append(h.as_str());
                proof {
                    assert(m@ =~= message_spec(self@));
                }
                m
            },
            ExecError::OutOfBounds(k, a) => {
                let mut m = match k {
                    AccessKind::Read => "Tried to read word from unmapped address 0x".to_owned(),
                    AccessKind::Write => "Tried to write word to unmapped address 0x".to_owned(),
                };
                let h = hex8_str(*a);
                m.append(h.as_str());
                proof {
                    assert(m@ =~= message_spec(self@));
                }
                m
            },
            ExecError::EndOfProgram => "Stepped over end of program!".to_owned(),
        }
    }
}

/// Render the message the session records when the step at line `pc` fails.
pub fn step_error_message(pc: usize, line: &String, cause: &ExecError) -> (r: String)
    ensures
        r@ == step_error_spec(pc as int, line@, cause@),
{
    let mut m = "Error on line ".to_owned();
    let num = usize_dec(pc);
    m.append(num.as_str());
    m.append(", `");
    m.append(line.as_str());
    m.append("`: \"");
    let c = cause.message();
    m.append(c.as_str());
    m.append("\"");
    proof {
        assert(m@ =~= step_error_spec(pc as int, line@, cause@));
    }
    m
}

} // verus!
