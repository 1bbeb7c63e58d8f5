use vstd::prelude::*;

use crate::text::{digit_char, is_digit_char, is_space_char, is_word_char, space_char, word_char};

verus! {

// Each source line is recognized against a fixed set of textual patterns,
// one per operand-encoding shape.  A pattern may match anywhere in the line
// (the leftmost match wins), and every repeated element takes as many
// characters as it can; since no separator of the grammar is a word
// character, that greedy reading is the only possible one.

/// End of the run of word characters starting at `i`.
pub open spec fn word_end(s: Seq<char>, i: int) -> int
    recommends
        0 <= i <= s.len(),
    decreases s.len() - i when 0 <= i <= s.len()
{
    if i < s.len() && is_word_char(s[i]) {
        word_end(s, i + 1)
    } else {
        i
    }
}

/// End of the run of whitespace characters starting at `i`.
pub open spec fn space_end(s: Seq<char>, i: int) -> int
    recommends
        0 <= i <= s.len(),
    decreases s.len() - i when 0 <= i <= s.len()
{
    if i < s.len() && is_space_char(s[i]) {
        space_end(s, i + 1)
    } else {
        i
    }
}

pub fn word_end_exec(v: &Vec<char>, i: usize) -> (r: usize)
    requires
        i <= v@.len(),
    ensures
        r == word_end(v@, i as int),
        i <= r <= v@.len(),
{
    let mut j = i;
    while j < v.len() && word_char(v[j])
        invariant
            i <= j <= v@.len(),
            word_end(v@, i as int) == word_end(v@, j as int),
        decreases v@.len() - j,
    {
        j += 1;
    }
    j
}

pub fn space_end_exec(v: &Vec<char>, i: usize) -> (r: usize)
    requires
        i <= v@.len(),
    ensures
        r == space_end(v@, i as int),
        i <= r <= v@.len(),
{
    let mut j = i;
    while j < v.len() && space_char(v[j])
        invariant
            i <= j <= v@.len(),
            space_end(v@, i as int) == space_end(v@, j as int),
        decreases v@.len() - j,
    {
        j += 1;
    }
    j
}

/// A half-open range of character positions captured by one pattern field.
pub ghost struct Span {
    pub lo: int,
    pub hi: int,
}

/// Fields of the label pattern `LABEL:`.
pub ghost struct LabelCaps {
    pub name: Span,
}

/// Fields of the register-register pattern `OP RD, RS1, RS2`.
pub ghost struct RCaps {
    pub op: Span,
    pub rd: Span,
    pub rs1: Span,
    pub rs2: Span,
}

/// Fields of the two-operand pattern `OP RD, ARG` (register move and
/// jump-and-link, where `ARG` is a register or a label).
pub ghost struct JCaps {
    pub op: Span,
    pub rd: Span,
    pub arg: Span,
}

/// Fields of the register-register-immediate pattern `OP RD, RS1, IMM`.
pub ghost struct ICaps {
    pub op: Span,
    pub rd: Span,
    pub rs1: Span,
    pub imm: Span,
}

/// Fields of the load-immediate pattern `OP RD, IMM`.
pub ghost struct LiCaps {
    pub op: Span,
    pub rd: Span,
    pub imm: Span,
}

/// Fields of the load/store pattern `OP RD, OFFS(RA)`.
pub ghost struct LsCaps {
    pub op: Span,
    pub rd: Span,
    pub offs: Span,
    pub base: Span,
}

/// A word-character run starting exactly at `i`: the field form of a
/// register name, an operator, or a label.
pub open spec fn word_tok(s: Seq<char>, i: int) -> Option<Span>
    recommends
        0 <= i <= s.len(),
{
    let e = word_end(s, i);
    if e > i {
        Some(Span { lo: i, hi: e })
    } else {
        None
    }
}

/// An immediate field at `i`: an optional minus sign (where the shape allows
/// one), then a digit, then any run of word characters.
pub open spec fn num_tok(s: Seq<char>, i: int, allow_minus: bool) -> Option<Span>
    recommends
        0 <= i <= s.len(),
{
    if allow_minus && i < s.len() && s[i] == '-' {
        if i + 1 < s.len() && is_digit_char(s[i + 1]) {
            Some(Span { lo: i, hi: word_end(s, i + 1) })
        } else {
            None
        }
    } else if i < s.len() && is_digit_char(s[i]) {
        Some(Span { lo: i, hi: word_end(s, i) })
    } else {
        None
    }
}

pub open spec fn label_at(s: Seq<char>, p: int) -> Option<LabelCaps>
    recommends
        0 <= p <= s.len(),
{
    match word_tok(s, p) {
        Some(name) => if name.hi < s.len() && s[name.hi] == ':' {
            Some(LabelCaps { name })
        } else {
            None
        },
        None => None,
    }
}

pub open spec fn j_at(s: Seq<char>, p: int) -> Option<JCaps>
    recommends
        0 <= p <= s.len(),
{
    match word_tok(s, p) {
        Some(op) => if op.hi < s.len() && is_space_char(s[op.hi]) {
            match word_tok(s, op.hi + 1) {
                Some(rd) => if rd.hi + 1 < s.len() && s[rd.hi] == ',' && is_space_char(
                    s[rd.hi + 1],
                ) {
                    match word_tok(s, rd.hi + 2) {
                        Some(arg) => Some(JCaps { op, rd, arg }),
                        None => None,
                    }
                } else {
                    None
                },
                None => None,
            }
        } else {
            None
        },
        None => None,
    }
}

pub open spec fn r_at(s: Seq<char>, p: int) -> Option<RCaps>
    recommends
        0 <= p <= s.len(),
{
    match j_at(s, p) {
        Some(j) => if j.arg.hi + 1 < s.len() && s[j.arg.hi] == ',' && is_space_char(
            s[j.arg.hi + 1],
        ) {
            match word_tok(s, j.arg.hi + 2) {
                Some(rs2) => Some(RCaps { op: j.op, rd: j.rd, rs1: j.arg, rs2 }),
                None => None,
            }
        } else {
            None
        },
        None => None,
    }
}

pub open spec fn i_at(s: Seq<char>, p: int) -> Option<ICaps>
    recommends
        0 <= p <= s.len(),
{
    match j_at(s, p) {
        Some(j) => if j.arg.hi + 1 < s.len() && s[j.arg.hi] == ',' && is_space_char(
            s[j.arg.hi + 1],
        ) {
            match num_tok(s, j.arg.hi + 2, true) {
                Some(imm) => Some(ICaps { op: j.op, rd: j.rd, rs1: j.arg, imm }),
                None => None,
            }
        } else {
            None
        },
        None => None,
    }
}

pub open spec fn li_at(s: Seq<char>, p: int) -> Option<LiCaps>
    recommends
        0 <= p <= s.len(),
{
    match word_tok(s, p) {
        Some(op) => if op.hi < s.len() && is_space_char(s[op.hi]) {
            match word_tok(s, op.hi + 1) {
                Some(rd) => if rd.hi + 1 < s.len() && s[rd.hi] == ',' && is_space_char(
                    s[rd.hi + 1],
                ) {
                    match num_tok(s, rd.hi + 2, true) {
                        Some(imm) => Some(LiCaps { op, rd, imm }),
                        None => None,
                    }
                } else {
                    None
                },
                None => None,
            }
        } else {
            None
        },
        None => None,
    }
}

pub open spec fn ls_at(s: Seq<char>, p: int) -> Option<LsCaps>
    recommends
        0 <= p <= s.len(),
{
    match word_tok(s, p) {
        Some(op) => if op.hi < s.len() && is_space_char(s[op.hi]) {
            match word_tok(s, op.hi + 1) {
                Some(rd) => if rd.hi + 1 < s.len() && s[rd.hi] == ',' && is_space_char(
                    s[rd.hi + 1],
                ) {
                    match num_tok(s, rd.hi + 2, false) {
                        Some(offs) => {
                            let sp = space_end(s, offs.hi);
                            if sp < s.len() && s[sp] == '(' {
                                match word_tok(s, sp + 1) {
                                    Some(base) => if base.hi < s.len() && s[base.hi] == ')' {
                                        Some(LsCaps { op, rd, offs, base })
                                    } else {
                                        None
                                    },
                                    None => None,
                                }
                            } else {
                                None
                            }
                        },
                        None => None,
                    }
                } else {
                    None
                },
                None => None,
            }
        } else {
            None
        },
        None => None,
    }
}

pub open spec fn label_search(s: Seq<char>, p: int) -> Option<LabelCaps>
    recommends
        0 <= p <= s.len(),
    decreases s.len() - p when 0 <= p <= s.len()
{
    match label_at(s, p) {
        Some(c) => Some(c),
        None => if p < s.len() {
            label_search(s, p + 1)
        } else {
            None
        },
    }
}

pub open spec fn r_search(s: Seq<char>, p: int) -> Option<RCaps>
    recommends
        0 <= p <= s.len(),
    decreases s.len() - p when 0 <= p <= s.len()
{
    match r_at(s, p) {
        Some(c) => Some(c),
        None => if p < s.len() {
            r_search(s, p + 1)
        } else {
            None
        },
    }
}

pub open spec fn j_search(s: Seq<char>, p: int) -> Option<JCaps>
    recommends
        0 <= p <= s.len(),
    decreases s.len() - p when 0 <= p <= s.len()
{
    match j_at(s, p) {
        Some(c) => Some(c),
        None => if p < s.len() {
            j_search(s, p + 1)
        } else {
            None
        },
    }
}

pub open spec fn i_search(s: Seq<char>, p: int) -> Option<ICaps>
    recommends
        0 <= p <= s.len(),
    decreases s.len() - p when 0 <= p <= s.len()
{
    match i_at(s, p) {
        Some(c) => Some(c),
        None => if p < s.len() {
            i_search(s, p + 1)
        } else {
            None
        },
    }
}

pub open spec fn li_search(s: Seq<char>, p: int) -> Option<LiCaps>
    recommends
        0 <= p <= s.len(),
    decreases s.len() - p when 0 <= p <= s.len()
{
    match li_at(s, p) {
        Some(c) => Some(c),
        None => if p < s.len() {
            li_search(s, p + 1)
        } else {
            None
        },
    }
}

pub open spec fn ls_search(s: Seq<char>, p: int) -> Option<LsCaps>
    recommends
        0 <= p <= s.len(),
    decreases s.len() - p when 0 <= p <= s.len()
{
    match ls_at(s, p) {
        Some(c) => Some(c),
        None => if p < s.len() {
            ls_search(s, p + 1)
        } else {
            None
        },
    }
}

/// Leftmost match of the label pattern anywhere in the line.
pub open spec fn label_match(s: Seq<char>) -> Option<LabelCaps> {
    label_search(s, 0)
}

/// Leftmost match of the register-register pattern anywhere in the line.
pub open spec fn r_match(s: Seq<char>) -> Option<RCaps> {
    r_search(s, 0)
}

/// Leftmost match of the two-operand pattern anywhere in the line.
pub open spec fn j_match(s: Seq<char>) -> Option<JCaps> {
    j_search(s, 0)
}

/// Leftmost match of the register-register-immediate pattern anywhere in the line.
pub open spec fn i_match(s: Seq<char>) -> Option<ICaps> {
    i_search(s, 0)
}

/// Leftmost match of the load-immediate pattern anywhere in the line.
pub open spec fn li_match(s: Seq<char>) -> Option<LiCaps> {
    li_search(s, 0)
}

/// Leftmost match of the load/store pattern anywhere in the line.
pub open spec fn ls_match(s: Seq<char>) -> Option<LsCaps> {
    ls_search(s, 0)
}

/// An executable field span, with both ends within the matched line.
pub struct ExSpan {
    pub lo: usize,
    pub hi: usize,
}

impl ExSpan {
    pub open spec fn is_span(&self, sp: Span, len: int) -> bool {
        self.lo == sp.lo && self.hi == sp.hi && 0 <= sp.lo <= sp.hi <= len
    }
}

pub struct RFields {
    pub rd: ExSpan,
    pub rs1: ExSpan,
    pub rs2: ExSpan,
}

pub struct JFields {
    pub rd: ExSpan,
    pub arg: ExSpan,
}

pub struct IFields {
    pub rd: ExSpan,
    pub rs1: ExSpan,
    pub imm: ExSpan,
}

pub struct LiFields {
    pub rd: ExSpan,
    pub imm: ExSpan,
}

pub struct LsFields {
    pub rd: ExSpan,
    pub offs: ExSpan,
    pub base: ExSpan,
}

fn word_tok_exec(v: &Vec<char>, i: usize) -> (r: Option<ExSpan>)
    requires
        i <= v@.len(),
    ensures
        (match word_tok(v@, i as int) {
            Some(sp) => r matches Some(e) && e.is_span(sp, v@.len() as int),
            None => r is None,
        }),
{
    let e = word_end_exec(v, i);
    if e > i {
        Some(ExSpan { lo: i, hi: e })
    } else {
        None
    }
}

fn num_tok_exec(v: &Vec<char>, i: usize, allow_minus: bool) -> (r: Option<ExSpan>)
    requires
        i <= v@.len(),
    ensures
        (match num_tok(v@, i as int, allow_minus) {
            Some(sp) => r matches Some(e) && e.is_span(sp, v@.len() as int),
            None => r is None,
        }),
{
    if allow_minus && i < v.len() && v[i] == '-' {
        if i + 1 < v.len() && digit_char(v[i + 1]) {
            let e = word_end_exec(v, i + 1);
            Some(ExSpan { lo: i, hi: e })
        } else {
            None
        }
    } else if i < v.len() && digit_char(v[i]) {
        let e = word_end_exec(v, i);
        Some(ExSpan { lo: i, hi: e })
    } else {
        None
    }
}

/// Search for the leftmost occurrence of the label pattern.
pub fn find_label(v: &Vec<char>) -> (r: Option<ExSpan>)
    ensures
        (match label_match(v@) {
            Some(c) => r matches Some(e) && e.is_span(c.name, v@.len() as int),
            None => r is None,
        }),
{
    let mut p: usize = 0;
    loop
        invariant
            p <= v@.len(),
            label_search(v@, 0) == label_search(v@, p as int),
        decreases v@.len() - p,
    {
        if let Some(name) = word_tok_exec(v, p) {
            if name.hi < v.len() && v[name.hi] == ':' {
                return Some(name);
            }
        }
        if p >= v.len() {
            return None;
        }
        p += 1;
    }
}

fn j_at_exec(v: &Vec<char>, p: usize) -> (r: Option<JFields>)
    requires
        p <= v@.len(),
    ensures
        (match j_at(v@, p as int) {
            Some(c) => r matches Some(f) && f.rd.is_span(c.rd, v@.len() as int) && f.arg.is_span(
                c.arg,
                v@.len() as int,
            ),
            None => r is None,
        }),
{
    let op = match word_tok_exec(v, p) {
        Some(op) => op,
        None => { return None; },
    };
    if !(op.hi < v.len() && space_char(v[op.hi])) {
        return None;
    }
    let rd = match word_tok_exec(v, op.hi + 1) {
        Some(rd) => rd,
        None => { return None; },
    };
    if !(rd.hi < v.len() && v[rd.hi] == ',' && rd.hi + 1 < v.len() && space_char(v[rd.hi + 1])) {
        return None;
    }
    let arg = match word_tok_exec(v, rd.hi + 2) {
        Some(arg) => arg,
        None => { return None; },
    };
    Some(JFields { rd, arg })
}

/// Search for the leftmost occurrence of the two-operand pattern.
pub fn find_j(v: &Vec<char>) -> (r: Option<JFields>)
    ensures
        (match j_match(v@) {
            Some(c) => r matches Some(f) && f.rd.is_span(c.rd, v@.len() as int) && f.arg.is_span(
                c.arg,
                v@.len() as int,
            ),
            None => r is None,
        }),
{
    let mut p: usize = 0;
    loop
        invariant
            p <= v@.len(),
            j_search(v@, 0) == j_search(v@, p as int),
        decreases v@.len() - p,
    {
        if let Some(f) = j_at_exec(v, p) {
            return Some(f);
        }
        if p >= v.len() {
            return None;
        }
        p += 1;
    }
}

/// Search for the leftmost occurrence of the register-register pattern.
pub fn find_r(v: &Vec<char>) -> (r: Option<RFields>)
    ensures
        (match r_match(v@) {
            Some(c) => r matches Some(f) && f.rd.is_span(c.rd, v@.len() as int) && f.rs1.is_span(
                c.rs1,
                v@.len() as int,
            ) && f.rs2.is_span(c.rs2, v@.len() as int),
            None => r is None,
        }),
{
    let mut p: usize = 0;
    loop
        invariant
            p <= v@.len(),
            r_search(v@, 0) == r_search(v@, p as int),
        decreases v@.len() - p,
    {
        if let Some(j) = j_at_exec(v, p) {
            if j.arg.hi < v.len() && v[j.arg.hi] == ',' && j.arg.hi + 1 < v.len() && space_char(v[j.arg.hi + 1]) {
                if let Some(rs2) = word_tok_exec(v, j.arg.hi + 2) {
                    return Some(RFields { rd: j.rd, rs1: j.arg, rs2 });
                }
            }
        }
        if p >= v.len() {
            return None;
        }
        p += 1;
    }
}

/// Search for the leftmost occurrence of the register-register-immediate pattern.
pub fn find_i(v: &Vec<char>) -> (r: Option<IFields>)
    ensures
        (match i_match(v@) {
            Some(c) => r matches Some(f) && f.rd.is_span(c.rd, v@.len() as int) && f.rs1.is_span(
                c.rs1,
                v@.len() as int,
            ) && f.imm.is_span(c.imm, v@.len() as int),
            None => r is None,
        }),
{
    let mut p: usize = 0;
    loop
        invariant
            p <= v@.len(),
            i_search(v@, 0) == i_search(v@, p as int),
        decreases v@.len() - p,
    {
        if let Some(j) = j_at_exec(v, p) {
            if j.arg.hi < v.len() && v[j.arg.hi] == ',' && j.arg.hi + 1 < v.len() && space_char(v[j.arg.hi + 1]) {
                if let Some(imm) = num_tok_exec(v, j.arg.hi + 2, true) {
                    return Some(IFields { rd: j.rd, rs1: j.arg, imm });
                }
            }
        }
        if p >= v.len() {
            return None;
        }
        p += 1;
    }
}

fn li_at_exec(v: &Vec<char>, p: usize) -> (r: Option<LiFields>)
    requires
        p <= v@.len(),
    ensures
        (match li_at(v@, p as int) {
            Some(c) => r matches Some(f) && f.rd.is_span(c.rd, v@.len() as int) && f.imm.is_span(
                c.imm,
                v@.len() as int,
            ),
            None => r is None,
        }),
{
    let op = match word_tok_exec(v, p) {
        Some(op) => op,
        None => { return None; },
    };
    if !(op.hi < v.len() && space_char(v[op.hi])) {
        return None;
    }
    let rd = match word_tok_exec(v, op.hi + 1) {
        Some(rd) => rd,
        None => { return None; },
    };
    if !(rd.hi < v.len() && v[rd.hi] == ',' && rd.hi + 1 < v.len() && space_char(v[rd.hi + 1])) {
        return None;
    }
    let imm = match num_tok_exec(v, rd.hi + 2, true) {
        Some(imm) => imm,
        None => { return None; },
    };
    Some(LiFields { rd, imm })
}

/// Search for the leftmost occurrence of the load-immediate pattern.
pub fn find_li(v: &Vec<char>) -> (r: Option<LiFields>)
    ensures
        (match li_match(v@) {
            Some(c) => r matches Some(f) && f.rd.is_span(c.rd, v@.len() as int) && f.imm.is_span(
                c.imm,
                v@.len() as int,
            ),
            None => r is None,
        }),
{
    let mut p: usize = 0;
    loop
        invariant
            p <= v@.len(),
            li_search(v@, 0) == li_search(v@, p as int),
        decreases v@.len() - p,
    {
        if let Some(f) = li_at_exec(v, p) {
            return Some(f);
        }
        if p >= v.len() {
            return None;
        }
        p += 1;
    }
}

fn ls_at_exec(v: &Vec<char>, p: usize) -> (r: Option<LsFields>)
    requires
        p <= v@.len(),
    ensures
        (match ls_at(v@, p as int) {
            Some(c) => r matches Some(f) && f.rd.is_span(c.rd, v@.len() as int) && f.offs.is_span(
                c.offs,
                v@.len() as int,
            ) && f.base.is_span(c.base, v@.len() as int),
            None => r is None,
        }),
{
    let op = match word_tok_exec(v, p) {
        Some(op) => op,
        None => { return None; },
    };
    if !(op.hi < v.len() && space_char(v[op.hi])) {
        return None;
    }
    let rd = match word_tok_exec(v, op.hi + 1) {
        Some(rd) => rd,
        None => { return None; },
    };
    if !(rd.hi < v.len() && v[rd.hi] == ',' && rd.hi + 1 < v.len() && space_char(v[rd.hi + 1])) {
        return None;
    }
    let offs = match num_tok_exec(v, rd.hi + 2, false) {
        Some(offs) => offs,
        None => { return None; },
    };
    let sp = space_end_exec(v, offs.hi);
    if !(sp < v.len() && v[sp] == '(') {
        return None;
    }
    let base = match word_tok_exec(v, sp + 1) {
        Some(base) => base,
        None => { return None; },
    };
    if !(base.hi < v.len() && v[base.hi] == ')') {
        return None;
    }
    Some(LsFields { rd, offs, base })
}

/// Search for the leftmost occurrence of the load/store pattern.
pub fn find_ls(v: &Vec<char>) -> (r: Option<LsFields>)
    ensures
        (match ls_match(v@) {
            Some(c) => r matches Some(f) && f.rd.is_span(c.rd, v@.len() as int) && f.offs.is_span(
                c.offs,
                v@.len() as int,
            ) && f.base.is_span(c.base, v@.len() as int),
            None => r is None,
        }),
{
    let mut p: usize = 0;
    loop
        invariant
            p <= v@.len(),
            ls_search(v@, 0) == ls_search(v@, p as int),
        decreases v@.len() - p,
    {
        if let Some(f) = ls_at_exec(v, p) {
            return Some(f);
        }
        if p >= v.len() {
            return None;
        }
        p += 1;
    }
}

} // verus!
