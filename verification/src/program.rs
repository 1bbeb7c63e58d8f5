use vstd::prelude::*;
use vstd::string::StrSliceExecFns;

use crate::errors::ExecError;
use crate::grammar::{find_label, label_match};
use crate::text::{chars_of, str_eq};

verus! {

/// The name captured by the label pattern on `line`, if the line defines one.
pub open spec fn label_of(line: Seq<char>) -> Option<Seq<char>> {
    match label_match(line) {
        Some(c) => Some(line.subrange(c.name.lo, c.name.hi)),
        None => None,
    }
}

/// The label table that one forward scan of `code` builds: every label line
/// records its own index, later lines overwriting earlier ones of the same
/// name.
pub open spec fn scan_map(code: Seq<Seq<char>>) -> Map<Seq<char>, usize>
    decreases code.len(),
{
    if code.len() == 0 {
        Map::empty()
    } else {
        match label_of(code.last()) {
            Some(name) => scan_map(code.drop_last()).insert(name, (code.len() - 1) as usize),
            None => scan_map(code.drop_last()),
        }
    }
}

/// The mapping held by an association list, entries later in the list
/// overriding earlier ones.
pub open spec fn pairs_map(ps: Seq<(String, usize)>) -> Map<Seq<char>, usize>
    decreases ps.len(),
{
    if ps.len() == 0 {
        Map::empty()
    } else {
        pairs_map(ps.drop_last()).insert(ps.last().0@, ps.last().1)
    }
}

/// One loaded program: its source lines, the label table built from them,
/// and the set of breakpoint line indices.
pub struct Program {
    pub code: Vec<String>,
    pub labels: Vec<(String, usize)>,
    pub breakpoints: Vec<usize>,
}

impl Program {
    /// The source text as a sequence of character sequences.
    pub open spec fn code_view(&self) -> Seq<Seq<char>> {
        crate::text::views_of(self.code@)
    }

    /// The label table as a mapping from name to line index.
    pub open spec fn label_map(&self) -> Map<Seq<char>, usize> {
        pairs_map(self.labels@)
    }

    /// No breakpoint line is recorded twice.
    pub open spec fn wf(&self) -> bool {
        forall|i: int, j: int|
            0 <= i < j < self.breakpoints@.len() ==> self.breakpoints@[i] != self.breakpoints@[j]
    }

    pub fn new() -> (r: Program)
        ensures
            r.wf(),
            r.code@.len() == 0,
            r.label_map() == Map::<Seq<char>, usize>::empty(),
            r.breakpoints@.len() == 0,
    {
        Program { code: Vec::new(), labels: Vec::new(), breakpoints: Vec::new() }
    }

    /// Whether `line` is a registered breakpoint.
    pub fn has_breakpoint(&self, line: usize) -> (r: bool)
        ensures
            r == self.breakpoints@.contains(line),
    {
        let mut i: usize = 0;
        while i < self.breakpoints.len()
            invariant
                i <= self.breakpoints@.len(),
                forall|j: int| 0 <= j < i ==> self.breakpoints@[j] != line,
            decreases self.breakpoints@.len() - i,
        {
            if self.breakpoints[i] == line {
                return true;
            }
            i += 1;
        }
        false
    }

    /// Register a breakpoint at `line`; registering one twice has no effect.
    pub fn add_breakpoint(&mut self, line: usize)
        requires
            old(self).wf(),
        ensures
            final(self).wf(),
            final(self).code == old(self).code,
            final(self).labels == old(self).labels,
            forall|x: usize|
                final(self).breakpoints@.contains(x) <==> (old(self).breakpoints@.contains(x)
                    || x == line),
    {
        if !self.has_breakpoint(line) {
            self.breakpoints.push(line);
            proof {
                let new = self.breakpoints@;
                let prev = old(self).breakpoints@;
                assert forall|x: usize| new.contains(x) implies (prev.contains(x) || x
                    == line) by {
                    let j = choose|j: int| 0 <= j < new.len() && new[j] == x;
                    if j < prev.len() {
                        assert(prev[j] == x);
                    }
                }
                assert forall|x: usize| prev.contains(x) || x == line implies new.contains(
                    x,
                ) by {
                    if prev.contains(x) {
                        let j = choose|j: int| 0 <= j < prev.len() && prev[j] == x;
                        assert(new[j] == x);
                    } else {
                        assert(new[prev.len() as int] == line);
                    }
                }
            }
        }
    }

    /// Remove the breakpoint at `line`, if one is registered.
    pub fn remove_breakpoint(&mut self, line: usize)
        requires
            old(self).wf(),
        ensures
            final(self).wf(),
            final(self).code == old(self).code,
            final(self).labels == old(self).labels,
            forall|x: usize|
                final(self).breakpoints@.contains(x) <==> (old(self).breakpoints@.contains(x) && x
                    != line),
    {
        let n = self.breakpoints.len();
        let mut i: usize = 0;
        while i < n
            invariant
                old(self).wf(),
                *self == *old(self),
                n == self.breakpoints@.len(),
                i <= n,
                forall|j: int| 0 <= j < i ==> self.breakpoints@[j] != line,
            decreases n - i,
        {
            if self.breakpoints[i] == line {
                self.breakpoints.remove(i);
                proof {
                    let new = self.breakpoints@;
                    let prev = old(self).breakpoints@;
                    let ix = i as int;
                    assert(forall|j: int|
                        0 <= j < new.len() ==> new[j] == (if j < ix {
                            prev[j]
                        } else {
                            prev[j + 1]
                        }));
                    assert forall|x: usize| new.contains(x) implies (prev.contains(x) && x
                        != line) by {
                        let j = choose|j: int| 0 <= j < new.len() && new[j] == x;
                        if j < ix {
                            assert(prev[j] == x);
                        } else {
                            assert(prev[j + 1] == x);
                        }
                    }
                    assert forall|x: usize| prev.contains(x) && x != line implies new.contains(
                        x,
                    ) by {
                        let j = choose|j: int| 0 <= j < prev.len() && prev[j] == x;
                        if j < ix {
                            assert(new[j] == x);
                        } else {
                            assert(j != ix);
                            assert(new[j - 1] == x);
                        }
                    }
                }
                return ;
            }
            i += 1;
        }
        proof {
            assert(!self.breakpoints@.contains(line));
        }
    }

    /// Drop every registered breakpoint.
    pub fn clear_breakpoints(&mut self)
        ensures
            final(self).wf(),
            final(self).code == old(self).code,
            final(self).labels == old(self).labels,
            final(self).breakpoints@.len() == 0,
    {
        self.breakpoints.clear();
    }
}

/// Record the label defined on line `pc`, if any, into the label table.
pub fn register_label(program: &mut Program, pc: usize) -> (r: Result<(), ExecError>)
    requires
        pc < old(program).code@.len(),
    ensures
        r is Ok,
        final(program).code == old(program).code,
        final(program).breakpoints == old(program).breakpoints,
        final(program).label_map() == (match label_of(old(program).code_view()[pc as int]) {
            Some(name) => old(program).label_map().insert(name, pc),
            None => old(program).label_map(),
        }),
{
    let found: Option<String> = {
        let line: &String = &program.code[pc];
        if line.as_str().is_empty() {
            None
        } else {
            let v = chars_of(line.as_str());
            match find_label(&v) {
                Some(sp) => Some(line.as_str().substring_char(sp.lo, sp.hi).to_owned()),
                None => None,
            }
        }
    };
    match found {
        Some(name) => {
            proof {
                assert(old(program).code_view()[pc as int] == old(program).code@[pc as int]@);
            }
            program.labels.push((name, pc));
            proof {
                assert(program.labels@.drop_last() =~= old(program).labels@);
            }
        },
        None => {
            proof {
                assert(old(program).code_view()[pc as int] == old(program).code@[pc as int]@);
            }
        },
    }
    Ok(())
}

/// Rebuild the label table with one forward scan of the whole program text.
pub fn scan_labels(program: &mut Program) -> (r: Result<(), ExecError>)
    ensures
        r is Ok,
        final(program).code == old(program).code,
        final(program).breakpoints == old(program).breakpoints,
        final(program).label_map() == scan_map(old(program).code_view()),
{
    program.labels = Vec::new();
    let n = program.code.len();
    let mut i: usize = 0;
    proof {
        assert(program.label_map() =~= scan_map(program.code_view().subrange(0, 0)));
    }
    while i < n
        invariant
            n == program.code@.len(),
            i <= n,
            program.code == old(program).code,
            program.breakpoints == old(program).breakpoints,
            program.label_map() == scan_map(program.code_view().subrange(0, i as int)),
        decreases n - i,
    {
        let _ = register_label(program, i);
        proof {
            let cv = program.code_view();
            assert(cv.subrange(0, i as int + 1).drop_last() =~= cv.subrange(0, i as int));
            assert(cv.subrange(0, i as int + 1).last() == cv[i as int]);
        }
        i += 1;
    }
    proof {
        assert(program.code_view().subrange(0, n as int) =~= program.code_view());
    }
    Ok(())
}

/// Look up a label in the table; the entry recorded last wins.
pub fn lookup_label(program: &Program, name: &str) -> (r: Option<usize>)
    ensures
        (match r {
            Some(ix) => program.label_map().get(name@) == Some(ix),
            None => program.label_map().get(name@) is None,
        }),
{
    let mut i = program.labels.len();
    proof {
        assert(program.labels@.subrange(0, program.labels@.len() as int) =~= program.labels@);
    }
    while i > 0
        invariant
            i <= program.labels@.len(),
            pairs_map(program.labels@).get(name@) == pairs_map(
                program.labels@.subrange(0, i as int),
            ).get(name@),
        decreases i,
    {
        i -= 1;
        proof {
            assert(program.labels@.subrange(0, i as int + 1).drop_last() =~= program.labels@
                .subrange(0, i as int));
            assert(program.labels@.subrange(0, i as int + 1).last() == program.labels@[i as int]);
        }
        let hit = str_eq(program.labels[i].0.as_str(), name);
        if hit {
            return Some(program.labels[i].1);
        }
    }
    proof {
        assert(pairs_map(program.labels@.subrange(0, 0)) =~= Map::<Seq<char>, usize>::empty());
    }
    None
}

} // verus!
