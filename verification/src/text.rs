use vstd::prelude::*;
use vstd::string::StrSliceExecFns;

verus! {

/// A word character of the instruction grammar: an ASCII letter, an ASCII
/// digit, or an underscore.
pub open spec fn is_word_char(c: char) -> bool {
    let u = c as u32;
    u == 95 || (48 <= u && u <= 57) || (97 <= u && u <= 122) || (65 <= u && u <= 90)
}

/// An ASCII whitespace character: space, tab, line feed, vertical tab,
/// form feed, or carriage return.
pub open spec fn is_space_char(c: char) -> bool {
    let u = c as u32;
    u == 32 || (9 <= u && u <= 13)
}

/// An ASCII decimal digit.
pub open spec fn is_digit_char(c: char) -> bool {
    let u = c as u32;
    48 <= u && u <= 57
}

pub fn word_char(c: char) -> (r: bool)
    ensures
        r == is_word_char(c),
{
    let u = c as u32;
    u == 95 || (48 <= u && u <= 57) || (97 <= u && u <= 122) || (65 <= u && u <= 90)
}

pub fn space_char(c: char) -> (r: bool)
    ensures
        r == is_space_char(c),
{
    let u = c as u32;
    u == 32 || (9 <= u && u <= 13)
}

pub fn digit_char(c: char) -> (r: bool)
    ensures
        r == is_digit_char(c),
{
    let u = c as u32;
    48 <= u && u <= 57
}

/// The characters of `s`, collected into a vector for constant-time access.
pub fn chars_of(s: &str) -> (v: Vec<char>)
    ensures
        v@ == s@,
{
    let n = s.unicode_len();
    let mut v: Vec<char> = Vec::new();
    while v.len() < n
        invariant
            n == s@.len(),
            v@.len() <= n,
            v@ == s@.subrange(0, v@.len() as int),
        decreases n - v@.len(),
    {
        let c = s.get_char(v.len());
        v.push(c);
        proof {
            assert(v@ =~= s@.subrange(0, v@.len() as int));
        }
    }
    proof {
        assert(v@ =~= s@);
    }
    v
}

/// End of the current segment: the position of the first line feed at or
/// after `i`, or the end of the text.
pub open spec fn nl_end(s: Seq<char>, i: int) -> int
    recommends
        0 <= i <= s.len(),
    decreases s.len() - i when 0 <= i <= s.len()
{
    if i < s.len() && s[i] != '\n' {
        nl_end(s, i + 1)
    } else {
        i
    }
}

pub proof fn lemma_nl_end(s: Seq<char>, i: int)
    requires
        0 <= i <= s.len(),
    ensures
        i <= nl_end(s, i) <= s.len(),
        nl_end(s, i) == s.len() || s[nl_end(s, i)] == '\n',
    decreases s.len() - i,
{
    if i < s.len() && s[i] != '\n' {
        lemma_nl_end(s, i + 1);
    }
}

/// The segments of `s` between line feeds, in order; a trailing line feed
/// yields a final empty segment, and an empty text is one empty segment.
pub open spec fn split_from(s: Seq<char>, p: int) -> Seq<Seq<char>>
    recommends
        0 <= p <= s.len(),
    decreases s.len() - p when 0 <= p <= s.len() via split_from_decreases
{
    if nl_end(s, p) < s.len() {
        seq![s.subrange(p, nl_end(s, p))] + split_from(s, nl_end(s, p) + 1)
    } else {
        seq![s.subrange(p, s.len() as int)]
    }
}

#[via_fn]
proof fn split_from_decreases(s: Seq<char>, p: int) {
    lemma_nl_end(s, p);
}

/// End of the run of whitespace characters that closes `s` before `j`,
/// scanning right to left.
pub open spec fn rtrim_idx(s: Seq<char>, j: int) -> int
    recommends
        0 <= j <= s.len(),
    decreases j when 0 <= j <= s.len()
{
    if j > 0 && is_space_char(s[j - 1]) {
        rtrim_idx(s, j - 1)
    } else {
        j
    }
}

/// `s` with its leading and trailing whitespace removed.
pub open spec fn trim_spec(s: Seq<char>) -> Seq<char> {
    let lo = crate::grammar::space_end(s, 0);
    let hi = rtrim_idx(s, s.len() as int);
    if lo <= hi {
        s.subrange(lo, hi)
    } else {
        Seq::empty()
    }
}

pub proof fn lemma_space_end_chars(s: Seq<char>, i: int, k: int)
    requires
        0 <= i <= k <= s.len(),
        forall|j: int| i <= j < k ==> is_space_char(s[j]),
        k == s.len() || !is_space_char(s[k]),
    ensures
        crate::grammar::space_end(s, i) == k,
    decreases k - i,
{
    if i < k {
        lemma_space_end_chars(s, i + 1, k);
    }
}

pub proof fn lemma_rtrim_chars(s: Seq<char>, j: int, k: int)
    requires
        0 <= k <= j <= s.len(),
        forall|q: int| k <= q < j ==> is_space_char(s[q]),
        k == 0 || !is_space_char(s[k - 1]),
    ensures
        rtrim_idx(s, j) == k,
    decreases j - k,
{
    if j > k {
        lemma_rtrim_chars(s, j - 1, k);
    }
}

/// Each segment trimmed of surrounding whitespace.
pub open spec fn trimmed(v: Seq<Seq<char>>) -> Seq<Seq<char>> {
    v.map_values(|l: Seq<char>| trim_spec(l))
}

/// The text split on line feeds, each segment trimmed of surrounding
/// whitespace: the program lines that one text sets.
pub open spec fn lines_of(s: Seq<char>) -> Seq<Seq<char>> {
    trimmed(split_from(s, 0))
}

/// The views of a vector of strings.
pub open spec fn views_of(v: Seq<String>) -> Seq<Seq<char>> {
    v.map_values(|s: String| s@)
}

/// Character-for-character equality of two string slices.
pub fn str_eq(a: &str, b: &str) -> (r: bool)
    ensures
        r == (a@ == b@),
{
    let na = a.unicode_len();
    let nb = b.unicode_len();
    if na != nb {
        proof {
            assert(a@.len() != b@.len());
        }
        return false;
    }
    let mut i: usize = 0;
    while i < na
        invariant
            na == a@.len(),
            na == b@.len(),
            i <= na,
            forall|j: int| 0 <= j < i ==> a@[j] == b@[j],
        decreases na - i,
    {
        if a.get_char(i) != b.get_char(i) {
            return false;
        }
        i += 1;
    }
    proof {
        assert(a@ =~= b@);
    }
    true
}

} // verus!
