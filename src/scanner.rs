//! Strips Lua comments from a line of code, leaving string literals and
//! long-bracket strings intact. The scanner's mode at the end of a line is
//! handed to the next one, so long strings and long comments may span lines.
use vstd::prelude::*;
use crate::text::{chars_of, string_of, trim, trim_bounds};
use crate::LuaFileParser;

verus! {

/// Where the scanner stands between two characters: in code, in a quoted
/// string, or inside a long-bracket string or comment of some level.
#[derive(Clone, Copy, PartialEq, Eq, Structural, Debug)]
pub enum ScanMode {
    Normal,
    SingleQuote,
    DoubleQuote,
    LongString(usize),
    LongComment(usize),
}

/// Number of `=` characters in `s` starting at `j`.
pub open spec fn eq_run(s: Seq<char>, j: int) -> nat
    decreases s.len() - j,
{
    if 0 <= j < s.len() && s[j] == '=' {
        1 + eq_run(s, j + 1)
    } else {
        0
    }
}

/// `s[k..]` begins with a long-bracket closer of the given level: `]`, `level` times `=`, `]`.
pub open spec fn closes_at(s: Seq<char>, k: int, level: int) -> bool {
    0 <= k < s.len() && s[k] == ']' && eq_run(s, k + 1) == level && k + 1 + level < s.len()
        && s[k + 1 + level] == ']'
}

/// `s[k..]` begins with a long-bracket opener: `[`, some `=`, `[`.
pub open spec fn opens_at(s: Seq<char>, k: int) -> bool {
    0 <= k < s.len() && s[k] == '[' && k + 1 + eq_run(s, k + 1) < s.len() && s[k + 1 + eq_run(
        s,
        k + 1,
    )] == '['
}

/// What the scanner emits for `s[i..]` when it starts there in `mode`, and
/// the mode it is in at the end of `s`.
pub open spec fn scan_from(s: Seq<char>, i: int, mode: ScanMode) -> (Seq<char>, ScanMode)
    decreases s.len() - i,
{
    if i < 0 || i >= s.len() {
        (seq![], mode)
    } else {
        let c = s[i];
        match mode {
            ScanMode::SingleQuote | ScanMode::DoubleQuote => {
                let q = if mode is SingleQuote {
                    '\''
                } else {
                    '"'
                };
                if c == '\\' && i + 1 < s.len() {
                    let r = scan_from(s, i + 2, mode);
                    (seq![c, s[i + 1]] + r.0, r.1)
                } else if c == q {
                    let r = scan_from(s, i + 1, ScanMode::Normal);
                    (seq![c] + r.0, r.1)
                } else {
                    let r = scan_from(s, i + 1, mode);
                    (seq![c] + r.0, r.1)
                }
            },
            ScanMode::LongString(level) => {
                if closes_at(s, i, level as int) {
                    let r = scan_from(s, i + level + 2, ScanMode::Normal);
                    (s.subrange(i, i + level + 2) + r.0, r.1)
                } else {
                    let r = scan_from(s, i + 1, mode);
                    (seq![c] + r.0, r.1)
                }
            },
            ScanMode::LongComment(level) => {
                if closes_at(s, i, level as int) {
                    scan_from(s, i + level + 2, ScanMode::Normal)
                } else {
                    scan_from(s, i + 1, mode)
                }
            },
            ScanMode::Normal => {
                if c == '\'' {
                    let r = scan_from(s, i + 1, ScanMode::SingleQuote);
                    (seq![c] + r.0, r.1)
                } else if c == '"' {
                    let r = scan_from(s, i + 1, ScanMode::DoubleQuote);
                    (seq![c] + r.0, r.1)
                } else if opens_at(s, i) {
                    let e = eq_run(s, i + 1);
                    if e <= usize::MAX {
                        let r = scan_from(s, i + e + 2, ScanMode::LongString(e as usize));
                        (s.subrange(i, i + e + 2) + r.0, r.1)
                    } else {
                        (seq![], mode)
                    }
                } else if c == '-' && i + 1 < s.len() && s[i + 1] == '-' {
                    // A long-bracket comment is skipped up to its closer, on
                    // this line or a later one; any other comment ends the line.
                    if opens_at(s, i + 2) {
                        let e = eq_run(s, i + 3);
                        if e <= usize::MAX {
                            scan_from(s, i + e + 4, ScanMode::LongComment(e as usize))
                        } else {
                            (seq![], mode)
                        }
                    } else {
                        (seq![], ScanMode::Normal)
                    }
                } else {
                    let r = scan_from(s, i + 1, ScanMode::Normal);
                    (seq![c] + r.0, r.1)
                }
            },
        }
    }
}

/// The code of a line scanned from `mode`, trimmed, and the mode that the
/// next line starts in.
pub open spec fn strip_from(s: Seq<char>, mode: ScanMode) -> (Seq<char>, ScanMode) {
    (trim(scan_from(s, 0, mode).0), scan_from(s, 0, mode).1)
}

/// The code of a line: what the scanner keeps, trimmed.
pub open spec fn strip_spec(s: Seq<char>) -> Seq<char> {
    strip_from(s, ScanMode::Normal).0
}

proof fn lemma_eq_run_bounds(s: Seq<char>, j: int)
    requires
        0 <= j,
    ensures
        0 <= eq_run(s, j),
        j + eq_run(s, j) <= s.len() || eq_run(s, j) == 0,
        forall|t: int| j <= t < j + eq_run(s, j) ==> s[t] == '=',
        j + eq_run(s, j) < s.len() ==> s[j + eq_run(s, j)] != '=',
    decreases s.len() - j,
{
    if 0 <= j < s.len() && s[j] == '=' {
        lemma_eq_run_bounds(s, j + 1);
    }
}

fn eq_run_at(v: &Vec<char>, j: usize) -> (r: usize)
    requires
        j <= v@.len(),
    ensures
        r == eq_run(v@, j as int),
        j + r <= v@.len(),
{
    let mut k: usize = j;
    while k < v.len() && v[k] == '='
        invariant
            j <= k <= v@.len(),
            eq_run(v@, j as int) == (k - j) + eq_run(v@, k as int),
        decreases v@.len() - k,
    {
        k = k + 1;
    }
    k - j
}

fn opens_at_exec(v: &Vec<char>, k: usize) -> (r: bool)
    requires
        k <= v@.len(),
    ensures
        r == opens_at(v@, k as int),
{
    if k >= v.len() || v[k] != '[' {
        return false;
    }
    let e = eq_run_at(v, k + 1);
    k + 1 + e < v.len() && v[k + 1 + e] == '['
}

fn closes_at_exec(v: &Vec<char>, k: usize, level: usize) -> (r: bool)
    requires
        k <= v@.len(),
    ensures
        r == closes_at(v@, k as int, level as int),
{
    if k >= v.len() || v[k] != ']' {
        return false;
    }
    let e = eq_run_at(v, k + 1);
    e == level && k + 1 + e < v.len() && v[k + 1 + e] == ']'
}


/// Appends `v[lo..hi]` to `out`.
fn push_range(out: &mut Vec<char>, v: &Vec<char>, lo: usize, hi: usize)
    requires
        lo <= hi <= v@.len(),
    ensures
        final(out)@ == old(out)@ + v@.subrange(lo as int, hi as int),
{
    let ghost before = out@;
    let mut t: usize = lo;
    while t < hi
        invariant
            lo <= t <= hi <= v@.len(),
            out@ == before + v@.subrange(lo as int, t as int),
        decreases hi - t,
    {
        out.push(v[t]);
        assert(v@.subrange(lo as int, t + 1) == v@.subrange(lo as int, t as int).push(v@[t as int]));
        t = t + 1;
    }
}

impl LuaFileParser {

/// Removes the comments from a line of Lua and trims the result.
///
/// Quotes (with backslash escapes) and long-bracket strings are copied as
/// they stand; `--` outside them starts a comment. A long-bracket comment
/// closed on the same line is cut out and scanning goes on after it; any
/// other comment runs to the end of the line.
pub fn remove_annotation(line: &str) -> (r: String)
    ensures
        r@ == strip_spec(line@),
{
    Self::strip_comment_from(line, ScanMode::Normal).0
}

/// Removes the comments from a line that starts in `mode`, as left by the
/// line before it, and trims the result; also gives the mode that the next
/// line starts in, so that long strings and long comments may span lines.
pub fn strip_comment_from(line: &str, start: ScanMode) -> (r: (String, ScanMode))
    ensures
        (r.0@, r.1) == strip_from(line@, start),
{
    let v = chars_of(line);
    let n = v.len();
    let ghost s = v@;
    let ghost total = scan_from(s, 0, start);
    let mut out: Vec<char> = Vec::new();
    let mut i: usize = 0;
    let mut mode = start;
    while i < n
        invariant
            s == v@,
            n == s.len(),
            i <= n,
            out@ + scan_from(s, i as int, mode).0 == total.0,
            scan_from(s, i as int, mode).1 == total.1,
        ensures
            out@ == total.0,
            mode == total.1,
        decreases n - i,
    {
        let c = v[i];
        let ghost here = scan_from(s, i as int, mode);
        proof {
            lemma_eq_run_bounds(s, i + 1);
        }
        match mode {
            ScanMode::SingleQuote | ScanMode::DoubleQuote => {
                let q = if matches!(mode, ScanMode::SingleQuote) {
                    '\''
                } else {
                    '"'
                };
                if c == '\\' && i + 1 < n {
                    proof {
                        let r = scan_from(s, i + 2, mode);
                        assert(out@.push(c).push(s[i + 1]) + r.0 =~= out@ + here.0);
                    }
                    out.push(c);
                    out.push(v[i + 1]);
                    i = i + 2;
                } else if c == q {
                    proof {
                        let r = scan_from(s, i + 1, ScanMode::Normal);
                        assert(out@.push(c) + r.0 =~= out@ + here.0);
                    }
                    out.push(c);
                    mode = ScanMode::Normal;
                    i = i + 1;
                } else {
                    proof {
                        let r = scan_from(s, i + 1, mode);
                        assert(out@.push(c) + r.0 =~= out@ + here.0);
                    }
                    out.push(c);
                    i = i + 1;
                }
            },
            ScanMode::LongString(level) => {
                if closes_at_exec(&v, i, level) {
                    let ghost before = out@;
                    push_range(&mut out, &v, i, i + level + 2);
                    proof {
                        let r = scan_from(s, i + level + 2, ScanMode::Normal);
                        assert(out@ + r.0 =~= before + here.0);
                    }
                    i = i + level + 2;
                    mode = ScanMode::Normal;
                } else {
                    proof {
                        let r = scan_from(s, i + 1, mode);
                        assert(out@.push(c) + r.0 =~= out@ + here.0);
                    }
                    out.push(c);
                    i = i + 1;
                }
            },
            ScanMode::LongComment(level) => {
                if closes_at_exec(&v, i, level) {
                    i = i + level + 2;
                    mode = ScanMode::Normal;
                } else {
                    i = i + 1;
                }
            },
            ScanMode::Normal => {
                if c == '\'' {
                    proof {
                        let r = scan_from(s, i + 1, ScanMode::SingleQuote);
                        assert(out@.push(c) + r.0 =~= out@ + here.0);
                    }
                    out.push(c);
                    mode = ScanMode::SingleQuote;
                    i = i + 1;
                } else if c == '"' {
                    proof {
                        let r = scan_from(s, i + 1, ScanMode::DoubleQuote);
                        assert(out@.push(c) + r.0 =~= out@ + here.0);
                    }
                    out.push(c);
                    mode = ScanMode::DoubleQuote;
                    i = i + 1;
                } else if opens_at_exec(&v, i) {
                    let e = eq_run_at(&v, i + 1);
                    let ghost before = out@;
                    push_range(&mut out, &v, i, i + e + 2);
                    proof {
                        let r = scan_from(s, i + e + 2, ScanMode::LongString(e));
                        assert(out@ + r.0 =~= before + here.0);
                    }
                    i = i + e + 2;
                    mode = ScanMode::LongString(e);
                } else if c == '-' && i + 1 < n && v[i + 1] == '-' {
                    if opens_at_exec(&v, i + 2) {
                        let e = eq_run_at(&v, i + 3);
                        i = i + e + 4;
                        mode = ScanMode::LongComment(e);
                    } else {
                        assert(out@ + here.0 =~= out@);
                        break ;
                    }
                } else {
                    proof {
                        let r = scan_from(s, i + 1, ScanMode::Normal);
                        assert(out@.push(c) + r.0 =~= out@ + here.0);
                    }
                    out.push(c);
                    i = i + 1;
                }
            },
        }
    }
    assert(out@.subrange(0, out@.len() as int) == out@);
    let (a, b) = trim_bounds(&out, 0, out.len());
    (string_of(&out, a, b), mode)
}

}

} // verus!
