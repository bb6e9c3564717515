//! Classifies a function signature: its owner object, whether it is local,
//! and whether it is a member function; and the line predicates of the parser.
use vstd::prelude::*;
use crate::text::{
    all_ws, chars_of, contains, ends_with, find_char, has_prefix_at, has_suffix_at, index_of,
    is_whitespace_char, lemma_index_of_bounds, range_is, skip_ws, skip_ws_back, starts_with,
    string_of, trim, trim_bounds, trim_end, trim_start,
};
use crate::LuaFileParser;

verus! {

/// Position of the first `.` or `:` in `s`, or `s.len()`.
pub open spec fn index_of_sep(s: Seq<char>) -> int
    decreases s.len(),
{
    if s.len() == 0 {
        0
    } else if s[0] == '.' || s[0] == ':' {
        0
    } else {
        1 + index_of_sep(s.drop_first())
    }
}

/// The owner named by a signature: `"local"` for a local function; for
/// `function A.f(..)` or `function A:f(..)` the name before the first `.` or
/// `:` that comes before the parameter list, trimmed; else empty.
pub open spec fn owner_spec(l: Seq<char>) -> Seq<char> {
    let t = trim(l);
    if starts_with(t, "local function"@) {
        "local"@
    } else if starts_with(t, "function"@) {
        let s = trim_start(t.skip(8));
        let k = index_of_sep(s);
        if k < index_of(s, '(') {
            trim(s.subrange(0, k))
        } else {
            seq![]
        }
    } else {
        seq![]
    }
}

/// The text between the first `(` of `l` and the first `)` after it (or the end).
pub open spec fn param_list(l: Seq<char>) -> Seq<char> {
    let rest = l.skip(index_of(l, '(') + 1);
    rest.subrange(0, index_of(rest, ')'))
}

/// Whether a signature declares a member of `obj`: a `:` before the parameter
/// list makes one; otherwise, where the name holds a `.`, the first parameter
/// (or the only one) must be `obj` itself.
pub open spec fn member_spec(l: Seq<char>, obj: Seq<char>) -> bool {
    let p = index_of(l, '(');
    if contains(l.subrange(0, p), ':') {
        true
    } else if contains(l, '.') && p < l.len() {
        let params = param_list(l);
        let cm = index_of(params, ',');
        if cm < params.len() {
            trim(params.subrange(0, cm)) == obj
        } else {
            trim(params).len() > 0 && trim(params) == obj
        }
    } else {
        false
    }
}

/// Owner, locality and membership of a finished signature.
pub open spec fn classify(sig: Seq<char>) -> (Seq<char>, bool, bool) {
    let t = trim(sig);
    if starts_with(t, "local function"@) {
        (seq![], true, false)
    } else if starts_with(t, "function"@) {
        (owner_spec(sig), false, member_spec(sig, owner_spec(sig)))
    } else {
        (seq![], false, false)
    }
}

/// A line with documentation: `---@`, `--@` or `-- @` after leading whitespace.
pub open spec fn doc_line(l: Seq<char>) -> bool {
    let t = trim_start(l);
    starts_with(t, "---@"@) || starts_with(t, "--@"@) || starts_with(t, "-- @"@)
}

/// The end of a declaration: a closing `)`, or `end` before trailing whitespace.
pub open spec fn api_tail(l: Seq<char>) -> bool {
    ends_with(l, ")"@) || ends_with(trim_end(l), "end"@)
}

fn find_sep(v: &Vec<char>, lo: usize, hi: usize) -> (r: usize)
    requires
        lo <= hi <= v@.len(),
    ensures
        lo <= r <= hi,
        r - lo == index_of_sep(v@.subrange(lo as int, hi as int)),
{
    let mut i: usize = lo;
    while i < hi && v[i] != '.' && v[i] != ':'
        invariant
            lo <= i <= hi <= v@.len(),
            index_of_sep(v@.subrange(lo as int, hi as int)) == (i - lo) + index_of_sep(
                v@.subrange(i as int, hi as int),
            ),
        decreases hi - i,
    {
        assert(v@.subrange(i as int, hi as int).drop_first() == v@.subrange(i + 1, hi as int));
        i = i + 1;
    }
    i
}

/// Tests whether every character of `line` is whitespace.
pub fn is_space_line(line: &str) -> (r: bool)
    ensures
        r == all_ws(line@),
{
    let v = chars_of(line);
    let mut i: usize = 0;
    while i < v.len()
        invariant
            v@ == line@,
            i <= v@.len(),
            forall|j: int| 0 <= j < i ==> crate::text::is_ws(#[trigger] v@[j]),
        decreases v@.len() - i,
    {
        if !is_whitespace_char(v[i]) {
            return false;
        }
        i = i + 1;
    }
    true
}

impl LuaFileParser {

/// Tests whether a line, after its leading whitespace, starts with `-- `.
pub fn is_annotation_line(line: &str) -> (r: bool)
    ensures
        r == starts_with(trim_start(line@), "-- "@),
{
    let v = chars_of(line);
    let a = skip_ws(&v, 0, v.len());
    assert(v@.subrange(0, v@.len() as int) == v@);
    has_prefix_at(&v, a, v.len(), "-- ")
}

/// Tests whether a line ends a declaration.
pub fn is_api_tail(line: &str) -> (r: bool)
    ensures
        r == api_tail(line@),
{
    let v = chars_of(line);
    assert(v@.subrange(0, v@.len() as int) == v@);
    if has_suffix_at(&v, 0, v.len(), ")") {
        return true;
    }
    let b = skip_ws_back(&v, 0, v.len());
    has_suffix_at(&v, 0, b, "end")
}

/// Tests whether a line starts (after whitespace) with a documentation marker.
pub fn is_doc_comment(line: &str) -> (r: bool)
    ensures
        r == doc_line(line@),
{
    let v = chars_of(line);
    let a = skip_ws(&v, 0, v.len());
    assert(v@.subrange(0, v@.len() as int) == v@);
    has_prefix_at(&v, a, v.len(), "---@") || has_prefix_at(&v, a, v.len(), "--@")
        || has_prefix_at(&v, a, v.len(), "-- @")
}

/// The owner object that a signature names (see `owner_spec`).
pub fn extract_owner_object(line: &str) -> (r: String)
    ensures
        r@ == owner_spec(line@),
{
    let v = chars_of(line);
    let n = v.len();
    assert(v@.subrange(0, n as int) == v@);
    let (a, b) = trim_bounds(&v, 0, n);
    let ghost t = v@.subrange(a as int, b as int);
    if has_prefix_at(&v, a, b, "local function") {
        return String::from_str("local");
    }
    if !has_prefix_at(&v, a, b, "function") {
        return String::new();
    }
    proof {
        reveal_strlit("function");
        assert(t.skip(8) == v@.subrange(a + 8, b as int));
    }
    let s = skip_ws(&v, a + 8, b);
    let k = find_sep(&v, s, b);
    let p = find_char(&v, s, b, '(');
    if k < p {
        let (x, y) = trim_bounds(&v, s, k);
        assert(v@.subrange(s as int, b as int).subrange(0, k - s) == v@.subrange(
            s as int,
            k as int,
        ));
        string_of(&v, x, y)
    } else {
        String::new()
    }
}

/// Tests whether a signature declares a member function of `obj_name`
/// (see `member_spec`).
pub fn is_member_function(line: &str, obj_name: &str) -> (r: bool)
    ensures
        r == member_spec(line@, obj_name@),
{
    let v = chars_of(line);
    let n = v.len();
    let ghost l = v@;
    assert(l.subrange(0, n as int) == l);
    proof {
        lemma_index_of_bounds(l, '(');
    }
    let p = find_char(&v, 0, n, '(');
    let c = find_char(&v, 0, p, ':');
    if c < p {
        return true;
    }
    let d = find_char(&v, 0, n, '.');
    if d == n || p == n {
        return false;
    }
    let q = find_char(&v, p + 1, n, ')');
    proof {
        let rest = l.skip(p + 1);
        assert(rest == l.subrange(p + 1, n as int));
        lemma_index_of_bounds(rest, ')');
        assert(param_list(l) == l.subrange(p + 1, q as int));
    }
    let cm = find_char(&v, p + 1, q, ',');
    if cm < q {
        assert(l.subrange(p + 1, q as int).subrange(0, cm - (p + 1)) == l.subrange(
            p + 1,
            cm as int,
        ));
        let (x, y) = trim_bounds(&v, p + 1, cm);
        range_is(&v, x, y, obj_name)
    } else {
        let (x, y) = trim_bounds(&v, p + 1, q);
        x < y && range_is(&v, x, y, obj_name)
    }
}

}

/// The classification of a signature: owner object, locality, membership.
pub fn classify_signature(sig: &str) -> (r: (String, bool, bool))
    ensures
        (r.0@, r.1, r.2) == classify(sig@),
{
    let v = chars_of(sig);
    let n = v.len();
    assert(v@.subrange(0, n as int) == v@);
    let (a, b) = trim_bounds(&v, 0, n);
    if has_prefix_at(&v, a, b, "local function") {
        (String::new(), true, false)
    } else if has_prefix_at(&v, a, b, "function") {
        let owner = LuaFileParser::extract_owner_object(sig);
        let member = LuaFileParser::is_member_function(sig, owner.as_str());
        (owner, false, member)
    } else {
        (String::new(), false, false)
    }
}

} // verus!
