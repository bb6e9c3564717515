//! Character-sequence primitives: whitespace, trimming, prefixes, searching,
//! splitting into words and joining.
use vstd::prelude::*;

verus! {

/// Unicode `White_Space` code points, the set that `char::is_whitespace` tests.
pub open spec fn is_ws(c: char) -> bool {
    ('\u{9}' <= c && c <= '\u{d}') || c == ' ' || c == '\u{85}' || c == '\u{a0}'
        || c == '\u{1680}' || ('\u{2000}' <= c && c <= '\u{200a}') || c == '\u{2028}'
        || c == '\u{2029}' || c == '\u{202f}' || c == '\u{205f}' || c == '\u{3000}'
}

pub open spec fn all_ws(s: Seq<char>) -> bool {
    forall|i: int| 0 <= i < s.len() ==> is_ws(#[trigger] s[i])
}

/// `s` without its leading whitespace.
pub open spec fn trim_start(s: Seq<char>) -> Seq<char>
    decreases s.len(),
{
    if s.len() > 0 && is_ws(s[0]) {
        trim_start(s.drop_first())
    } else {
        s
    }
}

/// `s` without its trailing whitespace.
pub open spec fn trim_end(s: Seq<char>) -> Seq<char>
    decreases s.len(),
{
    if s.len() > 0 && is_ws(s.last()) {
        trim_end(s.drop_last())
    } else {
        s
    }
}

pub open spec fn trim(s: Seq<char>) -> Seq<char> {
    trim_end(trim_start(s))
}

pub open spec fn starts_with(s: Seq<char>, p: Seq<char>) -> bool {
    p.is_prefix_of(s)
}

pub open spec fn ends_with(s: Seq<char>, p: Seq<char>) -> bool {
    p.len() <= s.len() && s.subrange(s.len() - p.len(), s.len() as int) == p
}

/// Position of the first `c` in `s`, or `s.len()` when there is none.
pub open spec fn index_of(s: Seq<char>, c: char) -> int
    decreases s.len(),
{
    if s.len() == 0 {
        0
    } else if s[0] == c {
        0
    } else {
        1 + index_of(s.drop_first(), c)
    }
}

/// Position of the first whitespace character in `s`, or `s.len()`.
pub open spec fn index_of_ws(s: Seq<char>) -> int
    decreases s.len(),
{
    if s.len() == 0 {
        0
    } else if is_ws(s[0]) {
        0
    } else {
        1 + index_of_ws(s.drop_first())
    }
}

pub open spec fn contains(s: Seq<char>, c: char) -> bool {
    index_of(s, c) < s.len()
}

/// The maximal runs of non-whitespace characters of `s`, in order.
pub open spec fn words(s: Seq<char>) -> Seq<Seq<char>>
    decreases s.len(),
{
    let t = trim_start(s);
    if t.len() == 0 {
        seq![]
    } else {
        let k = index_of_ws(t);
        if 0 < k <= t.len() && t.len() <= s.len() {
            seq![t.subrange(0, k)] + words(t.subrange(k, t.len() as int))
        } else {
            seq![]
        }
    }
}

/// The pieces of `s` between occurrences of `c` (one piece when there is none).
pub open spec fn split_on(s: Seq<char>, c: char) -> Seq<Seq<char>>
    decreases s.len(),
{
    let k = index_of(s, c);
    if 0 <= k < s.len() {
        seq![s.subrange(0, k)] + split_on(s.subrange(k + 1, s.len() as int), c)
    } else {
        seq![s]
    }
}

/// The items of `ws` with `sep` between consecutive ones.
pub open spec fn join(ws: Seq<Seq<char>>, sep: Seq<char>) -> Seq<char>
    decreases ws.len(),
{
    if ws.len() == 0 {
        seq![]
    } else if ws.len() == 1 {
        ws[0]
    } else {
        join(ws.drop_last(), sep) + sep + ws.last()
    }
}

pub proof fn lemma_trim_start_shape(s: Seq<char>)
    ensures
        trim_start(s).len() <= s.len(),
        trim_start(s) == s.subrange(s.len() - trim_start(s).len(), s.len() as int),
        trim_start(s).len() > 0 ==> !is_ws(trim_start(s)[0]),
    decreases s.len(),
{
    if s.len() > 0 && is_ws(s[0]) {
        lemma_trim_start_shape(s.drop_first());
        assert(s.drop_first().subrange(
            s.drop_first().len() - trim_start(s).len(),
            s.drop_first().len() as int,
        ) == s.subrange(s.len() - trim_start(s).len(), s.len() as int));
    } else {
        assert(s.subrange(0, s.len() as int) == s);
    }
}

pub proof fn lemma_index_of_bounds(s: Seq<char>, c: char)
    ensures
        0 <= index_of(s, c) <= s.len(),
        index_of(s, c) < s.len() ==> s[index_of(s, c)] == c,
        forall|j: int| 0 <= j < index_of(s, c) ==> s[j] != c,
    decreases s.len(),
{
    if s.len() > 0 && s[0] != c {
        lemma_index_of_bounds(s.drop_first(), c);
        assert forall|j: int| 0 <= j < index_of(s, c) implies s[j] != c by {
            if j > 0 {
                assert(s[j] == s.drop_first()[j - 1]);
            }
        }
    }
}

pub proof fn lemma_index_of_ws_bounds(s: Seq<char>)
    ensures
        0 <= index_of_ws(s) <= s.len(),
        index_of_ws(s) < s.len() ==> is_ws(s[index_of_ws(s)]),
        forall|j: int| 0 <= j < index_of_ws(s) ==> !is_ws(s[j]),
    decreases s.len(),
{
    if s.len() > 0 && !is_ws(s[0]) {
        lemma_index_of_ws_bounds(s.drop_first());
        assert forall|j: int| 0 <= j < index_of_ws(s) implies !is_ws(s[j]) by {
            if j > 0 {
                assert(s[j] == s.drop_first()[j - 1]);
            }
        }
    }
}

/// Tests `c` for Unicode whitespace.
pub fn is_whitespace_char(c: char) -> (r: bool)
    ensures
        r == is_ws(c),
{
    ('\u{9}' <= c && c <= '\u{d}') || c == ' ' || c == '\u{85}' || c == '\u{a0}' || c
        == '\u{1680}' || ('\u{2000}' <= c && c <= '\u{200a}') || c == '\u{2028}' || c
        == '\u{2029}' || c == '\u{202f}' || c == '\u{205f}' || c == '\u{3000}'
}

/// The characters of `s`, in order.
pub fn chars_of(s: &str) -> (r: Vec<char>)
    ensures
        r@ == s@,
{
    let n = s.unicode_len();
    let mut r: Vec<char> = Vec::new();
    let mut i: usize = 0;
    while i < n
        invariant
            n == s@.len(),
            i <= n,
            r@ == s@.subrange(0, i as int),
        decreases n - i,
    {
        r.push(s.get_char(i));
        i = i + 1;
    }
    assert(s@.subrange(0, n as int) == s@);
    r
}

/// Relies on `String::push`: appends one character.
#[verifier::external_body]
pub(crate) fn push_char(s: &mut String, c: char)
    ensures
        final(s)@ == old(s)@.push(c),
{
    s.push(c);
}

/// The characters of `v[lo..hi]` as a `String`.
pub fn string_of(v: &Vec<char>, lo: usize, hi: usize) -> (r: String)
    requires
        lo <= hi <= v@.len(),
    ensures
        r@ == v@.subrange(lo as int, hi as int),
{
    let mut r = String::new();
    let mut i: usize = lo;
    while i < hi
        invariant
            lo <= i <= hi <= v@.len(),
            r@ == v@.subrange(lo as int, i as int),
        decreases hi - i,
    {
        push_char(&mut r, v[i]);
        assert(v@.subrange(lo as int, i + 1) == v@.subrange(lo as int, i as int).push(v@[i as int]));
        i = i + 1;
    }
    r
}

/// The start of `v[lo..hi]` once its leading whitespace is skipped.
pub fn skip_ws(v: &Vec<char>, lo: usize, hi: usize) -> (r: usize)
    requires
        lo <= hi <= v@.len(),
    ensures
        lo <= r <= hi,
        v@.subrange(r as int, hi as int) == trim_start(v@.subrange(lo as int, hi as int)),
{
    let mut i: usize = lo;
    while i < hi && is_whitespace_char(v[i])
        invariant
            lo <= i <= hi <= v@.len(),
            trim_start(v@.subrange(i as int, hi as int)) == trim_start(
                v@.subrange(lo as int, hi as int),
            ),
        decreases hi - i,
    {
        assert(v@.subrange(i as int, hi as int).drop_first() == v@.subrange(i + 1, hi as int));
        i = i + 1;
    }
    proof {
        r_trim_start_stop(v@.subrange(i as int, hi as int));
    }
    i
}

proof fn r_trim_start_stop(s: Seq<char>)
    requires
        s.len() == 0 || !is_ws(s[0]),
    ensures
        trim_start(s) == s,
{
}

proof fn r_trim_end_stop(s: Seq<char>)
    requires
        s.len() == 0 || !is_ws(s.last()),
    ensures
        trim_end(s) == s,
{
}

/// The end of `v[lo..hi]` once its trailing whitespace is dropped.
pub fn skip_ws_back(v: &Vec<char>, lo: usize, hi: usize) -> (r: usize)
    requires
        lo <= hi <= v@.len(),
    ensures
        lo <= r <= hi,
        v@.subrange(lo as int, r as int) == trim_end(v@.subrange(lo as int, hi as int)),
{
    let mut j: usize = hi;
    while j > lo && is_whitespace_char(v[j - 1])
        invariant
            lo <= j <= hi <= v@.len(),
            trim_end(v@.subrange(lo as int, j as int)) == trim_end(
                v@.subrange(lo as int, hi as int),
            ),
        decreases j - lo,
    {
        assert(v@.subrange(lo as int, j as int).drop_last() == v@.subrange(lo as int, j - 1));
        j = j - 1;
    }
    proof {
        r_trim_end_stop(v@.subrange(lo as int, j as int));
    }
    j
}

/// The bounds of `v[lo..hi]` with whitespace trimmed from both ends.
pub fn trim_bounds(v: &Vec<char>, lo: usize, hi: usize) -> (r: (usize, usize))
    requires
        lo <= hi <= v@.len(),
    ensures
        lo <= r.0 <= r.1 <= hi,
        v@.subrange(r.0 as int, r.1 as int) == trim(v@.subrange(lo as int, hi as int)),
{
    let a = skip_ws(v, lo, hi);
    let b = skip_ws_back(v, a, hi);
    (a, b)
}

/// Tests whether `v[lo..hi]` starts with `p`.
pub fn has_prefix_at(v: &Vec<char>, lo: usize, hi: usize, p: &str) -> (r: bool)
    requires
        lo <= hi <= v@.len(),
    ensures
        r == starts_with(v@.subrange(lo as int, hi as int), p@),
{
    let n = p.unicode_len();
    if n > hi - lo {
        return false;
    }
    let mut k: usize = 0;
    while k < n
        invariant
            n == p@.len(),
            lo + n <= hi <= v@.len(),
            k <= n,
            forall|t: int| 0 <= t < k ==> v@[lo + t] == p@[t],
        decreases n - k,
    {
        if v[lo + k] != p.get_char(k) {
            assert(v@.subrange(lo as int, hi as int)[k as int] != p@[k as int]);
            return false;
        }
        k = k + 1;
    }
    assert(v@.subrange(lo as int, hi as int).subrange(0, n as int) == p@);
    true
}

/// Tests whether `v[lo..hi]` ends with `p`.
pub fn has_suffix_at(v: &Vec<char>, lo: usize, hi: usize, p: &str) -> (r: bool)
    requires
        lo <= hi <= v@.len(),
    ensures
        r == ends_with(v@.subrange(lo as int, hi as int), p@),
{
    let n = p.unicode_len();
    if n > hi - lo {
        return false;
    }
    let base = hi - n;
    let mut k: usize = 0;
    while k < n
        invariant
            n == p@.len(),
            lo <= base,
            base + n == hi <= v@.len(),
            k <= n,
            forall|t: int| 0 <= t < k ==> v@[base + t] == p@[t],
        decreases n - k,
    {
        if v[base + k] != p.get_char(k) {
            assert(v@.subrange(lo as int, hi as int).subrange(
                (hi - lo) - n,
                (hi - lo) as int,
            )[k as int] != p@[k as int]);
            return false;
        }
        k = k + 1;
    }
    assert(v@.subrange(lo as int, hi as int).subrange((hi - lo) - n, (hi - lo) as int) == p@);
    true
}

/// The position in `v` of the first `c` in `v[lo..hi]`, or `hi`.
pub fn find_char(v: &Vec<char>, lo: usize, hi: usize, c: char) -> (r: usize)
    requires
        lo <= hi <= v@.len(),
    ensures
        lo <= r <= hi,
        r - lo == index_of(v@.subrange(lo as int, hi as int), c),
{
    let mut i: usize = lo;
    while i < hi && v[i] != c
        invariant
            lo <= i <= hi <= v@.len(),
            index_of(v@.subrange(lo as int, hi as int), c) == (i - lo) + index_of(
                v@.subrange(i as int, hi as int),
                c,
            ),
        decreases hi - i,
    {
        assert(v@.subrange(i as int, hi as int).drop_first() == v@.subrange(i + 1, hi as int));
        i = i + 1;
    }
    i
}

/// The position in `v` of the first whitespace character in `v[lo..hi]`, or `hi`.
pub fn find_ws(v: &Vec<char>, lo: usize, hi: usize) -> (r: usize)
    requires
        lo <= hi <= v@.len(),
    ensures
        lo <= r <= hi,
        r - lo == index_of_ws(v@.subrange(lo as int, hi as int)),
{
    let mut i: usize = lo;
    while i < hi && !is_whitespace_char(v[i])
        invariant
            lo <= i <= hi <= v@.len(),
            index_of_ws(v@.subrange(lo as int, hi as int)) == (i - lo) + index_of_ws(
                v@.subrange(i as int, hi as int),
            ),
        decreases hi - i,
    {
        assert(v@.subrange(i as int, hi as int).drop_first() == v@.subrange(i + 1, hi as int));
        i = i + 1;
    }
    i
}

/// The character sequences of a list of strings.
pub open spec fn strings_view(v: Seq<String>) -> Seq<Seq<char>> {
    v.map_values(|s: String| s@)
}

/// Tests whether `v[lo..hi]` is exactly `p`.
pub fn range_is(v: &Vec<char>, lo: usize, hi: usize, p: &str) -> (r: bool)
    requires
        lo <= hi <= v@.len(),
    ensures
        r == (v@.subrange(lo as int, hi as int) == p@),
{
    let n = p.unicode_len();
    if hi - lo != n {
        return false;
    }
    let b = has_prefix_at(v, lo, hi, p);
    assert(v@.subrange(lo as int, hi as int).subrange(0, n as int) == v@.subrange(
        lo as int,
        hi as int,
    ));
    b
}

/// The words of `v[lo..hi]`, split at whitespace.
pub fn split_words(v: &Vec<char>, lo: usize, hi: usize) -> (r: Vec<String>)
    requires
        lo <= hi <= v@.len(),
    ensures
        strings_view(r@) == words(v@.subrange(lo as int, hi as int)),
{
    let mut r: Vec<String> = Vec::new();
    let mut i: usize = lo;
    while i < hi
        invariant
            lo <= i <= hi <= v@.len(),
            strings_view(r@) + words(v@.subrange(i as int, hi as int)) == words(
                v@.subrange(lo as int, hi as int),
            ),
        decreases hi - i,
    {
        let a = skip_ws(v, i, hi);
        if a == hi {
            assert(words(v@.subrange(i as int, hi as int)) == Seq::<Seq<char>>::empty());
            assert(words(v@.subrange(hi as int, hi as int)) == Seq::<Seq<char>>::empty());
            i = hi;
        } else {
            let b = find_ws(v, a, hi);
            let ghost prev = r@;
            proof {
                let s = v@.subrange(i as int, hi as int);
                let t = trim_start(s);
                lemma_trim_start_shape(s);
                lemma_index_of_ws_bounds(t);
                assert(t == v@.subrange(a as int, hi as int));
                assert(t.subrange(0, b - a) == v@.subrange(a as int, b as int));
                assert(t.subrange(b - a, t.len() as int) == v@.subrange(b as int, hi as int));
                assert(words(s) == seq![v@.subrange(a as int, b as int)] + words(
                    v@.subrange(b as int, hi as int),
                ));
            }
            let w = string_of(v, a, b);
            r.push(w);
            proof {
                assert(strings_view(r@) == strings_view(prev).push(w@));
                assert(strings_view(r@) + words(v@.subrange(b as int, hi as int)) == strings_view(
                    prev,
                ) + (seq![w@] + words(v@.subrange(b as int, hi as int))));
            }
            i = b;
        }
    }
    assert(words(v@.subrange(hi as int, hi as int)) == Seq::<Seq<char>>::empty());
    assert(strings_view(r@) + Seq::<Seq<char>>::empty() == strings_view(r@));
    r
}

/// The pieces of `v[lo..hi]` between occurrences of `c`, each trimmed.
pub fn split_trimmed(v: &Vec<char>, lo: usize, hi: usize, c: char) -> (r: Vec<String>)
    requires
        lo <= hi <= v@.len(),
    ensures
        strings_view(r@) == split_on(v@.subrange(lo as int, hi as int), c).map_values(
            |p: Seq<char>| trim(p),
        ),
{
    let mut r: Vec<String> = Vec::new();
    let mut i: usize = lo;
    loop
        invariant_except_break
            strings_view(r@) + split_on(v@.subrange(i as int, hi as int), c).map_values(
                |p: Seq<char>| trim(p),
            ) == split_on(v@.subrange(lo as int, hi as int), c).map_values(|p: Seq<char>| trim(p)),
        invariant
            lo <= i <= hi <= v@.len(),
        ensures
            strings_view(r@) == split_on(v@.subrange(lo as int, hi as int), c).map_values(
                |p: Seq<char>| trim(p),
            ),
        decreases hi - i,
    {
        let k = find_char(v, i, hi, c);
        let (a, b) = trim_bounds(v, i, k);
        let w = string_of(v, a, b);
        let ghost prev = r@;
        let ghost s = v@.subrange(i as int, hi as int);
        proof {
            lemma_index_of_bounds(s, c);
            assert(s.subrange(0, k - i) == v@.subrange(i as int, k as int));
        }
        r.push(w);
        assert(strings_view(r@) == strings_view(prev).push(w@));
        if k == hi {
            assert(s.subrange(0, k - i) == s);
            assert(split_on(s, c).map_values(|p: Seq<char>| trim(p)) == seq![w@]);
            assert(strings_view(prev) + seq![w@] =~= strings_view(prev).push(w@));
            break ;
        }
        proof {
            let rest = v@.subrange(k + 1, hi as int);
            assert(s.subrange(k - i + 1, s.len() as int) == rest);
            assert(split_on(s, c) == seq![v@.subrange(i as int, k as int)] + split_on(rest, c));
            assert(split_on(s, c).map_values(|p: Seq<char>| trim(p)) == seq![w@] + split_on(
                rest,
                c,
            ).map_values(|p: Seq<char>| trim(p)));
            assert(strings_view(r@) + split_on(rest, c).map_values(|p: Seq<char>| trim(p))
                =~= strings_view(prev) + split_on(s, c).map_values(|p: Seq<char>| trim(p)));
        }
        i = k + 1;
    }
    r
}

/// The strings of `ws[from..]` joined with `sep` between them.
pub fn join_from(ws: &Vec<String>, from: usize, sep: &str) -> (r: String)
    requires
        from <= ws@.len(),
    ensures
        r@ == join(strings_view(ws@).skip(from as int), sep@),
{
    let ghost sv = strings_view(ws@);
    let mut r = String::new();
    let mut i: usize = from;
    while i < ws.len()
        invariant
            sv == strings_view(ws@),
            from <= i <= ws@.len(),
            r@ == join(sv.subrange(from as int, i as int), sep@),
        decreases ws@.len() - i,
    {
        if i > from {
            r.append(sep);
        }
        r.append(ws[i].as_str());
        proof {
            let next = sv.subrange(from as int, i + 1);
            assert(next.drop_last() == sv.subrange(from as int, i as int));
            assert(next.last() == ws@[i as int]@);
            if i == from {
                assert(join(sv.subrange(from as int, i as int), sep@) == Seq::<char>::empty());
                assert(r@ == ws@[i as int]@);
            }
        }
        i = i + 1;
    }
    assert(sv.subrange(from as int, ws@.len() as int) == sv.skip(from as int));
    r
}

/// Tests whether `line`, after its leading whitespace, starts with `p`.
pub fn trimmed_starts_with(line: &str, p: &str) -> (r: bool)
    ensures
        r == starts_with(trim_start(line@), p@),
{
    let v = chars_of(line);
    assert(v@.subrange(0, v@.len() as int) == v@);
    let a = skip_ws(&v, 0, v.len());
    has_prefix_at(&v, a, v.len(), p)
}

/// Tests whether `line` holds `c`.
pub fn str_contains(line: &str, c: char) -> (r: bool)
    ensures
        r == contains(line@, c),
{
    let v = chars_of(line);
    assert(v@.subrange(0, v@.len() as int) == v@);
    find_char(&v, 0, v.len(), c) < v.len()
}

} // verus!
