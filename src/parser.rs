//! The per-file driver: decides for each line whether it documents, declares
//! or resets, and emits one document per documented declaration.
use vstd::prelude::*;
use crate::classify::{api_tail, classify, classify_signature, doc_line, is_space_line};
use crate::scanner::{strip_from, ScanMode};
use crate::tags::doc_of_lines;
use crate::text::{
    all_ws, contains, starts_with, str_contains, strings_view,
    trim_start, trimmed_starts_with,
};
use crate::types::{DocBlock, DocModel};
use crate::LuaFileParser;

verus! {

/// What the driver holds between two lines.
pub struct ParseState {
    /// The buffered comment lines.
    pub buf: Seq<Seq<char>>,
    /// The declaration accumulated so far.
    pub sig: Seq<char>,
    /// Whether a declaration spans the lines being read.
    pub multi: bool,
    /// The scanner's mode at the end of the last line of code.
    pub mode: ScanMode,
    /// The documents emitted so far.
    pub docs: Seq<DocModel>,
}

pub open spec fn docs_view(v: Seq<DocBlock>) -> Seq<DocModel> {
    v.map_values(|d: DocBlock| d@)
}

/// A document completed with its signature and the signature's classification.
pub open spec fn with_signature(d: DocModel, sig: Seq<char>) -> DocModel {
    DocModel {
        signature: sig,
        owner_object: classify(sig).0,
        is_local: classify(sig).1,
        is_member: classify(sig).2,
        ..d
    }
}

/// A declaration ends with `sig`: emit a document if comment lines are buffered.
pub open spec fn finish(st: ParseState, sig: Seq<char>) -> ParseState {
    if st.buf.len() > 0 {
        ParseState {
            buf: seq![],
            sig: seq![],
            docs: st.docs.push(with_signature(doc_of_lines(st.buf), sig)),
            ..st
        }
    } else {
        ParseState { sig: seq![], ..st }
    }
}

pub open spec fn starts_function(code: Seq<char>) -> bool {
    starts_with(trim_start(code), "function"@) || starts_with(trim_start(code), "local function"@)
}

pub open spec fn closes_decl(code: Seq<char>) -> bool {
    api_tail(code) || contains(code, ')')
}

/// The driver's step on a line of code (comments already stripped). A
/// declaration whose parameter list opens but is not closed on its first
/// line goes on over the following lines.
pub open spec fn code_step(st: ParseState, code: Seq<char>) -> ParseState {
    if starts_function(code) {
        if contains(code, '(') && !closes_decl(code) {
            ParseState { multi: true, sig: st.sig + code, ..st }
        } else if closes_decl(code) {
            finish(st, st.sig + code)
        } else {
            st
        }
    } else if st.multi {
        if closes_decl(code) {
            finish(ParseState { multi: false, ..st }, st.sig + code)
        } else {
            ParseState { sig: st.sig + code, ..st }
        }
    } else {
        ParseState { buf: seq![], ..st }
    }
}

/// The driver's step on one line: a blank line resets; a documentation line
/// (or any comment line once a run has started) is buffered; any other line
/// is scanned as code, starting in the mode that the last line of code left.
pub open spec fn parse_step(st: ParseState, l: Seq<char>) -> ParseState {
    if all_ws(l) {
        ParseState { buf: seq![], sig: seq![], ..st }
    } else if doc_line(l) || (st.buf.len() > 0 && starts_with(trim_start(l), "--"@)) {
        ParseState { buf: st.buf.push(l), ..st }
    } else {
        let r = strip_from(l, st.mode);
        code_step(ParseState { mode: r.1, ..st }, r.0)
    }
}

pub open spec fn init_state() -> ParseState {
    ParseState { buf: seq![], sig: seq![], multi: false, mode: ScanMode::Normal, docs: seq![] }
}

pub open spec fn parse_state(lines: Seq<Seq<char>>) -> ParseState
    decreases lines.len(),
{
    if lines.len() == 0 {
        init_state()
    } else {
        parse_step(parse_state(lines.drop_last()), lines.last())
    }
}

/// The documents of a file, in order.
pub open spec fn parse_spec(lines: Seq<Seq<char>>) -> Seq<DocModel> {
    parse_state(lines).docs
}

fn finish_block(buf: Vec<String>, sig: &String) -> (r: DocBlock)
    ensures
        r@ == with_signature(doc_of_lines(strings_view(buf@)), sig@),
{
    let mut block = LuaFileParser::create_docblock(buf);
    let (owner, local, member) = classify_signature(sig.as_str());
    block.signature = sig.clone();
    block.owner_object = owner;
    block.is_local = local;
    block.is_member = member;
    block
}

impl LuaFileParser {

/// The documents of a file given as its lines, in file order. The scanner's
/// mode is carried from one line of code to the next.
pub fn parse_lines(&self, lines: &Vec<String>) -> (r: Vec<DocBlock>)
    ensures
        docs_view(r@) == parse_spec(strings_view(lines@)),
{
    let ghost ls = strings_view(lines@);
    let mut line_buf: Vec<String> = Vec::new();
    let mut sig = String::new();
    let mut multi = false;
    let mut mode = ScanMode::Normal;
    let mut docs: Vec<DocBlock> = Vec::new();
    assert(strings_view(line_buf@) == Seq::<Seq<char>>::empty());
    assert(docs_view(docs@) == Seq::<DocModel>::empty());
    let mut i: usize = 0;
    while i < lines.len()
        invariant
            ls == strings_view(lines@),
            i <= lines@.len(),
            (ParseState {
                buf: strings_view(line_buf@),
                sig: sig@,
                multi,
                mode,
                docs: docs_view(docs@),
            }) == parse_state(ls.take(i as int)),
        decreases lines@.len() - i,
    {
        let ghost st = parse_state(ls.take(i as int));
        let l = lines[i].as_str();
        proof {
            assert(ls.take(i + 1).drop_last() == ls.take(i as int));
            assert(ls.take(i + 1).last() == l@);
        }
        if is_space_line(l) {
            line_buf = Vec::new();
            sig = String::new();
            assert(strings_view(line_buf@) == Seq::<Seq<char>>::empty());
        } else if Self::is_doc_comment(l) || (line_buf.len() > 0 && trimmed_starts_with(l, "--")) {
            let ghost prev = line_buf@;
            line_buf.push(lines[i].clone());
            assert(strings_view(line_buf@) == strings_view(prev).push(l@));
        } else {
            let (code, next) = Self::strip_comment_from(l, mode);
            mode = next;
            let c = code.as_str();
            let mut done = false;
            if trimmed_starts_with(c, "function") || trimmed_starts_with(c, "local function") {
                let closes = Self::is_api_tail(c) || str_contains(c, ')');
                if str_contains(c, '(') && !closes {
                    multi = true;
                    sig.append(c);
                } else if closes {
                    sig.append(c);
                    done = true;
                }
            } else if multi {
                sig.append(c);
                if Self::is_api_tail(c) || str_contains(c, ')') {
                    multi = false;
                    done = true;
                }
            } else {
                line_buf = Vec::new();
                assert(strings_view(line_buf@) == Seq::<Seq<char>>::empty());
            }
            if done {
                if line_buf.len() > 0 {
                    let taken = line_buf;
                    line_buf = Vec::new();
                    let ghost prev = docs@;
                    let block = finish_block(taken, &sig);
                    let ghost bv = block@;
                    docs.push(block);
                    assert(docs_view(docs@) == docs_view(prev).push(bv));
                    assert(strings_view(line_buf@) == Seq::<Seq<char>>::empty());
                }
                sig = String::new();
            }
        }
        i = i + 1;
    }
    assert(ls.take(lines@.len() as int) == ls);
    docs
}

}

} // verus!
