//! Properties that hold of every input.
use vstd::prelude::*;
use crate::classify::classify;
use crate::parser::{parse_spec, parse_state, parse_step, with_signature, ParseState};
use crate::render::{render_all, render_block};
use crate::tags::{doc_of_lines, tag_state};
use crate::text::{all_ws, trim_start};
use crate::types::{doc_wf, DocModel};

verus! {

pub open spec fn numbered(d: DocModel) -> bool {
    forall|i: int| 0 <= i < d.parameters.len() ==> (#[trigger] d.parameters[i]).number == i
}

proof fn lemma_tag_state_numbered(lines: Seq<Seq<char>>)
    ensures
        numbered(tag_state(lines).0),
    decreases lines.len(),
{
    if lines.len() > 0 {
        lemma_tag_state_numbered(lines.drop_last());
        let st = tag_state(lines.drop_last());
        let d = st.0;
        let nd = tag_state(lines).0;
        assert forall|i: int| 0 <= i < nd.parameters.len() implies (
        #[trigger] nd.parameters[i]).number == i by {
            if i < d.parameters.len() && nd.parameters.len() == d.parameters.len() + 1 {
                assert(nd.parameters[i] == d.parameters[i]);
            }
        }
    }
}

proof fn lemma_classify_local(sig: Seq<char>)
    ensures
        classify(sig).1 ==> classify(sig).0.len() == 0 && !classify(sig).2,
{
}

proof fn lemma_step_docs(st: ParseState, l: Seq<char>)
    ensures
        parse_step(st, l).docs == st.docs || parse_step(st, l).docs == st.docs.push(
            with_signature(doc_of_lines(st.buf), parse_step(st, l).docs.last().signature),
        ),
{
}

/// Every document that the parser emits is well formed: its parameters are
/// numbered from zero in order of declaration, and a local function has no
/// owner object and is no member.
pub proof fn lemma_documents_well_formed(lines: Seq<Seq<char>>)
    ensures
        forall|i: int| 0 <= i < parse_spec(lines).len() ==> doc_wf(#[trigger] parse_spec(lines)[i]),
    decreases lines.len(),
{
    if lines.len() > 0 {
        lemma_documents_well_formed(lines.drop_last());
        let st = parse_state(lines.drop_last());
        let l = lines.last();
        lemma_step_docs(st, l);
        let docs = parse_spec(lines);
        assert(docs == parse_step(st, l).docs);
        assert(st.docs == parse_spec(lines.drop_last()));
        if docs != st.docs {
            let d = docs.last();
            lemma_tag_state_numbered(st.buf);
            lemma_classify_local(d.signature);
            let sig = d.signature;
            assert(d == with_signature(doc_of_lines(st.buf), sig));
            assert(d.parameters == tag_state(st.buf).0.parameters);
            assert(numbered(d));
            assert(doc_wf(d));
            assert forall|i: int| 0 <= i < docs.len() implies doc_wf(#[trigger] docs[i]) by {
                if i < st.docs.len() {
                    assert(docs[i] == st.docs[i]);
                    assert(doc_wf(parse_spec(lines.drop_last())[i]));
                } else {
                    assert(docs[i] == d);
                }
            }
        } else {
            assert forall|i: int| 0 <= i < docs.len() implies doc_wf(#[trigger] docs[i]) by {
                assert(docs[i] == st.docs[i]);
                assert(doc_wf(parse_spec(lines.drop_last())[i]));
            }
        }
    }
}

/// Documents come out in file order: reading more lines only appends to the
/// documents of the lines read before.
pub proof fn lemma_documents_in_file_order(lines: Seq<Seq<char>>, i: int, j: int)
    requires
        0 <= i <= j <= lines.len(),
    ensures
        parse_spec(lines.take(i)).is_prefix_of(parse_spec(lines.take(j))),
    decreases j - i,
{
    if i < j {
        lemma_documents_in_file_order(lines, i, j - 1);
        let before = lines.take(j - 1);
        assert(lines.take(j).drop_last() == before);
        lemma_step_docs(parse_state(before), lines.take(j).last());
        let a = parse_spec(lines.take(i));
        let b = parse_spec(before);
        let c = parse_spec(lines.take(j));
        assert(a.is_prefix_of(b));
        assert forall|k: int| 0 <= k < a.len() implies a[k] == c[k] by {
            assert(a[k] == b[k]);
            if c != b {
                assert(c[k] == b[k]);
            }
        }
        assert(c.subrange(0, a.len() as int) =~= a);
    } else {
        assert(parse_spec(lines.take(i)).subrange(0, parse_spec(lines.take(i)).len() as int)
            == parse_spec(lines.take(i)));
    }
}

proof fn lemma_trim_start_all_ws(s: Seq<char>)
    requires
        all_ws(s),
    ensures
        trim_start(s).len() == 0,
    decreases s.len(),
{
    if s.len() > 0 {
        assert(all_ws(s.drop_first())) by {
            assert forall|k: int| 0 <= k < s.drop_first().len() implies crate::text::is_ws(
                #[trigger] s.drop_first()[k],
            ) by {
                assert(s.drop_first()[k] == s[k + 1]);
            }
        }
        lemma_trim_start_all_ws(s.drop_first());
    }
}

/// A blank line cuts documentation off: after it no comment lines are
/// buffered, no declaration is being accumulated, and no document is emitted.
pub proof fn lemma_blank_line_resets(st: ParseState, l: Seq<char>)
    requires
        all_ws(l),
    ensures
        parse_step(st, l).buf.len() == 0,
        parse_step(st, l).sig.len() == 0,
        parse_step(st, l).docs == st.docs,
{
    lemma_trim_start_all_ws(l);
    reveal_strlit("--");
    reveal_strlit("---@");
    reveal_strlit("--@");
    reveal_strlit("-- @");
}

/// Rendering depends on the document alone: two documents with the same
/// contents, or one document rendered twice, give the same text.
pub proof fn lemma_render_deterministic(a: DocModel, b: DocModel)
    requires
        a == b,
    ensures
        render_block(a) == render_block(b),
        render_all(seq![a]) == render_all(seq![b]),
{
}

/// An empty file yields no documents, and no documents render as empty text.
pub proof fn lemma_empty_input()
    ensures
        parse_spec(Seq::<Seq<char>>::empty()).len() == 0,
        render_all(Seq::<DocModel>::empty()).len() == 0,
{
}

} // verus!
