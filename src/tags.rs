//! Turns the comment lines buffered above a declaration into a document:
//! `@tag` lines set fields, and under `@description` the `\subtag` lines add
//! description items.
use vstd::prelude::*;
use crate::text::{
    chars_of, find_char, find_ws, index_of, index_of_ws, is_ws, join, join_from,
    lemma_index_of_bounds, lemma_index_of_ws_bounds, range_is, split_on, split_trimmed,
    split_words, string_of, strings_view, trim, trim_bounds, words,
};
use crate::types::{
    descs_view, empty_doc, params_view, DescModel, DescTypeModel, Description, DescriptionType,
    DocBlock, DocModel, FormulaType, InputFileType, ParamModel, Parameter,
};
use crate::LuaFileParser;

verus! {

/// The tagged part of a comment line: from its first `@`, else from its first
/// `\`. A line with neither carries no tag.
pub open spec fn content_of(l: Seq<char>) -> Seq<char> {
    let a = index_of(l, '@');
    let b = index_of(l, '\\');
    if a < l.len() {
        l.subrange(a, l.len() as int)
    } else if b < l.len() {
        l.subrange(b, l.len() as int)
    } else {
        seq![]
    }
}

/// The name of a tag `@name body` or `\name body`, without its marker.
pub open spec fn tag_name(c: Seq<char>) -> Seq<char> {
    c.subrange(1, index_of_ws(c))
}

/// What follows the name of a tag and the whitespace character after it, trimmed.
pub open spec fn tag_body(c: Seq<char>) -> Seq<char> {
    let k = index_of_ws(c);
    if k < c.len() {
        trim(c.subrange(k + 1, c.len() as int))
    } else {
        seq![]
    }
}

/// `@param name type description...`
pub open spec fn param_of(ws: Seq<Seq<char>>, number: nat) -> ParamModel {
    ParamModel {
        name: ws[0],
        number,
        description: join(ws.skip(2), seq![' ']),
        param_type: ws[1],
    }
}

/// `@return type description...`
pub open spec fn return_of(ws: Seq<Seq<char>>) -> ParamModel {
    ParamModel {
        name: seq![],
        number: 0,
        description: join(ws.skip(1), seq![' ']),
        param_type: ws[0],
    }
}

/// The effect of a top-level tag on a document.
pub open spec fn apply_tag(d: DocModel, tag: Seq<char>, body: Seq<char>) -> DocModel {
    if tag == "brief"@ {
        DocModel { brief: body, ..d }
    } else if tag == "param"@ {
        let ws = words(body);
        if ws.len() >= 2 {
            DocModel { parameters: d.parameters.push(param_of(ws, d.parameters.len())), ..d }
        } else {
            d
        }
    } else if tag == "return"@ {
        let ws = words(body);
        if ws.len() >= 1 {
            DocModel { ret_value: Some(return_of(ws)), ..d }
        } else {
            d
        }
    } else if tag == "includes"@ {
        DocModel {
            includes: d.includes + split_on(body, ',').map_values(|p: Seq<char>| trim(p)),
            ..d
        }
    } else if tag == "note"@ {
        DocModel { note: body, ..d }
    } else {
        d
    }
}

/// The description item that a sub-tag makes, if it is a known one.
pub open spec fn desc_item(sub: Seq<char>, body: Seq<char>) -> Option<DescModel> {
    if sub == "text"@ {
        Some(DescModel { dtype: DescTypeModel::Text(body), content: body })
    } else if sub == "code"@ {
        Some(DescModel { dtype: DescTypeModel::Code(InputFileType::Unknown, body), content: body })
    } else if sub == "formula"@ {
        Some(
            DescModel { dtype: DescTypeModel::MathFormula(FormulaType::Inline, body), content: body },
        )
    } else if sub == "list"@ {
        Some(DescModel { dtype: DescTypeModel::BulletList(0, body), content: body })
    } else if sub == "html"@ {
        Some(DescModel { dtype: DescTypeModel::HTMLLink(body), content: body })
    } else {
        None
    }
}

/// One comment line's effect on the document and on whether the current tag
/// is `description`.
pub open spec fn tag_step(st: (DocModel, bool), line: Seq<char>) -> (DocModel, bool) {
    let c = content_of(line);
    if c.len() > 0 && c[0] == '@' {
        (apply_tag(st.0, tag_name(c), tag_body(c)), tag_name(c) == "description"@)
    } else if c.len() > 0 && c[0] == '\\' && st.1 {
        match desc_item(tag_name(c), tag_body(c)) {
            Some(item) => (DocModel { descriptions: st.0.descriptions.push(item), ..st.0 }, st.1),
            None => st,
        }
    } else {
        st
    }
}

pub open spec fn tag_state(lines: Seq<Seq<char>>) -> (DocModel, bool)
    decreases lines.len(),
{
    if lines.len() == 0 {
        (empty_doc(), false)
    } else {
        tag_step(tag_state(lines.drop_last()), lines.last())
    }
}

/// The document that a run of comment lines describes.
pub open spec fn doc_of_lines(lines: Seq<Seq<char>>) -> DocModel {
    tag_state(lines).0
}

fn copy_string(s: &String) -> (r: String)
    ensures
        r@ == s@,
{
    String::from_str(s.as_str())
}

fn make_description(v: &Vec<char>, slo: usize, shi: usize, blo: usize, bhi: usize) -> (r: Option<
    Description,
>)
    requires
        slo <= shi <= v@.len(),
        blo <= bhi <= v@.len(),
    ensures
        match r {
            Some(d) => desc_item(
                v@.subrange(slo as int, shi as int),
                v@.subrange(blo as int, bhi as int),
            ) == Some(d@),
            None => desc_item(
                v@.subrange(slo as int, shi as int),
                v@.subrange(blo as int, bhi as int),
            ) is None,
        },
{
    let dtype = if range_is(v, slo, shi, "text") {
        DescriptionType::Text(string_of(v, blo, bhi))
    } else if range_is(v, slo, shi, "code") {
        DescriptionType::Code(InputFileType::Unknown, string_of(v, blo, bhi))
    } else if range_is(v, slo, shi, "formula") {
        DescriptionType::MathFormula(FormulaType::Inline, string_of(v, blo, bhi))
    } else if range_is(v, slo, shi, "list") {
        DescriptionType::BulletList(0, string_of(v, blo, bhi))
    } else if range_is(v, slo, shi, "html") {
        DescriptionType::HTMLLink(string_of(v, blo, bhi))
    } else {
        return None;
    };
    Some(Description { dtype, content: string_of(v, blo, bhi) })
}

/// Applies the top-level tag `v[tlo..thi]` with body `v[blo..bhi]` to `block`.
fn apply_tag_exec(block: &mut DocBlock, v: &Vec<char>, tlo: usize, thi: usize, blo: usize, bhi: usize)
    requires
        tlo <= thi <= v@.len(),
        blo <= bhi <= v@.len(),
    ensures
        final(block)@ == apply_tag(
            old(block)@,
            v@.subrange(tlo as int, thi as int),
            v@.subrange(blo as int, bhi as int),
        ),
{
    let ghost d = block@;
    let ghost body = v@.subrange(blo as int, bhi as int);
    if range_is(v, tlo, thi, "brief") {
        block.brief = string_of(v, blo, bhi);
    } else if range_is(v, tlo, thi, "param") {
        let ws = split_words(v, blo, bhi);
        if ws.len() >= 2 {
            let number = block.parameters.len();
            let p = Parameter {
                name: copy_string(&ws[0]),
                number,
                description: join_from(&ws, 2, " "),
                param_type: copy_string(&ws[1]),
            };
            proof {
                assert(" "@ == seq![' ']) by {
                    reveal_strlit(" ");
                }
            }
            let ghost pv = p@;
            block.parameters.push(p);
            assert(params_view(block.parameters@) == d.parameters.push(pv));
        }
    } else if range_is(v, tlo, thi, "return") {
        let ws = split_words(v, blo, bhi);
        if ws.len() >= 1 {
            proof {
                assert(" "@ == seq![' ']) by {
                    reveal_strlit(" ");
                }
            }
            block.ret_value = Some(
                Parameter {
                    name: String::new(),
                    number: 0,
                    description: join_from(&ws, 1, " "),
                    param_type: copy_string(&ws[0]),
                },
            );
        }
    } else if range_is(v, tlo, thi, "includes") {
        let pieces = split_trimmed(v, blo, bhi, ',');
        let ghost before = block.includes@;
        let mut k: usize = 0;
        while k < pieces.len()
            invariant
                strings_view(block.includes@) == strings_view(before) + strings_view(
                    pieces@,
                ).subrange(0, k as int),
                k <= pieces@.len(),
                block@ == (DocModel { includes: strings_view(block.includes@), ..d }),
            decreases pieces@.len() - k,
        {
            let ghost prev = block.includes@;
            block.includes.push(copy_string(&pieces[k]));
            assert(strings_view(block.includes@) == strings_view(prev).push(pieces@[k as int]@));
            assert(strings_view(pieces@).subrange(0, k + 1) == strings_view(pieces@).subrange(
                0,
                k as int,
            ).push(pieces@[k as int]@));
            k = k + 1;
        }
        assert(strings_view(pieces@).subrange(0, pieces@.len() as int) == strings_view(pieces@));
    } else if range_is(v, tlo, thi, "note") {
        block.note = string_of(v, blo, bhi);
    }
}

impl LuaFileParser {

/// Builds a document from the comment lines that precede a declaration, in
/// order. The signature, owner and membership fields stay empty.
pub fn create_docblock(buf: Vec<String>) -> (r: DocBlock)
    ensures
        r@ == doc_of_lines(strings_view(buf@)),
{
    let ghost lines = strings_view(buf@);
    let mut block = DocBlock {
        signature: String::new(),
        brief: String::new(),
        note: String::new(),
        includes: Vec::new(),
        parameters: Vec::new(),
        descriptions: Vec::new(),
        ret_value: None,
        owner_object: String::new(),
        is_local: false,
        is_member: false,
    };
    let mut in_description = false;
    assert(block@.includes == Seq::<Seq<char>>::empty());
    assert(block@.parameters == Seq::<ParamModel>::empty());
    assert(block@.descriptions == Seq::<DescModel>::empty());
    assert(block@ == empty_doc());
    let mut i: usize = 0;
    while i < buf.len()
        invariant
            lines == strings_view(buf@),
            i <= buf@.len(),
            (block@, in_description) == tag_state(lines.take(i as int)),
        decreases buf@.len() - i,
    {
        let v = chars_of(buf[i].as_str());
        let n = v.len();
        let ghost l = v@;
        proof {
            assert(lines.take(i + 1).drop_last() == lines.take(i as int));
            assert(lines.take(i + 1).last() == l);
            assert(l.subrange(0, n as int) == l);
            lemma_index_of_bounds(l, '@');
            lemma_index_of_bounds(l, '\\');
        }
        let a = find_char(&v, 0, n, '@');
        let start = if a < n {
            a
        } else {
            find_char(&v, 0, n, '\\')
        };
        if start < n {
            let ghost c = l.subrange(start as int, n as int);
            assert(c == content_of(l));
            let k = find_ws(&v, start, n);
            proof {
                lemma_index_of_ws_bounds(c);
                assert(c[0] == v@[start as int]);
                assert(!is_ws(c[0]));
                assert(k > start);
                assert(tag_name(c) == l.subrange(start + 1, k as int));
            }
            let (blo, bhi) = if k < n {
                trim_bounds(&v, k + 1, n)
            } else {
                (n, n)
            };
            proof {
                if k < n {
                    assert(c.subrange(k - start + 1, c.len() as int) == l.subrange(
                        k + 1,
                        n as int,
                    ));
                } else {
                    assert(l.subrange(n as int, n as int) == Seq::<char>::empty());
                }
                assert(tag_body(c) == l.subrange(blo as int, bhi as int));
            }
            if v[start] == '@' {
                let is_desc = range_is(&v, start + 1, k, "description");
                apply_tag_exec(&mut block, &v, start + 1, k, blo, bhi);
                in_description = is_desc;
            } else if in_description {
                let ghost d = block@;
                match make_description(&v, start + 1, k, blo, bhi) {
                    Some(item) => {
                        let ghost iv = item@;
                        block.descriptions.push(item);
                        assert(descs_view(block.descriptions@) == d.descriptions.push(iv));
                    },
                    None => {},
                }
            }
        }
        i = i + 1;
    }
    assert(lines.take(buf@.len() as int) == lines);
    block
}

}

} // verus!
