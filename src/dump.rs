//! A plain-text dump of a document, field by field, for inspection.
use vstd::prelude::*;
use crate::text::{join, push_char, strings_view};
use crate::types::{
    descs_view, params_view, DescModel, DescTypeModel, Description, DescriptionType, DocBlock,
    DocModel,
    FormulaType,
    InputFileType, ParamModel,
};

verus! {

pub open spec fn digit_char(d: nat) -> char {
    if d == 0 {
        '0'
    } else if d == 1 {
        '1'
    } else if d == 2 {
        '2'
    } else if d == 3 {
        '3'
    } else if d == 4 {
        '4'
    } else if d == 5 {
        '5'
    } else if d == 6 {
        '6'
    } else if d == 7 {
        '7'
    } else if d == 8 {
        '8'
    } else {
        '9'
    }
}

/// The decimal digits of `n`.
pub open spec fn decimal(n: nat) -> Seq<char>
    decreases n,
{
    if n < 10 {
        seq![digit_char(n)]
    } else {
        decimal(n / 10).push(digit_char(n % 10))
    }
}

/// `n` in decimal, with a leading `-` when negative.
pub open spec fn int_text(n: int) -> Seq<char> {
    if n < 0 {
        "-"@ + decimal((-n) as nat)
    } else {
        decimal(n as nat)
    }
}

pub open spec fn quoted(s: Seq<char>) -> Seq<char> {
    "\""@ + s + "\""@
}

/// A list of strings as `["a", "b"]`.
pub open spec fn quoted_list(ss: Seq<Seq<char>>) -> Seq<char> {
    "["@ + join(ss.map_values(|s: Seq<char>| quoted(s)), ", "@) + "]"@
}

pub open spec fn lang_name(l: InputFileType) -> Seq<char> {
    match l {
        InputFileType::Unknown => "Unknown"@,
        InputFileType::Lua => "Lua"@,
        InputFileType::C => "C"@,
        InputFileType::Cpp => "Cpp"@,
        InputFileType::Rust => "Rust"@,
        InputFileType::Python => "Python"@,
    }
}

pub open spec fn desc_type_text(t: DescTypeModel) -> Seq<char> {
    match t {
        DescTypeModel::Text(s) => "Text("@ + quoted(s) + ")"@,
        DescTypeModel::Code(l, s) => "Code("@ + lang_name(l) + ", "@ + quoted(s) + ")"@,
        DescTypeModel::MathFormula(f, s) => "MathFormula("@ + (match f {
            FormulaType::Inline => "Inline"@,
            FormulaType::Block => "Block"@,
        }) + ", "@ + quoted(s) + ")"@,
        DescTypeModel::BulletList(n, s) => "BulletList("@ + int_text(n) + ", "@ + quoted(s)
            + ")"@,
        DescTypeModel::HTMLLink(s) => "HTMLLink("@ + quoted(s) + ")"@,
    }
}

pub open spec fn param_text(p: ParamModel) -> Seq<char> {
    "  - "@ + p.name + ": "@ + p.param_type + " ("@ + p.description + ")\n"@
}

pub open spec fn params_text(ps: Seq<ParamModel>) -> Seq<char>
    decreases ps.len(),
{
    if ps.len() == 0 {
        seq![]
    } else {
        params_text(ps.drop_last()) + param_text(ps.last())
    }
}

pub open spec fn desc_text(d: DescModel) -> Seq<char> {
    "  - "@ + desc_type_text(d.dtype) + ": "@ + d.content + "\n"@
}

pub open spec fn descs_text(ds: Seq<DescModel>) -> Seq<char>
    decreases ds.len(),
{
    if ds.len() == 0 {
        seq![]
    } else {
        descs_text(ds.drop_last()) + desc_text(ds.last())
    }
}

pub open spec fn return_text(r: Option<ParamModel>) -> Seq<char> {
    match r {
        Some(p) => "Return: "@ + p.param_type + " ("@ + p.description + ")\n"@,
        None => seq![],
    }
}

/// The dump of a document: one line per field, one line per parameter and
/// per description item.
pub open spec fn doc_text(d: DocModel) -> Seq<char> {
    "Signature: "@ + d.signature + "\n"@ + "Brief: "@ + d.brief + "\n"@ + "Note: "@ + d.note
        + "\n"@ + "Includes: "@ + quoted_list(d.includes) + "\n"@ + "Parameters:\n"@
        + params_text(d.parameters) + return_text(d.ret_value) + "Descriptions:\n"@ + descs_text(
        d.descriptions,
    )
}

fn digit(d: u32) -> (c: char)
    requires
        d < 10,
    ensures
        c == digit_char(d as nat),
{
    if d == 0 {
        '0'
    } else if d == 1 {
        '1'
    } else if d == 2 {
        '2'
    } else if d == 3 {
        '3'
    } else if d == 4 {
        '4'
    } else if d == 5 {
        '5'
    } else if d == 6 {
        '6'
    } else if d == 7 {
        '7'
    } else if d == 8 {
        '8'
    } else {
        '9'
    }
}

fn push_decimal(s: &mut String, n: u32)
    ensures
        final(s)@ == old(s)@ + decimal(n as nat),
    decreases n,
{
    let ghost start = s@;
    if n >= 10 {
        push_decimal(s, n / 10);
    }
    push_char(s, digit(n % 10));
    proof {
        if n >= 10 {
            assert(start + decimal((n / 10) as nat).push(digit_char((n % 10) as nat)) =~= (start
                + decimal((n / 10) as nat)).push(digit_char((n % 10) as nat)));
        } else {
            assert(start.push(digit_char(n as nat)) =~= start + seq![digit_char(n as nat)]);
        }
    }
}

fn push_int(s: &mut String, n: i32)
    ensures
        final(s)@ == old(s)@ + int_text(n as int),
{
    if n < 0 {
        s.append("-");
        push_decimal(s, (-(n as i64)) as u32);
        assert(s@ =~= old(s)@ + ("-"@ + decimal((-n) as nat)));
    } else {
        push_decimal(s, n as u32);
    }
}

fn push_quoted(s: &mut String, t: &str)
    ensures
        final(s)@ == old(s)@ + quoted(t@),
{
    s.append("\"");
    s.append(t);
    s.append("\"");
    assert(s@ =~= old(s)@ + quoted(t@));
}

fn push_desc(s: &mut String, item: &Description)
    ensures
        final(s)@ == old(s)@ + desc_text(item@),
{
    let ghost start = s@;
    s.append("  - ");
    let ghost mark = s@;
    match &item.dtype {
        DescriptionType::Text(t) => {
            s.append("Text(");
            push_quoted(s, t.as_str());
            s.append(")");
            assert(s@ =~= mark + desc_type_text(item@.dtype));
        },
        DescriptionType::Code(l, t) => {
            s.append("Code(");
            s.append(lang_name_exec(*l));
            s.append(", ");
            push_quoted(s, t.as_str());
            s.append(")");
            assert(s@ =~= mark + desc_type_text(item@.dtype));
        },
        DescriptionType::MathFormula(f, t) => {
            s.append("MathFormula(");
            match f {
                FormulaType::Inline => s.append("Inline"),
                FormulaType::Block => s.append("Block"),
            }
            s.append(", ");
            push_quoted(s, t.as_str());
            s.append(")");
            assert(s@ =~= mark + desc_type_text(item@.dtype));
        },
        DescriptionType::BulletList(n, t) => {
            s.append("BulletList(");
            push_int(s, *n);
            s.append(", ");
            push_quoted(s, t.as_str());
            s.append(")");
            assert(s@ =~= mark + desc_type_text(item@.dtype));
        },
        DescriptionType::HTMLLink(t) => {
            s.append("HTMLLink(");
            push_quoted(s, t.as_str());
            s.append(")");
            assert(s@ =~= mark + desc_type_text(item@.dtype));
        },
    }
    s.append(": ");
    s.append(item.content.as_str());
    s.append("\n");
    assert(s@ =~= start + desc_text(item@));
}

impl DocBlock {
    /// The document as plain text: signature, brief, note, includes,
    /// parameters, return value and description items, one per line.
    pub fn to_string(&self) -> (r: String)
        ensures
            r@ == doc_text(self@),
    {
        let d = self;
        let mut s = String::from_str("Signature: ");
        s.append(d.signature.as_str());
        s.append("\n");
        s.append("Brief: ");
        s.append(d.brief.as_str());
        s.append("\n");
        s.append("Note: ");
        s.append(d.note.as_str());
        s.append("\n");
        s.append("Includes: ");
        let ghost head = s@;
        s.append("[");
        let ghost pre = s@;
        let ghost iv = strings_view(d.includes@);
        let ghost qs = iv.map_values(|t: Seq<char>| quoted(t));
        let mut i: usize = 0;
        while i < d.includes.len()
            invariant
                iv == strings_view(d.includes@),
                qs == iv.map_values(|t: Seq<char>| quoted(t)),
                i <= d.includes@.len(),
                s@ == pre + join(qs.subrange(0, i as int), ", "@),
            decreases d.includes@.len() - i,
        {
            if i > 0 {
                s.append(", ");
            }
            push_quoted(&mut s, d.includes[i].as_str());
            proof {
                let next = qs.subrange(0, i + 1);
                assert(next.drop_last() == qs.subrange(0, i as int));
                assert(next.last() == quoted(d.includes@[i as int]@));
                if i == 0 {
                    assert(join(qs.subrange(0, 0), ", "@) == Seq::<char>::empty());
                    assert(join(next, ", "@) == quoted(d.includes@[0]@));
                }
                assert(s@ =~= pre + join(next, ", "@));
            }
            i = i + 1;
        }
        assert(qs.subrange(0, d.includes@.len() as int) == qs);
        s.append("]");
        assert(s@ =~= head + quoted_list(iv));
        s.append("\n");
        s.append("Parameters:\n");
        let ghost pre2 = s@;
        let ghost pv = params_view(d.parameters@);
        let mut k: usize = 0;
        while k < d.parameters.len()
            invariant
                pv == params_view(d.parameters@),
                k <= d.parameters@.len(),
                s@ == pre2 + params_text(pv.subrange(0, k as int)),
            decreases d.parameters@.len() - k,
        {
            let p = &d.parameters[k];
            s.append("  - ");
            s.append(p.name.as_str());
            s.append(": ");
            s.append(p.param_type.as_str());
            s.append(" (");
            s.append(p.description.as_str());
            s.append(")\n");
            proof {
                let next = pv.subrange(0, k + 1);
                assert(next.drop_last() == pv.subrange(0, k as int));
                assert(next.last() == p@);
                assert(s@ =~= pre2 + params_text(next));
            }
            k = k + 1;
        }
        assert(pv.subrange(0, d.parameters@.len() as int) == pv);
        let ghost before_ret = s@;
        match &d.ret_value {
            Some(p) => {
                s.append("Return: ");
                s.append(p.param_type.as_str());
                s.append(" (");
                s.append(p.description.as_str());
                s.append(")\n");
            },
            None => {},
        }
        assert(s@ =~= before_ret + return_text(self@.ret_value));
        s.append("Descriptions:\n");
        let ghost pre3 = s@;
        let ghost dv = descs_view(d.descriptions@);
        let mut j: usize = 0;
        while j < d.descriptions.len()
            invariant
                dv == descs_view(d.descriptions@),
                j <= d.descriptions@.len(),
                s@ == pre3 + descs_text(dv.subrange(0, j as int)),
            decreases d.descriptions@.len() - j,
        {
            let item = &d.descriptions[j];
            push_desc(&mut s, item);
            proof {
                let next = dv.subrange(0, j + 1);
                assert(next.drop_last() == dv.subrange(0, j as int));
                assert(next.last() == item@);
                assert(s@ =~= pre3 + descs_text(next));
            }
            j = j + 1;
        }
        assert(dv.subrange(0, d.descriptions@.len() as int) == dv);
        assert(s@ =~= doc_text(self@));
        s
    }
}

fn lang_name_exec(l: InputFileType) -> (r: &'static str)
    ensures
        r@ == lang_name(l),
{
    match l {
        InputFileType::Unknown => "Unknown",
        InputFileType::Lua => "Lua",
        InputFileType::C => "C",
        InputFileType::Cpp => "Cpp",
        InputFileType::Rust => "Rust",
        InputFileType::Python => "Python",
    }
}

} // verus!
