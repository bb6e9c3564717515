//! Renders documents as Markdown, in a fixed section order: signature,
//! includes, brief, parameters, return value, description.
use vstd::prelude::*;
use crate::parser::docs_view;
use crate::text::{
    chars_of, has_prefix_at, join, range_is, starts_with, string_of, strings_view, trim,
    trim_bounds,
};
use crate::types::{
    descs_view, params_view, DescModel, DescTypeModel, Description, DescriptionType, DocBlock,
    DocModel, FormulaType, InputFileType, ParamModel, Parameter,
};

verus! {

#[verifier::external_type_specification]
#[verifier::external_body]
pub struct ExFmtError(core::fmt::Error);

/// The extension that names a language; none for an unknown one.
pub open spec fn lang_ext(l: InputFileType) -> Option<Seq<char>> {
    match l {
        InputFileType::Lua => Some("lua"@),
        InputFileType::C => Some("c"@),
        InputFileType::Cpp => Some("cpp"@),
        InputFileType::Rust => Some("rs"@),
        InputFileType::Python => Some("py"@),
        InputFileType::Unknown => None,
    }
}

/// The language that an extension names.
pub open spec fn lang_of_ext(s: Seq<char>) -> Option<InputFileType> {
    if s == "lua"@ {
        Some(InputFileType::Lua)
    } else if s == "c"@ {
        Some(InputFileType::C)
    } else if s == "cpp"@ || s == "cc"@ {
        Some(InputFileType::Cpp)
    } else if s == "rs"@ {
        Some(InputFileType::Rust)
    } else if s == "py"@ {
        Some(InputFileType::Python)
    } else {
        None
    }
}

impl InputFileType {
    /// The language of a file extension (`lua`, `c`, `cpp` or `cc`, `rs`, `py`).
    pub fn from_str(s: &str) -> (r: Option<Self>)
        ensures
            r == lang_of_ext(s@),
    {
        let v = chars_of(s);
        let n = v.len();
        assert(v@.subrange(0, n as int) == v@);
        if range_is(&v, 0, n, "lua") {
            Some(InputFileType::Lua)
        } else if range_is(&v, 0, n, "c") {
            Some(InputFileType::C)
        } else if range_is(&v, 0, n, "cpp") || range_is(&v, 0, n, "cc") {
            Some(InputFileType::Cpp)
        } else if range_is(&v, 0, n, "rs") {
            Some(InputFileType::Rust)
        } else if range_is(&v, 0, n, "py") {
            Some(InputFileType::Python)
        } else {
            None
        }
    }

    /// The extension of the language; none for `Unknown`.
    pub fn to_str(&self) -> (r: Option<&'static str>)
        ensures
            match r {
                Some(t) => lang_ext(*self) == Some(t@),
                None => lang_ext(*self) is None,
            },
    {
        match self {
            InputFileType::Lua => Some("lua"),
            InputFileType::C => Some("c"),
            InputFileType::Cpp => Some("cpp"),
            InputFileType::Rust => Some("rs"),
            InputFileType::Python => Some("py"),
            InputFileType::Unknown => None,
        }
    }
}

pub open spec fn render_signature(sig: Seq<char>) -> Seq<char> {
    if sig.len() == 0 {
        seq![]
    } else {
        "```lua\n"@ + sig + "\n```\n"@
    }
}

pub open spec fn render_includes(inc: Seq<Seq<char>>) -> Seq<char> {
    if inc.len() == 0 {
        seq![]
    } else {
        "**Includes:** "@ + join(inc, ", "@) + "\n\n"@
    }
}

pub open spec fn render_brief(b: Seq<char>) -> Seq<char> {
    if b.len() == 0 {
        seq![]
    } else {
        "**Brief:** "@ + b + "\n\n"@
    }
}

pub open spec fn render_param_line(p: ParamModel) -> Seq<char> {
    "- "@ + p.name + " ("@ + p.param_type + "): "@ + p.description + "\n"@
}

pub open spec fn param_lines(ps: Seq<ParamModel>) -> Seq<char>
    decreases ps.len(),
{
    if ps.len() == 0 {
        seq![]
    } else {
        param_lines(ps.drop_last()) + render_param_line(ps.last())
    }
}

pub open spec fn render_parameters(ps: Seq<ParamModel>) -> Seq<char> {
    if ps.len() == 0 {
        seq![]
    } else {
        "**Parameters:**\n"@ + param_lines(ps) + "\n"@
    }
}

pub open spec fn render_return(r: Option<ParamModel>) -> Seq<char> {
    match r {
        Some(p) => "**Returns:** "@ + p.name + " ("@ + p.param_type + "): "@ + p.description
            + "\n\n"@,
        None => seq![],
    }
}

/// A list item: trimmed, with `- ` put before it unless it starts with `-`.
pub open spec fn bullet(c: Seq<char>) -> Seq<char> {
    if starts_with(trim(c), "-"@) {
        trim(c) + "\n"@
    } else {
        "- "@ + trim(c) + "\n"@
    }
}

pub open spec fn render_item(d: DescModel) -> Seq<char> {
    match d.dtype {
        DescTypeModel::Text(_) => d.content + "\n"@,
        DescTypeModel::Code(l, _) => "```"@ + (match lang_ext(l) {
            Some(e) => e,
            None => seq![],
        }) + "\n"@ + d.content + "\n```\n"@,
        DescTypeModel::MathFormula(FormulaType::Inline, _) => "$"@ + d.content + "$\n"@,
        DescTypeModel::MathFormula(FormulaType::Block, _) => "$$\n"@ + d.content + "\n$$\n"@,
        DescTypeModel::BulletList(_, _) => bullet(d.content),
        DescTypeModel::HTMLLink(_) => "["@ + d.content + "]("@ + d.content + ")\n"@,
    }
}

pub open spec fn item_lines(ds: Seq<DescModel>) -> Seq<char>
    decreases ds.len(),
{
    if ds.len() == 0 {
        seq![]
    } else {
        item_lines(ds.drop_last()) + render_item(ds.last())
    }
}

pub open spec fn render_descriptions(ds: Seq<DescModel>) -> Seq<char> {
    if ds.len() == 0 {
        seq![]
    } else {
        "**Description:**\n\n"@ + item_lines(ds) + "\n"@
    }
}

/// The Markdown of one document.
pub open spec fn render_block(d: DocModel) -> Seq<char> {
    render_signature(d.signature) + render_includes(d.includes) + render_brief(d.brief)
        + render_parameters(d.parameters) + render_return(d.ret_value) + render_descriptions(
        d.descriptions,
    )
}

/// The Markdown of a file's documents, each followed by a rule.
pub open spec fn render_all(ds: Seq<DocModel>) -> Seq<char>
    decreases ds.len(),
{
    if ds.len() == 0 {
        seq![]
    } else {
        render_all(ds.drop_last()) + render_block(ds.last()) + "---\n\n"@
    }
}

/// Renders documents as Markdown.
pub struct MarkdownFormatter {}

impl MarkdownFormatter {
    fn format_signature(&self, signature: &str) -> (r: String)
        ensures
            r@ == render_signature(signature@),
    {
        if signature.unicode_len() == 0 {
            return String::new();
        }
        let mut s = String::from_str("```lua\n");
        s.append(signature);
        s.append("\n```\n");
        s
    }

    fn format_includes(&self, includes: &[String]) -> (r: String)
        ensures
            r@ == render_includes(strings_view(includes@)),
    {
        if includes.len() == 0 {
            return String::new();
        }
        let ghost sv = strings_view(includes@);
        let mut s = String::from_str("**Includes:** ");
        let mut i: usize = 0;
        while i < includes.len()
            invariant
                sv == strings_view(includes@),
                0 < includes@.len(),
                i <= includes@.len(),
                s@ == "**Includes:** "@ + join(sv.subrange(0, i as int), ", "@),
            decreases includes@.len() - i,
        {
            if i > 0 {
                s.append(", ");
            }
            s.append(includes[i].as_str());
            proof {
                let next = sv.subrange(0, i + 1);
                assert(next.drop_last() == sv.subrange(0, i as int));
                if i == 0 {
                    assert(join(sv.subrange(0, 0), ", "@) == Seq::<char>::empty());
                }
            }
            i = i + 1;
        }
        s.append("\n\n");
        assert(sv.subrange(0, includes@.len() as int) == sv);
        s
    }

    fn format_brief(&self, brief: &str) -> (r: String)
        ensures
            r@ == render_brief(brief@),
    {
        if brief.unicode_len() == 0 {
            return String::new();
        }
        let mut s = String::from_str("**Brief:** ");
        s.append(brief);
        s.append("\n\n");
        s
    }

    fn format_parameters(&self, params: &[Parameter]) -> (r: String)
        ensures
            r@ == render_parameters(params_view(params@)),
    {
        if params.len() == 0 {
            return String::new();
        }
        let ghost pv = params_view(params@);
        let mut s = String::from_str("**Parameters:**\n");
        let mut i: usize = 0;
        while i < params.len()
            invariant
                pv == params_view(params@),
                i <= params@.len(),
                s@ == "**Parameters:**\n"@ + param_lines(pv.subrange(0, i as int)),
            decreases params@.len() - i,
        {
            let p = &params[i];
            s.append("- ");
            s.append(p.name.as_str());
            s.append(" (");
            s.append(p.param_type.as_str());
            s.append("): ");
            s.append(p.description.as_str());
            s.append("\n");
            proof {
                let next = pv.subrange(0, i + 1);
                assert(next.drop_last() == pv.subrange(0, i as int));
                assert(next.last() == p@);
            }
            i = i + 1;
        }
        s.append("\n");
        assert(pv.subrange(0, params@.len() as int) == pv);
        s
    }

    fn format_return(&self, ret: &Option<Parameter>) -> (r: String)
        ensures
            r@ == render_return(
                match ret {
                    Some(p) => Some(p@),
                    None => None,
                },
            ),
    {
        match ret {
            Some(p) => {
                let mut s = String::from_str("**Returns:** ");
                s.append(p.name.as_str());
                s.append(" (");
                s.append(p.param_type.as_str());
                s.append("): ");
                s.append(p.description.as_str());
                s.append("\n\n");
                s
            },
            None => String::new(),
        }
    }

    fn format_description_item(&self, desc: &Description) -> (r: String)
        ensures
            r@ == render_item(desc@),
    {
        let content = desc.content.as_str();
        match &desc.dtype {
            DescriptionType::Text(_) => {
                let mut s = String::from_str(content);
                s.append("\n");
                s
            },
            DescriptionType::Code(lang, _) => {
                let mut s = String::from_str("```");
                match lang.to_str() {
                    Some(t) => s.append(t),
                    None => {},
                }
                s.append("\n");
                s.append(content);
                s.append("\n```\n");
                s
            },
            DescriptionType::MathFormula(ft, _) => match ft {
                FormulaType::Inline => {
                    let mut s = String::from_str("$");
                    s.append(content);
                    s.append("$\n");
                    s
                },
                FormulaType::Block => {
                    let mut s = String::from_str("$$\n");
                    s.append(content);
                    s.append("\n$$\n");
                    s
                },
            },
            DescriptionType::BulletList(_, _) => {
                let v = chars_of(content);
                assert(v@.subrange(0, v@.len() as int) == v@);
                let (a, b) = trim_bounds(&v, 0, v.len());
                let item = string_of(&v, a, b);
                let mut s = if has_prefix_at(&v, a, b, "-") {
                    String::new()
                } else {
                    String::from_str("- ")
                };
                s.append(item.as_str());
                s.append("\n");
                s
            },
            DescriptionType::HTMLLink(_) => {
                let mut s = String::from_str("[");
                s.append(content);
                s.append("](");
                s.append(content);
                s.append(")\n");
                s
            },
        }
    }

    fn format_descriptions(&self, descriptions: &[Description]) -> (r: String)
        ensures
            r@ == render_descriptions(descs_view(descriptions@)),
    {
        if descriptions.len() == 0 {
            return String::new();
        }
        let ghost dv = descs_view(descriptions@);
        let mut s = String::from_str("**Description:**\n\n");
        let mut i: usize = 0;
        while i < descriptions.len()
            invariant
                dv == descs_view(descriptions@),
                i <= descriptions@.len(),
                s@ == "**Description:**\n\n"@ + item_lines(dv.subrange(0, i as int)),
            decreases descriptions@.len() - i,
        {
            let item = self.format_description_item(&descriptions[i]);
            s.append(item.as_str());
            proof {
                let next = dv.subrange(0, i + 1);
                assert(next.drop_last() == dv.subrange(0, i as int));
            }
            i = i + 1;
        }
        s.append("\n");
        assert(dv.subrange(0, descriptions@.len() as int) == dv);
        s
    }

    /// The Markdown of one document.
    pub fn format_block(&self, block: &DocBlock) -> (r: String)
        ensures
            r@ == render_block(block@),
    {
        let mut s = self.format_signature(block.signature.as_str());
        let part = self.format_includes(block.includes.as_slice());
        s.append(part.as_str());
        let part = self.format_brief(block.brief.as_str());
        s.append(part.as_str());
        let part = self.format_parameters(block.parameters.as_slice());
        s.append(part.as_str());
        let part = self.format_return(&block.ret_value);
        s.append(part.as_str());
        let part = self.format_descriptions(block.descriptions.as_slice());
        s.append(part.as_str());
        s
    }

    /// The Markdown of a file's documents, in order, each followed by a rule.
    pub fn format(&self, content: Vec<DocBlock>) -> (r: Result<String, core::fmt::Error>)
        ensures
            r matches Ok(s) && s@ == render_all(docs_view(content@)),
    {
        let ghost dv = docs_view(content@);
        let mut s = String::new();
        let mut i: usize = 0;
        while i < content.len()
            invariant
                dv == docs_view(content@),
                i <= content@.len(),
                s@ == render_all(dv.subrange(0, i as int)),
            decreases content@.len() - i,
        {
            let part = self.format_block(&content[i]);
            s.append(part.as_str());
            s.append("---\n\n");
            proof {
                let next = dv.subrange(0, i + 1);
                assert(next.drop_last() == dv.subrange(0, i as int));
            }
            i = i + 1;
        }
        assert(dv.subrange(0, content@.len() as int) == dv);
        Ok(s)
    }
}

} // verus!
