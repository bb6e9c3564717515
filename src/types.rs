//! The documentation model: one `DocBlock` per documented declaration, and
//! the mathematical values that contracts speak of.
use vstd::prelude::*;
use crate::text::strings_view;

verus! {

/// A source language, named by its file extension.
#[derive(Clone, Copy, PartialEq, Eq, Structural, Debug)]
pub enum InputFileType {
    Unknown,
    Lua,
    C,
    Cpp,
    Rust,
    Python,
}

#[derive(Clone, Copy, PartialEq, Eq, Structural, Debug)]
pub enum FormulaType {
    Inline,
    Block,
}

#[derive(Clone, Copy, PartialEq, Eq, Structural, Debug)]
pub enum OutputFileType {
    Markdown,
}

/// A documented parameter or return value.
#[derive(Debug)]
pub struct Parameter {
    pub name: String,
    pub number: usize,
    pub description: String,
    pub param_type: String,
}

/// One item of a description section.
#[derive(Debug)]
pub enum DescriptionType {
    Text(String),
    Code(InputFileType, String),
    MathFormula(FormulaType, String),
    BulletList(i32, String),
    HTMLLink(String),
}

#[derive(Debug)]
pub struct Description {
    pub dtype: DescriptionType,
    pub content: String,
}

/// The documentation of one declaration.
#[derive(Debug)]
pub struct DocBlock {
    pub signature: String,
    pub brief: String,
    pub note: String,
    pub includes: Vec<String>,
    pub parameters: Vec<Parameter>,
    pub descriptions: Vec<Description>,
    pub ret_value: Option<Parameter>,
    pub owner_object: String,
    pub is_local: bool,
    pub is_member: bool,
}

pub struct ParamModel {
    pub name: Seq<char>,
    pub number: nat,
    pub description: Seq<char>,
    pub param_type: Seq<char>,
}

pub enum DescTypeModel {
    Text(Seq<char>),
    Code(InputFileType, Seq<char>),
    MathFormula(FormulaType, Seq<char>),
    BulletList(int, Seq<char>),
    HTMLLink(Seq<char>),
}

pub struct DescModel {
    pub dtype: DescTypeModel,
    pub content: Seq<char>,
}

pub struct DocModel {
    pub signature: Seq<char>,
    pub brief: Seq<char>,
    pub note: Seq<char>,
    pub includes: Seq<Seq<char>>,
    pub parameters: Seq<ParamModel>,
    pub descriptions: Seq<DescModel>,
    pub ret_value: Option<ParamModel>,
    pub owner_object: Seq<char>,
    pub is_local: bool,
    pub is_member: bool,
}

impl View for Parameter {
    type V = ParamModel;

    open spec fn view(&self) -> ParamModel {
        ParamModel {
            name: self.name@,
            number: self.number as nat,
            description: self.description@,
            param_type: self.param_type@,
        }
    }
}

impl View for DescriptionType {
    type V = DescTypeModel;

    open spec fn view(&self) -> DescTypeModel {
        match self {
            DescriptionType::Text(s) => DescTypeModel::Text(s@),
            DescriptionType::Code(l, s) => DescTypeModel::Code(*l, s@),
            DescriptionType::MathFormula(f, s) => DescTypeModel::MathFormula(*f, s@),
            DescriptionType::BulletList(n, s) => DescTypeModel::BulletList(*n as int, s@),
            DescriptionType::HTMLLink(s) => DescTypeModel::HTMLLink(s@),
        }
    }
}

impl View for Description {
    type V = DescModel;

    open spec fn view(&self) -> DescModel {
        DescModel { dtype: self.dtype@, content: self.content@ }
    }
}

pub open spec fn params_view(v: Seq<Parameter>) -> Seq<ParamModel> {
    v.map_values(|p: Parameter| p@)
}

pub open spec fn descs_view(v: Seq<Description>) -> Seq<DescModel> {
    v.map_values(|d: Description| d@)
}

impl View for DocBlock {
    type V = DocModel;

    open spec fn view(&self) -> DocModel {
        DocModel {
            signature: self.signature@,
            brief: self.brief@,
            note: self.note@,
            includes: strings_view(self.includes@),
            parameters: params_view(self.parameters@),
            descriptions: descs_view(self.descriptions@),
            ret_value: match self.ret_value {
                Some(p) => Some(p@),
                None => None,
            },
            owner_object: self.owner_object@,
            is_local: self.is_local,
            is_member: self.is_member,
        }
    }
}

/// A document with every field empty.
pub open spec fn empty_doc() -> DocModel {
    DocModel {
        signature: seq![],
        brief: seq![],
        note: seq![],
        includes: seq![],
        parameters: seq![],
        descriptions: seq![],
        ret_value: None,
        owner_object: seq![],
        is_local: false,
        is_member: false,
    }
}

/// The data invariant of a document: parameters are numbered in order, and a
/// local function has no owner and is no member.
pub open spec fn doc_wf(d: DocModel) -> bool {
    &&& forall|i: int| 0 <= i < d.parameters.len() ==> (#[trigger] d.parameters[i]).number == i
    &&& d.is_local ==> d.owner_object.len() == 0 && !d.is_member
}

} // verus!
