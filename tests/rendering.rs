use todoc::{
    Description, DescriptionType, DocBlock, FileParser, FormulaType, InputFileType,
    LuaFileParser, MarkdownFormatter, OutputFileFormatter, Parameter,
};

fn doc(lines: &[&str]) -> Vec<DocBlock> {
    let v: Vec<String> = lines.iter().map(|s| s.to_string()).collect();
    LuaFileParser {}.parse(&v)
}

fn item(dtype: DescriptionType, content: &str) -> Description {
    Description { dtype, content: content.to_string() }
}

#[test]
fn renders_sections_in_order() {
    let docs = doc(&[
        "-- @brief does a thing",
        "-- @param x number the x value",
        "-- @return number the result",
        "function f(x) end",
    ]);
    let md = MarkdownFormatter {}.format(docs).unwrap();
    assert_eq!(
        md,
        "```lua\nfunction f(x) end\n```\n**Brief:** does a thing\n\n**Parameters:**\n- x (number): the x value\n\n**Returns:**  (number): the result\n\n---\n\n"
    );
}

#[test]
fn renders_includes_and_descriptions() {
    let block = DocBlock {
        signature: "function g()".to_string(),
        brief: String::new(),
        note: String::new(),
        includes: vec!["a".to_string(), "b".to_string()],
        parameters: vec![],
        descriptions: vec![
            item(DescriptionType::Text("hello".to_string()), "hello"),
            item(DescriptionType::Code(InputFileType::Lua, "x()".to_string()), "x()"),
            item(DescriptionType::Code(InputFileType::Unknown, "y".to_string()), "y"),
            item(DescriptionType::MathFormula(FormulaType::Inline, "a".to_string()), "a"),
            item(DescriptionType::MathFormula(FormulaType::Block, "b".to_string()), "b"),
            item(DescriptionType::BulletList(0, " one ".to_string()), " one "),
            item(DescriptionType::BulletList(0, "- two".to_string()), "- two"),
            item(DescriptionType::HTMLLink("u".to_string()), "u"),
        ],
        ret_value: None,
        owner_object: String::new(),
        is_local: false,
        is_member: false,
    };
    let md = OutputFileFormatter::format(&MarkdownFormatter {}, &block);
    assert_eq!(
        md,
        "```lua\nfunction g()\n```\n**Includes:** a, b\n\n**Description:**\n\nhello\n```lua\nx()\n```\n```\ny\n```\n$a$\n$$\nb\n$$\n- one\n- two\n[u](u)\n\n"
    );
}

#[test]
fn renders_parameter_lines() {
    let block = DocBlock {
        signature: "s".to_string(),
        brief: "b".to_string(),
        note: "n".to_string(),
        includes: vec![],
        parameters: vec![
            Parameter {
                name: "p".to_string(),
                number: 0,
                description: "d".to_string(),
                param_type: "t".to_string(),
            },
            Parameter {
                name: "q".to_string(),
                number: 1,
                description: String::new(),
                param_type: "u".to_string(),
            },
        ],
        descriptions: vec![],
        ret_value: None,
        owner_object: String::new(),
        is_local: false,
        is_member: false,
    };
    assert_eq!(
        MarkdownFormatter {}.format_block(&block),
        "```lua\ns\n```\n**Brief:** b\n\n**Parameters:**\n- p (t): d\n- q (u): \n\n"
    );
}

#[test]
fn rendering_twice_is_identical() {
    let lines = [
        "-- @brief twice",
        "-- @description",
        "--   \\text body",
        "function h(a) end",
    ];
    let a = MarkdownFormatter {}.format(doc(&lines)).unwrap();
    let b = MarkdownFormatter {}.format(doc(&lines)).unwrap();
    assert_eq!(a, b);
    let d = doc(&lines);
    assert_eq!(MarkdownFormatter {}.format_block(&d[0]), MarkdownFormatter {}.format_block(&d[0]));
}

#[test]
fn empty_input_renders_empty() {
    let md = MarkdownFormatter {}.format(doc(&[])).unwrap();
    assert_eq!(md, "");
}

#[test]
fn several_documents_are_separated() {
    let docs = doc(&[
        "-- @brief a",
        "function a() end",
        "-- @brief b",
        "function b() end",
    ]);
    let md = MarkdownFormatter {}.format(docs).unwrap();
    assert_eq!(
        md,
        "```lua\nfunction a() end\n```\n**Brief:** a\n\n---\n\n```lua\nfunction b() end\n```\n**Brief:** b\n\n---\n\n"
    );
}

#[test]
fn other_languages_find_nothing() {
    let v = vec!["-- @brief a".to_string(), "function a() end".to_string()];
    assert!(todoc::CFileParser.parse(&v).is_empty());
    assert!(todoc::NoneFileParser.parse(&v).is_empty());
}

#[test]
fn empty_document_renders_nothing() {
    let block = DocBlock {
        signature: String::new(),
        brief: String::new(),
        note: String::new(),
        includes: vec![],
        parameters: vec![],
        descriptions: vec![],
        ret_value: None,
        owner_object: String::new(),
        is_local: false,
        is_member: false,
    };
    assert_eq!(MarkdownFormatter {}.format_block(&block), "");
    assert_eq!(OutputFileFormatter::format(&MarkdownFormatter {}, &block), "");
    let with_brief = DocBlock { brief: "b".to_string(), ..block };
    assert_eq!(MarkdownFormatter {}.format_block(&with_brief), "**Brief:** b\n\n");
}

#[test]
fn document_dump_lists_every_field() {
    let block = DocBlock {
        signature: "function f(x)".to_string(),
        brief: "b".to_string(),
        note: "n".to_string(),
        includes: vec!["a".to_string(), "c".to_string()],
        parameters: vec![Parameter {
            name: "x".to_string(),
            number: 0,
            description: "the x".to_string(),
            param_type: "number".to_string(),
        }],
        descriptions: vec![
            item(DescriptionType::Text("t".to_string()), "t"),
            item(DescriptionType::Code(InputFileType::Lua, "c".to_string()), "c"),
            item(DescriptionType::MathFormula(FormulaType::Block, "m".to_string()), "m"),
            item(DescriptionType::BulletList(-12, "l".to_string()), "l"),
            item(DescriptionType::BulletList(305, "k".to_string()), "k"),
            item(DescriptionType::HTMLLink("u".to_string()), "u"),
        ],
        ret_value: Some(Parameter {
            name: String::new(),
            number: 0,
            description: "result".to_string(),
            param_type: "bool".to_string(),
        }),
        owner_object: String::new(),
        is_local: false,
        is_member: false,
    };
    assert_eq!(
        block.to_string(),
        "Signature: function f(x)\nBrief: b\nNote: n\nIncludes: [\"a\", \"c\"]\nParameters:\n  - x: number (the x)\nReturn: bool (result)\nDescriptions:\n  - Text(\"t\"): t\n  - Code(Lua, \"c\"): c\n  - MathFormula(Block, \"m\"): m\n  - BulletList(-12, \"l\"): l\n  - BulletList(305, \"k\"): k\n  - HTMLLink(\"u\"): u\n"
    );
    let empty = DocBlock { includes: vec![], parameters: vec![], descriptions: vec![], ret_value: None, ..block };
    assert_eq!(
        empty.to_string(),
        "Signature: function f(x)\nBrief: b\nNote: n\nIncludes: []\nParameters:\nDescriptions:\n"
    );
}
