use todoc::classify::{classify_signature, is_space_line};
use todoc::scanner::ScanMode;
use todoc::{DescriptionType, DocBlock, FormulaType, InputFileType, LuaFileParser};

fn lines(v: &[&str]) -> Vec<String> {
    v.iter().map(|s| s.to_string()).collect()
}

fn parse(v: &[&str]) -> Vec<DocBlock> {
    LuaFileParser {}.parse_lines(&lines(v))
}

#[test]
fn quote_keeps_comment_marker() {
    assert_eq!(
        LuaFileParser::remove_annotation("local s = '--not a comment'"),
        "local s = '--not a comment'"
    );
    assert_eq!(
        LuaFileParser::remove_annotation("local s = \"a -- b\" -- gone"),
        "local s = \"a -- b\""
    );
    assert_eq!(
        LuaFileParser::remove_annotation("local s = 'it\\'s -- here'"),
        "local s = 'it\\'s -- here'"
    );
}

#[test]
fn block_comment_on_one_line_is_cut_out() {
    assert_eq!(
        LuaFileParser::remove_annotation("x = 1 --[[ inline ]] y = 2"),
        "x = 1  y = 2"
    );
    assert_eq!(
        LuaFileParser::remove_annotation("x = 1 --[==[ a ]] b ]==] y"),
        "x = 1  y"
    );
}

#[test]
fn unterminated_block_comment_drops_rest() {
    assert_eq!(LuaFileParser::remove_annotation("x = 1 --[[ open"), "x = 1");
}

#[test]
fn line_comment_is_dropped_and_result_trimmed() {
    assert_eq!(LuaFileParser::remove_annotation("   y = 2   -- note"), "y = 2");
    assert_eq!(LuaFileParser::remove_annotation("-- only a comment"), "");
    assert_eq!(LuaFileParser::remove_annotation(""), "");
}

#[test]
fn long_string_keeps_its_content() {
    assert_eq!(
        LuaFileParser::remove_annotation("s = [[ -- kept ]] -- dropped"),
        "s = [[ -- kept ]]"
    );
    assert_eq!(
        LuaFileParser::remove_annotation("s = [=[ ]] -- ]=] t"),
        "s = [=[ ]] -- ]=] t"
    );
}

#[test]
fn member_classification() {
    assert_eq!(
        classify_signature("function Obj:method(a, b) end"),
        ("Obj".to_string(), false, true)
    );
    assert_eq!(
        classify_signature("function Obj.helper(x, y) end"),
        ("Obj".to_string(), false, false)
    );
    assert_eq!(
        classify_signature("local function f(x) end"),
        ("".to_string(), true, false)
    );
    assert_eq!(
        classify_signature("function Obj.self_call(Obj, y) end"),
        ("Obj".to_string(), false, true)
    );
    assert_eq!(
        classify_signature("function Obj.only(Obj) end"),
        ("Obj".to_string(), false, true)
    );
    assert_eq!(classify_signature("function plain(a) end"), ("".to_string(), false, false));
    assert_eq!(classify_signature("x = 1"), ("".to_string(), false, false));
}

#[test]
fn owner_and_member_helpers() {
    assert_eq!(LuaFileParser::extract_owner_object("function A.b(c)"), "A");
    assert_eq!(LuaFileParser::extract_owner_object("  function  Tbl:go()  "), "Tbl");
    assert_eq!(LuaFileParser::extract_owner_object("local function f()"), "local");
    assert_eq!(LuaFileParser::extract_owner_object("function f(a.b)"), "");
    assert_eq!(LuaFileParser::extract_owner_object("x = 1"), "");
    assert!(LuaFileParser::is_member_function("function A:b()", "A"));
    assert!(LuaFileParser::is_member_function("function A.b( A , c)", "A"));
    assert!(!LuaFileParser::is_member_function("function A.b(c)", "A"));
    assert!(!LuaFileParser::is_member_function("function A.b()", "A"));
    assert!(!LuaFileParser::is_member_function("function f(a)", ""));
}

#[test]
fn line_predicates() {
    assert!(LuaFileParser::is_doc_comment("  -- @brief x"));
    assert!(LuaFileParser::is_doc_comment("--@param a b"));
    assert!(LuaFileParser::is_doc_comment("---@return x"));
    assert!(!LuaFileParser::is_doc_comment("-- plain"));
    assert!(!LuaFileParser::is_doc_comment("x = 1 -- @brief"));
    assert!(LuaFileParser::is_annotation_line("   -- hi"));
    assert!(!LuaFileParser::is_annotation_line("--hi"));
    assert!(LuaFileParser::is_api_tail("function f(a)"));
    assert!(LuaFileParser::is_api_tail("function f(a) end  "));
    assert!(!LuaFileParser::is_api_tail("function f(a,"));
    assert!(is_space_line(" \t "));
    assert!(is_space_line(""));
    assert!(!is_space_line("  x "));
}

#[test]
fn tag_parsing_round_trip() {
    let b = LuaFileParser::create_docblock(lines(&[
        "-- @brief does a thing",
        "-- @param x number the x value",
        "-- @return number the result",
    ]));
    assert_eq!(b.brief, "does a thing");
    assert_eq!(b.parameters.len(), 1);
    assert_eq!(b.parameters[0].name, "x");
    assert_eq!(b.parameters[0].param_type, "number");
    assert_eq!(b.parameters[0].description, "the x value");
    assert_eq!(b.parameters[0].number, 0);
    let r = b.ret_value.as_ref().unwrap();
    assert_eq!(r.name, "");
    assert_eq!(r.param_type, "number");
    assert_eq!(r.description, "the result");
    assert_eq!(b.signature, "");
}

#[test]
fn malformed_tags_are_ignored() {
    let b = LuaFileParser::create_docblock(lines(&[
        "-- @param lonely",
        "-- @return",
        "-- @unknown stuff",
        "-- \\text not under description",
        "-- @param a   int   first    one",
        "-- @param b int",
    ]));
    assert_eq!(b.parameters.len(), 2);
    assert_eq!(b.parameters[0].name, "a");
    assert_eq!(b.parameters[0].description, "first one");
    assert_eq!(b.parameters[1].number, 1);
    assert_eq!(b.parameters[1].description, "");
    assert!(b.ret_value.is_none());
    assert!(b.descriptions.is_empty());
}

#[test]
fn includes_note_and_last_return_win() {
    let b = LuaFileParser::create_docblock(lines(&[
        "-- @includes <a.h>, b ,,c",
        "-- @includes d",
        "-- @note first",
        "-- @note second note",
        "-- @return int one",
        "-- @return bool two",
    ]));
    assert_eq!(b.includes, vec!["<a.h>", "b", "", "c", "d"]);
    assert_eq!(b.note, "second note");
    assert_eq!(b.ret_value.as_ref().unwrap().param_type, "bool");
}

#[test]
fn description_subtags() {
    let b = LuaFileParser::create_docblock(lines(&[
        "-- @description",
        "--   \\text hello world",
        "--   \\list - item",
        "--   \\html http://x",
        "--   \\code local a = 1",
        "--   \\formula E=mc^2",
        "--   \\bogus z",
        "-- @brief after",
        "--   \\text ignored now",
    ]));
    assert_eq!(b.descriptions.len(), 5);
    assert!(matches!(&b.descriptions[0].dtype, DescriptionType::Text(s) if s == "hello world"));
    assert!(matches!(&b.descriptions[1].dtype, DescriptionType::BulletList(0, s) if s == "- item"));
    assert!(matches!(&b.descriptions[2].dtype, DescriptionType::HTMLLink(s) if s == "http://x"));
    assert!(matches!(
        &b.descriptions[3].dtype,
        DescriptionType::Code(InputFileType::Unknown, s) if s == "local a = 1"
    ));
    assert!(matches!(
        &b.descriptions[4].dtype,
        DescriptionType::MathFormula(FormulaType::Inline, s) if s == "E=mc^2"
    ));
    assert_eq!(b.descriptions[4].content, "E=mc^2");
    assert_eq!(b.brief, "after");
}

#[test]
fn documents_in_file_order_with_numbered_parameters() {
    let docs = parse(&[
        "-- @brief first",
        "-- @param a int x",
        "-- @param b int y",
        "function one(a, b) end",
        "local z = 1",
        "---@brief second",
        "-- a plain continuation",
        "function Two:go() end",
    ]);
    assert_eq!(docs.len(), 2);
    assert_eq!(docs[0].brief, "first");
    assert_eq!(docs[0].signature, "function one(a, b) end");
    for (i, p) in docs[0].parameters.iter().enumerate() {
        assert_eq!(p.number, i);
    }
    assert_eq!(docs[1].brief, "second");
    assert_eq!(docs[1].owner_object, "Two");
    assert!(docs[1].is_member);
}

#[test]
fn blank_line_reset() {
    let docs = parse(&["-- @brief X", "", "function f() end"]);
    assert!(docs.iter().all(|d| d.brief.is_empty()));
    assert!(docs.is_empty());
}

#[test]
fn code_line_discards_buffer() {
    let docs = parse(&["-- @brief X", "local y = 2", "function f() end"]);
    assert!(docs.is_empty());
}

#[test]
fn stray_comment_does_not_start_a_run() {
    let docs = parse(&["-- just a note", "function f() end"]);
    assert!(docs.is_empty());
}

#[test]
fn multi_line_declaration_is_joined() {
    let docs = parse(&["-- @brief add", "function M.add(M,", "   b) -- tail", ""]);
    assert_eq!(docs.len(), 1);
    assert_eq!(docs[0].signature, "function M.add(M,b)");
    assert_eq!(docs[0].owner_object, "M");
    assert!(docs[0].is_member);
    assert!(!docs[0].is_local);
}

#[test]
fn unterminated_declaration_at_end_is_dropped() {
    let docs = parse(&["-- @brief x", "function f(a,", "b,"]);
    assert!(docs.is_empty());
}

#[test]
fn local_function_document() {
    let docs = parse(&["-- @brief loc", "local function f(x) end"]);
    assert_eq!(docs.len(), 1);
    assert!(docs[0].is_local);
    assert_eq!(docs[0].owner_object, "");
    assert!(!docs[0].is_member);
}

#[test]
fn empty_input_yields_nothing() {
    assert!(parse(&[]).is_empty());
}

#[test]
fn file_types() {
    assert_eq!(InputFileType::from_str("lua"), Some(InputFileType::Lua));
    assert_eq!(InputFileType::from_str("cc"), Some(InputFileType::Cpp));
    assert_eq!(InputFileType::from_str("cpp"), Some(InputFileType::Cpp));
    assert_eq!(InputFileType::from_str("c"), Some(InputFileType::C));
    assert_eq!(InputFileType::from_str("rs"), Some(InputFileType::Rust));
    assert_eq!(InputFileType::from_str("py"), Some(InputFileType::Python));
    assert_eq!(InputFileType::from_str("txt"), None);
    assert_eq!(InputFileType::from_str(""), None);
    assert_eq!(InputFileType::Lua.to_str(), Some("lua"));
    assert_eq!(InputFileType::Cpp.to_str(), Some("cpp"));
    assert_eq!(InputFileType::Python.to_str(), Some("py"));
    assert_eq!(InputFileType::Unknown.to_str(), None);
}

#[test]
fn long_string_mode_carries_to_next_line() {
    assert_eq!(
        LuaFileParser::strip_comment_from("x = [==[ a -- b", ScanMode::Normal),
        ("x = [==[ a -- b".to_string(), ScanMode::LongString(2))
    );
    assert_eq!(
        LuaFileParser::strip_comment_from("c ]==] -- d", ScanMode::LongString(2)),
        ("c ]==]".to_string(), ScanMode::Normal)
    );
}

#[test]
fn long_comment_mode_carries_to_next_line() {
    assert_eq!(
        LuaFileParser::strip_comment_from("y --[[ start", ScanMode::Normal),
        ("y".to_string(), ScanMode::LongComment(0))
    );
    assert_eq!(
        LuaFileParser::strip_comment_from("still inside ]=]", ScanMode::LongComment(0)),
        ("".to_string(), ScanMode::LongComment(0))
    );
    assert_eq!(
        LuaFileParser::strip_comment_from("]] z = 1", ScanMode::LongComment(0)),
        ("z = 1".to_string(), ScanMode::Normal)
    );
    assert_eq!(
        LuaFileParser::strip_comment_from("'open", ScanMode::Normal),
        ("'open".to_string(), ScanMode::SingleQuote)
    );
}

#[test]
fn declaration_inside_long_comment_is_not_documented() {
    let docs = parse(&[
        "--[[ a long",
        "-- @brief hidden",
        "function hidden() end",
        "]]",
        "-- @brief real",
        "function real() end",
    ]);
    assert_eq!(docs.len(), 1);
    assert_eq!(docs[0].brief, "real");
    assert_eq!(docs[0].signature, "function real() end");
}

#[test]
fn open_quote_does_not_hide_later_documentation() {
    let docs = parse(&["-- @brief a", "function f(\"x)", "-- @brief b", "function g()"]);
    assert_eq!(docs.len(), 2);
    assert_eq!(docs[0].brief, "a");
    assert_eq!(docs[0].signature, "function f(\"x)");
    assert_eq!(docs[1].brief, "b");
    assert_eq!(docs[1].signature, "function g()");
}
