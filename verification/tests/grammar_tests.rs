use hi::grammar::expr::parse_tuple;
use hi::grammar::item::fn_::parse_fn;
use hi::grammar::item::struct_::parse_struct;
use hi::grammar::item::trait_::parse_trait;
use hi::grammar::{parse_block, parse_expr, parse_item, parse_stmt};
use hi::parser::Parser;
use hi::span::{HighlightGroup, HighlightedSpan};

fn sp(start: usize, end: usize, group: HighlightGroup) -> HighlightedSpan {
    HighlightedSpan { start, end, group: Some(group) }
}

#[test]
fn parses_block_with_one_expression() {
    let mut parser = Parser::new("{ a }");
    parse_block(&mut parser);
    assert_eq!(
        parser.output,
        vec![
            sp(0, 1, HighlightGroup::Delimiter),
            sp(2, 3, HighlightGroup::VariableUse),
            sp(4, 5, HighlightGroup::Delimiter),
        ],
    );
}

#[test]
fn block_parses_block_with_one_expression() {
    let mut parser = Parser::new("{ a }");
    parse_block(&mut parser);
    assert_eq!(
        parser.output,
        vec![
            sp(0, 1, HighlightGroup::Delimiter),
            sp(2, 3, HighlightGroup::VariableUse),
            sp(4, 5, HighlightGroup::Delimiter),
        ],
    );
}

#[test]
fn parses_block_with_one_statement() {
    let mut parser = Parser::new("{ let x = y; }");
    parse_block(&mut parser);
    assert_eq!(
        parser.output,
        vec![
            sp(0, 1, HighlightGroup::Delimiter),
            sp(2, 5, HighlightGroup::OtherKeyword),
            sp(6, 7, HighlightGroup::VariableDef),
            sp(8, 9, HighlightGroup::AssignOper),
            sp(10, 11, HighlightGroup::VariableUse),
            sp(11, 12, HighlightGroup::Terminator),
            sp(13, 14, HighlightGroup::Delimiter),
        ],
    );
}

#[test]
fn block_parses_block_with_one_statement() {
    let mut parser = Parser::new("{ let x = y; }");
    parse_block(&mut parser);
    assert_eq!(
        parser.output,
        vec![
            sp(0, 1, HighlightGroup::Delimiter),
            sp(2, 5, HighlightGroup::OtherKeyword),
            sp(6, 7, HighlightGroup::VariableDef),
            sp(8, 9, HighlightGroup::AssignOper),
            sp(10, 11, HighlightGroup::VariableUse),
            sp(11, 12, HighlightGroup::Terminator),
            sp(13, 14, HighlightGroup::Delimiter),
        ],
    );
}

#[test]
fn parse_block_with_statement_and_expression() {
    let mut parser = Parser::new("{ let a = foo(); a }");
    parse_block(&mut parser);
    assert_eq!(
        parser.output,
        vec![
            sp(0, 1, HighlightGroup::Delimiter),
            sp(2, 5, HighlightGroup::OtherKeyword),
            sp(6, 7, HighlightGroup::VariableDef),
            sp(8, 9, HighlightGroup::AssignOper),
            sp(10, 13, HighlightGroup::FunctionCall),
            sp(13, 14, HighlightGroup::Delimiter),
            sp(14, 15, HighlightGroup::Delimiter),
            sp(15, 16, HighlightGroup::Terminator),
            sp(17, 18, HighlightGroup::VariableUse),
            sp(19, 20, HighlightGroup::Delimiter),
        ],
    );
}

#[test]
fn block_parse_block_with_statement_and_expression() {
    let mut parser = Parser::new("{ let a = foo(); a }");
    parse_block(&mut parser);
    assert_eq!(
        parser.output,
        vec![
            sp(0, 1, HighlightGroup::Delimiter),
            sp(2, 5, HighlightGroup::OtherKeyword),
            sp(6, 7, HighlightGroup::VariableDef),
            sp(8, 9, HighlightGroup::AssignOper),
            sp(10, 13, HighlightGroup::FunctionCall),
            sp(13, 14, HighlightGroup::Delimiter),
            sp(14, 15, HighlightGroup::Delimiter),
            sp(15, 16, HighlightGroup::Terminator),
            sp(17, 18, HighlightGroup::VariableUse),
            sp(19, 20, HighlightGroup::Delimiter),
        ],
    );
}

#[test]
fn parses_block_with_expression_that_throws_away_result_through_semicolon() {
    let mut parser = Parser::new("{ a(); }");
    parse_block(&mut parser);
    assert_eq!(
        parser.output,
        vec![
            sp(0, 1, HighlightGroup::Delimiter),
            sp(2, 3, HighlightGroup::FunctionCall),
            sp(3, 4, HighlightGroup::Delimiter),
            sp(4, 5, HighlightGroup::Delimiter),
            sp(5, 6, HighlightGroup::Terminator),
            sp(7, 8, HighlightGroup::Delimiter),
        ],
    );
}

#[test]
fn block_parses_block_with_expression_that_throws_away_result_through_semicolon() {
    let mut parser = Parser::new("{ a(); }");
    parse_block(&mut parser);
    assert_eq!(
        parser.output,
        vec![
            sp(0, 1, HighlightGroup::Delimiter),
            sp(2, 3, HighlightGroup::FunctionCall),
            sp(3, 4, HighlightGroup::Delimiter),
            sp(4, 5, HighlightGroup::Delimiter),
            sp(5, 6, HighlightGroup::Terminator),
            sp(7, 8, HighlightGroup::Delimiter),
        ],
    );
}

#[test]
fn parses_block_with_unclosed_brace() {
    let mut parser = Parser::new("{ a");
    parse_block(&mut parser);
    assert_eq!(
        parser.output,
        vec![sp(0, 1, HighlightGroup::Delimiter), sp(2, 3, HighlightGroup::VariableUse)],
    );
}

#[test]
fn parses_var_usage() {
    let mut parser = Parser::new("foo_bar");
    parse_expr(&mut parser, false);
    assert_eq!(parser.output, vec![sp(0, 7, HighlightGroup::VariableUse)]);
}

#[test]
fn parses_function_call() {
    let mut parser = Parser::new("f()");
    parse_expr(&mut parser, false);
    assert_eq!(
        parser.output,
        vec![
            sp(0, 1, HighlightGroup::FunctionCall),
            sp(1, 2, HighlightGroup::Delimiter),
            sp(2, 3, HighlightGroup::Delimiter),
        ],
    );
}

#[test]
fn parses_empty_tuple() {
    let mut parser = Parser::new("()");
    parse_tuple(&mut parser, false);
    assert_eq!(
        parser.output,
        vec![sp(0, 1, HighlightGroup::Delimiter), sp(1, 2, HighlightGroup::Delimiter)],
    );
}

#[test]
fn parses_parenthesised_expression() {
    let mut parser = Parser::new("(x)");
    parse_tuple(&mut parser, false);
    assert_eq!(
        parser.output,
        vec![
            sp(0, 1, HighlightGroup::Delimiter),
            sp(1, 2, HighlightGroup::VariableUse),
            sp(2, 3, HighlightGroup::Delimiter),
        ],
    );
}

#[test]
fn parses_one_element_tuple() {
    let mut parser = Parser::new("(x,)");
    parse_tuple(&mut parser, false);
    assert_eq!(
        parser.output,
        vec![
            sp(0, 1, HighlightGroup::Delimiter),
            sp(1, 2, HighlightGroup::VariableUse),
            sp(2, 3, HighlightGroup::Separator),
            sp(3, 4, HighlightGroup::Delimiter),
        ],
    );
}

#[test]
fn parses_two_element_tuple_without_trailing_comma() {
    let mut parser = Parser::new("(x, y)");
    parse_tuple(&mut parser, false);
    assert_eq!(
        parser.output,
        vec![
            sp(0, 1, HighlightGroup::Delimiter),
            sp(1, 2, HighlightGroup::VariableUse),
            sp(2, 3, HighlightGroup::Separator),
            sp(4, 5, HighlightGroup::VariableUse),
            sp(5, 6, HighlightGroup::Delimiter),
        ],
    );
}

#[test]
fn parses_function() {
    let mut parser = Parser::new("fn a() {}");
    parse_item(&mut parser);
    assert_eq!(parser.output[0].group, Some(HighlightGroup::OtherKeyword));
}

#[test]
fn parses_struct() {
    let mut parser = Parser::new("struct Parser;");
    parse_item(&mut parser);
    assert_eq!(parser.output[0].group, Some(HighlightGroup::OtherKeyword));
}

#[test]
fn parses_trait() {
    let mut parser = Parser::new("trait Marker {}");
    parse_item(&mut parser);
    assert_eq!(parser.output[0].group, Some(HighlightGroup::OtherKeyword));
}

#[test]
fn eats_errors_until_finds_valid_keyword() {
    let mut parser = Parser::new("error blah fn");
    parse_item(&mut parser);
    assert_eq!(
        parser.output,
        vec![
            sp(0, 5, HighlightGroup::Error),
            sp(6, 10, HighlightGroup::Error),
            sp(11, 13, HighlightGroup::OtherKeyword),
        ],
    );
}

#[test]
fn eats_errors_until_close_brace() {
    let mut parser = Parser::new("invalid item }");
    parse_item(&mut parser);
    assert_eq!(parser.output, vec![sp(0, 7, HighlightGroup::Error), sp(8, 12, HighlightGroup::Error)]);
}

#[test]
fn parses_fn_def_with_empty_body() {
    let mut parser = Parser::new("fn frobnicate() {}");
    parse_fn(&mut parser);
    assert_eq!(
        parser.output,
        vec![
            sp(0, 2, HighlightGroup::OtherKeyword),
            sp(3, 13, HighlightGroup::FunctionDef),
            sp(13, 14, HighlightGroup::Delimiter),
            sp(14, 15, HighlightGroup::Delimiter),
            sp(16, 17, HighlightGroup::Delimiter),
            sp(17, 18, HighlightGroup::Delimiter),
        ],
    );
}

#[test]
fn parses_fn_def_with_semicolon_instead_of_body() {
    let mut parser = Parser::new("fn frobnicate();");
    parse_fn(&mut parser);
    assert_eq!(
        parser.output,
        vec![
            sp(0, 2, HighlightGroup::OtherKeyword),
            sp(3, 13, HighlightGroup::FunctionDef),
            sp(13, 14, HighlightGroup::Delimiter),
            sp(14, 15, HighlightGroup::Delimiter),
            sp(15, 16, HighlightGroup::Terminator),
        ],
    );
}

#[test]
fn parses_fn_def_with_return_type() {
    let mut parser = Parser::new("fn f() -> T {}");
    parse_fn(&mut parser);
    assert_eq!(
        parser.output,
        vec![
            sp(0, 2, HighlightGroup::OtherKeyword),
            sp(3, 4, HighlightGroup::FunctionDef),
            sp(4, 5, HighlightGroup::Delimiter),
            sp(5, 6, HighlightGroup::Delimiter),
            sp(7, 9, HighlightGroup::Separator),
            sp(10, 11, HighlightGroup::TyUse),
            sp(12, 13, HighlightGroup::Delimiter),
            sp(13, 14, HighlightGroup::Delimiter),
        ],
    );
}

#[test]
fn return_type_arrow_without_type_is_error() {
    let mut parser = Parser::new("fn f() -> {}");
    parse_fn(&mut parser);
    assert_eq!(
        parser.output,
        vec![
            sp(0, 2, HighlightGroup::OtherKeyword),
            sp(3, 4, HighlightGroup::FunctionDef),
            sp(4, 5, HighlightGroup::Delimiter),
            sp(5, 6, HighlightGroup::Delimiter),
            sp(7, 9, HighlightGroup::Error),
            sp(10, 11, HighlightGroup::Delimiter),
            sp(11, 12, HighlightGroup::Delimiter),
        ],
    );
}

#[test]
fn parses_fn_def() {
    assert_eq!(
        Parser::new("fn frobnicate()").parse(),
        vec![
            sp(0, 2, HighlightGroup::OtherKeyword),
            sp(3, 13, HighlightGroup::FunctionDef),
            sp(13, 14, HighlightGroup::Delimiter),
            sp(14, 15, HighlightGroup::Delimiter),
        ],
    );
}

#[test]
fn parses_multiple_fn_defs() {
    // The first function has neither `;` nor a block where its body should
    // stand, so the body rule tags exactly one token — the second `fn` — as
    // an error and returns; what follows it is no longer a valid item.
    assert_eq!(
        Parser::new("fn foo() fn bar()").parse(),
        vec![
            sp(0, 2, HighlightGroup::OtherKeyword),
            sp(3, 6, HighlightGroup::FunctionDef),
            sp(6, 7, HighlightGroup::Delimiter),
            sp(7, 8, HighlightGroup::Delimiter),
            sp(9, 11, HighlightGroup::Error),
            sp(12, 15, HighlightGroup::Error),
            sp(15, 16, HighlightGroup::Error),
            sp(16, 17, HighlightGroup::Error),
        ],
    );
}

#[test]
fn separated_fn_defs_both_highlight() {
    assert_eq!(
        Parser::new("fn foo(); fn bar() {}").parse(),
        vec![
            sp(0, 2, HighlightGroup::OtherKeyword),
            sp(3, 6, HighlightGroup::FunctionDef),
            sp(6, 7, HighlightGroup::Delimiter),
            sp(7, 8, HighlightGroup::Delimiter),
            sp(8, 9, HighlightGroup::Terminator),
            sp(10, 12, HighlightGroup::OtherKeyword),
            sp(13, 16, HighlightGroup::FunctionDef),
            sp(16, 17, HighlightGroup::Delimiter),
            sp(17, 18, HighlightGroup::Delimiter),
            sp(19, 20, HighlightGroup::Delimiter),
            sp(20, 21, HighlightGroup::Delimiter),
        ],
    );
}

#[test]
fn fn__parses_fn_def_with_return_type() {
    assert_eq!(
        Parser::new("fn f() -> T").parse(),
        vec![
            sp(0, 2, HighlightGroup::OtherKeyword),
            sp(3, 4, HighlightGroup::FunctionDef),
            sp(4, 5, HighlightGroup::Delimiter),
            sp(5, 6, HighlightGroup::Delimiter),
            sp(7, 9, HighlightGroup::Separator),
            sp(10, 11, HighlightGroup::TyUse),
        ],
    );
}

#[test]
fn fn__return_type_arrow_without_type_is_error() {
    assert_eq!(
        Parser::new("fn f() ->").parse(),
        vec![
            sp(0, 2, HighlightGroup::OtherKeyword),
            sp(3, 4, HighlightGroup::FunctionDef),
            sp(4, 5, HighlightGroup::Delimiter),
            sp(5, 6, HighlightGroup::Delimiter),
            sp(7, 9, HighlightGroup::Error),
        ],
    );
}

#[test]
fn parses_unit_struct() {
    let mut parser = Parser::new("struct T;");
    parse_struct(&mut parser);
    assert_eq!(
        parser.output,
        vec![
            sp(0, 6, HighlightGroup::OtherKeyword),
            sp(7, 8, HighlightGroup::TyDef),
            sp(8, 9, HighlightGroup::Terminator),
        ],
    );
}

#[test]
fn parses_trait_with_no_items() {
    let mut parser = Parser::new("trait A {}");
    parse_trait(&mut parser);
    assert_eq!(
        parser.output,
        vec![
            sp(0, 5, HighlightGroup::OtherKeyword),
            sp(6, 7, HighlightGroup::InterfaceDef),
            sp(8, 9, HighlightGroup::Delimiter),
            sp(9, 10, HighlightGroup::Delimiter),
        ],
    );
}

#[test]
fn parses_trait_with_several_items() {
    let mut parser = Parser::new("trait A { fn a(); }");
    parse_trait(&mut parser);
    assert_eq!(
        parser.output,
        vec![
            sp(0, 5, HighlightGroup::OtherKeyword),
            sp(6, 7, HighlightGroup::InterfaceDef),
            sp(8, 9, HighlightGroup::Delimiter),
            sp(10, 12, HighlightGroup::OtherKeyword),
            sp(13, 14, HighlightGroup::FunctionDef),
            sp(14, 15, HighlightGroup::Delimiter),
            sp(15, 16, HighlightGroup::Delimiter),
            sp(16, 17, HighlightGroup::Terminator),
            sp(18, 19, HighlightGroup::Delimiter),
        ],
    );
}

#[test]
fn parses_let_statement() {
    let mut parser = Parser::new("let x = y;");
    parse_stmt(&mut parser);
    assert_eq!(
        parser.output,
        vec![
            sp(0, 3, HighlightGroup::OtherKeyword),
            sp(4, 5, HighlightGroup::VariableDef),
            sp(6, 7, HighlightGroup::AssignOper),
            sp(8, 9, HighlightGroup::VariableUse),
            sp(9, 10, HighlightGroup::Terminator),
        ],
    );
}

#[test]
fn parses_tuple_pattern_in_let() {
    let mut parser = Parser::new("let (a, b) = c;");
    parse_stmt(&mut parser);
    assert_eq!(
        parser.output,
        vec![
            sp(0, 3, HighlightGroup::OtherKeyword),
            sp(4, 5, HighlightGroup::Delimiter),
            sp(5, 6, HighlightGroup::VariableDef),
            sp(6, 7, HighlightGroup::Separator),
            sp(8, 9, HighlightGroup::VariableDef),
            sp(9, 10, HighlightGroup::Delimiter),
            sp(11, 12, HighlightGroup::AssignOper),
            sp(13, 14, HighlightGroup::VariableUse),
            sp(14, 15, HighlightGroup::Terminator),
        ],
    );
}

#[test]
fn parses_call_with_arguments() {
    let mut parser = Parser::new("f(x, y)");
    parse_expr(&mut parser, false);
    assert_eq!(
        parser.output,
        vec![
            sp(0, 1, HighlightGroup::FunctionCall),
            sp(1, 2, HighlightGroup::Delimiter),
            sp(2, 3, HighlightGroup::VariableUse),
            sp(3, 4, HighlightGroup::Separator),
            sp(5, 6, HighlightGroup::VariableUse),
            sp(6, 7, HighlightGroup::Delimiter),
        ],
    );
}

#[test]
fn parses_field_access() {
    let mut parser = Parser::new("a.b");
    parse_expr(&mut parser, false);
    assert_eq!(
        parser.output,
        vec![
            sp(0, 1, HighlightGroup::VariableUse),
            sp(1, 2, HighlightGroup::MemberOper),
            sp(2, 3, HighlightGroup::MemberUse),
        ],
    );
}

#[test]
fn parses_method_call() {
    let mut parser = Parser::new("a.b()");
    parse_expr(&mut parser, false);
    assert_eq!(
        parser.output,
        vec![
            sp(0, 1, HighlightGroup::VariableUse),
            sp(1, 2, HighlightGroup::MemberOper),
            sp(2, 3, HighlightGroup::FunctionCall),
            sp(3, 4, HighlightGroup::Delimiter),
            sp(4, 5, HighlightGroup::Delimiter),
        ],
    );
}

#[test]
fn parses_try_operator() {
    let mut parser = Parser::new("x?");
    parse_expr(&mut parser, false);
    assert_eq!(
        parser.output,
        vec![sp(0, 1, HighlightGroup::VariableUse), sp(1, 2, HighlightGroup::OtherOper)],
    );
}

#[test]
fn mutable_borrow_before_plain_borrow() {
    let mut parser = Parser::new("&mut x");
    parse_expr(&mut parser, false);
    assert_eq!(
        parser.output,
        vec![sp(0, 4, HighlightGroup::PointerOper), sp(5, 6, HighlightGroup::VariableUse)],
    );
}

#[test]
fn parses_dereference() {
    let mut parser = Parser::new("*p");
    parse_expr(&mut parser, false);
    assert_eq!(
        parser.output,
        vec![sp(0, 1, HighlightGroup::PointerOper), sp(1, 2, HighlightGroup::VariableUse)],
    );
}

#[test]
fn semicolon_elision_at_block_tail() {
    let mut with_semi = Parser::new("{ a; }");
    parse_block(&mut with_semi);
    assert_eq!(
        with_semi.output,
        vec![
            sp(0, 1, HighlightGroup::Delimiter),
            sp(2, 3, HighlightGroup::VariableUse),
            sp(3, 4, HighlightGroup::Terminator),
            sp(5, 6, HighlightGroup::Delimiter),
        ],
    );
    let mut without_semi = Parser::new("{ a }");
    parse_block(&mut without_semi);
    assert_eq!(
        without_semi.output,
        vec![
            sp(0, 1, HighlightGroup::Delimiter),
            sp(2, 3, HighlightGroup::VariableUse),
            sp(4, 5, HighlightGroup::Delimiter),
        ],
    );
}

#[test]
fn parses_number_literal_in_statement() {
    let mut parser = Parser::new("{ let x = 0xFF; }");
    parse_block(&mut parser);
    assert_eq!(
        parser.output,
        vec![
            sp(0, 1, HighlightGroup::Delimiter),
            sp(2, 5, HighlightGroup::OtherKeyword),
            sp(6, 7, HighlightGroup::VariableDef),
            sp(8, 9, HighlightGroup::AssignOper),
            sp(10, 14, HighlightGroup::Number),
            sp(14, 15, HighlightGroup::Terminator),
            sp(16, 17, HighlightGroup::Delimiter),
        ],
    );
}

#[test]
fn parses_struct_literal_with_named_fields() {
    let mut parser = Parser::new("S { a: x, b: y }");
    parse_expr(&mut parser, false);
    assert_eq!(
        parser.output,
        vec![
            sp(0, 1, HighlightGroup::TyUse),
            sp(2, 3, HighlightGroup::Delimiter),
            sp(4, 5, HighlightGroup::MemberUse),
            sp(5, 6, HighlightGroup::Separator),
            sp(7, 8, HighlightGroup::VariableUse),
            sp(8, 9, HighlightGroup::Separator),
            sp(10, 11, HighlightGroup::MemberUse),
            sp(11, 12, HighlightGroup::Separator),
            sp(13, 14, HighlightGroup::VariableUse),
            sp(15, 16, HighlightGroup::Delimiter),
        ],
    );
}

#[test]
fn parses_struct_literal_with_tuple_fields() {
    let mut parser = Parser::new("S(x)");
    parse_expr(&mut parser, false);
    assert_eq!(
        parser.output,
        vec![
            sp(0, 1, HighlightGroup::TyUse),
            sp(1, 2, HighlightGroup::Delimiter),
            sp(2, 3, HighlightGroup::VariableUse),
            sp(3, 4, HighlightGroup::Delimiter),
        ],
    );
}

#[test]
fn parses_bare_type_name_in_expression() {
    let mut parser = Parser::new("S");
    parse_expr(&mut parser, false);
    assert_eq!(parser.output, vec![sp(0, 1, HighlightGroup::TyUse)]);
}

#[test]
fn parses_unterminated_struct_literal() {
    let mut parser = Parser::new("S { a: x");
    parse_expr(&mut parser, false);
    assert_eq!(
        parser.output,
        vec![
            sp(0, 1, HighlightGroup::TyUse),
            sp(2, 3, HighlightGroup::Delimiter),
            sp(4, 5, HighlightGroup::MemberUse),
            sp(5, 6, HighlightGroup::Separator),
            sp(7, 8, HighlightGroup::VariableUse),
        ],
    );
}

#[test]
fn parses_string_literal_expression() {
    let mut parser = Parser::new("\"s\"");
    parse_expr(&mut parser, false);
    assert_eq!(parser.output, vec![sp(0, 3, HighlightGroup::StringLit)]);
}

#[test]
fn parses_character_literal_expression() {
    let mut parser = Parser::new("'c'");
    parse_expr(&mut parser, false);
    assert_eq!(parser.output, vec![sp(0, 3, HighlightGroup::CharLit)]);
}
