use hi::span::{HighlightGroup, HighlightedSpan};
use hi::Highlighter;

fn sp(start: usize, end: usize, group: HighlightGroup) -> HighlightedSpan {
    HighlightedSpan { start, end, group: Some(group) }
}

fn gap(start: usize, end: usize) -> HighlightedSpan {
    HighlightedSpan { start, end, group: None }
}

fn assert_covers(input: &str) {
    let out = Highlighter.highlight(input);
    if input.is_empty() {
        assert!(out.is_empty());
        return;
    }
    assert_eq!(out[0].start, 0);
    assert_eq!(out[out.len() - 1].end, input.len());
    for k in 0..out.len() {
        assert!(out[k].start < out[k].end);
        if k + 1 < out.len() {
            assert_eq!(out[k].end, out[k + 1].start);
        }
    }
}

#[test]
fn spans_partition_the_input() {
    assert_covers("");
    assert_covers(" \t\r\n");
    assert_covers("@@##$$");
    assert_covers("fn f() -> T { let x = y(a, b); x }");
    assert_covers("trait A { fn a(); fn b() {} }");
    assert_covers("struct T;");
    assert_covers("use foo::Bar;");
    assert_covers("type A = u32;");
    assert_covers("\"unterminated");
    assert_covers("{ ( {");
    assert_covers("garbage fn f() {}");
    assert_covers("let 123 = = ;; -> ::");
}

#[test]
fn whitespace_only_input_is_one_unclassified_span() {
    assert_eq!(Highlighter.highlight("   "), vec![gap(0, 3)]);
}

#[test]
fn rerunning_yields_identical_output() {
    let input = "fn f() { let a = foo(); a }";
    let first = Highlighter.highlight(input);
    let second = Highlighter.highlight(input);
    assert_eq!(first, second);
}

#[test]
fn recovery_does_not_consume_past_an_item_keyword() {
    assert_eq!(
        Highlighter.highlight("garbage fn f() {}"),
        vec![
            sp(0, 7, HighlightGroup::Error),
            gap(7, 8),
            sp(8, 10, HighlightGroup::OtherKeyword),
            gap(10, 11),
            sp(11, 12, HighlightGroup::FunctionDef),
            sp(12, 13, HighlightGroup::Delimiter),
            sp(13, 14, HighlightGroup::Delimiter),
            gap(14, 15),
            sp(15, 16, HighlightGroup::Delimiter),
            sp(16, 17, HighlightGroup::Delimiter),
        ],
    );
}

#[test]
fn missing_return_type_keeps_the_block() {
    assert_eq!(
        Highlighter.highlight("fn f() -> {}"),
        vec![
            sp(0, 2, HighlightGroup::OtherKeyword),
            gap(2, 3),
            sp(3, 4, HighlightGroup::FunctionDef),
            sp(4, 5, HighlightGroup::Delimiter),
            sp(5, 6, HighlightGroup::Delimiter),
            gap(6, 7),
            sp(7, 9, HighlightGroup::Error),
            gap(9, 10),
            sp(10, 11, HighlightGroup::Delimiter),
            sp(11, 12, HighlightGroup::Delimiter),
        ],
    );
}

#[test]
fn highlights_a_use_declaration() {
    assert_eq!(
        Highlighter.highlight("use foo::Bar;"),
        vec![
            sp(0, 3, HighlightGroup::OtherKeyword),
            gap(3, 4),
            sp(4, 7, HighlightGroup::ModuleUse),
            sp(7, 9, HighlightGroup::Separator),
            sp(9, 12, HighlightGroup::TyUse),
            sp(12, 13, HighlightGroup::Terminator),
        ],
    );
}

#[test]
fn highlights_a_type_alias() {
    assert_eq!(
        Highlighter.highlight("type A = u32;"),
        vec![
            sp(0, 4, HighlightGroup::OtherKeyword),
            gap(4, 5),
            sp(5, 6, HighlightGroup::TyDef),
            gap(6, 7),
            sp(7, 8, HighlightGroup::AssignOper),
            gap(8, 9),
            sp(9, 12, HighlightGroup::PrimitiveTy),
            sp(12, 13, HighlightGroup::Terminator),
        ],
    );
}

#[test]
fn highlights_a_whole_function() {
    assert_eq!(
        Highlighter.highlight("fn a() {}"),
        vec![
            sp(0, 2, HighlightGroup::OtherKeyword),
            gap(2, 3),
            sp(3, 4, HighlightGroup::FunctionDef),
            sp(4, 5, HighlightGroup::Delimiter),
            sp(5, 6, HighlightGroup::Delimiter),
            gap(6, 7),
            sp(7, 8, HighlightGroup::Delimiter),
            sp(8, 9, HighlightGroup::Delimiter),
        ],
    );
}

#[test]
fn empty_input_yields_no_spans() {
    assert_eq!(Highlighter.highlight(""), vec![]);
}

#[test]
fn bytes_with_no_tokens_become_error_spans() {
    assert_eq!(
        Highlighter.highlight("@#"),
        vec![sp(0, 1, HighlightGroup::Error), sp(1, 2, HighlightGroup::Error)],
    );
}

#[test]
fn stray_close_brace_at_top_level_is_an_error() {
    assert_eq!(Highlighter.highlight("}"), vec![sp(0, 1, HighlightGroup::Error)]);
}

#[test]
fn truncated_block_still_terminates() {
    assert_eq!(
        Highlighter.highlight("fn f() { a"),
        vec![
            sp(0, 2, HighlightGroup::OtherKeyword),
            gap(2, 3),
            sp(3, 4, HighlightGroup::FunctionDef),
            sp(4, 5, HighlightGroup::Delimiter),
            sp(5, 6, HighlightGroup::Delimiter),
            gap(6, 7),
            sp(7, 8, HighlightGroup::Delimiter),
            gap(8, 9),
            sp(9, 10, HighlightGroup::VariableUse),
        ],
    );
}

#[test]
fn primitive_return_type_highlights_as_primitive() {
    assert_eq!(
        Highlighter.highlight("fn f() -> u32;"),
        vec![
            sp(0, 2, HighlightGroup::OtherKeyword),
            gap(2, 3),
            sp(3, 4, HighlightGroup::FunctionDef),
            sp(4, 5, HighlightGroup::Delimiter),
            sp(5, 6, HighlightGroup::Delimiter),
            gap(6, 7),
            sp(7, 9, HighlightGroup::Separator),
            gap(9, 10),
            sp(10, 13, HighlightGroup::PrimitiveTy),
            sp(13, 14, HighlightGroup::Terminator),
        ],
    );
}

#[test]
fn type_alias_with_missing_type_keeps_its_terminator() {
    assert_eq!(
        Highlighter.highlight("type A = ;"),
        vec![
            sp(0, 4, HighlightGroup::OtherKeyword),
            gap(4, 5),
            sp(5, 6, HighlightGroup::TyDef),
            gap(6, 7),
            sp(7, 8, HighlightGroup::AssignOper),
            gap(8, 9),
            sp(9, 10, HighlightGroup::Terminator),
        ],
    );
}

#[test]
fn use_declaration_without_terminator_stops_quietly() {
    assert_eq!(
        Highlighter.highlight("use foo"),
        vec![
            sp(0, 3, HighlightGroup::OtherKeyword),
            gap(3, 4),
            sp(4, 7, HighlightGroup::ModuleUse),
        ],
    );
}

#[test]
fn traits_nest_struct_items() {
    assert_eq!(
        Highlighter.highlight("trait A { struct B; }"),
        vec![
            sp(0, 5, HighlightGroup::OtherKeyword),
            gap(5, 6),
            sp(6, 7, HighlightGroup::InterfaceDef),
            gap(7, 8),
            sp(8, 9, HighlightGroup::Delimiter),
            gap(9, 10),
            sp(10, 16, HighlightGroup::OtherKeyword),
            gap(16, 17),
            sp(17, 18, HighlightGroup::TyDef),
            sp(18, 19, HighlightGroup::Terminator),
            gap(19, 20),
            sp(20, 21, HighlightGroup::Delimiter),
        ],
    );
}

#[test]
fn nested_trait_items_highlight_like_top_level_ones() {
    assert_eq!(
        Highlighter.highlight("trait A { fn a(); }"),
        vec![
            sp(0, 5, HighlightGroup::OtherKeyword),
            gap(5, 6),
            sp(6, 7, HighlightGroup::InterfaceDef),
            gap(7, 8),
            sp(8, 9, HighlightGroup::Delimiter),
            gap(9, 10),
            sp(10, 12, HighlightGroup::OtherKeyword),
            gap(12, 13),
            sp(13, 14, HighlightGroup::FunctionDef),
            sp(14, 15, HighlightGroup::Delimiter),
            sp(15, 16, HighlightGroup::Delimiter),
            sp(16, 17, HighlightGroup::Terminator),
            gap(17, 18),
            sp(18, 19, HighlightGroup::Delimiter),
        ],
    );
}
