//! End-to-end tests: lex, parse, then interpret or generate IR.

use tapelang::codegen::generate_ir;
use tapelang::interpreter::Interpreter;
use tapelang::interpreter::TAPE_LEN;
use tapelang::lexer::lex;
use tapelang::lexer::Token;
use tapelang::parser::parse;
use tapelang::parser::Node;

const FUEL: u64 = 1_000_000;

#[test]
fn outputs_two_after_two_increments() {
    let nodes = parse(&lex("++."));
    let mut it = Interpreter::new(Vec::new());
    let left = it.run(&nodes, FUEL);
    assert_eq!(left, Some(FUEL - 3));
    assert_eq!(it.output().as_slice(), &[2u8]);
}

#[test]
fn countdown_loop_moves_one_right() {
    let nodes = parse(&lex("+[>+<-]"));
    let mut it = Interpreter::new(Vec::new());
    let left = it.run(&nodes, FUEL);
    assert!(left.is_some());
    assert_eq!(it.cell(0), 0);
    assert_eq!(it.cell(1), 1);
    assert_eq!(it.pointer(), 0);
}

#[test]
fn read_on_empty_input_leaves_cell_unchanged() {
    let nodes = parse(&lex(","));
    let mut it = Interpreter::new(Vec::new());
    let left = it.run(&nodes, FUEL);
    assert!(left.is_some());
    assert_eq!(it.cell(0), 0);
}

#[test]
fn unmatched_loop_start_is_empty_loop() {
    let nodes = parse(&lex("["));
    assert_eq!(nodes.len(), 1);
    assert!(matches!(&nodes[0], Node::Loop(body) if body.is_empty()));
    let mut it = Interpreter::new(Vec::new());
    let left = it.run(&nodes, FUEL);
    assert!(left.is_some());
    assert_eq!(it.output().len(), 0);
    assert_eq!(it.cell(0), 0);
}

#[test]
fn increments_wrap_after_256_steps() {
    let src: String = "+".repeat(256);
    let nodes = parse(&lex(&src));
    let mut it = Interpreter::new(Vec::new());
    let left = it.run(&nodes, FUEL);
    assert_eq!(left, Some(FUEL - 256));
    assert_eq!(it.cell(0), 0);
}

#[test]
fn decrements_wrap_after_256_steps() {
    let src: String = "-".repeat(256);
    let nodes = parse(&lex(&src));
    let mut it = Interpreter::new(Vec::new());
    let left = it.run(&nodes, FUEL);
    assert!(left.is_some());
    assert_eq!(it.cell(0), 0);
}

#[test]
fn move_pairs_cancel() {
    let nodes = parse(&lex("><><"));
    let mut it = Interpreter::new(Vec::new());
    let left = it.run(&nodes, FUEL);
    assert_eq!(left, Some(FUEL - 4));
    assert_eq!(it.pointer(), 0);
}

#[test]
fn pointer_wraps_left_to_last_cell() {
    let nodes = parse(&lex("<"));
    let mut it = Interpreter::new(Vec::new());
    let left = it.run(&nodes, FUEL);
    assert!(left.is_some());
    assert_eq!(it.pointer(), TAPE_LEN - 1);
}

#[test]
fn loop_with_zero_guard_is_skipped() {
    let nodes = parse(&lex("[.]"));
    let mut it = Interpreter::new(Vec::new());
    let left = it.run(&nodes, FUEL);
    assert!(left.is_some());
    assert_eq!(it.output().len(), 0);
}

#[test]
fn countdown_loop_zeroes_guard() {
    let nodes = parse(&lex("+++[-]"));
    let mut it = Interpreter::new(Vec::new());
    let left = it.run(&nodes, FUEL);
    // Three increments, then three iterations of one guard test and one
    // decrement each, then the final guard test.
    assert_eq!(left, Some(FUEL - 3 - (2 * 3 + 1)));
    assert_eq!(it.cell(0), 0);
}

#[test]
fn echo_one_byte() {
    let nodes = parse(&lex(",."));
    let mut it = Interpreter::new(vec![65u8]);
    let left = it.run(&nodes, FUEL);
    assert!(left.is_some());
    assert_eq!(it.output().as_slice(), &[65u8]);
}

#[test]
fn second_read_past_end_keeps_value() {
    let nodes = parse(&lex(",,."));
    let mut it = Interpreter::new(vec![7u8]);
    let left = it.run(&nodes, FUEL);
    assert!(left.is_some());
    assert_eq!(it.output().as_slice(), &[7u8]);
}

#[test]
fn nonterminating_loop_exhausts_fuel() {
    let nodes = parse(&lex("+[]"));
    let mut it = Interpreter::new(Vec::new());
    let left = it.run(&nodes, 1000);
    assert!(left.is_none());
}

#[test]
fn lexer_drops_comments_and_noise() {
    let tokens = lex("+ ; move > and such\n- text .");
    assert!(matches!(tokens[0], Token::IncCell));
    assert!(matches!(tokens[1], Token::DecCell));
    assert!(matches!(tokens[2], Token::Output));
    assert_eq!(tokens.len(), 3);
}

#[test]
fn lexer_comment_runs_to_line_end() {
    let tokens = lex(";+++\n+");
    assert_eq!(tokens.len(), 1);
    assert!(matches!(tokens[0], Token::IncCell));
}

#[test]
fn parser_nests_loops() {
    let nodes = parse(&lex("+[[-]>]"));
    assert_eq!(nodes.len(), 2);
    match &nodes[1] {
        Node::Loop(outer) => {
            assert_eq!(outer.len(), 2);
            assert!(matches!(&outer[0], Node::Loop(inner) if inner.len() == 1));
            assert!(matches!(&outer[1], Node::IncPtr));
        },
        _ => panic!("expected a loop"),
    }
}

#[test]
fn parser_stops_at_stray_loop_end() {
    let nodes = parse(&lex("+]+"));
    assert_eq!(nodes.len(), 1);
    assert!(matches!(&nodes[0], Node::IncCell));
}

#[test]
fn ir_for_single_increment() {
    let nodes = parse(&lex("+"));
    let ir = generate_ir(&nodes);
    let mut expected = String::new();
    expected.push_str("@tape = internal global [30000 x i8] zeroinitializer\n");
    expected.push_str("declare i32 @putchar(i32)\n");
    expected.push_str("declare i32 @getchar()\n");
    expected.push_str("\n");
    expected.push_str("define i32 @main() {\n");
    expected.push_str("entry:\n");
    expected.push_str("  %ptr = alloca i8*\n");
    expected.push_str("  %base = getelementptr [30000 x i8], [30000 x i8]* @tape, i64 0, i64 0\n");
    expected.push_str("  store i8* %base, i8** %ptr\n");
    expected.push_str("  %p0 = load i8*, i8** %ptr\n");
    expected.push_str("  %v1 = load i8, i8* %p0\n");
    expected.push_str("  %v2 = add i8 %v1, 1\n");
    expected.push_str("  store i8 %v2, i8* %p0\n");
    expected.push_str("  ret i32 0\n");
    expected.push_str("}\n");
    assert_eq!(ir, expected);
}

#[test]
fn ir_for_countdown_loop() {
    let nodes = parse(&lex("[-]"));
    let ir = generate_ir(&nodes);
    let mut expected = String::new();
    expected.push_str("@tape = internal global [30000 x i8] zeroinitializer\n");
    expected.push_str("declare i32 @putchar(i32)\n");
    expected.push_str("declare i32 @getchar()\n");
    expected.push_str("\n");
    expected.push_str("define i32 @main() {\n");
    expected.push_str("entry:\n");
    expected.push_str("  %ptr = alloca i8*\n");
    expected.push_str("  %base = getelementptr [30000 x i8], [30000 x i8]* @tape, i64 0, i64 0\n");
    expected.push_str("  store i8* %base, i8** %ptr\n");
    expected.push_str("  br label %loop.cond.0\n");
    expected.push_str("loop.cond.0:\n");
    expected.push_str("  %p1 = load i8*, i8** %ptr\n");
    expected.push_str("  %v2 = load i8, i8* %p1\n");
    expected.push_str("  %nz3 = icmp ne i8 %v2, 0\n");
    expected.push_str("  br i1 %nz3, label %loop.body.0, label %loop.end.0\n");
    expected.push_str("loop.body.0:\n");
    expected.push_str("  %p4 = load i8*, i8** %ptr\n");
    expected.push_str("  %v5 = load i8, i8* %p4\n");
    expected.push_str("  %v6 = sub i8 %v5, 1\n");
    expected.push_str("  store i8 %v6, i8* %p4\n");
    expected.push_str("  br label %loop.cond.0\n");
    expected.push_str("loop.end.0:\n");
    expected.push_str("  ret i32 0\n");
    expected.push_str("}\n");
    assert_eq!(ir, expected);
}

#[test]
fn ir_covers_every_instruction() {
    let nodes = parse(&lex("><.,"));
    let ir = generate_ir(&nodes);
    assert!(ir.contains("  %q1 = getelementptr i8, i8* %p0, i64 1\n"));
    assert!(ir.contains("  %q3 = getelementptr i8, i8* %p2, i64 -1\n"));
    assert!(ir.contains("  %w6 = zext i8 %v5 to i32\n"));
    assert!(ir.contains("  call i32 @putchar(i32 %w6)\n"));
    assert!(ir.contains("  %c8 = call i32 @getchar()\n"));
    assert!(ir.contains("  %eof9 = icmp slt i32 %c8, 0\n"));
    assert!(ir.contains("  %cz10 = select i1 %eof9, i32 0, i32 %c8\n"));
    assert!(ir.contains("  %b11 = trunc i32 %cz10 to i8\n"));
    assert!(ir.contains("  store i8 %b11, i8* %p7\n"));
}

#[test]
fn ir_labels_unique_across_sibling_loops() {
    let ir = generate_ir(&parse(&lex("[][]")));
    assert!(ir.contains("loop.cond.0:"));
    assert!(ir.contains("loop.body.0:"));
    assert!(ir.contains("loop.end.0:"));
    assert!(ir.contains("loop.cond.4:"));
    assert!(ir.contains("loop.body.4:"));
    assert!(ir.contains("loop.end.4:"));
}

#[test]
fn ir_labels_unique_across_nested_loops() {
    let ir = generate_ir(&parse(&lex("[[]]")));
    assert!(ir.contains("loop.cond.0:"));
    assert!(ir.contains("loop.cond.4:"));
    assert!(ir.contains("loop.end.4:"));
}
