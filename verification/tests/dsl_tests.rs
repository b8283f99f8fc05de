//! Tests of the inline syntax-tree builders, written as the plain calls the
//! inline notation stands for.

use dyl::ast;
use dyl::nodes::{
    addition, block, boolean, function, ident, if_, integer, multiplication, program,
    subtraction, Expr,
};

#[test]
fn parse_ident() {
    // foo
    let left = ident("foo");
    let right = ident("foo");

    assert_eq!(left, right);
}

#[test]
fn parse_block() {
    // { let a = 42; a }
    let left = block(vec![("a", integer(42))], ident("a"));

    let right = block(vec![("a", integer(42))], ident("a"));

    assert_eq!(left, right);
}

#[test]
fn double_bindings() {
    // let a = 1; let b = 2; a
    let left = block(vec![("a", integer(1)), ("b", integer(2))], ident("a"));

    let right = block(vec![("a", integer(1)), ("b", integer(2))], ident("a"));

    assert_eq!(left, right);
}

#[test]
fn if_else() {
    // if 1 { let a = 42; a } else { 101 }
    let left = if_(
        integer(1),
        block(vec![("a", integer(42))], ident("a")),
        block(vec![], integer(101)),
    );

    let right = if_(
        integer(1),
        block(vec![("a", integer(42))], ident("a")),
        block(vec![], integer(101)),
    );

    assert_eq!(left, right);
}

#[test]
fn addition_() {
    // a + b
    let left = addition(ident("a"), ident("b"));

    let right = addition(ident("a"), ident("b"));

    assert_eq!(left, right);
}

#[test]
fn cute_if_else() {
    // if 1 { let a = 42; let b = 101; a + b } else { 101 }
    let left = if_(
        integer(1),
        block(
            vec![("a", integer(42)), ("b", integer(101))],
            addition(ident("a"), ident("b")),
        ),
        block(vec![], integer(101)),
    );

    let right = if_(
        integer(1),
        block(
            vec![("a", integer(42)), ("b", integer(101))],
            addition(ident("a"), ident("b")),
        ),
        block(vec![], integer(101)),
    );

    assert_eq!(left, right);
}

#[test]
fn addition_as_part_of_if() {
    // if 1 { 1 } else { 1 } + 1
    let left = addition(
        if_(integer(1), block(vec![], integer(1)), block(vec![], integer(1))),
        integer(1),
    );

    let right = addition(
        if_(integer(1), block(vec![], integer(1)), block(vec![], integer(1))),
        integer(1),
    );

    assert_eq!(left, right);
}

#[test]
fn integer_negation() {
    // -42
    let left = integer(-42);
    let right = integer(-42);

    assert_eq!(left, right);
}

#[test]
fn expression_subtraction_simple() {
    // 101 - 17 - 42
    let left = subtraction(subtraction(integer(101), integer(17)), integer(42));

    let right = subtraction(subtraction(integer(101), integer(17)), integer(42));

    assert_eq!(left, right);
}

#[test]
fn bindings_indirection_yeeting() {
    // a block without bindings dissolves into its ending expression
    let left: ast::ExprKind = block(vec![], addition(integer(101), integer(1))).to_ast();

    let right = ast::ExprKind::addition(ast::ExprKind::integer(101), ast::ExprKind::integer(1));

    assert_eq!(left, right);
}

#[test]
fn single_function() {
    // fn main() { foo }
    let left = program(vec![function("main", block(vec![], ident("foo")))]);

    let right = program(vec![function("main", block(vec![], ident("foo")))]);

    assert_eq!(left, right);
}

#[test]
fn multiple_functions() {
    // fn a() { foo }  fn b() { bar }
    let left = program(vec![
        function("a", block(vec![], ident("foo"))),
        function("b", block(vec![], ident("bar"))),
    ]);

    let right = program(vec![
        function("a", block(vec![], ident("foo"))),
        function("b", block(vec![], ident("bar"))),
    ]);

    assert_eq!(left, right);
}

#[test]
fn integer_as_body() {
    // fn a() { 42 }
    let left = program(vec![function("a", block(vec![], integer(42)))]);

    let right = program(vec![function("a", block(vec![], integer(42)))]);

    assert_eq!(left, right);
}

#[test]
fn block_with_bindings_converts() {
    let left = block(vec![("a", integer(42))], ident("a")).to_ast();
    let right = ast::ExprKind::single_binding(
        "a".to_owned(),
        ast::ExprKind::integer(42),
        ast::ExprKind::ident("a".to_owned()),
    );
    assert_eq!(left, right);
}

#[test]
fn inline_program_converts() {
    let left = program(vec![function("main", block(vec![], integer(42)))]).to_ast();
    let right = ast::Program::just_main(ast::ExprKind::integer(42));
    assert_eq!(left, right);
}

#[test]
fn boolean_builder() {
    assert_eq!(boolean(true).to_ast(), ast::ExprKind::bool_(true));
    assert!(matches!(boolean(false), Expr::Bool(false)));
    assert_eq!(
        multiplication(integer(6), integer(7)).to_ast(),
        ast::ExprKind::multiplication(ast::ExprKind::integer(6), ast::ExprKind::integer(7))
    );
    assert_eq!(
        if_(boolean(true), integer(1), integer(2)).to_ast(),
        ast::ExprKind::if_(
            ast::ExprKind::bool_(true),
            ast::ExprKind::integer(1),
            ast::ExprKind::integer(2)
        )
    );
}
