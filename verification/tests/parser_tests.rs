//! Tests of the parser: grammar rules, precedence, associativity, keyword
//! boundaries and local recovery.

use dyl::ast::{Binding, ExprKind, Function, Program};
use dyl::context::ParsingContext;

fn parse_program(src: &str) -> Option<Program> {
    let s = dyl::parser::chars_of(src);
    let mut ctxt = ParsingContext::new();
    dyl::parser::program(&s, 0, &mut ctxt).map(|(p, _)| p)
}

fn parse_function(src: &str) -> Option<Function> {
    let s = dyl::parser::chars_of(src);
    let mut ctxt = ParsingContext::new();
    dyl::parser::function(&s, 0, &mut ctxt).map(|(f, _)| f)
}

fn parse_block(src: &str) -> Option<ExprKind> {
    let s = dyl::parser::chars_of(src);
    let mut ctxt = ParsingContext::new();
    dyl::parser::block(&s, 0, &mut ctxt).map(|(e, _)| e)
}

fn parse_expr(src: &str) -> Option<ExprKind> {
    let s = dyl::parser::chars_of(src);
    let mut ctxt = ParsingContext::new();
    dyl::parser::expr(&s, 0, &mut ctxt).map(|(e, _)| e)
}

fn parse_level_0(src: &str) -> Option<ExprKind> {
    let s = dyl::parser::chars_of(src);
    let mut ctxt = ParsingContext::new();
    dyl::parser::level_0_expression(&s, 0, &mut ctxt).map(|(e, _)| e)
}

fn parse_level_1(src: &str) -> Option<ExprKind> {
    let s = dyl::parser::chars_of(src);
    let mut ctxt = ParsingContext::new();
    dyl::parser::level_1_expression(&s, 0, &mut ctxt).map(|(e, _)| e)
}

fn parse_integer(src: &str) -> Option<ExprKind> {
    let s = dyl::parser::chars_of(src);
    dyl::parser::integer(&s, 0).map(|(e, _)| e)
}

fn parse_if_else(src: &str) -> Option<ExprKind> {
    let s = dyl::parser::chars_of(src);
    let mut ctxt = ParsingContext::new();
    dyl::parser::if_else(&s, 0, &mut ctxt).map(|(e, _)| e)
}

fn parse_binding(src: &str) -> Option<Binding> {
    let s = dyl::parser::chars_of(src);
    let mut ctxt = ParsingContext::new();
    dyl::parser::binding(&s, 0, &mut ctxt).map(|(b, _)| b)
}

fn parse_bindings(src: &str) -> Option<ExprKind> {
    let s = dyl::parser::chars_of(src);
    let mut ctxt = ParsingContext::new();
    dyl::parser::bindings(&s, 0, &mut ctxt).map(|(e, _)| e)
}

#[test]
fn single_main_func() {
    let left = parse_program("fn main() { 42 }").unwrap();
    let right = Program::just_main(ExprKind::integer(42));

    assert_eq!(left, right);
}

#[test]
fn handles_multiple_functions() {
    let left = parse_program("fn main() { 42 } fn main_() { 42 }").unwrap();
    let right = Program::new(vec![
        Function::main_(ExprKind::integer(42)),
        Function::new("main_".to_string(), ExprKind::integer(42)),
    ]);

    assert_eq!(left, right);
}

#[test]
fn parser_handles_bindings() {
    let left = parse_function("fn main() { let a = 40; let b = 2; a + b }").unwrap();
    let right = Function::main_(ExprKind::bindings(
        vec![
            Binding::new("a".to_owned(), ExprKind::integer(40)),
            Binding::new("b".to_owned(), ExprKind::integer(2)),
        ],
        ExprKind::addition(
            ExprKind::ident("a".to_owned()),
            ExprKind::ident("b".to_owned()),
        ),
    ));
    assert_eq!(left, right);

    let left = parse_block("{ let a = 42; a }").unwrap();
    let right = ExprKind::bindings(
        vec![Binding::new("a".to_owned(), ExprKind::integer(42))],
        ExprKind::ident("a".to_owned()),
    );
    assert_eq!(left, right);
}

#[test]
fn parser_handles_expression() {
    let left = parse_function("fn main() { 1 + 2 + 2 }").unwrap();
    let right = Function::main_(ExprKind::addition(
        ExprKind::addition(ExprKind::integer(1), ExprKind::integer(2)),
        ExprKind::integer(2),
    ));
    assert_eq!(left, right);

    let left = parse_block("{ 42 }").unwrap();
    let right = ExprKind::integer(42);
    assert_eq!(left, right);
}

#[test]
fn if_addition_parses() {
    let left = parse_expr("if 1 { 1 } else { 1 } + 1").unwrap();
    let right = ExprKind::addition(
        ExprKind::if_(
            ExprKind::integer(1),
            ExprKind::integer(1),
            ExprKind::integer(1),
        ),
        ExprKind::integer(1),
    );

    assert_eq!(left, right);
}

#[test]
fn integer_simple() {
    let left = parse_integer("42").unwrap();
    let right = ExprKind::integer(42);

    assert_eq!(left, right);
}

#[test]
fn integer_with_tail() {
    let s = dyl::parser::chars_of("101 !");
    let (parsed, p) = dyl::parser::integer(&s, 0).unwrap();

    assert_eq!(parsed, ExprKind::integer(101));
    // the remaining input is exactly "!"
    assert_eq!(p, s.len() - 1);
    assert_eq!(s[p], '!');
}

#[test]
fn integer_failing_when_not_digit() {
    assert!(parse_integer("abc").is_none());
    assert!(parse_integer("").is_none());
}

#[test]
fn integer_eats_whitespaces_before_and_after() {
    let left = parse_integer(" 42 ").unwrap();
    let right = ExprKind::integer(42);

    assert_eq!(left, right);
}

#[test]
fn negative() {
    let left = parse_integer("-101").unwrap();
    let right = ExprKind::integer(-101);

    assert_eq!(left, right);
}

#[test]
fn integer_bounds() {
    assert_eq!(
        parse_integer("2147483647").unwrap(),
        ExprKind::integer(i32::MAX)
    );
    assert_eq!(
        parse_integer("-2147483648").unwrap(),
        ExprKind::integer(i32::MIN)
    );
    assert!(parse_integer("2147483648").is_none());
    assert!(parse_integer("-2147483649").is_none());
    assert!(parse_integer("99999999999999999999").is_none());
}

#[test]
fn single_factor_fails() {
    assert!(parse_level_0("42").is_none());
}

#[test]
fn addition_simple() {
    let left = parse_level_0("1+1").unwrap();
    let right = ExprKind::addition(ExprKind::integer(1), ExprKind::integer(1));

    assert_eq!(left, right);
}

#[test]
fn addition_right_associative() {
    let left = parse_level_0("1+1+1").unwrap();
    let right = ExprKind::addition(
        ExprKind::addition(ExprKind::integer(1), ExprKind::integer(1)),
        ExprKind::integer(1),
    );

    assert_eq!(left, right);
}

#[test]
fn parser_subtraction_simple() {
    let left = parse_level_0("43-1").unwrap();
    let right = ExprKind::subtraction(ExprKind::integer(43), ExprKind::integer(1));

    assert_eq!(left, right);
}

#[test]
fn subtraction_right_associative() {
    let left = parse_level_0("44-1-1").unwrap();
    let right = ExprKind::subtraction(
        ExprKind::subtraction(ExprKind::integer(44), ExprKind::integer(1)),
        ExprKind::integer(1),
    );

    assert_eq!(left, right);
}

#[test]
fn addition_subtraction_mixed() {
    let left = parse_level_0("42-1+1").unwrap();
    let right = ExprKind::addition(
        ExprKind::subtraction(ExprKind::integer(42), ExprKind::integer(1)),
        ExprKind::integer(1),
    );

    assert_eq!(left, right);
}

#[test]
fn parse_simple() {
    let left = parse_level_1("7*6").unwrap();
    let right = ExprKind::multiplication(ExprKind::integer(7), ExprKind::integer(6));

    assert_eq!(left, right);
}

#[test]
fn when_spaced() {
    let left = parse_level_1("21 * 2").unwrap();
    let right = ExprKind::multiplication(ExprKind::integer(21), ExprKind::integer(2));

    assert_eq!(left, right);
}

#[test]
fn priority_simple() {
    let left = parse_level_0("10 * 4 + 2").unwrap();
    let right = ExprKind::addition(
        ExprKind::multiplication(ExprKind::integer(10), ExprKind::integer(4)),
        ExprKind::integer(2),
    );

    assert_eq!(left, right);
}

#[test]
fn if_else_simple() {
    let left = parse_if_else("if0{1}else{42}").unwrap();
    let right = ExprKind::if_(
        ExprKind::integer(0),
        ExprKind::integer(1),
        ExprKind::integer(42),
    );

    assert_eq!(left, right);
}

#[test]
fn if_else_spaced_braces() {
    let left = parse_if_else("if 0 { 1 } else { 42 }").unwrap();
    let right = ExprKind::if_(
        ExprKind::integer(0),
        ExprKind::integer(1),
        ExprKind::integer(42),
    );

    assert_eq!(left, right);
}

#[test]
fn addition_as_condition() {
    let left = parse_if_else("if 1 + 1 { 1 } else { 1 }").unwrap();
    let right = ExprKind::if_(
        ExprKind::addition(ExprKind::integer(1), ExprKind::integer(1)),
        ExprKind::integer(1),
        ExprKind::integer(1),
    );

    assert_eq!(left, right);
}

fn inner_bindings() -> ExprKind {
    ExprKind::bindings(
        vec![Binding::new("a".to_owned(), ExprKind::integer(0))],
        ExprKind::ident("a".to_owned()),
    )
}

#[test]
fn bindings_as_consequent_and_alternative() {
    let left = parse_if_else("if 1 { let a = 0; a } else { let a = 0; a }").unwrap();
    let right = ExprKind::if_(ExprKind::integer(1), inner_bindings(), inner_bindings());

    assert_eq!(left, right);
}

#[test]
fn parses() {
    let s = dyl::parser::chars_of("if");
    assert!(dyl::parser::keyword(&s, 0, "if").is_some());
}

#[test]
fn fails_when_followed_by_letter() {
    let s = dyl::parser::chars_of("iff");
    assert!(dyl::parser::keyword(&s, 0, "if").is_none());
}

#[test]
fn works_when_followed_by_non_letter() {
    let s = dyl::parser::chars_of("if42");
    assert!(dyl::parser::keyword(&s, 0, "if").is_some());
}

#[test]
fn kw_followed_by_space_and_letter() {
    let s = dyl::parser::chars_of("let a");
    assert!(dyl::parser::keyword(&s, 0, "let").is_some());
}

#[test]
fn simple() {
    let left = parse_binding("let a = 42;").unwrap();
    let right = Binding::new("a".to_owned(), ExprKind::integer(42));

    assert_eq!(left, right);
}

#[test]
fn with_if_else() {
    let left = parse_binding("let foo = if 5 { 42 } else { 101 };").unwrap();
    let right = Binding::new(
        "foo".to_owned(),
        ExprKind::if_(
            ExprKind::integer(5),
            ExprKind::integer(42),
            ExprKind::integer(101),
        ),
    );

    assert_eq!(left, right);
}

#[test]
fn recovers_on_missing_equal() {
    assert!(parse_binding("let x 42;").is_some());
}

#[test]
fn recovers_on_missing_semicolon() {
    assert!(parse_binding("let x = 42").is_some());
}

#[test]
fn recovery_records_position() {
    let s = dyl::parser::chars_of("let x 42;");
    let mut ctxt = ParsingContext::new();
    assert!(dyl::parser::binding(&s, 0, &mut ctxt).is_some());
    assert_eq!(ctxt.errors().render(), "1:7: Expected `=`\n");
}

#[test]
fn bindings_simple() {
    let left = parse_bindings("let a = 42; a").unwrap();
    let right = ExprKind::single_binding(
        "a".to_owned(),
        ExprKind::integer(42),
        ExprKind::ident("a".to_owned()),
    );

    assert_eq!(left, right);
}

#[test]
fn bool_true() {
    let left = parse_expr("true ").unwrap();
    let right = ExprKind::bool_(true);

    assert_eq!(left, right);
}

#[test]
fn bool_false() {
    let left = parse_expr("false ").unwrap();
    let right = ExprKind::bool_(false);

    assert_eq!(left, right);
}

#[test]
fn parse_input_rejects_leftover_text() {
    assert!(dyl::parser::parse_input("fn main() { 42 } garbage").is_err());
}

#[test]
fn parse_input_reports_recovered_errors() {
    let r = dyl::parser::parse_input("fn main() { let a 42; a }");
    assert_eq!(r.unwrap_err(), dyl::context::CompilerPassError(1));
}

#[test]
fn keyword_prefix_parses_as_identifier() {
    // `letx` is an identifier, not the keyword `let` followed by `x`
    let left = parse_expr("letx").unwrap();
    assert_eq!(left, ExprKind::ident("letx".to_owned()));
}
