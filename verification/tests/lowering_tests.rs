//! Tests of lowering: the instructions each syntax form emits, its effect
//! on the compile-time stack, and the labels it defines.

use dyl::ast::{Binding, ExprKind, Function, Program};
use dyl::context::LoweringContext;
use dyl::codec::Instruction as Resolved;
use dyl::lowering::UnresolvedInstruction as Instruction;

fn lower_expr(expr: &ExprKind) -> (Vec<Instruction>, LoweringContext) {
    let mut collector = Vec::new();
    let mut ctxt = LoweringContext::new();
    if expr.lower(&mut collector, &mut ctxt).is_err() {
        println!("{}", ctxt.errors().render());
        panic!("expression did not lower");
    }
    (collector, ctxt)
}

fn lower_function(f: &Function) -> (Vec<Instruction>, LoweringContext) {
    let mut collector = Vec::new();
    let mut ctxt = LoweringContext::new();
    if f.lower(&mut collector, &mut ctxt).is_err() {
        println!("{}", ctxt.errors().render());
        panic!("function did not lower");
    }
    (collector, ctxt)
}

fn lower_program(p: &Program) -> (Vec<Instruction>, LoweringContext) {
    let mut collector = Vec::new();
    let mut ctxt = LoweringContext::new();
    if p.lower(&mut collector, &mut ctxt).is_err() {
        println!("{}", ctxt.errors().render());
        panic!("program did not lower");
    }
    (collector, ctxt)
}

fn lower_binding(b: &Binding) -> (Vec<Instruction>, LoweringContext) {
    let mut collector = Vec::new();
    let mut ctxt = LoweringContext::new();
    if b.lower(&mut collector, &mut ctxt).is_err() {
        panic!("binding did not lower");
    }
    (collector, ctxt)
}

#[test]
fn lowering_can_fail() {
    let ast = ExprKind::ident("undefined".to_owned());
    let mut collector = Vec::new();
    let mut ctxt = LoweringContext::new();

    assert!(ast.lower(&mut collector, &mut ctxt).is_err());
}

#[test]
fn simplest_test() {
    let program = Program::just_main(ExprKind::integer(42));
    let (instrs, _) = lower_program(&program);

    assert_eq!(instrs, [Instruction::push_i(42), Instruction::f_stop()]);
}

#[test]
fn main_is_lowered_first() {
    let program = Program::new(vec![
        Function::new("___".to_owned(), ExprKind::integer(41)),
        Function::new("main".to_owned(), ExprKind::integer(42)),
    ]);

    let (instrs, _) = lower_program(&program);

    assert!(instrs.starts_with(&[Instruction::push_i(42), Instruction::f_stop()]));
}

#[test]
fn main_instrs_are_removed() {
    let program = Program::just_main(ExprKind::integer(42));
    let (instrs, _) = lower_program(&program);

    assert!(!instrs.ends_with(&[Instruction::ret()]));
}

#[test]
fn body_is_lowered() {
    let f = Function::new("f".to_owned(), ExprKind::integer(42));
    let (instrs, _) = lower_function(&f);

    assert_eq!(
        instrs,
        [
            Instruction::push_i(42),
            Instruction::pop_copy(1),
            Instruction::ret()
        ]
    );
}

#[test]
fn label_is_added() {
    let f = Function::new("foo".to_owned(), ExprKind::integer(42));
    let (_, ctxt) = lower_function(&f);

    assert!(ctxt.labels().resolve_named("foo").is_ok());
}

#[test]
fn lower_42() {
    let expr = ExprKind::integer(42);
    let (left, _) = lower_expr(&expr);

    assert_eq!(left, [Instruction::push_i(42)]);
}

#[test]
fn lowering_generated_instructions() {
    // addition
    let (left, _) = lower_expr(&ExprKind::addition(
        ExprKind::integer(40),
        ExprKind::integer(2),
    ));
    assert_eq!(
        left,
        [
            Instruction::push_i(40),
            Instruction::push_i(2),
            Instruction::add_i(),
        ]
    );

    // multiplication
    let (left, _) = lower_expr(&ExprKind::multiplication(
        ExprKind::integer(7),
        ExprKind::integer(6),
    ));
    assert_eq!(
        left,
        [
            Instruction::push_i(7),
            Instruction::push_i(6),
            Instruction::mul(),
        ]
    );

    // subtraction
    let (left, _) = lower_expr(&ExprKind::subtraction(
        ExprKind::integer(43),
        ExprKind::integer(1),
    ));
    assert_eq!(
        left,
        [
            Instruction::push_i(43),
            Instruction::push_i(1),
            Instruction::neg(),
            Instruction::add_i(),
        ],
    );

    // conditional
    let (left, _) = lower_expr(&ExprKind::if_(
        ExprKind::integer(1),
        ExprKind::integer(42),
        ExprKind::integer(-1),
    ));
    assert_eq!(
        left,
        [
            Instruction::push_i(1),
            Instruction::cond_jmp(0, 1, 0),
            Instruction::push_i(42),
            Instruction::goto(2),
            Instruction::push_i(-1),
        ],
    );

    // bindings
    let (bytecode, _) = lower_expr(&ExprKind::single_binding(
        "foo".to_owned(),
        ExprKind::integer(101),
        ExprKind::integer(42),
    ));
    assert_eq!(
        bytecode,
        [
            Instruction::push_i(101),
            Instruction::push_i(42),
            Instruction::pop_copy(1),
            Instruction::pop(0),
        ]
    );

    // boolean literal
    let (bytecode, _) = lower_expr(&ExprKind::bool_(true));
    assert_eq!(bytecode, [Instruction::push_i(1)]);
}

#[test]
fn lowering_stack_effects() {
    // each expression form nets exactly one anonymous entry
    let exprs = vec![
        ExprKind::addition(ExprKind::integer(40), ExprKind::integer(2)),
        ExprKind::multiplication(ExprKind::integer(7), ExprKind::integer(6)),
        ExprKind::subtraction(ExprKind::integer(43), ExprKind::integer(1)),
        ExprKind::if_(
            ExprKind::integer(1),
            ExprKind::integer(42),
            ExprKind::integer(-1),
        ),
        ExprKind::single_binding(
            "foo".to_owned(),
            ExprKind::integer(101),
            ExprKind::integer(42),
        ),
        ExprKind::bool_(true),
    ];
    for expr in exprs.iter() {
        let (_, ctxt) = lower_expr(expr);
        assert_eq!(ctxt.stack().depth(), 1);
        assert!(ctxt.stack().top().unwrap().is_empty());
    }

    // a lone binding leaves one named entry instead
    let (bytecode, ctxt) = lower_binding(&Binding::new("foo".to_owned(), ExprKind::integer(101)));
    assert_eq!(bytecode, [Instruction::push_i(101)]);
    assert_eq!(ctxt.stack().depth(), 1);
    assert_eq!(ctxt.stack().top().unwrap(), "foo");
}

#[test]
fn label_effects() {
    let (_, ctxt) = lower_expr(&ExprKind::if_(
        ExprKind::integer(1),
        ExprKind::integer(42),
        ExprKind::integer(-1),
    ));

    assert_eq!(ctxt.labels().resolve_anonymous(0).unwrap(), 2);
    assert_eq!(ctxt.labels().resolve_anonymous(1).unwrap(), 4);
    assert_eq!(ctxt.labels().resolve_anonymous(2).unwrap(), 5);
}

#[test]
fn recovers_from_error() {
    let expr = ExprKind::bindings(
        vec![
            Binding::new("a".to_owned(), ExprKind::ident("b".to_owned())),
            Binding::new("c".to_owned(), ExprKind::ident("d".to_owned())),
        ],
        ExprKind::ident("e".to_owned()),
    );
    let mut ctxt = LoweringContext::new();
    let mut instructions = Vec::new();

    let rslt = expr.lower(&mut instructions, &mut ctxt);

    assert!(rslt.is_err());
    assert_eq!(
        ctxt.errors().render(),
        "Undefined variable `b`\nUndefined variable `d`\nUndefined variable `e`\n"
    )
}

#[test]
fn fails_when_not_found() {
    let exp = ExprKind::ident("foo".to_owned());
    let mut ctxt = LoweringContext::new();
    let mut instructions = Vec::new();

    let rslt = exp.lower(&mut instructions, &mut ctxt);

    assert!(rslt.is_err());
    assert_eq!(ctxt.stack().depth(), 1);
}

#[test]
fn emits_when_not_found() {
    let expr = ExprKind::ident("undefined".to_owned());
    let mut ctxt = LoweringContext::new();
    let mut instructions = Vec::new();

    let rslt = expr.lower(&mut instructions, &mut ctxt);

    assert!(rslt.is_err());
    assert_eq!(ctxt.errors().render(), "Undefined variable `undefined`\n");
}

#[test]
fn ident_lowering_uses_depth() {
    let mut ctxt = LoweringContext::new();
    ctxt.stack_mut().push_named("foo".to_owned());
    ctxt.stack_mut().push_named("bar".to_owned());

    let mut instructions = Vec::new();
    ExprKind::ident("foo".to_owned())
        .lower(&mut instructions, &mut ctxt)
        .unwrap();

    assert_eq!(instructions, [Instruction::push_copy(1)]);
    assert_eq!(ctxt.stack().depth(), 3);
    assert!(ctxt.stack().top().unwrap().is_empty());
}

#[test]
fn resolution_substitutes_labels() {
    let (instrs, ctxt) = lower_expr(&ExprKind::if_(
        ExprKind::integer(1),
        ExprKind::integer(42),
        ExprKind::integer(-1),
    ));
    let resolved = dyl::lowering::resolve_context(&instrs, &ctxt).unwrap();
    assert_eq!(
        resolved,
        vec![
            Resolved::push_i(1),
            Resolved::cond_jmp(2, 4, 2),
            Resolved::push_i(42),
            Resolved::goto(5),
            Resolved::push_i(-1),
        ]
    );
}
