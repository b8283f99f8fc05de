//! Tests of the type checker: the rules each node follows, the absorbing
//! error type, and program-level checking.

use dyl::ast::{Binding, Bindings, ExprKind, Program};
use dyl::context::TypingContext;
use dyl::ty::Ty;

fn sample_addition() -> ExprKind {
    ExprKind::addition(ExprKind::integer(41), ExprKind::integer(1))
}

fn sample_multiplication() -> ExprKind {
    ExprKind::multiplication(ExprKind::integer(41), ExprKind::integer(1))
}

fn sample_subtraction() -> ExprKind {
    ExprKind::subtraction(ExprKind::integer(41), ExprKind::integer(1))
}

#[test]
fn type_checker_returns_integer() {
    let mut ctxt = TypingContext::new();
    assert_eq!(sample_addition().get_output(&mut ctxt), Ok(Ty::Int));
    assert_eq!(sample_multiplication().get_output(&mut ctxt), Ok(Ty::Int));
    assert_eq!(sample_subtraction().get_output(&mut ctxt), Ok(Ty::Int));
}

#[test]
fn type_checker_expects_integers_ok() {
    let mut ctxt = TypingContext::new();
    assert!(sample_addition().check_inputs(&mut ctxt).is_ok());
    assert!(sample_multiplication().check_inputs(&mut ctxt).is_ok());
    assert!(sample_subtraction().check_inputs(&mut ctxt).is_ok());
}

#[test]
fn type_checker_expects_integers_err() {
    let mut ctxt = TypingContext::new();
    let bool_plus_int = ExprKind::addition(ExprKind::bool_(true), ExprKind::integer(42));
    assert!(bool_plus_int.check_inputs(&mut ctxt).is_err());

    let mut ctxt = TypingContext::new();
    let bool_times_int = ExprKind::multiplication(ExprKind::bool_(true), ExprKind::integer(42));
    assert!(bool_times_int.check_inputs(&mut ctxt).is_err());

    let mut ctxt = TypingContext::new();
    let bool_minus_int = ExprKind::subtraction(ExprKind::bool_(true), ExprKind::integer(42));
    assert!(bool_minus_int.check_inputs(&mut ctxt).is_err());
}

#[test]
fn double_addition_with_labels() {
    let expr = ExprKind::addition(
        ExprKind::addition(
            ExprKind::ident("a".to_owned()),
            ExprKind::ident("b".to_owned()),
        ),
        ExprKind::integer(1),
    );

    let mut ctxt = TypingContext::new();
    ctxt.add_binding("a".to_owned(), Ty::Int);
    ctxt.add_binding("b".to_owned(), Ty::Int);

    assert!(expr.check_inputs(&mut ctxt).is_ok());
    assert_eq!(expr.get_output(&mut ctxt), Ok(Ty::Int));
}

#[test]
fn inputs_always_successful() {
    let mut ctxt = TypingContext::new();
    assert!(ExprKind::integer(42).check_inputs(&mut ctxt).is_ok());
}

#[test]
fn output_always_integer() {
    let mut ctxt = TypingContext::new();
    assert_eq!(ExprKind::integer(42).get_output(&mut ctxt), Ok(Ty::Int));
}

fn sample_bindings() -> ExprKind {
    ExprKind::Bindings(Bindings::from_vec(
        vec![
            Binding::new("a".to_owned(), ExprKind::integer(40)),
            Binding::new("b".to_owned(), ExprKind::integer(1)),
        ],
        ExprKind::addition(
            ExprKind::addition(
                ExprKind::ident("a".to_owned()),
                ExprKind::ident("b".to_owned()),
            ),
            ExprKind::integer(1),
        ),
    ))
}

#[test]
fn check_input_ok() {
    let mut ctxt = TypingContext::new();

    assert!(sample_bindings().check_inputs(&mut ctxt).is_ok());
}

#[test]
fn check_inputs_type_error() {
    let bindings_with_type_errors = ExprKind::single_binding(
        "foo".to_owned(),
        ExprKind::addition(ExprKind::bool_(true), ExprKind::integer(42)),
        ExprKind::ident("foo".to_owned()),
    );
    let mut ctxt = TypingContext::new();

    assert!(bindings_with_type_errors.check_inputs(&mut ctxt).is_err());
}

#[test]
fn get_output_unknown_ident() {
    let bindings_with_unknown_ident = ExprKind::Bindings(Bindings::from_vec(
        vec![Binding::new("foo".to_owned(), ExprKind::integer(42))],
        ExprKind::ident("bar".to_owned()),
    ));
    let mut ctxt = TypingContext::new();

    assert!(bindings_with_unknown_ident.get_output(&mut ctxt).is_err());
}

#[test]
fn check_input_success() {
    let mut ctxt = TypingContext::new();
    ctxt.add_binding("foo".to_owned(), Ty::Int);

    assert!(ExprKind::ident("foo".to_owned()).check_inputs(&mut ctxt).is_ok());
}

#[test]
fn check_input_err_not_defined() {
    let mut ctxt = TypingContext::new();
    ctxt.add_binding("bar".to_owned(), Ty::Bool);

    assert!(ExprKind::ident("foo".to_owned()).check_inputs(&mut ctxt).is_err());
}

#[test]
fn get_output_success() {
    let mut ctxt = TypingContext::new();
    ctxt.add_binding("foo".to_owned(), Ty::Bool);

    assert_eq!(
        ExprKind::ident("foo".to_owned()).get_output(&mut ctxt),
        Ok(Ty::Bool)
    );
}

#[test]
fn get_output_not_found() {
    let mut ctxt = TypingContext::new();
    assert!(ExprKind::ident("foo".to_owned()).get_output(&mut ctxt).is_err())
}

fn sample_if() -> ExprKind {
    ExprKind::if_(
        ExprKind::bool_(true),
        ExprKind::integer(101),
        ExprKind::integer(42),
    )
}

#[test]
fn check_inputs_working() {
    let mut ctxt = TypingContext::new();

    assert!(sample_if().check_inputs(&mut ctxt).is_ok());
}

#[test]
fn get_output_ok() {
    let mut ctxt = TypingContext::new();

    assert_eq!(sample_if().get_output(&mut ctxt), Ok(Ty::Int));
}

#[test]
fn get_output_consequent_and_alternative_different() {
    let if_different = ExprKind::if_(
        ExprKind::bool_(false),
        ExprKind::integer(101),
        ExprKind::bool_(false),
    );
    let mut ctxt = TypingContext::new();

    assert!(if_different.get_output(&mut ctxt).is_err());
}

#[test]
fn input_always_checks() {
    let mut ctxt = TypingContext::new();

    assert!(ExprKind::bool_(true).check_inputs(&mut ctxt).is_ok());
}

#[test]
fn always_outputs_bool() {
    let mut ctxt = TypingContext::new();

    assert_eq!(ExprKind::bool_(true).get_output(&mut ctxt), Ok(Ty::Bool))
}

#[test]
fn unify_absorbs_error_type() {
    assert_eq!(Ty::Error.unify_with(Ty::Int), Ok(Ty::Int));
    assert_eq!(Ty::Bool.unify_with(Ty::Error), Ok(Ty::Bool));
    assert_eq!(Ty::Int.unify_with(Ty::Int), Ok(Ty::Int));
    assert!(Ty::Int.unify_with(Ty::Bool).is_err());
    assert!(Ty::Error.expect_int().is_ok());
    assert!(Ty::Error.expect_bool().is_ok());
    assert!(Ty::Bool.expect_int().is_err());
}

#[test]
fn program_needs_main_of_type_int() {
    let int_main = Program::just_main(ExprKind::integer(42));
    assert!(dyl::type_checker::check_ast(&int_main, TypingContext::new()).is_ok());

    let bool_main = Program::just_main(ExprKind::bool_(true));
    assert!(dyl::type_checker::check_ast(&bool_main, TypingContext::new()).is_err());

    let no_main = Program::new(vec![]);
    assert!(dyl::type_checker::check_ast(&no_main, TypingContext::new()).is_err());
}

#[test]
fn batch_diagnostics_are_all_recorded() {
    // both operands fail the `int` expectation: two diagnostics, not one
    let mut ctxt = TypingContext::new();
    let two_bad = ExprKind::addition(ExprKind::bool_(true), ExprKind::bool_(false));
    assert!(two_bad.check_inputs(&mut ctxt).is_err());
    assert_eq!(ctxt.errs.len(), 2);

    // three unbound variables across a conditional: three diagnostics
    let mut ctxt = TypingContext::new();
    let three_unbound = ExprKind::if_(
        ExprKind::ident("a".to_owned()),
        ExprKind::ident("b".to_owned()),
        ExprKind::ident("c".to_owned()),
    );
    assert!(three_unbound.check_inputs(&mut ctxt).is_err());
    assert_eq!(ctxt.errs.len(), 3);
}
