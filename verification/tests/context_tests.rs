//! Tests of the compilation contexts: the label table, the compile-time
//! stack model and the error channel.

use dyl::context::{
    AnonymousNamingError, AnonymousPoppingError, CompilerPassError, ErrorContext,
    LabelContext, LabelDefinitionError, LabelResolutionError, StackContext,
};

#[test]
fn grow_continuously() {
    let mut ctxt = LabelContext::new();
    let a = ctxt.new_anonymous();
    let b = ctxt.new_anonymous();
    let c = ctxt.new_anonymous();

    assert_eq!(a, 0);
    assert_eq!(b, 1);
    assert_eq!(c, 2);
}

#[test]
fn set_label_position_when_undefined() {
    let mut ctxt = LabelContext::new();
    let a = ctxt.new_anonymous();
    assert!(ctxt.set_position(a, 101).is_ok());
}

#[test]
fn set_label_position_when_already_defined() {
    let mut ctxt = LabelContext::new();
    let a = ctxt.new_anonymous();
    ctxt.set_position(a, 101).unwrap();

    assert_eq!(
        ctxt.set_position(a, 13),
        Err(LabelDefinitionError::AlreadyDefined(101))
    );
}

#[test]
fn resolve_anonymous_defined() {
    let mut ctxt = LabelContext::new();
    let a = ctxt.new_anonymous();
    ctxt.set_position(a, 42).unwrap();

    assert_eq!(ctxt.resolve(a), Ok(42));
}

#[test]
fn resolve_anonymous_undefined() {
    let mut ctxt = LabelContext::new();
    let a = ctxt.new_anonymous();

    assert_eq!(
        ctxt.resolve(a),
        Err(LabelResolutionError::UnknownLabelPosition)
    );
}

#[test]
fn resolve_unknown_label() {
    let ctxt = LabelContext::new();
    assert_eq!(ctxt.resolve(3), Err(LabelResolutionError::UnknownLabel));
}

#[test]
fn define_and_resolve_on_top() {
    let mut ctxt = StackContext::new();
    ctxt.push_variable("foo".to_owned());

    assert_eq!(ctxt.resolve("foo"), Some(0));
}

#[test]
fn define_and_resolve_not_top() {
    let mut ctxt = StackContext::new();
    ctxt.push_variable("foo".to_owned());
    ctxt.push_variable("bar".to_owned());

    assert_eq!(ctxt.resolve("foo"), Some(1));
}

#[test]
fn shadowing_simple() {
    let mut ctxt = StackContext::new();
    ctxt.push_variable("foo".to_owned());
    ctxt.push_variable("foo".to_owned());

    assert_eq!(ctxt.resolve("foo"), Some(0));
}

#[test]
fn cross_sub_context_shadowing() {
    let mut ctxt = StackContext::new();
    ctxt.push_variable("foo".to_owned());
    ctxt.push_variable("bar".to_owned());

    let outer = ctxt.new_subcontext();

    ctxt.push_variable("foo".to_owned());
    assert_eq!(ctxt.resolve("foo"), Some(0));

    ctxt.drop_subcontext(outer);
    assert_eq!(ctxt.resolve("foo"), Some(1));
}

#[test]
fn push_anonymous_increases_depth() {
    let mut ctxt = StackContext::new();
    ctxt.push_variable("foo".to_owned());
    ctxt.push_anonymous();

    assert_eq!(ctxt.resolve("foo"), Some(1));
}

#[test]
fn drop_top_anonymous_decreases_depth() {
    let mut ctxt = StackContext::new();
    ctxt.push_variable("foo".to_owned());
    ctxt.push_anonymous();

    ctxt.pop_top_anonymous().unwrap();

    assert_eq!(ctxt.resolve("foo"), Some(0));
}

#[test]
fn drop_top_anonymous_fails_when_not_anonymous() {
    let mut ctxt = StackContext::new();
    ctxt.push_variable("foo".to_owned());

    assert_eq!(
        ctxt.pop_top_anonymous(),
        Err(AnonymousPoppingError::NotAnonymous)
    );
}

#[test]
fn pop_top_anonymous_fails_when_empty() {
    let mut ctxt = StackContext::new();

    assert_eq!(
        ctxt.pop_top_anonymous(),
        Err(AnonymousPoppingError::EmptyStack)
    );
}

#[test]
fn name_top_anonymous_working() {
    let mut ctxt = StackContext::new();
    ctxt.push_anonymous();
    ctxt.name_top_anonymous("foo".to_owned()).unwrap();

    assert_eq!(ctxt.resolve("foo"), Some(0));
}

#[test]
fn name_top_anonymous_empty_stack() {
    let mut ctxt = StackContext::new();
    assert_eq!(
        ctxt.name_top_anonymous("foo".to_owned()),
        Err(AnonymousNamingError::NoTopVariable)
    );
}

#[test]
fn name_top_anonymous_already_named() {
    let mut ctxt = StackContext::new();
    ctxt.push_variable("foo".to_owned());

    assert_eq!(
        ctxt.name_top_anonymous("bar".to_owned()),
        Err(AnonymousNamingError::NotAnonymous)
    );
}

#[test]
fn creation_addition_display() {
    let mut errs = ErrorContext::new();
    errs.add("Hello");
    errs.add("World");

    let left = errs.render();
    let right = "Hello\nWorld\n";

    assert_eq!(left, right);
}

#[test]
fn singular() {
    assert_eq!(
        CompilerPassError(1).message(),
        "Compilation failed with 1 error"
    );
}

#[test]
fn plural() {
    assert_eq!(
        CompilerPassError(2).message(),
        "Compilation failed with 2 errors"
    );
}
