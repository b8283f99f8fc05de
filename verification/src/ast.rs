//! The abstract syntax tree of the source language.

use vstd::prelude::*;

verus! {

/// A whole source file: an ordered list of functions.
#[derive(Debug, PartialEq)]
pub struct Program {
    pub functions: Vec<Function>,
}

impl Program {
    pub fn new(functions: Vec<Function>) -> (r: Program)
        ensures
            r.functions == functions,
    {
        Program { functions }
    }

    /// The functions of the program, in source order.
    pub fn functions(&self) -> (r: &[Function])
        ensures
            r@ == self.functions@,
    {
        self.functions.as_slice()
    }

    /// A program holding a single function named `main` with the given body.
    pub fn just_main(body: ExprKind) -> (r: Program)
        ensures
            r.functions@.len() == 1,
            r.functions@[0].name@ == "main"@,
            r.functions@[0].body == body,
    {
        let f = Function { name: main_name(), body };
        let functions = vec![f];
        Program { functions }
    }
}

/// The name every program must define exactly once: execution starts there.
pub fn main_name() -> (r: String)
    ensures
        r@ == "main"@,
{
    proof {
        reveal_strlit("main");
    }
    "main".to_owned()
}

/// A nullary function: a name and a body expression.
#[derive(Debug, PartialEq)]
pub struct Function {
    pub name: String,
    pub body: ExprKind,
}

impl Function {
    pub fn new(name: String, body: ExprKind) -> (r: Function)
        ensures
            r.name == name,
            r.body == body,
    {
        Function { name, body }
    }

    pub fn name(&self) -> (r: &str)
        ensures
            r@ == self.name@,
    {
        self.name.as_str()
    }

    pub fn body(&self) -> (r: &ExprKind)
        ensures
            *r == self.body,
    {
        &self.body
    }

    /// A function named `main` with the given body.
    pub fn main_(body: ExprKind) -> (r: Function)
        ensures
            r.name@ == "main"@,
            r.body == body,
    {
        Function { name: main_name(), body }
    }
}

/// One expression of the source language.
#[derive(Debug, PartialEq)]
pub enum ExprKind {
    Addition(Addition),
    Subtraction(Subtraction),
    Multiplication(Multiplication),
    Integer(Integer),
    If(If),
    Bindings(Bindings),
    Ident(Ident),
    Bool(Bool),
}

impl ExprKind {
    pub fn addition(lhs: ExprKind, rhs: ExprKind) -> (r: ExprKind)
        ensures
            r matches ExprKind::Addition(a) && *a.lhs == lhs && *a.rhs == rhs,
    {
        ExprKind::Addition(Addition::new(lhs, rhs))
    }

    pub fn subtraction(lhs: ExprKind, rhs: ExprKind) -> (r: ExprKind)
        ensures
            r matches ExprKind::Subtraction(s) && *s.lhs == lhs && *s.rhs == rhs,
    {
        ExprKind::Subtraction(Subtraction::new(lhs, rhs))
    }

    pub fn multiplication(lhs: ExprKind, rhs: ExprKind) -> (r: ExprKind)
        ensures
            r matches ExprKind::Multiplication(m) && *m.lhs == lhs && *m.rhs == rhs,
    {
        ExprKind::Multiplication(Multiplication::new(lhs, rhs))
    }

    pub fn integer(value: i32) -> (r: ExprKind)
        ensures
            r == ExprKind::Integer(Integer(value)),
    {
        ExprKind::Integer(Integer::new(value))
    }

    pub fn if_(condition: ExprKind, consequent: ExprKind, alternative: ExprKind) -> (r: ExprKind)
        ensures
            r matches ExprKind::If(i) && *i.condition == condition && *i.consequent == consequent
                && *i.alternative == alternative,
    {
        ExprKind::If(If::new(condition, consequent, alternative))
    }

    pub fn bindings(bs: Vec<Binding>, next: ExprKind) -> (r: ExprKind)
        ensures
            r matches ExprKind::Bindings(b) && b.defines == bs && *b.ending == next,
    {
        ExprKind::Bindings(Bindings::from_vec(bs, next))
    }

    pub fn ident(name: String) -> (r: ExprKind)
        ensures
            r == ExprKind::Ident(Ident(name)),
    {
        ExprKind::Ident(Ident::new(name))
    }

    pub fn bool_(value: bool) -> (r: ExprKind)
        ensures
            r == ExprKind::Bool(Bool(value)),
    {
        ExprKind::Bool(Bool::new(value))
    }

    /// A binding list holding a single `let`.
    pub fn single_binding(name: String, value: ExprKind, inner_expression: ExprKind) -> (r:
        ExprKind)
        ensures
            r matches ExprKind::Bindings(b) && b.defines@.len() == 1 && b.defines@[0].name == name
                && b.defines@[0].value == value && *b.ending == inner_expression,
    {
        ExprKind::Bindings(Bindings::single(name, value, inner_expression))
    }
}

/// An addition: left operand plus right operand.
#[derive(Debug, PartialEq)]
pub struct Addition {
    pub lhs: Box<ExprKind>,
    pub rhs: Box<ExprKind>,
}

impl Addition {
    pub fn new(lhs: ExprKind, rhs: ExprKind) -> (r: Addition)
        ensures
            *r.lhs == lhs && *r.rhs == rhs,
    {
        Addition { lhs: Box::new(lhs), rhs: Box::new(rhs) }
    }

    pub fn left(&self) -> (r: &ExprKind)
        ensures
            *r == *self.lhs,
    {
        &self.lhs
    }

    pub fn right(&self) -> (r: &ExprKind)
        ensures
            *r == *self.rhs,
    {
        &self.rhs
    }
}

/// A subtraction: left operand minus right operand.
#[derive(Debug, PartialEq)]
pub struct Subtraction {
    pub lhs: Box<ExprKind>,
    pub rhs: Box<ExprKind>,
}

impl Subtraction {
    pub fn new(lhs: ExprKind, rhs: ExprKind) -> (r: Subtraction)
        ensures
            *r.lhs == lhs && *r.rhs == rhs,
    {
        Subtraction { lhs: Box::new(lhs), rhs: Box::new(rhs) }
    }

    pub fn left(&self) -> (r: &ExprKind)
        ensures
            *r == *self.lhs,
    {
        &self.lhs
    }

    pub fn right(&self) -> (r: &ExprKind)
        ensures
            *r == *self.rhs,
    {
        &self.rhs
    }
}

/// A multiplication of two operands.
#[derive(Debug, PartialEq)]
pub struct Multiplication {
    pub lhs: Box<ExprKind>,
    pub rhs: Box<ExprKind>,
}

impl Multiplication {
    pub fn new(lhs: ExprKind, rhs: ExprKind) -> (r: Multiplication)
        ensures
            *r.lhs == lhs && *r.rhs == rhs,
    {
        Multiplication { lhs: Box::new(lhs), rhs: Box::new(rhs) }
    }

    pub fn left(&self) -> (r: &ExprKind)
        ensures
            *r == *self.lhs,
    {
        &self.lhs
    }

    pub fn right(&self) -> (r: &ExprKind)
        ensures
            *r == *self.rhs,
    {
        &self.rhs
    }
}

/// A signed integer literal.
#[derive(Clone, Copy, Debug, PartialEq, Eq, Structural)]
pub struct Integer(pub i32);

impl Integer {
    pub fn new(value: i32) -> (r: Integer)
        ensures
            r == Integer(value),
    {
        Integer(value)
    }

    pub fn value(&self) -> (r: i32)
        ensures
            r == self.0,
    {
        self.0
    }
}

/// A conditional: condition, consequent and alternative.
#[derive(Debug, PartialEq)]
pub struct If {
    pub condition: Box<ExprKind>,
    pub consequent: Box<ExprKind>,
    pub alternative: Box<ExprKind>,
}

impl If {
    pub fn new(condition: ExprKind, consequent: ExprKind, alternative: ExprKind) -> (r: If)
        ensures
            *r.condition == condition && *r.consequent == consequent && *r.alternative
                == alternative,
    {
        If {
            condition: Box::new(condition),
            consequent: Box::new(consequent),
            alternative: Box::new(alternative),
        }
    }

    pub fn condition(&self) -> (r: &ExprKind)
        ensures
            *r == *self.condition,
    {
        &self.condition
    }

    pub fn consequent(&self) -> (r: &ExprKind)
        ensures
            *r == *self.consequent,
    {
        &self.consequent
    }

    pub fn alternative(&self) -> (r: &ExprKind)
        ensures
            *r == *self.alternative,
    {
        &self.alternative
    }
}

/// One or more `let` bindings followed by an ending expression.
#[derive(Debug, PartialEq)]
pub struct Bindings {
    pub defines: Vec<Binding>,
    pub ending: Box<ExprKind>,
}

impl Bindings {
    pub fn from_vec(bs: Vec<Binding>, next: ExprKind) -> (r: Bindings)
        ensures
            r.defines == bs && *r.ending == next,
    {
        Bindings { defines: bs, ending: Box::new(next) }
    }

    pub fn defines(&self) -> (r: &[Binding])
        ensures
            r@ == self.defines@,
    {
        self.defines.as_slice()
    }

    pub fn ending_expression(&self) -> (r: &ExprKind)
        ensures
            *r == *self.ending,
    {
        &self.ending
    }

    /// A binding list holding a single `let`.
    pub fn single(name: String, value: ExprKind, next: ExprKind) -> (r: Bindings)
        ensures
            r.defines@.len() == 1 && r.defines@[0].name == name && r.defines@[0].value == value
                && *r.ending == next,
    {
        let binding = Binding::new(name, value);
        Bindings { defines: vec![binding], ending: Box::new(next) }
    }
}

/// One `let NAME = VALUE;`.
#[derive(Debug, PartialEq)]
pub struct Binding {
    pub name: String,
    pub value: ExprKind,
}

impl Binding {
    pub fn new(name: String, value: ExprKind) -> (r: Binding)
        ensures
            r.name == name && r.value == value,
    {
        Binding { name, value }
    }

    pub fn name(&self) -> (r: &str)
        ensures
            r@ == self.name@,
    {
        self.name.as_str()
    }

    pub fn value(&self) -> (r: &ExprKind)
        ensures
            *r == self.value,
    {
        &self.value
    }
}

/// A reference to a bound variable.
#[derive(Debug, PartialEq)]
pub struct Ident(pub String);

impl Ident {
    pub fn new(name: String) -> (r: Ident)
        ensures
            r == Ident(name),
    {
        Ident(name)
    }

    pub fn name(&self) -> (r: &str)
        ensures
            r@ == self.0@,
    {
        self.0.as_str()
    }
}

/// A boolean literal.
#[derive(Clone, Copy, Debug, PartialEq, Eq, Structural)]
pub struct Bool(pub bool);

impl Bool {
    pub fn new(value: bool) -> (r: Bool)
        ensures
            r == Bool(value),
    {
        Bool(value)
    }

    pub fn value(&self) -> (r: bool)
        ensures
            r == self.0,
    {
        self.0
    }
}

} // verus!
