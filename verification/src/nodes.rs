//! Convenience builders for syntax trees: free functions that construct the
//! tree of an expression, function or program written inline, and the
//! conversions into the syntax tree the compiler passes consume.

use vstd::prelude::*;

use crate::ast;

verus! {

broadcast use vstd::std_specs::vec::axiom_vec_index_decreases;

/// An inline expression under construction.
#[derive(Debug, PartialEq)]
pub enum Expr {
    Addition { lhs: Box<Expr>, rhs: Box<Expr> },
    Block { bindings: Vec<(&'static str, Expr)>, ending: Box<Expr> },
    Bool(bool),
    Ident(&'static str),
    If { cond: Box<Expr>, cons: Box<Expr>, alt: Box<Expr> },
    Integer(i32),
    Multiplication { lhs: Box<Expr>, rhs: Box<Expr> },
    Subtraction { lhs: Box<Expr>, rhs: Box<Expr> },
}

/// An inline function under construction: a name and a body.
#[derive(Debug, PartialEq)]
pub struct InlineFunction(pub &'static str, pub Expr);

/// An inline program under construction.
#[derive(Debug, PartialEq)]
pub struct InlineProgram(pub Vec<InlineFunction>);

pub fn addition(lhs: Expr, rhs: Expr) -> (r: Expr)
    ensures
        r matches Expr::Addition { lhs: l, rhs: rr } && *l == lhs && *rr == rhs,
{
    Expr::Addition { lhs: Box::new(lhs), rhs: Box::new(rhs) }
}

pub fn subtraction(lhs: Expr, rhs: Expr) -> (r: Expr)
    ensures
        r matches Expr::Subtraction { lhs: l, rhs: rr } && *l == lhs && *rr == rhs,
{
    Expr::Subtraction { lhs: Box::new(lhs), rhs: Box::new(rhs) }
}

pub fn multiplication(lhs: Expr, rhs: Expr) -> (r: Expr)
    ensures
        r matches Expr::Multiplication { lhs: l, rhs: rr } && *l == lhs && *rr == rhs,
{
    Expr::Multiplication { lhs: Box::new(lhs), rhs: Box::new(rhs) }
}

pub fn block(bs: Vec<(&'static str, Expr)>, ending: Expr) -> (r: Expr)
    ensures
        r matches Expr::Block { bindings, ending: e } && bindings == bs && *e == ending,
{
    Expr::Block { bindings: bs, ending: Box::new(ending) }
}

pub fn ident(name: &'static str) -> (r: Expr)
    ensures
        r == Expr::Ident(name),
{
    Expr::Ident(name)
}

pub fn if_(cond: Expr, cons: Expr, alt: Expr) -> (r: Expr)
    ensures
        r matches Expr::If { cond: c, cons: co, alt: a } && *c == cond && *co == cons && *a
            == alt,
{
    Expr::If { cond: Box::new(cond), cons: Box::new(cons), alt: Box::new(alt) }
}

pub fn integer(value: i32) -> (r: Expr)
    ensures
        r == Expr::Integer(value),
{
    Expr::Integer(value)
}

pub fn boolean(value: bool) -> (r: Expr)
    ensures
        r == Expr::Bool(value),
{
    Expr::Bool(value)
}

pub fn function(name: &'static str, body: Expr) -> (r: InlineFunction)
    ensures
        r == InlineFunction(name, body),
{
    InlineFunction(name, body)
}

pub fn program(functions: Vec<InlineFunction>) -> (r: InlineProgram)
    ensures
        r == InlineProgram(functions),
{
    InlineProgram(functions)
}

impl Expr {
    /// The syntax tree this inline expression stands for; a block without
    /// bindings dissolves into its ending expression.
    #[verifier::loop_isolation(false)]
    pub fn to_ast(&self) -> ast::ExprKind
        decreases *self,
    {
        match self {
            Expr::Integer(v) => ast::ExprKind::integer(*v),
            Expr::Bool(b) => ast::ExprKind::bool_(*b),
            Expr::Ident(n) => ast::ExprKind::ident((*n).to_owned()),
            Expr::Addition { lhs, rhs } => ast::ExprKind::addition(lhs.to_ast(), rhs.to_ast()),
            Expr::Subtraction { lhs, rhs } => ast::ExprKind::subtraction(
                lhs.to_ast(),
                rhs.to_ast(),
            ),
            Expr::Multiplication { lhs, rhs } => ast::ExprKind::multiplication(
                lhs.to_ast(),
                rhs.to_ast(),
            ),
            Expr::If { cond, cons, alt } => ast::ExprKind::if_(
                cond.to_ast(),
                cons.to_ast(),
                alt.to_ast(),
            ),
            Expr::Block { bindings, ending } => {
                if bindings.len() == 0 {
                    ending.to_ast()
                } else {
                    let mut bs: Vec<ast::Binding> = Vec::new();
                    let mut k: usize = 0;
                    while k < bindings.len()
                        decreases bindings@.len() - k,
                    {
                        let name = bindings[k].0;
                        let value_ast = bindings[k].1.to_ast();
                        bs.push(ast::Binding::new(name.to_owned(), value_ast));
                        k = k + 1;
                    }
                    ast::ExprKind::bindings(bs, ending.to_ast())
                }
            },
        }
    }
}

impl InlineFunction {
    /// The function this inline function stands for.
    pub fn to_ast(&self) -> ast::Function {
        ast::Function::new(self.0.to_owned(), self.1.to_ast())
    }
}

impl InlineProgram {
    /// The program this inline program stands for.
    pub fn to_ast(&self) -> ast::Program {
        let mut functions: Vec<ast::Function> = Vec::new();
        let mut k: usize = 0;
        while k < self.0.len()
            decreases self.0@.len() - k,
        {
            functions.push(self.0[k].to_ast());
            k = k + 1;
        }
        ast::Program::new(functions)
    }
}

} // verus!
