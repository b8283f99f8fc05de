//! The bidirectional type checker: each node validates its children and
//! computes its result type against a scoped binding environment.

use vstd::prelude::*;

use crate::ast::{
    Addition, Binding, Bindings, Bool, ExprKind, Ident, If, Integer, Multiplication, Program,
    Subtraction,
};
use crate::context::{error_messages, lookup_ty, CompilerPassError, TypingContext};
use crate::text::{str_eq, undefined_variable_message};
use crate::ty::{spec_meets, spec_unify, Ty, UnexpectedTypeError, UnificationError};

verus! {

broadcast use vstd::seq_lib::group_seq_properties, vstd::std_specs::vec::axiom_vec_index_decreases;

// ---------------------------------------------------------------------------
// The typing rules, as mathematical functions
// ---------------------------------------------------------------------------

/// A failed type computation collapses to the absorbing error type.
pub open spec fn or_error(t: Option<Ty>) -> Ty {
    match t {
        Some(ty) => ty,
        None => Ty::Error,
    }
}

/// The result type of an expression in an environment, or `None` where no
/// type can be computed (an unbound variable, or branches that refuse to
/// unify).
pub open spec fn ty_output(e: ExprKind, env: Seq<(String, Ty)>) -> Option<Ty>
    decreases e, 0int,
{
    match e {
        ExprKind::Integer(_) => Some(Ty::Int),
        ExprKind::Bool(_) => Some(Ty::Bool),
        ExprKind::Addition(_) => Some(Ty::Int),
        ExprKind::Subtraction(_) => Some(Ty::Int),
        ExprKind::Multiplication(_) => Some(Ty::Int),
        ExprKind::Ident(name) => lookup_ty(env, name.0@),
        ExprKind::If(i) => {
            let cons_ty = or_error(ty_output(*i.consequent, env));
            let alt_ty = or_error(ty_output(*i.alternative, env));
            match spec_unify(cons_ty, alt_ty) {
                Ok(t) => Some(t),
                Err(_) => None,
            }
        },
        ExprKind::Bindings(b) => {
            let inner = typing_env_upto(b.defines, env, b.defines@.len() as int);
            ty_output(*b.ending, inner)
        },
    }
}

/// The environment after the first `n` bindings of a `let` list took
/// effect, each value typed in the environment built so far.
pub open spec fn typing_env_upto(defines: Vec<Binding>, env: Seq<(String, Ty)>, n: int) -> Seq<
    (String, Ty),
>
    decreases defines, n,
{
    if n <= 0 || n > defines@.len() {
        env
    } else {
        let prev = typing_env_upto(defines, env, n - 1);
        prev.push((defines[n - 1].name, or_error(ty_output(defines[n - 1].value, prev))))
    }
}

/// Whether the children of an expression are well typed: every variable is
/// bound, arithmetic operands are `int`, conditions are `bool`, and the two
/// branches of a conditional unify.
pub open spec fn inputs_ok(e: ExprKind, env: Seq<(String, Ty)>) -> bool
    decreases e, 1int,
{
    match e {
        ExprKind::Integer(_) => true,
        ExprKind::Bool(_) => true,
        ExprKind::Ident(name) => lookup_ty(env, name.0@) is Some,
        ExprKind::Addition(a) => {
            &&& inputs_ok(*a.lhs, env)
            &&& inputs_ok(*a.rhs, env)
            &&& ty_output(*a.lhs, env) matches Some(t) && spec_meets(t, Ty::Int)
            &&& ty_output(*a.rhs, env) matches Some(t) && spec_meets(t, Ty::Int)
        },
        ExprKind::Subtraction(s) => {
            &&& inputs_ok(*s.lhs, env)
            &&& inputs_ok(*s.rhs, env)
            &&& ty_output(*s.lhs, env) matches Some(t) && spec_meets(t, Ty::Int)
            &&& ty_output(*s.rhs, env) matches Some(t) && spec_meets(t, Ty::Int)
        },
        ExprKind::Multiplication(m) => {
            &&& inputs_ok(*m.lhs, env)
            &&& inputs_ok(*m.rhs, env)
            &&& ty_output(*m.lhs, env) matches Some(t) && spec_meets(t, Ty::Int)
            &&& ty_output(*m.rhs, env) matches Some(t) && spec_meets(t, Ty::Int)
        },
        ExprKind::If(i) => {
            &&& inputs_ok(*i.condition, env)
            &&& inputs_ok(*i.consequent, env)
            &&& inputs_ok(*i.alternative, env)
            &&& spec_unify(
                or_error(ty_output(*i.consequent, env)),
                or_error(ty_output(*i.alternative, env)),
            ) is Ok
            &&& ty_output(*i.condition, env) matches Some(t) && spec_meets(t, Ty::Bool)
        },
        ExprKind::Bindings(b) => {
            &&& bindings_inputs_ok(b.defines, env, b.defines@.len() as int)
            &&& inputs_ok(*b.ending, typing_env_upto(b.defines, env, b.defines@.len() as int))
        },
    }
}

/// Whether two operands of an integer operator are well typed and `int`.
pub open spec fn binary_int_inputs_ok(lhs: ExprKind, rhs: ExprKind, env: Seq<(String, Ty)>) -> bool
{
    &&& inputs_ok(lhs, env)
    &&& inputs_ok(rhs, env)
    &&& ty_output(lhs, env) matches Some(t) && spec_meets(t, Ty::Int)
    &&& ty_output(rhs, env) matches Some(t) && spec_meets(t, Ty::Int)
}

/// A well-typed expression always has a computable type: `inputs_ok` rules
/// out every way `ty_output` can fail.
pub proof fn lemma_inputs_ok_gives_output(e: ExprKind, env: Seq<(String, Ty)>)
    requires
        inputs_ok(e, env),
    ensures
        ty_output(e, env) is Some,
    decreases e, 2int,
{
    match e {
        ExprKind::Bindings(b) => {
            lemma_inputs_ok_gives_output(
                *b.ending,
                typing_env_upto(b.defines, env, b.defines@.len() as int),
            );
        },
        _ => {},
    }
}

/// Whether the first `n` bindings of a `let` list are each well typed in the
/// environment built so far.
pub open spec fn bindings_inputs_ok(defines: Vec<Binding>, env: Seq<(String, Ty)>, n: int) -> bool
    decreases defines, n,
{
    if n <= 0 || n > defines@.len() {
        true
    } else {
        &&& bindings_inputs_ok(defines, env, n - 1)
        &&& inputs_ok(defines[n - 1].value, typing_env_upto(defines, env, n - 1))
    }
}

/// The diagnostics an unmet type expectation records: one when the type is
/// computable and fails the expectation, none when no type was computable
/// (the failure there was already recorded at its source).
pub open spec fn expect_count(t: Option<Ty>, expected: Ty) -> nat {
    match t {
        Some(ty) => if spec_meets(ty, expected) {
            0
        } else {
            1
        },
        None => 0,
    }
}

/// The number of diagnostics checking an expression records: one per
/// unbound variable, per computable non-`int` operand, per branch pair
/// that refuses to unify, and per computable non-`bool` condition.
pub open spec fn check_count(e: ExprKind, env: Seq<(String, Ty)>) -> nat
    decreases e, 1int,
{
    match e {
        ExprKind::Integer(_) => 0,
        ExprKind::Bool(_) => 0,
        ExprKind::Ident(n) => if lookup_ty(env, n.0@) is Some {
            0
        } else {
            1
        },
        ExprKind::Addition(a) => check_count(*a.lhs, env) + check_count(*a.rhs, env)
            + expect_count(ty_output(*a.lhs, env), Ty::Int) + expect_count(
            ty_output(*a.rhs, env),
            Ty::Int,
        ),
        ExprKind::Subtraction(s) => check_count(*s.lhs, env) + check_count(*s.rhs, env)
            + expect_count(ty_output(*s.lhs, env), Ty::Int) + expect_count(
            ty_output(*s.rhs, env),
            Ty::Int,
        ),
        ExprKind::Multiplication(m) => check_count(*m.lhs, env) + check_count(*m.rhs, env)
            + expect_count(ty_output(*m.lhs, env), Ty::Int) + expect_count(
            ty_output(*m.rhs, env),
            Ty::Int,
        ),
        ExprKind::If(i) => check_count(*i.condition, env) + check_count(*i.consequent, env)
            + check_count(*i.alternative, env) + (if spec_unify(
            or_error(ty_output(*i.consequent, env)),
            or_error(ty_output(*i.alternative, env)),
        ) is Ok {
            0nat
        } else {
            1nat
        }) + expect_count(ty_output(*i.condition, env), Ty::Bool),
        ExprKind::Bindings(b) => {
            let n = b.defines@.len() as int;
            defines_check_count(b.defines, env, n) + check_count(
                *b.ending,
                typing_env_upto(b.defines, env, n),
            )
        },
    }
}

/// The diagnostics the first `n` binding values record.
pub open spec fn defines_check_count(defines: Vec<Binding>, env: Seq<(String, Ty)>, n: int) -> nat
    decreases defines, n,
{
    if n <= 0 || n > defines@.len() {
        0
    } else {
        defines_check_count(defines, env, n - 1) + check_count(
            defines[n - 1].value,
            typing_env_upto(defines, env, n - 1),
        )
    }
}

/// The diagnostics the first `n` function bodies record.
pub open spec fn functions_check_count(
    functions: Vec<crate::ast::Function>,
    env: Seq<(String, Ty)>,
    n: int,
) -> nat
    decreases n,
{
    if n <= 0 || n > functions@.len() {
        0
    } else {
        functions_check_count(functions, env, n - 1) + check_count(
            functions@[n - 1].body,
            env,
        )
    }
}

/// Whether `k` is the index of the first function named `main`.
pub open spec fn is_first_main(functions: Seq<crate::ast::Function>, k: int) -> bool {
    &&& 0 <= k < functions.len()
    &&& functions[k].name@ == "main"@
    &&& forall|j: int| 0 <= j < k ==> (#[trigger] functions[j].name@) != "main"@
}

/// Whether a whole program is well typed in a given outer environment:
/// every function body checks, a `main` exists, and the type of the first
/// `main`'s body is `int`.
pub open spec fn program_well_typed_in(p: Program, env: Seq<(String, Ty)>) -> bool {
    &&& forall|k: int|
        0 <= k < p.functions@.len() ==> inputs_ok(#[trigger] p.functions@[k].body, env)
    &&& exists|k: int| 0 <= k < p.functions@.len() && (#[trigger] p.functions@[k].name@) == "main"@
    &&& forall|k: int|
        is_first_main(p.functions@, k) ==> ty_output(#[trigger] p.functions@[k].body, env)
            == Some(Ty::Int)
}

/// Growing a typing environment leaves the part below untouched.
proof fn lemma_typing_env_upto_prefix(defines: Vec<Binding>, env: Seq<(String, Ty)>, n: int)
    requires
        0 <= n <= defines@.len(),
    ensures
        typing_env_upto(defines, env, n).len() == env.len() + n,
        typing_env_upto(defines, env, n).take(env.len() as int) =~= env,
    decreases n,
{
    if n > 0 {
        lemma_typing_env_upto_prefix(defines, env, n - 1);
    }
}

// ---------------------------------------------------------------------------
// Diagnostics
// ---------------------------------------------------------------------------

/// The name of a type, as it appears in diagnostics.
pub open spec fn spec_ty_name(t: Ty) -> Seq<char> {
    match t {
        Ty::Bool => "bool"@,
        Ty::Int => "int"@,
        Ty::Error => "{type error}"@,
    }
}

/// The name of a type, as it appears in diagnostics.
pub fn ty_name(t: &Ty) -> (r: &'static str)
    ensures
        r@ == spec_ty_name(*t),
{
    match t {
        Ty::Bool => "bool",
        Ty::Int => "int",
        Ty::Error => "{type error}",
    }
}

/// The diagnostic for a type that failed to meet an expectation.
pub fn unexpected_type_message(e: &UnexpectedTypeError) -> (r: String)
    ensures
        r@ == "Expected type `"@ + spec_ty_name(e.expected) + "`, found type `"@ + spec_ty_name(
            e.got,
        ) + "`"@,
{
    let mut out = "Expected type `".to_owned();
    out.append(ty_name(&e.expected));
    out.append("`, found type `");
    out.append(ty_name(&e.got));
    out.append("`");
    proof {
        assert(out@ =~= "Expected type `"@ + spec_ty_name(e.expected) + "`, found type `"@
            + spec_ty_name(e.got) + "`"@);
    }
    out
}

/// The diagnostic for two branch types that refuse to unify.
pub fn unification_message(e: &UnificationError) -> (r: String)
    ensures
        r@ == "Expression returns two different types: `"@ + spec_ty_name(e.left) + "` and `"@
            + spec_ty_name(e.right) + "`"@,
{
    let mut out = "Expression returns two different types: `".to_owned();
    out.append(ty_name(&e.left));
    out.append("` and `");
    out.append(ty_name(&e.right));
    out.append("`");
    proof {
        assert(out@ =~= "Expression returns two different types: `"@ + spec_ty_name(e.left)
            + "` and `"@ + spec_ty_name(e.right) + "`"@);
    }
    out
}

// ---------------------------------------------------------------------------
// The checker
// ---------------------------------------------------------------------------

impl ExprKind {
    /// Validates the children of this expression, recording a diagnostic for
    /// each type error found.
    pub fn check_inputs(&self, ctxt: &mut TypingContext) -> (r: Result<(), ()>)
        ensures
            final(ctxt).bindings@ == old(ctxt).bindings@,
            r is Ok <==> inputs_ok(*self, old(ctxt).bindings@),
            r is Ok ==> final(ctxt).errs == old(ctxt).errs,
            r is Err ==> error_messages(final(ctxt).errs).len() > error_messages(
                old(ctxt).errs,
            ).len(),
            error_messages(final(ctxt).errs).len() == error_messages(old(ctxt).errs).len()
                + check_count(*self, old(ctxt).bindings@),
            error_messages(old(ctxt).errs).is_prefix_of(error_messages(final(ctxt).errs)),
        decreases *self, 1int,
    {
        match self {
            ExprKind::Integer(i) => i.check_inputs(ctxt),
            ExprKind::Bool(b) => b.check_inputs(ctxt),
            ExprKind::Ident(i) => i.check_inputs(ctxt),
            ExprKind::Addition(a) => a.check_inputs(ctxt),
            ExprKind::Subtraction(s) => s.check_inputs(ctxt),
            ExprKind::Multiplication(m) => m.check_inputs(ctxt),
            ExprKind::If(i) => i.check_inputs(ctxt),
            ExprKind::Bindings(b) => b.check_inputs(ctxt),
        }
    }

    /// The result type of this expression, or a failure where no type can
    /// be computed.
    pub fn get_output(&self, ctxt: &mut TypingContext) -> (r: Result<Ty, ()>)
        ensures
            final(ctxt).bindings@ == old(ctxt).bindings@,
            final(ctxt).errs == old(ctxt).errs,
            r == match ty_output(*self, old(ctxt).bindings@) {
                Some(t) => Ok::<Ty, ()>(t),
                None => Err::<Ty, ()>(()),
            },
        decreases *self, 1int,
    {
        match self {
            ExprKind::Integer(i) => i.get_output(ctxt),
            ExprKind::Bool(b) => b.get_output(ctxt),
            ExprKind::Ident(i) => i.get_output(ctxt),
            ExprKind::Addition(a) => a.get_output(ctxt),
            ExprKind::Subtraction(s) => s.get_output(ctxt),
            ExprKind::Multiplication(m) => m.get_output(ctxt),
            ExprKind::If(i) => i.get_output(ctxt),
            ExprKind::Bindings(b) => b.get_output(ctxt),
        }
    }
}

impl Integer {
    pub fn check_inputs(&self, ctxt: &mut TypingContext) -> (r: Result<(), ()>)
        ensures
            *final(ctxt) == *old(ctxt),
            r is Ok,
    {
        Ok(())
    }

    pub fn get_output(&self, ctxt: &mut TypingContext) -> (r: Result<Ty, ()>)
        ensures
            *final(ctxt) == *old(ctxt),
            r == Ok::<Ty, ()>(Ty::Int),
    {
        Ok(Ty::Int)
    }
}

impl Bool {
    pub fn check_inputs(&self, ctxt: &mut TypingContext) -> (r: Result<(), ()>)
        ensures
            *final(ctxt) == *old(ctxt),
            r is Ok,
    {
        Ok(())
    }

    pub fn get_output(&self, ctxt: &mut TypingContext) -> (r: Result<Ty, ()>)
        ensures
            *final(ctxt) == *old(ctxt),
            r == Ok::<Ty, ()>(Ty::Bool),
    {
        Ok(Ty::Bool)
    }
}

impl Ident {
    pub fn check_inputs(&self, ctxt: &mut TypingContext) -> (r: Result<(), ()>)
        ensures
            final(ctxt).bindings@ == old(ctxt).bindings@,
            r is Ok <==> lookup_ty(old(ctxt).bindings@, self.0@) is Some,
            r is Ok ==> final(ctxt).errs == old(ctxt).errs,
            r is Err ==> error_messages(final(ctxt).errs).len() > error_messages(
                old(ctxt).errs,
            ).len(),
            error_messages(final(ctxt).errs).len() == error_messages(old(ctxt).errs).len()
                + check_count(ExprKind::Ident(*self), old(ctxt).bindings@),
            error_messages(old(ctxt).errs).is_prefix_of(error_messages(final(ctxt).errs)),
    {
        match ctxt.resolve_binding(self.0.as_str()) {
            Some(_) => Ok(()),
            None => {
                let msg = undefined_variable_message(self.0.as_str());
                ctxt.errs.add_string(msg);
                Err(())
            },
        }
    }

    pub fn get_output(&self, ctxt: &mut TypingContext) -> (r: Result<Ty, ()>)
        ensures
            final(ctxt).bindings@ == old(ctxt).bindings@,
            final(ctxt).errs == old(ctxt).errs,
            r == match lookup_ty(old(ctxt).bindings@, self.0@) {
                Some(t) => Ok::<Ty, ()>(t),
                None => Err::<Ty, ()>(()),
            },
    {
        match ctxt.resolve_binding(self.0.as_str()) {
            Some(t) => Ok(t),
            None => Err(()),
        }
    }
}

/// Validates that an operand's type is `int`, recording the diagnostic when
/// it is not.
fn expect_int_output(e: &ExprKind, ctxt: &mut TypingContext) -> (r: Result<(), ()>)
    ensures
        final(ctxt).bindings@ == old(ctxt).bindings@,
        r is Ok <==> (ty_output(*e, old(ctxt).bindings@) matches Some(t) && spec_meets(
            t,
            Ty::Int,
        )),
        r is Ok ==> final(ctxt).errs == old(ctxt).errs,
        r is Err ==> (error_messages(final(ctxt).errs).len() > error_messages(
            old(ctxt).errs,
        ).len() || ty_output(*e, old(ctxt).bindings@) is None),
        error_messages(final(ctxt).errs).len() == error_messages(old(ctxt).errs).len()
            + expect_count(ty_output(*e, old(ctxt).bindings@), Ty::Int),
        error_messages(old(ctxt).errs).is_prefix_of(error_messages(final(ctxt).errs)),
    decreases *e, 2int,
{
    match e.get_output(ctxt) {
        Err(()) => Err(()),
        Ok(t) => match t.expect_int() {
            Ok(()) => Ok(()),
            Err(te) => {
                let msg = unexpected_type_message(&te);
                ctxt.errs.add_string(msg);
                Err(())
            },
        },
    }
}

/// Validates that a condition's type is `bool`, recording the diagnostic
/// when it is not.
fn expect_bool_output(e: &ExprKind, ctxt: &mut TypingContext) -> (r: Result<(), ()>)
    ensures
        final(ctxt).bindings@ == old(ctxt).bindings@,
        r is Ok <==> (ty_output(*e, old(ctxt).bindings@) matches Some(t) && spec_meets(
            t,
            Ty::Bool,
        )),
        r is Ok ==> final(ctxt).errs == old(ctxt).errs,
        r is Err ==> (error_messages(final(ctxt).errs).len() > error_messages(
            old(ctxt).errs,
        ).len() || ty_output(*e, old(ctxt).bindings@) is None),
        error_messages(final(ctxt).errs).len() == error_messages(old(ctxt).errs).len()
            + expect_count(ty_output(*e, old(ctxt).bindings@), Ty::Bool),
        error_messages(old(ctxt).errs).is_prefix_of(error_messages(final(ctxt).errs)),
    decreases *e, 2int,
{
    match e.get_output(ctxt) {
        Err(()) => Err(()),
        Ok(t) => match t.expect_bool() {
            Ok(()) => Ok(()),
            Err(te) => {
                let msg = unexpected_type_message(&te);
                ctxt.errs.add_string(msg);
                Err(())
            },
        },
    }
}

impl Addition {
    pub fn check_inputs(&self, ctxt: &mut TypingContext) -> (r: Result<(), ()>)
        ensures
            final(ctxt).bindings@ == old(ctxt).bindings@,
            r is Ok <==> binary_int_inputs_ok(*self.lhs, *self.rhs, old(ctxt).bindings@),
            r is Ok ==> final(ctxt).errs == old(ctxt).errs,
            r is Err ==> error_messages(final(ctxt).errs).len() > error_messages(
                old(ctxt).errs,
            ).len(),
            error_messages(final(ctxt).errs).len() == error_messages(old(ctxt).errs).len()
                + check_count(ExprKind::Addition(*self), old(ctxt).bindings@),
            error_messages(old(ctxt).errs).is_prefix_of(error_messages(final(ctxt).errs)),
        decreases *self, 0int,
    {
        let left_ok = self.left().check_inputs(ctxt);
        let right_ok = self.right().check_inputs(ctxt);
        let left_is_int = expect_int_output(self.left(), ctxt);
        let right_is_int = expect_int_output(self.right(), ctxt);
        proof {
            if left_ok is Ok && left_is_int is Err {
                lemma_inputs_ok_gives_output(*self.lhs, old(ctxt).bindings@);
            }
            if right_ok is Ok && right_is_int is Err {
                lemma_inputs_ok_gives_output(*self.rhs, old(ctxt).bindings@);
            }
        }
        match (left_ok, right_ok, left_is_int, right_is_int) {
            (Ok(()), Ok(()), Ok(()), Ok(())) => Ok(()),
            _ => Err(()),
        }
    }

    pub fn get_output(&self, ctxt: &mut TypingContext) -> (r: Result<Ty, ()>)
        ensures
            *final(ctxt) == *old(ctxt),
            r == Ok::<Ty, ()>(Ty::Int),
    {
        Ok(Ty::Int)
    }
}

impl Subtraction {
    pub fn check_inputs(&self, ctxt: &mut TypingContext) -> (r: Result<(), ()>)
        ensures
            final(ctxt).bindings@ == old(ctxt).bindings@,
            r is Ok <==> binary_int_inputs_ok(*self.lhs, *self.rhs, old(ctxt).bindings@),
            r is Ok ==> final(ctxt).errs == old(ctxt).errs,
            r is Err ==> error_messages(final(ctxt).errs).len() > error_messages(
                old(ctxt).errs,
            ).len(),
            error_messages(final(ctxt).errs).len() == error_messages(old(ctxt).errs).len()
                + check_count(ExprKind::Subtraction(*self), old(ctxt).bindings@),
            error_messages(old(ctxt).errs).is_prefix_of(error_messages(final(ctxt).errs)),
        decreases *self, 0int,
    {
        let left_ok = self.left().check_inputs(ctxt);
        let right_ok = self.right().check_inputs(ctxt);
        let left_is_int = expect_int_output(self.left(), ctxt);
        let right_is_int = expect_int_output(self.right(), ctxt);
        proof {
            if left_ok is Ok && left_is_int is Err {
                lemma_inputs_ok_gives_output(*self.lhs, old(ctxt).bindings@);
            }
            if right_ok is Ok && right_is_int is Err {
                lemma_inputs_ok_gives_output(*self.rhs, old(ctxt).bindings@);
            }
        }
        match (left_ok, right_ok, left_is_int, right_is_int) {
            (Ok(()), Ok(()), Ok(()), Ok(())) => Ok(()),
            _ => Err(()),
        }
    }

    pub fn get_output(&self, ctxt: &mut TypingContext) -> (r: Result<Ty, ()>)
        ensures
            *final(ctxt) == *old(ctxt),
            r == Ok::<Ty, ()>(Ty::Int),
    {
        Ok(Ty::Int)
    }
}

impl Multiplication {
    pub fn check_inputs(&self, ctxt: &mut TypingContext) -> (r: Result<(), ()>)
        ensures
            final(ctxt).bindings@ == old(ctxt).bindings@,
            r is Ok <==> binary_int_inputs_ok(*self.lhs, *self.rhs, old(ctxt).bindings@),
            r is Ok ==> final(ctxt).errs == old(ctxt).errs,
            r is Err ==> error_messages(final(ctxt).errs).len() > error_messages(
                old(ctxt).errs,
            ).len(),
            error_messages(final(ctxt).errs).len() == error_messages(old(ctxt).errs).len()
                + check_count(ExprKind::Multiplication(*self), old(ctxt).bindings@),
            error_messages(old(ctxt).errs).is_prefix_of(error_messages(final(ctxt).errs)),
        decreases *self, 0int,
    {
        let left_ok = self.left().check_inputs(ctxt);
        let right_ok = self.right().check_inputs(ctxt);
        let left_is_int = expect_int_output(self.left(), ctxt);
        let right_is_int = expect_int_output(self.right(), ctxt);
        proof {
            if left_ok is Ok && left_is_int is Err {
                lemma_inputs_ok_gives_output(*self.lhs, old(ctxt).bindings@);
            }
            if right_ok is Ok && right_is_int is Err {
                lemma_inputs_ok_gives_output(*self.rhs, old(ctxt).bindings@);
            }
        }
        match (left_ok, right_ok, left_is_int, right_is_int) {
            (Ok(()), Ok(()), Ok(()), Ok(())) => Ok(()),
            _ => Err(()),
        }
    }

    pub fn get_output(&self, ctxt: &mut TypingContext) -> (r: Result<Ty, ()>)
        ensures
            *final(ctxt) == *old(ctxt),
            r == Ok::<Ty, ()>(Ty::Int),
    {
        Ok(Ty::Int)
    }
}

impl If {
    pub fn check_inputs(&self, ctxt: &mut TypingContext) -> (r: Result<(), ()>)
        ensures
            final(ctxt).bindings@ == old(ctxt).bindings@,
            r is Ok <==> inputs_ok(ExprKind::If(crate::ast::If {
                condition: self.condition,
                consequent: self.consequent,
                alternative: self.alternative,
            }), old(ctxt).bindings@),
            r is Ok ==> final(ctxt).errs == old(ctxt).errs,
            r is Err ==> error_messages(final(ctxt).errs).len() > error_messages(
                old(ctxt).errs,
            ).len(),
            error_messages(final(ctxt).errs).len() == error_messages(old(ctxt).errs).len()
                + check_count(ExprKind::If(crate::ast::If {
                condition: self.condition,
                consequent: self.consequent,
                alternative: self.alternative,
            }), old(ctxt).bindings@),
            error_messages(old(ctxt).errs).is_prefix_of(error_messages(final(ctxt).errs)),
        decreases *self, 0int,
    {
        let condition_ok = self.condition().check_inputs(ctxt);
        let consequent_ok = self.consequent().check_inputs(ctxt);
        let alternative_ok = self.alternative().check_inputs(ctxt);
        let consequent_ty = match self.consequent().get_output(ctxt) {
            Ok(t) => t,
            Err(()) => Ty::Error,
        };
        let alternative_ty = match self.alternative().get_output(ctxt) {
            Ok(t) => t,
            Err(()) => Ty::Error,
        };
        let branches_unify = match consequent_ty.unify_with(alternative_ty) {
            Ok(_) => Ok(()),
            Err(ue) => {
                let msg = unification_message(&ue);
                ctxt.errs.add_string(msg);
                Err(())
            },
        };
        let condition_is_bool = expect_bool_output(self.condition(), ctxt);
        proof {
            if condition_ok is Ok && condition_is_bool is Err {
                lemma_inputs_ok_gives_output(*self.condition, old(ctxt).bindings@);
            }
        }
        match (condition_ok, consequent_ok, alternative_ok, branches_unify, condition_is_bool) {
            (Ok(()), Ok(()), Ok(()), Ok(()), Ok(())) => Ok(()),
            _ => Err(()),
        }
    }

    pub fn get_output(&self, ctxt: &mut TypingContext) -> (r: Result<Ty, ()>)
        ensures
            final(ctxt).bindings@ == old(ctxt).bindings@,
            final(ctxt).errs == old(ctxt).errs,
            r == match ty_output(ExprKind::If(crate::ast::If {
                condition: self.condition,
                consequent: self.consequent,
                alternative: self.alternative,
            }), old(ctxt).bindings@) {
                Some(t) => Ok::<Ty, ()>(t),
                None => Err::<Ty, ()>(()),
            },
        decreases *self, 0int,
    {
        let consequent_ty = match self.consequent().get_output(ctxt) {
            Ok(t) => t,
            Err(()) => Ty::Error,
        };
        let alternative_ty = match self.alternative().get_output(ctxt) {
            Ok(t) => t,
            Err(()) => Ty::Error,
        };
        match consequent_ty.unify_with(alternative_ty) {
            Ok(t) => Ok(t),
            Err(_) => Err(()),
        }
    }
}

impl Binding {
    pub fn check_inputs(&self, ctxt: &mut TypingContext) -> (r: Result<(), ()>)
        ensures
            final(ctxt).bindings@ == old(ctxt).bindings@,
            r is Ok <==> inputs_ok(self.value, old(ctxt).bindings@),
            r is Ok ==> final(ctxt).errs == old(ctxt).errs,
            r is Err ==> error_messages(final(ctxt).errs).len() > error_messages(
                old(ctxt).errs,
            ).len(),
            error_messages(final(ctxt).errs).len() == error_messages(old(ctxt).errs).len()
                + check_count(self.value, old(ctxt).bindings@),
            error_messages(old(ctxt).errs).is_prefix_of(error_messages(final(ctxt).errs)),
        decreases *self, 0int,
    {
        self.value().check_inputs(ctxt)
    }

    pub fn get_output(&self, ctxt: &mut TypingContext) -> (r: Result<Ty, ()>)
        ensures
            final(ctxt).bindings@ == old(ctxt).bindings@,
            final(ctxt).errs == old(ctxt).errs,
            r == match ty_output(self.value, old(ctxt).bindings@) {
                Some(t) => Ok::<Ty, ()>(t),
                None => Err::<Ty, ()>(()),
            },
        decreases *self, 0int,
    {
        self.value().get_output(ctxt)
    }
}

impl Bindings {
    pub fn check_inputs(&self, ctxt: &mut TypingContext) -> (r: Result<(), ()>)
        ensures
            final(ctxt).bindings@ == old(ctxt).bindings@,
            r is Ok <==> inputs_ok(ExprKind::Bindings(crate::ast::Bindings {
                defines: self.defines,
                ending: self.ending,
            }), old(ctxt).bindings@),
            r is Ok ==> final(ctxt).errs == old(ctxt).errs,
            r is Err ==> error_messages(final(ctxt).errs).len() > error_messages(
                old(ctxt).errs,
            ).len(),
            error_messages(final(ctxt).errs).len() == error_messages(old(ctxt).errs).len()
                + check_count(ExprKind::Bindings(crate::ast::Bindings {
                defines: self.defines,
                ending: self.ending,
            }), old(ctxt).bindings@),
            error_messages(old(ctxt).errs).is_prefix_of(error_messages(final(ctxt).errs)),
        decreases *self, 0int,
    {
        let ghost env0 = ctxt.bindings@;
        let ghost errs0 = ctxt.errs;
        let subctxt = ctxt.new_subcontext();
        let mut bindings_are_valid = true;
        let mut k: usize = 0;
        while k < self.defines.len()
            invariant
                k <= self.defines@.len(),
                ctxt.bindings@ == typing_env_upto(self.defines, env0, k as int),
                bindings_are_valid <==> bindings_inputs_ok(self.defines, env0, k as int),
                bindings_are_valid ==> ctxt.errs == errs0,
                !bindings_are_valid ==> error_messages(ctxt.errs).len() > error_messages(
                    errs0,
                ).len(),
                error_messages(ctxt.errs).len() == error_messages(errs0).len()
                    + defines_check_count(self.defines, env0, k as int),
                error_messages(errs0).is_prefix_of(error_messages(ctxt.errs)),
            decreases self.defines@.len() - k,
        {
            let b = &self.defines[k];
            let this_ok = b.check_inputs(ctxt);
            let binding_ty = match b.get_output(ctxt) {
                Ok(t) => t,
                Err(()) => Ty::Error,
            };
            ctxt.add_binding(b.name.clone(), binding_ty);
            bindings_are_valid = bindings_are_valid && this_ok.is_ok();
            k = k + 1;
        }
        let final_is_valid = self.ending_expression().check_inputs(ctxt);
        proof {
            lemma_typing_env_upto_prefix(self.defines, env0, self.defines@.len() as int);
        }
        ctxt.drop_subcontext(subctxt);
        if bindings_are_valid && final_is_valid.is_ok() {
            Ok(())
        } else {
            Err(())
        }
    }

    pub fn get_output(&self, ctxt: &mut TypingContext) -> (r: Result<Ty, ()>)
        ensures
            final(ctxt).bindings@ == old(ctxt).bindings@,
            final(ctxt).errs == old(ctxt).errs,
            r == match ty_output(ExprKind::Bindings(crate::ast::Bindings {
                defines: self.defines,
                ending: self.ending,
            }), old(ctxt).bindings@) {
                Some(t) => Ok::<Ty, ()>(t),
                None => Err::<Ty, ()>(()),
            },
        decreases *self, 0int,
    {
        let ghost env0 = ctxt.bindings@;
        let subctxt = ctxt.new_subcontext();
        let mut k: usize = 0;
        while k < self.defines.len()
            invariant
                k <= self.defines@.len(),
                ctxt.bindings@ == typing_env_upto(self.defines, env0, k as int),
                ctxt.errs == old(ctxt).errs,
            decreases self.defines@.len() - k,
        {
            let b = &self.defines[k];
            let binding_ty = match b.get_output(ctxt) {
                Ok(t) => t,
                Err(()) => Ty::Error,
            };
            ctxt.add_binding(b.name.clone(), binding_ty);
            k = k + 1;
        }
        let expr_ty = self.ending_expression().get_output(ctxt);
        proof {
            lemma_typing_env_upto_prefix(self.defines, env0, self.defines@.len() as int);
        }
        ctxt.drop_subcontext(subctxt);
        expr_ty
    }
}

/// Type-checks a whole program against the given context: every function
/// body must check, a `main` must exist, and its body must have type `int`.
/// Diagnostics are recorded in the context's error channel.
pub fn check_program(ast: &Program, ctxt: &mut TypingContext) -> (r: Result<(), ()>)
    ensures
        final(ctxt).bindings@ == old(ctxt).bindings@,
        r is Ok <==> program_well_typed_in(*ast, old(ctxt).bindings@),
        r is Ok ==> final(ctxt).errs == old(ctxt).errs,
        r is Err ==> error_messages(final(ctxt).errs).len() > error_messages(
            old(ctxt).errs,
        ).len(),
        forall|mi: int|
            #[trigger] is_first_main(ast.functions@, mi) ==> error_messages(
                final(ctxt).errs,
            ).len() == error_messages(old(ctxt).errs).len() + functions_check_count(
                ast.functions,
                old(ctxt).bindings@,
                ast.functions@.len() as int,
            ) + (if ty_output(ast.functions@[mi].body, old(ctxt).bindings@) == Some(Ty::Int) {
                0nat
            } else {
                1nat
            }),
        (forall|j: int|
            0 <= j < ast.functions@.len() ==> (#[trigger] ast.functions@[j].name@) != "main"@)
            ==> error_messages(final(ctxt).errs).len() == error_messages(
            old(ctxt).errs,
        ).len() + functions_check_count(
            ast.functions,
            old(ctxt).bindings@,
            ast.functions@.len() as int,
        ) + 1,
        error_messages(old(ctxt).errs).is_prefix_of(error_messages(final(ctxt).errs)),
{
    let ghost env0 = ctxt.bindings@;
    let ghost errs0 = ctxt.errs;
    let mut all_ok = true;
    let mut main_idx: Option<usize> = None;
    let mut k: usize = 0;
    while k < ast.functions.len()
        invariant
            k <= ast.functions@.len(),
            ctxt.bindings@ == env0,
            all_ok <==> forall|j: int|
                0 <= j < k ==> inputs_ok(#[trigger] ast.functions@[j].body, env0),
            all_ok ==> ctxt.errs == errs0,
            !all_ok ==> error_messages(ctxt.errs).len() > error_messages(errs0).len(),
            error_messages(ctxt.errs).len() == error_messages(errs0).len()
                + functions_check_count(ast.functions, env0, k as int),
            error_messages(errs0).is_prefix_of(error_messages(ctxt.errs)),
            match main_idx {
                Some(i) => is_first_main(ast.functions@, i as int) && i < k,
                None => forall|j: int|
                    0 <= j < k ==> (#[trigger] ast.functions@[j].name@) != "main"@,
            },
        decreases ast.functions@.len() - k,
    {
        let f = &ast.functions[k];
        let ghost errs_before = ctxt.errs;
        let ghost was_ok = all_ok;
        let ok = f.body.check_inputs(ctxt);
        all_ok = all_ok && ok.is_ok();
        proof {
            if !all_ok {
                if was_ok {
                    assert(errs_before == errs0);
                    assert(error_messages(ctxt.errs).len() > error_messages(errs0).len());
                } else {
                    assert(error_messages(errs_before).len() > error_messages(errs0).len());
                    assert(error_messages(errs_before).is_prefix_of(
                        error_messages(ctxt.errs),
                    ));
                    assert(error_messages(ctxt.errs).len() > error_messages(errs0).len());
                }
            }
        }
        if main_idx.is_none() && str_eq(f.name.as_str(), "main") {
            main_idx = Some(k);
        }
        k = k + 1;
    }
    let main_ok: bool = match main_idx {
        None => {
            ctxt.errs.add("No `main` function found");
            false
        },
        Some(i) => {
            match ast.functions[i].body.get_output(ctxt) {
                Ok(Ty::Int) => true,
                _ => {
                    ctxt.errs.add("`main` function must return `int`");
                    false
                },
            }
        },
    };
    proof {
        if all_ok && main_ok {
            assert(program_well_typed_in(*ast, env0));
        }
        if program_well_typed_in(*ast, env0) {
            let w = choose|j: int|
                0 <= j < ast.functions@.len() && (#[trigger] ast.functions@[j].name@) == "main"@;
            assert(main_idx is Some);
        }
    }
    if all_ok && main_ok {
        Ok(())
    } else {
        Err(())
    }
}

/// Type-checks a whole program, wrapping the outcome as a compilation pass:
/// the pass succeeds exactly when the program is well typed and no
/// diagnostic was pending.  A failure carries only the diagnostic count;
/// callers that need the diagnostics themselves use `check_program`, which
/// leaves them in the context.
pub fn check_ast(ast: &Program, ctxt: TypingContext) -> (r: Result<
    TypingContext,
    CompilerPassError,
>)
    ensures
        r is Ok <==> (program_well_typed_in(*ast, ctxt.bindings@) && error_messages(
            ctxt.errs,
        ).len() == 0),
        r matches Ok(c) ==> c.errs == ctxt.errs && c.bindings@ == ctxt.bindings@,
        forall|mi: int|
            #[trigger] is_first_main(ast.functions@, mi) ==> (r matches Err(e) ==> e.0
                == error_messages(ctxt.errs).len() + functions_check_count(
                ast.functions,
                ctxt.bindings@,
                ast.functions@.len() as int,
            ) + (if ty_output(ast.functions@[mi].body, ctxt.bindings@) == Some(Ty::Int) {
                0nat
            } else {
                1nat
            })),
        (forall|j: int|
            0 <= j < ast.functions@.len() ==> (#[trigger] ast.functions@[j].name@) != "main"@)
            ==> (r matches Err(e) ==> e.0 == error_messages(ctxt.errs).len()
            + functions_check_count(
            ast.functions,
            ctxt.bindings@,
            ast.functions@.len() as int,
        ) + 1),
{
    let mut ctxt = ctxt;
    let pass_rslt = check_program(ast, &mut ctxt);
    match ctxt.wrap_result(pass_rslt) {
        Ok((c, ())) => Ok(c),
        Err(e) => Err(e),
    }
}

} // verus!
