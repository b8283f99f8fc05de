//! Lowering: walking the typed syntax tree and emitting unresolved
//! instructions, whose control-flow operands are symbolic labels, while
//! tracking the compile-time stack shape and the label table.
//!
//! The central invariant: lowering an expression appends instructions whose
//! net effect is to push exactly one value, and the compile-time stack model
//! gains exactly one anonymous entry.

use vstd::prelude::*;

use crate::ast::{
    Binding, Bindings, Bool, ExprKind, Function, Ident, If, Integer, Multiplication, Program,
    Subtraction,
};
use crate::ast::Addition;
use crate::codec;
use crate::codec::Instruction;
use crate::context::{
    anon_entry, error_messages, spec_resolve_depth, stack_names, LabelResolutionError,
    LoweringContext,
};
use crate::text::undefined_variable_message;

verus! {

broadcast use vstd::seq_lib::group_seq_properties, vstd::std_specs::vec::axiom_vec_index_decreases;

// ---------------------------------------------------------------------------
// Unresolved instructions
// ---------------------------------------------------------------------------

/// A mirror of the wire instruction set in which `call`, `goto` and
/// `cond_jmp` reference label identifiers instead of absolute addresses.
#[derive(Clone, Copy, Debug, PartialEq, Eq, Structural)]
pub enum UnresolvedInstruction {
    PushI(i32),
    AddI,
    FStop,
    PushCopy(u16),
    Call(usize),
    Ret(u16, u16),
    ResV(u16),
    PopCopy(u16),
    Goto(usize),
    CondJmp(usize, usize, usize),
    Neg,
    Mul,
    Pop(u16),
}

impl UnresolvedInstruction {
    pub fn push_i(i: i32) -> (r: UnresolvedInstruction)
        ensures
            r == UnresolvedInstruction::PushI(i),
    {
        UnresolvedInstruction::PushI(i)
    }

    pub fn add_i() -> (r: UnresolvedInstruction)
        ensures
            r == UnresolvedInstruction::AddI,
    {
        UnresolvedInstruction::AddI
    }

    pub fn f_stop() -> (r: UnresolvedInstruction)
        ensures
            r == UnresolvedInstruction::FStop,
    {
        UnresolvedInstruction::FStop
    }

    pub fn neg() -> (r: UnresolvedInstruction)
        ensures
            r == UnresolvedInstruction::Neg,
    {
        UnresolvedInstruction::Neg
    }

    pub fn mul() -> (r: UnresolvedInstruction)
        ensures
            r == UnresolvedInstruction::Mul,
    {
        UnresolvedInstruction::Mul
    }

    pub fn cond_jmp(negative: usize, null: usize, positive: usize) -> (r: UnresolvedInstruction)
        ensures
            r == UnresolvedInstruction::CondJmp(negative, null, positive),
    {
        UnresolvedInstruction::CondJmp(negative, null, positive)
    }

    pub fn goto(label: usize) -> (r: UnresolvedInstruction)
        ensures
            r == UnresolvedInstruction::Goto(label),
    {
        UnresolvedInstruction::Goto(label)
    }

    pub fn call(label: usize) -> (r: UnresolvedInstruction)
        ensures
            r == UnresolvedInstruction::Call(label),
    {
        UnresolvedInstruction::Call(label)
    }

    pub fn res_v(count: u16) -> (r: UnresolvedInstruction)
        ensures
            r == UnresolvedInstruction::ResV(count),
    {
        UnresolvedInstruction::ResV(count)
    }

    /// The function epilogue's return: copy nothing extra, jump through the
    /// value directly under the result slot.
    pub fn ret() -> (r: UnresolvedInstruction)
        ensures
            r == UnresolvedInstruction::Ret(0, 0),
    {
        UnresolvedInstruction::Ret(0, 0)
    }

    pub fn pop_copy(offset: u16) -> (r: UnresolvedInstruction)
        ensures
            r == UnresolvedInstruction::PopCopy(offset),
    {
        UnresolvedInstruction::PopCopy(offset)
    }

    pub fn pop(count: u16) -> (r: UnresolvedInstruction)
        ensures
            r == UnresolvedInstruction::Pop(count),
    {
        UnresolvedInstruction::Pop(count)
    }

    pub fn push_copy(offset: u16) -> (r: UnresolvedInstruction)
        ensures
            r == UnresolvedInstruction::PushCopy(offset),
    {
        UnresolvedInstruction::PushCopy(offset)
    }
}

// ---------------------------------------------------------------------------
// Label bookkeeping, as mathematical predicates
// ---------------------------------------------------------------------------

/// Whether label `l` is set in the table, to a position within `lo ..= hi`.
pub open spec fn label_set_in(labels: Seq<Option<u32>>, l: usize, lo: int, hi: int) -> bool {
    &&& l < labels.len()
    &&& labels[l as int] matches Some(p) && lo <= p <= hi
}

/// Whether every label referenced by one instruction is set, to a position
/// within `lo ..= hi`.
pub open spec fn instr_label_refs_ok(
    i: UnresolvedInstruction,
    labels: Seq<Option<u32>>,
    lo: int,
    hi: int,
) -> bool {
    match i {
        UnresolvedInstruction::Call(l) => label_set_in(labels, l, lo, hi),
        UnresolvedInstruction::Goto(l) => label_set_in(labels, l, lo, hi),
        UnresolvedInstruction::CondJmp(a, b, c) => label_set_in(labels, a, lo, hi)
            && label_set_in(labels, b, lo, hi) && label_set_in(labels, c, lo, hi),
        _ => true,
    }
}

/// Whether every label referenced by the instructions in `from .. to` is
/// set, to a position within `lo ..= hi`.
pub open spec fn region_refs_ok(
    instrs: Seq<UnresolvedInstruction>,
    from: int,
    to: int,
    labels: Seq<Option<u32>>,
    lo: int,
    hi: int,
) -> bool {
    forall|k: int| from <= k < to ==> instr_label_refs_ok(#[trigger] instrs[k], labels, lo, hi)
}

/// Whether every set label points at a position no later than `n`.
pub open spec fn labels_le(labels: Seq<Option<u32>>, n: int) -> bool {
    forall|i: int|
        0 <= i < labels.len() ==> ((#[trigger] labels[i]) matches Some(p) ==> p <= n)
}

/// Whether every set label points at a position strictly before `n`.
pub open spec fn labels_lt(labels: Seq<Option<u32>>, n: int) -> bool {
    forall|i: int|
        0 <= i < labels.len() ==> ((#[trigger] labels[i]) matches Some(p) ==> p < n)
}

/// Whether the second table extends the first: labels are only appended, a
/// label once set keeps its position, and a label handed out earlier but
/// not yet positioned is left alone (each lowering step positions only the
/// labels it allocated itself).
pub open spec fn label_extends(l0: Seq<Option<u32>>, l1: Seq<Option<u32>>) -> bool {
    &&& l0.len() <= l1.len()
    &&& forall|i: int| 0 <= i < l0.len() ==> #[trigger] l1[i] == l0[i]
}

proof fn lemma_label_extends_trans(l0: Seq<Option<u32>>, l1: Seq<Option<u32>>, l2: Seq<
    Option<u32>,
>)
    requires
        label_extends(l0, l1),
        label_extends(l1, l2),
    ensures
        label_extends(l0, l2),
{
}

proof fn lemma_prefix_trans(
    a: Seq<UnresolvedInstruction>,
    b: Seq<UnresolvedInstruction>,
    c: Seq<UnresolvedInstruction>,
)
    requires
        a.is_prefix_of(b),
        b.is_prefix_of(c),
    ensures
        a.is_prefix_of(c),
{
    assert(a =~= c.subrange(0, a.len() as int));
}

/// Whether every label set in the first table is set identically in the
/// second: setting further labels or handing out new ones is allowed.
pub open spec fn labels_preserve_set(l0: Seq<Option<u32>>, l1: Seq<Option<u32>>) -> bool {
    &&& l0.len() <= l1.len()
    &&& forall|i: int|
        0 <= i < l0.len() ==> ((#[trigger] l0[i]) matches Some(p) ==> l1[i] == Some(p))
}

proof fn lemma_preserve_set_trans(
    l0: Seq<Option<u32>>,
    l1: Seq<Option<u32>>,
    l2: Seq<Option<u32>>,
)
    requires
        labels_preserve_set(l0, l1),
        labels_preserve_set(l1, l2),
    ensures
        labels_preserve_set(l0, l2),
{
}

/// Reference validity survives setting further labels and bound widening.
proof fn lemma_refs_mono(
    i: UnresolvedInstruction,
    l0: Seq<Option<u32>>,
    l1: Seq<Option<u32>>,
    lo0: int,
    hi0: int,
    lo1: int,
    hi1: int,
)
    requires
        instr_label_refs_ok(i, l0, lo0, hi0),
        labels_preserve_set(l0, l1),
        lo1 <= lo0,
        hi0 <= hi1,
    ensures
        instr_label_refs_ok(i, l1, lo1, hi1),
{
}

/// Region reference validity survives appending instructions, extending the
/// label table and widening the bounds.
proof fn lemma_region_refs_mono(
    instrs0: Seq<UnresolvedInstruction>,
    instrs1: Seq<UnresolvedInstruction>,
    from: int,
    to: int,
    l0: Seq<Option<u32>>,
    l1: Seq<Option<u32>>,
    lo0: int,
    hi0: int,
    lo1: int,
    hi1: int,
)
    requires
        region_refs_ok(instrs0, from, to, l0, lo0, hi0),
        0 <= from,
        to <= instrs0.len(),
        instrs0.is_prefix_of(instrs1),
        labels_preserve_set(l0, l1),
        lo1 <= lo0,
        hi0 <= hi1,
    ensures
        region_refs_ok(instrs1, from, to, l1, lo1, hi1),
{
    assert forall|k: int| from <= k < to implies instr_label_refs_ok(
        #[trigger] instrs1[k],
        l1,
        lo1,
        hi1,
    ) by {
        assert(instrs1[k] == instrs0[k]);
        lemma_refs_mono(instrs0[k], l0, l1, lo0, hi0, lo1, hi1);
    }
}

// ---------------------------------------------------------------------------
// What lowering emits, as mathematical functions
// ---------------------------------------------------------------------------

/// Whether an expression is structurally fit for lowering: every `let` list
/// holds between one binding and as many as a `pop_copy` operand can count.
pub open spec fn wf_expr(e: ExprKind) -> bool
    decreases e, 1int,
{
    match e {
        ExprKind::Integer(_) => true,
        ExprKind::Bool(_) => true,
        ExprKind::Ident(_) => true,
        ExprKind::Addition(a) => wf_expr(*a.lhs) && wf_expr(*a.rhs),
        ExprKind::Subtraction(s) => wf_expr(*s.lhs) && wf_expr(*s.rhs),
        ExprKind::Multiplication(m) => wf_expr(*m.lhs) && wf_expr(*m.rhs),
        ExprKind::If(i) => wf_expr(*i.condition) && wf_expr(*i.consequent) && wf_expr(
            *i.alternative,
        ),
        ExprKind::Bindings(b) => {
            &&& 1 <= b.defines@.len() <= u16::MAX
            &&& wf_defines(b.defines, b.defines@.len() as int)
            &&& wf_expr(*b.ending)
        },
    }
}

/// Whether the values of the first `n` bindings are structurally fit.
pub open spec fn wf_defines(defines: Vec<Binding>, n: int) -> bool
    decreases defines, n,
{
    if n <= 0 || n > defines@.len() {
        true
    } else {
        wf_defines(defines, n - 1) && wf_expr(defines[n - 1].value)
    }
}

/// The number of instructions lowering an expression emits when it
/// succeeds; a failed lowering emits at most this many.
pub open spec fn emit_count(e: ExprKind) -> nat
    decreases e, 1int,
{
    match e {
        ExprKind::Integer(_) => 1,
        ExprKind::Bool(_) => 1,
        ExprKind::Ident(_) => 1,
        ExprKind::Addition(a) => emit_count(*a.lhs) + emit_count(*a.rhs) + 1,
        ExprKind::Subtraction(s) => emit_count(*s.lhs) + emit_count(*s.rhs) + 2,
        ExprKind::Multiplication(m) => emit_count(*m.lhs) + emit_count(*m.rhs) + 1,
        ExprKind::If(i) => emit_count(*i.condition) + emit_count(*i.consequent) + emit_count(
            *i.alternative,
        ) + 2,
        ExprKind::Bindings(b) => defines_emit_count(b.defines, b.defines@.len() as int)
            + emit_count(*b.ending) + 2,
    }
}

/// The number of instructions the first `n` binding values emit.
pub open spec fn defines_emit_count(defines: Vec<Binding>, n: int) -> nat
    decreases defines, n,
{
    if n <= 0 || n > defines@.len() {
        0
    } else {
        defines_emit_count(defines, n - 1) + emit_count(defines[n - 1].value)
    }
}

/// Whether lowering an expression succeeds against a given compile-time
/// stack: every identifier resolves to a bound name at an addressable
/// depth.
pub open spec fn lowerable(e: ExprKind, stack: Seq<Seq<char>>) -> bool
    decreases e, 1int,
{
    match e {
        ExprKind::Integer(_) => true,
        ExprKind::Bool(_) => true,
        ExprKind::Ident(n) => spec_resolve_depth(stack, n.0@) matches Some(d) && d <= u16::MAX,
        ExprKind::Addition(a) => lowerable(*a.lhs, stack) && lowerable(
            *a.rhs,
            stack.push(anon_entry()),
        ),
        ExprKind::Subtraction(s) => lowerable(*s.lhs, stack) && lowerable(
            *s.rhs,
            stack.push(anon_entry()),
        ),
        ExprKind::Multiplication(m) => lowerable(*m.lhs, stack) && lowerable(
            *m.rhs,
            stack.push(anon_entry()),
        ),
        ExprKind::If(i) => lowerable(*i.condition, stack) && lowerable(*i.consequent, stack)
            && lowerable(*i.alternative, stack),
        ExprKind::Bindings(b) => {
            &&& defines_lowerable(b.defines, stack, b.defines@.len() as int)
            &&& lowerable(*b.ending, lower_stack_upto(b.defines, stack, b.defines@.len() as int))
        },
    }
}

/// The compile-time stack after the first `n` bindings of a `let` list took
/// effect: one named entry per binding.
pub open spec fn lower_stack_upto(defines: Vec<Binding>, stack: Seq<Seq<char>>, n: int) -> Seq<
    Seq<char>,
>
    decreases defines, n,
{
    if n <= 0 || n > defines@.len() {
        stack
    } else {
        lower_stack_upto(defines, stack, n - 1).push(defines[n - 1].name@)
    }
}

/// Whether the values of the first `n` bindings lower against the stacks
/// built so far.
pub open spec fn defines_lowerable(defines: Vec<Binding>, stack: Seq<Seq<char>>, n: int) -> bool
    decreases defines, n,
{
    if n <= 0 || n > defines@.len() {
        true
    } else {
        &&& defines_lowerable(defines, stack, n - 1)
        &&& lowerable(defines[n - 1].value, lower_stack_upto(defines, stack, n - 1))
    }
}

/// Growing the compile-time stack pushes exactly one entry per binding.
proof fn lemma_lower_stack_upto_prefix(defines: Vec<Binding>, stack: Seq<Seq<char>>, n: int)
    requires
        0 <= n <= defines@.len(),
    ensures
        lower_stack_upto(defines, stack, n).len() == stack.len() + n,
        lower_stack_upto(defines, stack, n).take(stack.len() as int) =~= stack,
    decreases n,
{
    if n > 0 {
        lemma_lower_stack_upto_prefix(defines, stack, n - 1);
    }
}

// ---------------------------------------------------------------------------
// The emitted instructions and labels, as mathematical functions
// ---------------------------------------------------------------------------

/// The number of labels lowering an expression hands out when it succeeds.
pub open spec fn label_count(e: ExprKind) -> nat
    decreases e, 1int,
{
    match e {
        ExprKind::Integer(_) => 0,
        ExprKind::Bool(_) => 0,
        ExprKind::Ident(_) => 0,
        ExprKind::Addition(a) => label_count(*a.lhs) + label_count(*a.rhs),
        ExprKind::Subtraction(s) => label_count(*s.lhs) + label_count(*s.rhs),
        ExprKind::Multiplication(m) => label_count(*m.lhs) + label_count(*m.rhs),
        ExprKind::If(i) => label_count(*i.condition) + 3 + label_count(*i.consequent)
            + label_count(*i.alternative),
        ExprKind::Bindings(b) => defines_label_count(b.defines, b.defines@.len() as int)
            + label_count(*b.ending),
    }
}

/// The number of labels the first `n` binding values hand out.
pub open spec fn defines_label_count(defines: Vec<Binding>, n: int) -> nat
    decreases defines, n,
{
    if n <= 0 || n > defines@.len() {
        0
    } else {
        defines_label_count(defines, n - 1) + label_count(defines[n - 1].value)
    }
}

/// The instructions a successful lowering of an expression emits, with the
/// compile-time stack `stack` in force and `nl` labels already handed out.
/// This is the emission table: a literal pushes itself, a variable copies
/// its slot, arithmetic lowers both operands and applies the operator, a
/// conditional jumps three ways on the condition (its negative and positive
/// arms share the consequent, conditions being 0 or 1), and a `let` list
/// writes the result over its first slot and drops the rest.
pub open spec fn lowered_code(e: ExprKind, stack: Seq<Seq<char>>, nl: nat) -> Seq<
    UnresolvedInstruction,
>
    decreases e, 1int,
{
    match e {
        ExprKind::Integer(v) => seq![UnresolvedInstruction::PushI(v.0)],
        ExprKind::Bool(b) => seq![
            UnresolvedInstruction::PushI(
                if b.0 {
                    1int
                } else {
                    0int
                } as i32,
            ),
        ],
        ExprKind::Ident(n) => match spec_resolve_depth(stack, n.0@) {
            Some(d) => seq![UnresolvedInstruction::PushCopy(d as u16)],
            None => Seq::empty(),
        },
        ExprKind::Addition(a) => lowered_code(*a.lhs, stack, nl) + lowered_code(
            *a.rhs,
            stack.push(anon_entry()),
            nl + label_count(*a.lhs),
        ) + seq![UnresolvedInstruction::AddI],
        ExprKind::Subtraction(s) => lowered_code(*s.lhs, stack, nl) + lowered_code(
            *s.rhs,
            stack.push(anon_entry()),
            nl + label_count(*s.lhs),
        ) + seq![UnresolvedInstruction::Neg, UnresolvedInstruction::AddI],
        ExprKind::Multiplication(m) => lowered_code(*m.lhs, stack, nl) + lowered_code(
            *m.rhs,
            stack.push(anon_entry()),
            nl + label_count(*m.lhs),
        ) + seq![UnresolvedInstruction::Mul],
        ExprKind::If(i) => {
            let cs = (nl + label_count(*i.condition)) as usize;
            lowered_code(*i.condition, stack, nl) + seq![
                UnresolvedInstruction::CondJmp(cs, (cs + 1) as usize, cs),
            ] + lowered_code(*i.consequent, stack, (cs + 3) as nat) + seq![
                UnresolvedInstruction::Goto((cs + 2) as usize),
            ] + lowered_code(
                *i.alternative,
                stack,
                (cs + 3) as nat + label_count(*i.consequent),
            )
        },
        ExprKind::Bindings(b) => {
            let n = b.defines@.len() as int;
            lowered_defines(b.defines, stack, nl, n) + lowered_code(
                *b.ending,
                lower_stack_upto(b.defines, stack, n),
                nl + defines_label_count(b.defines, n),
            ) + seq![
                UnresolvedInstruction::PopCopy(n as u16),
                UnresolvedInstruction::Pop((n - 1) as u16),
            ]
        },
    }
}

/// The instructions the first `n` binding values of a `let` list emit.
pub open spec fn lowered_defines(
    defines: Vec<Binding>,
    stack: Seq<Seq<char>>,
    nl: nat,
    n: int,
) -> Seq<UnresolvedInstruction>
    decreases defines, n,
{
    if n <= 0 || n > defines@.len() {
        Seq::empty()
    } else {
        lowered_defines(defines, stack, nl, n - 1) + lowered_code(
            defines[n - 1].value,
            lower_stack_upto(defines, stack, n - 1),
            nl + defines_label_count(defines, n - 1),
        )
    }
}

/// The label-table entries a successful lowering of an expression appends,
/// with the next instruction going at index `base`: each conditional adds
/// its consequent-start, alternative-start and consequent-end labels, each
/// set to the instruction index where that point of the layout falls.
pub open spec fn lowered_labels(e: ExprKind, base: int) -> Seq<Option<u32>>
    decreases e, 1int,
{
    match e {
        ExprKind::Integer(_) => Seq::empty(),
        ExprKind::Bool(_) => Seq::empty(),
        ExprKind::Ident(_) => Seq::empty(),
        ExprKind::Addition(a) => lowered_labels(*a.lhs, base) + lowered_labels(
            *a.rhs,
            base + emit_count(*a.lhs),
        ),
        ExprKind::Subtraction(s) => lowered_labels(*s.lhs, base) + lowered_labels(
            *s.rhs,
            base + emit_count(*s.lhs),
        ),
        ExprKind::Multiplication(m) => lowered_labels(*m.lhs, base) + lowered_labels(
            *m.rhs,
            base + emit_count(*m.lhs),
        ),
        ExprKind::If(i) => {
            let consequent_start = base + emit_count(*i.condition) + 1;
            let alternative_start = consequent_start + emit_count(*i.consequent) + 1;
            let consequent_end = alternative_start + emit_count(*i.alternative);
            lowered_labels(*i.condition, base) + seq![
                Some(consequent_start as u32),
                Some(alternative_start as u32),
                Some(consequent_end as u32),
            ] + lowered_labels(*i.consequent, consequent_start) + lowered_labels(
                *i.alternative,
                alternative_start,
            )
        },
        ExprKind::Bindings(b) => {
            let n = b.defines@.len() as int;
            defines_labels(b.defines, base, n) + lowered_labels(
                *b.ending,
                base + defines_emit_count(b.defines, n),
            )
        },
    }
}

/// The label-table entries the first `n` binding values append.
pub open spec fn defines_labels(defines: Vec<Binding>, base: int, n: int) -> Seq<Option<u32>>
    decreases defines, n,
{
    if n <= 0 || n > defines@.len() {
        Seq::empty()
    } else {
        defines_labels(defines, base, n - 1) + lowered_labels(
            defines[n - 1].value,
            base + defines_emit_count(defines, n - 1),
        )
    }
}

/// The number of diagnostics lowering an expression records: one per
/// variable that is unbound or deeper than a `push_copy` operand can
/// address.  Failed subtrees still leave their compile-time stack entries,
/// so the stacks here are the same on every path.
pub open spec fn lower_count(e: ExprKind, stack: Seq<Seq<char>>) -> nat
    decreases e, 1int,
{
    match e {
        ExprKind::Integer(_) => 0,
        ExprKind::Bool(_) => 0,
        ExprKind::Ident(n) => if spec_resolve_depth(stack, n.0@) matches Some(d) && d
            <= u16::MAX {
            0
        } else {
            1
        },
        ExprKind::Addition(a) => lower_count(*a.lhs, stack) + lower_count(
            *a.rhs,
            stack.push(anon_entry()),
        ),
        ExprKind::Subtraction(s) => lower_count(*s.lhs, stack) + lower_count(
            *s.rhs,
            stack.push(anon_entry()),
        ),
        ExprKind::Multiplication(m) => lower_count(*m.lhs, stack) + lower_count(
            *m.rhs,
            stack.push(anon_entry()),
        ),
        ExprKind::If(i) => lower_count(*i.condition, stack) + lower_count(*i.consequent, stack)
            + lower_count(*i.alternative, stack),
        ExprKind::Bindings(b) => {
            let n = b.defines@.len() as int;
            defines_lower_count(b.defines, stack, n) + lower_count(
                *b.ending,
                lower_stack_upto(b.defines, stack, n),
            )
        },
    }
}

/// The diagnostics the first `n` binding values record.
pub open spec fn defines_lower_count(defines: Vec<Binding>, stack: Seq<Seq<char>>, n: int) -> nat
    decreases defines, n,
{
    if n <= 0 || n > defines@.len() {
        0
    } else {
        defines_lower_count(defines, stack, n - 1) + lower_count(
            defines[n - 1].value,
            lower_stack_upto(defines, stack, n - 1),
        )
    }
}

// ---------------------------------------------------------------------------
// The common shape of every expression-lowering step
// ---------------------------------------------------------------------------

/// What lowering one expression guarantees: instructions are only appended
/// and number exactly `emit_count` on success; the compile-time stack gains
/// exactly one anonymous entry; the label table only grows and set labels
/// keep positions bounded by the instruction count; every label referenced
/// by an appended instruction is set within the appended region; success is
/// exactly `lowerable`; and diagnostics are only appended, none on success.
pub open spec fn lower_post(
    e: ExprKind,
    instrs0: Seq<UnresolvedInstruction>,
    instrs1: Seq<UnresolvedInstruction>,
    c0: LoweringContext,
    c1: LoweringContext,
    ok: bool,
) -> bool {
    &&& instrs0.is_prefix_of(instrs1)
    &&& instrs1.len() <= instrs0.len() + emit_count(e)
    &&& (ok ==> instrs1.len() == instrs0.len() + emit_count(e))
    &&& stack_names(c1.stack) =~= stack_names(c0.stack).push(anon_entry())
    &&& label_extends(c0.labels.slots@, c1.labels.slots@)
    &&& labels_le(c1.labels.slots@, instrs1.len() as int)
    &&& region_refs_ok(
        instrs1,
        instrs0.len() as int,
        instrs1.len() as int,
        c1.labels.slots@,
        instrs0.len() as int,
        instrs1.len() as int,
    )
    &&& c1.labels.names@ == c0.labels.names@
    &&& (ok <==> lowerable(e, stack_names(c0.stack)))
    &&& (ok ==> instrs1 == instrs0 + lowered_code(
        e,
        stack_names(c0.stack),
        c0.labels.slots@.len() as nat,
    ))
    &&& (ok ==> c1.labels.slots@ == c0.labels.slots@ + lowered_labels(e, instrs0.len() as int))
    &&& (ok ==> c1.errs == c0.errs)
    &&& (!ok ==> error_messages(c1.errs).len() > error_messages(c0.errs).len())
    &&& error_messages(c1.errs).len() == error_messages(c0.errs).len() + lower_count(
        e,
        stack_names(c0.stack),
    )
    &&& error_messages(c0.errs).is_prefix_of(error_messages(c1.errs))
}

/// A successful lowering appends exactly one label-table entry per label it
/// hands out.
pub proof fn lemma_lowered_labels_len(e: ExprKind, base: int)
    ensures
        lowered_labels(e, base).len() == label_count(e),
    decreases e, 1int,
{
    match e {
        ExprKind::Addition(a) => {
            lemma_lowered_labels_len(*a.lhs, base);
            lemma_lowered_labels_len(*a.rhs, base + emit_count(*a.lhs) as int);
        },
        ExprKind::Subtraction(s) => {
            lemma_lowered_labels_len(*s.lhs, base);
            lemma_lowered_labels_len(*s.rhs, base + emit_count(*s.lhs) as int);
        },
        ExprKind::Multiplication(m) => {
            lemma_lowered_labels_len(*m.lhs, base);
            lemma_lowered_labels_len(*m.rhs, base + emit_count(*m.lhs) as int);
        },
        ExprKind::If(i) => {
            let consequent_start = base + emit_count(*i.condition) + 1;
            let alternative_start = consequent_start + emit_count(*i.consequent) + 1;
            lemma_lowered_labels_len(*i.condition, base);
            lemma_lowered_labels_len(*i.consequent, consequent_start);
            lemma_lowered_labels_len(*i.alternative, alternative_start);
        },
        ExprKind::Bindings(b) => {
            let n = b.defines@.len() as int;
            lemma_defines_labels_len(b.defines, base, n);
            lemma_lowered_labels_len(*b.ending, base + defines_emit_count(b.defines, n) as int);
        },
        _ => {},
    }
}

pub proof fn lemma_defines_labels_len(defines: Vec<Binding>, base: int, n: int)
    ensures
        defines_labels(defines, base, n).len() == defines_label_count(defines, n),
    decreases defines, n,
{
    if 0 < n <= defines@.len() {
        lemma_defines_labels_len(defines, base, n - 1);
        lemma_lowered_labels_len(
            defines[n - 1].value,
            base + defines_emit_count(defines, n - 1) as int,
        );
    }
}

/// The full stop of every lowered program sits exactly where `main`'s body
/// ends, on code that starts at instruction 0: the emission places
/// `f_stop` at the index after `main`'s body, and the program's first
/// label, `main`'s entry, at position 0.
pub proof fn lemma_program_code_full_stop(p: Program, mi: int)
    requires
        crate::type_checker::is_first_main(p.functions@, mi),
        lowerable(p.functions@[mi].body, Seq::empty()),
    ensures
        program_code(p, mi)[emit_count(p.functions@[mi].body) as int]
            == UnresolvedInstruction::FStop,
        program_labels(p, mi)[0] == Some(0u32),
{
    lemma_lowered_code_len(p.functions@[mi].body, Seq::empty(), 1);
}

/// What lowering one expression asks of its caller: a structurally fit
/// expression (spec-allowed shapes only: the inputs on which the original
/// aborts are left out), room in the wire format's 32-bit address space
/// for what it emits — a machine limit — and a label table whose positions
/// stay within the instructions so far.
pub open spec fn lower_pre(
    e: ExprKind,
    instrs0: Seq<UnresolvedInstruction>,
    c0: LoweringContext,
) -> bool {
    &&& wf_expr(e)
    &&& instrs0.len() + emit_count(e) <= u32::MAX
    &&& labels_le(c0.labels.slots@, instrs0.len() as int)
}

impl ExprKind {
    /// Lowers one expression: appends the instructions that compute it and
    /// leave its value on top of the runtime stack.
    pub fn lower(
        &self,
        collector: &mut Vec<UnresolvedInstruction>,
        ctxt: &mut LoweringContext,
    ) -> (r: Result<(), ()>)
        requires
            lower_pre(*self, old(collector)@, *old(ctxt)),
        ensures
            lower_post(
                *self,
                old(collector)@,
                final(collector)@,
                *old(ctxt),
                *final(ctxt),
                r is Ok,
            ),
        decreases *self, 3int,
    {
        match self {
            ExprKind::Addition(e) => e.lower(collector, ctxt),
            ExprKind::Integer(e) => e.lower(collector, ctxt),
            ExprKind::Subtraction(e) => e.lower(collector, ctxt),
            ExprKind::If(e) => e.lower(collector, ctxt),
            ExprKind::Multiplication(e) => e.lower(collector, ctxt),
            ExprKind::Bindings(e) => e.lower(collector, ctxt),
            ExprKind::Ident(e) => e.lower(collector, ctxt),
            ExprKind::Bool(e) => e.lower(collector, ctxt),
        }
    }
}

impl Integer {
    /// An integer literal lowers to a single `push_i`.
    pub fn lower(
        &self,
        collector: &mut Vec<UnresolvedInstruction>,
        ctxt: &mut LoweringContext,
    ) -> (r: Result<(), ()>)
        requires
            lower_pre(ExprKind::Integer(*self), old(collector)@, *old(ctxt)),
        ensures
            lower_post(
                ExprKind::Integer(*self),
                old(collector)@,
                final(collector)@,
                *old(ctxt),
                *final(ctxt),
                r is Ok,
            ),
            final(collector)@ == old(collector)@.push(UnresolvedInstruction::PushI(self.0)),
            r is Ok,
    {
        let instr = UnresolvedInstruction::push_i(self.value());
        collector.push(instr);
        ctxt.stack_mut().push_anonymous();
        proof {
            let e = ExprKind::Integer(*self);
            assert(collector@ =~= old(collector)@ + lowered_code(
                e,
                stack_names(old(ctxt).stack),
                old(ctxt).labels.slots@.len() as nat,
            ));
            assert(ctxt.labels.slots@ =~= old(ctxt).labels.slots@ + lowered_labels(
                e,
                old(collector)@.len() as int,
            ));
        }
        Ok(())
    }
}

impl Bool {
    /// A boolean literal lowers to pushing 1 for true or 0 for false.
    pub fn lower(
        &self,
        collector: &mut Vec<UnresolvedInstruction>,
        ctxt: &mut LoweringContext,
    ) -> (r: Result<(), ()>)
        requires
            lower_pre(ExprKind::Bool(*self), old(collector)@, *old(ctxt)),
        ensures
            lower_post(
                ExprKind::Bool(*self),
                old(collector)@,
                final(collector)@,
                *old(ctxt),
                *final(ctxt),
                r is Ok,
            ),
            final(collector)@ == old(collector)@.push(
                UnresolvedInstruction::PushI(if self.0 { 1int } else { 0int } as i32),
            ),
            r is Ok,
    {
        let num: i32 = if self.value() {
            1
        } else {
            0
        };
        collector.push(UnresolvedInstruction::push_i(num));
        ctxt.stack_mut().push_anonymous();
        proof {
            let e = ExprKind::Bool(*self);
            assert(collector@ =~= old(collector)@ + lowered_code(
                e,
                stack_names(old(ctxt).stack),
                old(ctxt).labels.slots@.len() as nat,
            ));
            assert(ctxt.labels.slots@ =~= old(ctxt).labels.slots@ + lowered_labels(
                e,
                old(collector)@.len() as int,
            ));
        }
        Ok(())
    }
}

impl Ident {
    /// A variable reference lowers to `push_copy` of the depth its binding
    /// lives at; an unbound or unaddressable name emits nothing and records
    /// a diagnostic, though the compile-time stack still gains its entry so
    /// sibling offsets stay right.
    pub fn lower(
        &self,
        collector: &mut Vec<UnresolvedInstruction>,
        ctxt: &mut LoweringContext,
    ) -> (r: Result<(), ()>)
        requires
            lower_pre(ExprKind::Ident(*self), old(collector)@, *old(ctxt)),
        ensures
            lower_post(
                ExprKind::Ident(*self),
                old(collector)@,
                final(collector)@,
                *old(ctxt),
                *final(ctxt),
                r is Ok,
            ),
            r is Err ==> final(collector)@ == old(collector)@,
            r is Err ==> error_messages(final(ctxt).errs) == error_messages(
                old(ctxt).errs,
            ).push("Undefined variable `"@ + self.0@ + "`"@),
    {
        let stack_offset = match ctxt.stack().resolve(self.name()) {
            Some(offset) => offset,
            None => {
                let msg = undefined_variable_message(self.name());
                ctxt.errs.add_string(msg);
                ctxt.stack_mut().push_anonymous();
                return Err(());
            },
        };
        collector.push(UnresolvedInstruction::push_copy(stack_offset));
        ctxt.stack_mut().push_anonymous();
        proof {
            let e = ExprKind::Ident(*self);
            assert(collector@ =~= old(collector)@ + lowered_code(
                e,
                stack_names(old(ctxt).stack),
                old(ctxt).labels.slots@.len() as nat,
            ));
            assert(ctxt.labels.slots@ =~= old(ctxt).labels.slots@ + lowered_labels(
                e,
                old(collector)@.len() as int,
            ));
        }
        Ok(())
    }
}

/// Lowers the two operands of a binary integer operator: left, then right
/// on top of it.
fn lower_operands(
    lhs: &ExprKind,
    rhs: &ExprKind,
    collector: &mut Vec<UnresolvedInstruction>,
    ctxt: &mut LoweringContext,
    Ghost(parent): Ghost<ExprKind>,
) -> (r: Result<(), ()>)
    requires
        (decreases_to!(parent => *lhs)),
        (decreases_to!(parent => *rhs)),
        wf_expr(*lhs),
        wf_expr(*rhs),
        old(collector)@.len() + emit_count(*lhs) + emit_count(*rhs) <= u32::MAX,
        labels_le(old(ctxt).labels.slots@, old(collector)@.len() as int),
    ensures
        old(collector)@.is_prefix_of(final(collector)@),
        final(collector)@.len() <= old(collector)@.len() + emit_count(*lhs) + emit_count(*rhs),
        r is Ok ==> final(collector)@.len() == old(collector)@.len() + emit_count(*lhs)
            + emit_count(*rhs),
        stack_names(final(ctxt).stack) =~= stack_names(old(ctxt).stack).push(anon_entry()).push(
            anon_entry(),
        ),
        label_extends(old(ctxt).labels.slots@, final(ctxt).labels.slots@),
        labels_le(final(ctxt).labels.slots@, final(collector)@.len() as int),
        region_refs_ok(
            final(collector)@,
            old(collector)@.len() as int,
            final(collector)@.len() as int,
            final(ctxt).labels.slots@,
            old(collector)@.len() as int,
            final(collector)@.len() as int,
        ),
        final(ctxt).labels.names@ == old(ctxt).labels.names@,
        (r is Ok <==> (lowerable(*lhs, stack_names(old(ctxt).stack)) && lowerable(
            *rhs,
            stack_names(old(ctxt).stack).push(anon_entry()),
        ))),
        r is Ok ==> final(collector)@ == old(collector)@ + lowered_code(
            *lhs,
            stack_names(old(ctxt).stack),
            old(ctxt).labels.slots@.len() as nat,
        ) + lowered_code(
            *rhs,
            stack_names(old(ctxt).stack).push(anon_entry()),
            old(ctxt).labels.slots@.len() as nat + label_count(*lhs),
        ),
        r is Ok ==> final(ctxt).labels.slots@ == old(ctxt).labels.slots@ + lowered_labels(
            *lhs,
            old(collector)@.len() as int,
        ) + lowered_labels(*rhs, old(collector)@.len() + emit_count(*lhs) as int),
        r is Ok ==> final(ctxt).errs == old(ctxt).errs,
        r is Err ==> error_messages(final(ctxt).errs).len() > error_messages(
            old(ctxt).errs,
        ).len(),
        error_messages(final(ctxt).errs).len() == error_messages(old(ctxt).errs).len()
            + lower_count(*lhs, stack_names(old(ctxt).stack)) + lower_count(
            *rhs,
            stack_names(old(ctxt).stack).push(anon_entry()),
        ),
        error_messages(old(ctxt).errs).is_prefix_of(error_messages(final(ctxt).errs)),
    decreases parent, 1int,
{
    let ghost i0 = collector@;
    let ghost c0 = *ctxt;
    let left_exp = lhs.lower(collector, ctxt);
    let ghost i1 = collector@;
    let ghost c1 = *ctxt;
    let right_exp = rhs.lower(collector, ctxt);
    proof {
        lemma_label_extends_trans(c0.labels.slots@, c1.labels.slots@, ctxt.labels.slots@);
        lemma_region_refs_mono(
            i1,
            collector@,
            i0.len() as int,
            i1.len() as int,
            c1.labels.slots@,
            ctxt.labels.slots@,
            i0.len() as int,
            i1.len() as int,
            i0.len() as int,
            collector@.len() as int,
        );
        if left_exp is Ok && right_exp is Ok {
            lemma_lowered_labels_len(*lhs, i0.len() as int);
            assert(stack_names(c1.stack) == stack_names(c0.stack).push(anon_entry()));
            assert(collector@ =~= i0 + lowered_code(
                *lhs,
                stack_names(c0.stack),
                c0.labels.slots@.len() as nat,
            ) + lowered_code(
                *rhs,
                stack_names(c0.stack).push(anon_entry()),
                c0.labels.slots@.len() as nat + label_count(*lhs),
            ));
            assert(ctxt.labels.slots@ =~= c0.labels.slots@ + lowered_labels(
                *lhs,
                i0.len() as int,
            ) + lowered_labels(*rhs, i0.len() + emit_count(*lhs) as int));
        }
    }
    match (left_exp, right_exp) {
        (Ok(()), Ok(())) => Ok(()),
        _ => Err(()),
    }
}

impl Addition {
    /// An addition lowers its operands and adds them.
    pub fn lower(
        &self,
        collector: &mut Vec<UnresolvedInstruction>,
        ctxt: &mut LoweringContext,
    ) -> (r: Result<(), ()>)
        requires
            lower_pre(ExprKind::Addition(*self), old(collector)@, *old(ctxt)),
        ensures
            lower_post(
                ExprKind::Addition(*self),
                old(collector)@,
                final(collector)@,
                *old(ctxt),
                *final(ctxt),
                r is Ok,
            ),
        decreases ExprKind::Addition(*self), 2int,
    {
        let ghost i0 = collector@;
        let ghost c0 = *ctxt;
        let operands = lower_operands(
            self.left(),
            self.right(),
            collector,
            ctxt,
            Ghost(ExprKind::Addition(*self)),
        );
        let ghost i2 = collector@;
        let ghost c2 = *ctxt;
        collector.push(UnresolvedInstruction::add_i());
        if let Err(_) = ctxt.stack_mut().pop_top_anonymous() {
            proof {
                assert(false);
            }
        }
        proof {
            assert(stack_names(ctxt.stack) =~= stack_names(c0.stack).push(anon_entry()));
            lemma_region_refs_mono(
                i2,
                collector@,
                i0.len() as int,
                i2.len() as int,
                c2.labels.slots@,
                ctxt.labels.slots@,
                i0.len() as int,
                i2.len() as int,
                i0.len() as int,
                collector@.len() as int,
            );
            if operands is Ok {
                let e = ExprKind::Addition(*self);
                assert(collector@ =~= i0 + lowered_code(
                    e,
                    stack_names(c0.stack),
                    c0.labels.slots@.len() as nat,
                ));
                assert(ctxt.labels.slots@ =~= c0.labels.slots@ + lowered_labels(
                    e,
                    i0.len() as int,
                ));
            }
        }
        operands
    }
}

impl Subtraction {
    /// A subtraction lowers its operands, negates the right one and adds.
    pub fn lower(
        &self,
        collector: &mut Vec<UnresolvedInstruction>,
        ctxt: &mut LoweringContext,
    ) -> (r: Result<(), ()>)
        requires
            lower_pre(ExprKind::Subtraction(*self), old(collector)@, *old(ctxt)),
        ensures
            lower_post(
                ExprKind::Subtraction(*self),
                old(collector)@,
                final(collector)@,
                *old(ctxt),
                *final(ctxt),
                r is Ok,
            ),
        decreases ExprKind::Subtraction(*self), 2int,
    {
        let ghost i0 = collector@;
        let ghost c0 = *ctxt;
        let operands = lower_operands(
            self.left(),
            self.right(),
            collector,
            ctxt,
            Ghost(ExprKind::Subtraction(*self)),
        );
        let ghost i2 = collector@;
        let ghost c2 = *ctxt;
        collector.push(UnresolvedInstruction::neg());
        collector.push(UnresolvedInstruction::add_i());
        if let Err(_) = ctxt.stack_mut().pop_top_anonymous() {
            proof {
                assert(false);
            }
        }
        proof {
            assert(stack_names(ctxt.stack) =~= stack_names(c0.stack).push(anon_entry()));
            lemma_region_refs_mono(
                i2,
                collector@,
                i0.len() as int,
                i2.len() as int,
                c2.labels.slots@,
                ctxt.labels.slots@,
                i0.len() as int,
                i2.len() as int,
                i0.len() as int,
                collector@.len() as int,
            );
            if operands is Ok {
                let e = ExprKind::Subtraction(*self);
                assert(collector@ =~= i0 + lowered_code(
                    e,
                    stack_names(c0.stack),
                    c0.labels.slots@.len() as nat,
                ));
                assert(ctxt.labels.slots@ =~= c0.labels.slots@ + lowered_labels(
                    e,
                    i0.len() as int,
                ));
            }
        }
        operands
    }
}

impl Multiplication {
    /// A multiplication lowers its operands and multiplies them.
    pub fn lower(
        &self,
        collector: &mut Vec<UnresolvedInstruction>,
        ctxt: &mut LoweringContext,
    ) -> (r: Result<(), ()>)
        requires
            lower_pre(ExprKind::Multiplication(*self), old(collector)@, *old(ctxt)),
        ensures
            lower_post(
                ExprKind::Multiplication(*self),
                old(collector)@,
                final(collector)@,
                *old(ctxt),
                *final(ctxt),
                r is Ok,
            ),
        decreases ExprKind::Multiplication(*self), 2int,
    {
        let ghost i0 = collector@;
        let ghost c0 = *ctxt;
        let operands = lower_operands(
            self.left(),
            self.right(),
            collector,
            ctxt,
            Ghost(ExprKind::Multiplication(*self)),
        );
        let ghost i2 = collector@;
        let ghost c2 = *ctxt;
        collector.push(UnresolvedInstruction::mul());
        if let Err(_) = ctxt.stack_mut().pop_top_anonymous() {
            proof {
                assert(false);
            }
        }
        proof {
            assert(stack_names(ctxt.stack) =~= stack_names(c0.stack).push(anon_entry()));
            lemma_region_refs_mono(
                i2,
                collector@,
                i0.len() as int,
                i2.len() as int,
                c2.labels.slots@,
                ctxt.labels.slots@,
                i0.len() as int,
                i2.len() as int,
                i0.len() as int,
                collector@.len() as int,
            );
            if operands is Ok {
                let e = ExprKind::Multiplication(*self);
                assert(collector@ =~= i0 + lowered_code(
                    e,
                    stack_names(c0.stack),
                    c0.labels.slots@.len() as nat,
                ));
                assert(ctxt.labels.slots@ =~= c0.labels.slots@ + lowered_labels(
                    e,
                    i0.len() as int,
                ));
            }
        }
        operands
    }
}

impl If {
    /// A conditional lowers to the condition, a three-way jump whose null
    /// arm selects the alternative (the condition is 0 or 1, so the
    /// negative and positive arms share the consequent), the consequent, a
    /// jump over the alternative, and the alternative.
    #[verifier::rlimit(100)]
    #[verifier::spinoff_prover]
    pub fn lower(
        &self,
        collector: &mut Vec<UnresolvedInstruction>,
        ctxt: &mut LoweringContext,
    ) -> (r: Result<(), ()>)
        requires
            lower_pre(ExprKind::If(*self), old(collector)@, *old(ctxt)),
        ensures
            lower_post(
                ExprKind::If(*self),
                old(collector)@,
                final(collector)@,
                *old(ctxt),
                *final(ctxt),
                r is Ok,
            ),
        decreases ExprKind::If(*self), 2int,
    {
        let ghost i0 = collector@;
        let ghost c0 = *ctxt;
        let condition_exp = self.condition().lower(collector, ctxt);
        let ghost i1 = collector@;
        let ghost c1 = *ctxt;
        let consequent_start = ctxt.labels_mut().new_anonymous();
        let alt_start = ctxt.labels_mut().new_anonymous();
        let consequent_end = ctxt.labels_mut().new_anonymous();

        let cond = UnresolvedInstruction::cond_jmp(consequent_start, alt_start, consequent_start);
        let goto_end = UnresolvedInstruction::goto(consequent_end);

        collector.push(cond);
        let ghost ic = collector@;
        if let Err(_) = ctxt.stack_mut().pop_top_anonymous() {
            proof {
                assert(false);
            }
        }
        let rset1 = ctxt.labels_mut().set_position(consequent_start, collector.len() as u32);
        proof {
            assert(rset1 is Ok);
        }
        let branches_subcontext = ctxt.stack().new_subcontext();
        let ghost c1b = *ctxt;

        let consequent_exp = self.consequent().lower(collector, ctxt);
        let ghost i2 = collector@;
        let ghost c2 = *ctxt;

        collector.push(goto_end);
        let ghost ig = collector@;
        ctxt.stack_mut().drop_subcontext(branches_subcontext);
        proof {
            assert(stack_names(c2.stack).take(branches_subcontext as int) =~= stack_names(
                c0.stack,
            ));
        }
        let rset2 = ctxt.labels_mut().set_position(alt_start, collector.len() as u32);
        proof {
            assert(rset2 is Ok);
        }
        let ghost c2b = *ctxt;

        let alternative_exp = self.alternative().lower(collector, ctxt);
        let ghost i3 = collector@;
        let ghost c3 = *ctxt;

        ctxt.stack_mut().drop_subcontext(branches_subcontext);
        proof {
            assert(stack_names(c3.stack).take(branches_subcontext as int) =~= stack_names(
                c0.stack,
            ));
        }
        ctxt.stack_mut().push_anonymous();

        let rset3 = ctxt.labels_mut().set_position(consequent_end, collector.len() as u32);
        proof {
            assert(rset3 is Ok);
        }

        proof {
            let lfinal = ctxt.labels.slots@;
            let n0 = i0.len() as int;
            let nfin = collector@.len() as int;
            // the instruction list only grew, stage by stage
            assert(i1.is_prefix_of(i2));
            lemma_prefix_trans(i0, i1, i2);
            assert(i2.is_prefix_of(i3));
            lemma_prefix_trans(i0, i2, i3);
            assert(i3 =~= collector@);
            // the label table only grew, measured from before the three
            // labels of this conditional were handed out
            assert(label_extends(c1.labels.slots@, c1b.labels.slots@));
            lemma_label_extends_trans(
                c1.labels.slots@,
                c1b.labels.slots@,
                c2.labels.slots@,
            );
            assert(label_extends(c1.labels.slots@, c2b.labels.slots@));
            lemma_label_extends_trans(
                c1.labels.slots@,
                c2b.labels.slots@,
                c3.labels.slots@,
            );
            assert(label_extends(c1.labels.slots@, lfinal));
            lemma_label_extends_trans(c0.labels.slots@, c1.labels.slots@, lfinal);
            // the three labels keep the positions given to them
            assert(lfinal[consequent_start as int] == Some((i1.len() + 1) as u32));
            assert(lfinal[alt_start as int] == Some((i2.len() + 1) as u32));
            assert(lfinal[consequent_end as int] == Some(nfin as u32));
            // once set, labels keep their positions through the rest
            assert(labels_preserve_set(c2.labels.slots@, c2b.labels.slots@));
            lemma_preserve_set_trans(
                c2.labels.slots@,
                c2b.labels.slots@,
                c3.labels.slots@,
            );
            assert(labels_preserve_set(c3.labels.slots@, lfinal));
            lemma_preserve_set_trans(c2.labels.slots@, c3.labels.slots@, lfinal);
            lemma_preserve_set_trans(c1.labels.slots@, c2.labels.slots@, lfinal);
            // references emitted by the three children stay valid
            lemma_region_refs_mono(
                i1,
                collector@,
                n0,
                i1.len() as int,
                c1.labels.slots@,
                lfinal,
                n0,
                i1.len() as int,
                n0,
                nfin,
            );
            lemma_region_refs_mono(
                i2,
                collector@,
                i1.len() as int + 1,
                i2.len() as int,
                c2.labels.slots@,
                lfinal,
                i1.len() as int + 1,
                i2.len() as int,
                n0,
                nfin,
            );
            lemma_region_refs_mono(
                i3,
                collector@,
                i2.len() as int + 1,
                i3.len() as int,
                c3.labels.slots@,
                lfinal,
                i2.len() as int + 1,
                i3.len() as int,
                n0,
                nfin,
            );
            // the two jump instructions reference the three labels set here
            assert(ic[i1.len() as int] == cond);
            lemma_prefix_trans(ic, i2, ig);
            lemma_prefix_trans(ic, ig, i3);
            assert(collector@[i1.len() as int] == cond);
            assert(ig[i2.len() as int] == goto_end);
            lemma_prefix_trans(ig, i3, collector@);
            assert(collector@[i2.len() as int] == goto_end);
            assert(instr_label_refs_ok(cond, lfinal, n0, nfin));
            assert(instr_label_refs_ok(goto_end, lfinal, n0, nfin));
            assert(region_refs_ok(collector@, n0, nfin, lfinal, n0, nfin));
            assert(stack_names(ctxt.stack) =~= stack_names(c0.stack).push(anon_entry()));
            if condition_exp is Ok && consequent_exp is Ok && alternative_exp is Ok {
                let e = ExprKind::If(*self);
                lemma_lowered_labels_len(*self.condition, n0);
                lemma_lowered_labels_len(
                    *self.consequent,
                    n0 + emit_count(*self.condition) + 1,
                );
                // the handed-out label identifiers are the mirror's
                assert(consequent_start == c0.labels.slots@.len() + label_count(
                    *self.condition,
                ));
                assert(collector@ =~= i0 + lowered_code(
                    e,
                    stack_names(c0.stack),
                    c0.labels.slots@.len() as nat,
                ));
                // the appended label entries are the mirror's, in allocation
                // order: the conditional's three labels sit between the
                // condition's and the consequent's
                assert(c1b.labels.slots@ =~= c1.labels.slots@ + seq![
                    Some((i1.len() + 1) as u32),
                    None,
                    None,
                ]);
                assert(c2b.labels.slots@ =~= c1.labels.slots@ + seq![
                    Some((i1.len() + 1) as u32),
                    Some((i2.len() + 1) as u32),
                    None,
                ] + lowered_labels(*self.consequent, i1.len() as int + 1));
                assert(lfinal =~= c0.labels.slots@ + lowered_labels(e, n0));
            }
        }

        match (condition_exp, consequent_exp, alternative_exp) {
            (Ok(()), Ok(()), Ok(())) => Ok(()),
            _ => Err(()),
        }
    }
}

/// Each of the first `n` binding values is structurally fit.
proof fn lemma_wf_defines_at(defines: Vec<Binding>, n: int, k: int)
    requires
        wf_defines(defines, n),
        0 <= k < n <= defines@.len(),
    ensures
        wf_expr(defines[k].value),
    decreases n,
{
    if k < n - 1 {
        lemma_wf_defines_at(defines, n - 1, k);
    }
}

/// The emission count of a prefix of a binding list is bounded by the
/// count of a longer prefix.
proof fn lemma_defines_count_mono(defines: Vec<Binding>, k: int, n: int)
    requires
        0 <= k <= n <= defines@.len(),
    ensures
        defines_emit_count(defines, k) <= defines_emit_count(defines, n),
    decreases n,
{
    if k < n {
        lemma_defines_count_mono(defines, k, n - 1);
    }
}

impl Binding {
    /// One `let` lowers its value and names the resulting stack slot.
    pub fn lower(
        &self,
        collector: &mut Vec<UnresolvedInstruction>,
        ctxt: &mut LoweringContext,
    ) -> (r: Result<(), ()>)
        requires
            wf_expr(self.value),
            old(collector)@.len() + emit_count(self.value) <= u32::MAX,
            labels_le(old(ctxt).labels.slots@, old(collector)@.len() as int),
        ensures
            old(collector)@.is_prefix_of(final(collector)@),
            final(collector)@.len() <= old(collector)@.len() + emit_count(self.value),
            r is Ok ==> final(collector)@.len() == old(collector)@.len() + emit_count(
                self.value,
            ),
            stack_names(final(ctxt).stack) =~= stack_names(old(ctxt).stack).push(self.name@),
            label_extends(old(ctxt).labels.slots@, final(ctxt).labels.slots@),
            labels_le(final(ctxt).labels.slots@, final(collector)@.len() as int),
            region_refs_ok(
                final(collector)@,
                old(collector)@.len() as int,
                final(collector)@.len() as int,
                final(ctxt).labels.slots@,
                old(collector)@.len() as int,
                final(collector)@.len() as int,
            ),
            final(ctxt).labels.names@ == old(ctxt).labels.names@,
            (r is Ok <==> lowerable(self.value, stack_names(old(ctxt).stack))),
            r is Ok ==> final(collector)@ == old(collector)@ + lowered_code(
                self.value,
                stack_names(old(ctxt).stack),
                old(ctxt).labels.slots@.len() as nat,
            ),
            r is Ok ==> final(ctxt).labels.slots@ == old(ctxt).labels.slots@ + lowered_labels(
                self.value,
                old(collector)@.len() as int,
            ),
            r is Ok ==> final(ctxt).errs == old(ctxt).errs,
            r is Err ==> error_messages(final(ctxt).errs).len() > error_messages(
                old(ctxt).errs,
            ).len(),
            error_messages(final(ctxt).errs).len() == error_messages(old(ctxt).errs).len()
                + lower_count(self.value, stack_names(old(ctxt).stack)),
            error_messages(old(ctxt).errs).is_prefix_of(error_messages(final(ctxt).errs)),
        decreases *self, 2int,
    {
        let ghost c0 = *ctxt;
        let value_exp = self.value().lower(collector, ctxt);
        if let Err(_) = ctxt.stack_mut().name_top_anonymous(self.name.clone()) {
            proof {
                assert(false);
            }
        }
        proof {
            assert(stack_names(ctxt.stack) =~= stack_names(c0.stack).push(self.name@));
        }
        value_exp
    }
}

impl Bindings {
    /// A `let` list lowers each value, names its slot, lowers the ending
    /// expression, writes the result over the first binding's slot and
    /// drops the remaining bindings.
    #[verifier::rlimit(50)]
    pub fn lower(
        &self,
        collector: &mut Vec<UnresolvedInstruction>,
        ctxt: &mut LoweringContext,
    ) -> (r: Result<(), ()>)
        requires
            lower_pre(ExprKind::Bindings(*self), old(collector)@, *old(ctxt)),
        ensures
            lower_post(
                ExprKind::Bindings(*self),
                old(collector)@,
                final(collector)@,
                *old(ctxt),
                *final(ctxt),
                r is Ok,
            ),
        decreases ExprKind::Bindings(*self), 2int,
    {
        let ghost i0 = collector@;
        let ghost c0 = *ctxt;
        let ghost names0 = stack_names(c0.stack);
        let ghost n = self.defines@.len() as int;
        let subcontext_id = ctxt.stack().new_subcontext();
        let mut defines_ok = true;
        let mut k: usize = 0;
        while k < self.defines.len()
            invariant
                k <= self.defines@.len(),
                n == self.defines@.len(),
                wf_expr(ExprKind::Bindings(*self)),
                i0.len() + emit_count(ExprKind::Bindings(*self)) <= u32::MAX,
                subcontext_id == names0.len(),
                names0 == stack_names(c0.stack),
                i0.is_prefix_of(collector@),
                collector@.len() <= i0.len() + defines_emit_count(self.defines, k as int),
                defines_ok ==> collector@.len() == i0.len() + defines_emit_count(
                    self.defines,
                    k as int,
                ),
                stack_names(ctxt.stack) =~= lower_stack_upto(self.defines, names0, k as int),
                label_extends(c0.labels.slots@, ctxt.labels.slots@),
                labels_le(ctxt.labels.slots@, collector@.len() as int),
                region_refs_ok(
                    collector@,
                    i0.len() as int,
                    collector@.len() as int,
                    ctxt.labels.slots@,
                    i0.len() as int,
                    collector@.len() as int,
                ),
                ctxt.labels.names@ == c0.labels.names@,
                defines_ok <==> defines_lowerable(self.defines, names0, k as int),
                defines_ok ==> collector@ == i0 + lowered_defines(
                    self.defines,
                    names0,
                    c0.labels.slots@.len() as nat,
                    k as int,
                ),
                defines_ok ==> ctxt.labels.slots@ == c0.labels.slots@ + defines_labels(
                    self.defines,
                    i0.len() as int,
                    k as int,
                ),
                defines_ok ==> ctxt.errs == c0.errs,
                !defines_ok ==> error_messages(ctxt.errs).len() > error_messages(c0.errs).len(),
                error_messages(ctxt.errs).len() == error_messages(c0.errs).len()
                    + defines_lower_count(self.defines, names0, k as int),
                error_messages(c0.errs).is_prefix_of(error_messages(ctxt.errs)),
            decreases self.defines@.len() - k,
        {
            proof {
                lemma_wf_defines_at(self.defines, n, k as int);
                lemma_defines_count_mono(self.defines, k as int + 1, n);
            }
            let ghost ik = collector@;
            let ghost ck = *ctxt;
            let b = &self.defines[k];
            let br = b.lower(collector, ctxt);
            proof {
                if defines_ok && br is Ok {
                    lemma_defines_labels_len(self.defines, i0.len() as int, k as int);
                    assert(collector@ =~= i0 + lowered_defines(
                        self.defines,
                        names0,
                        c0.labels.slots@.len() as nat,
                        k as int + 1,
                    ));
                    assert(ctxt.labels.slots@ =~= c0.labels.slots@ + defines_labels(
                        self.defines,
                        i0.len() as int,
                        k as int + 1,
                    ));
                }
                lemma_label_extends_trans(
                    c0.labels.slots@,
                    ck.labels.slots@,
                    ctxt.labels.slots@,
                );
                lemma_region_refs_mono(
                    ik,
                    collector@,
                    i0.len() as int,
                    ik.len() as int,
                    ck.labels.slots@,
                    ctxt.labels.slots@,
                    i0.len() as int,
                    ik.len() as int,
                    i0.len() as int,
                    collector@.len() as int,
                );
            }
            defines_ok = defines_ok && br.is_ok();
            k = k + 1;
        }
        let ghost ie = collector@;
        let ghost ce = *ctxt;
        let ending_exp = self.ending_expression().lower(collector, ctxt);
        proof {
            lemma_label_extends_trans(c0.labels.slots@, ce.labels.slots@, ctxt.labels.slots@);
            lemma_region_refs_mono(
                ie,
                collector@,
                i0.len() as int,
                ie.len() as int,
                ce.labels.slots@,
                ctxt.labels.slots@,
                i0.len() as int,
                ie.len() as int,
                i0.len() as int,
                collector@.len() as int,
            );
        }
        let ghost i2 = collector@;
        let ghost c2 = *ctxt;

        let len: u16 = self.defines.len() as u16;
        collector.push(UnresolvedInstruction::pop_copy(len));
        collector.push(UnresolvedInstruction::pop(len - 1));

        ctxt.stack_mut().drop_subcontext(subcontext_id);
        proof {
            lemma_lower_stack_upto_prefix(self.defines, names0, n);
            assert(stack_names(c2.stack).take(subcontext_id as int) =~= names0);
        }
        ctxt.stack_mut().push_anonymous();
        proof {
            assert(stack_names(ctxt.stack) =~= names0.push(anon_entry()));
            lemma_region_refs_mono(
                i2,
                collector@,
                i0.len() as int,
                i2.len() as int,
                c2.labels.slots@,
                ctxt.labels.slots@,
                i0.len() as int,
                i2.len() as int,
                i0.len() as int,
                collector@.len() as int,
            );
            if defines_ok && ending_exp is Ok {
                let e = ExprKind::Bindings(*self);
                lemma_defines_labels_len(self.defines, i0.len() as int, n);
                assert(collector@ =~= i0 + lowered_code(
                    e,
                    names0,
                    c0.labels.slots@.len() as nat,
                ));
                assert(ctxt.labels.slots@ =~= c0.labels.slots@ + lowered_labels(
                    e,
                    i0.len() as int,
                ));
            }
        }
        match (defines_ok, ending_exp) {
            (true, Ok(())) => Ok(()),
            _ => Err(()),
        }
    }
}

// ---------------------------------------------------------------------------
// Functions and programs
// ---------------------------------------------------------------------------

/// The number of instructions lowering one function emits: its body plus
/// the two-instruction epilogue.
pub open spec fn function_emit_count(f: Function) -> nat {
    emit_count(f.body) + 2
}

impl Function {
    /// Lowers one function: a named entry label, the body, and an epilogue
    /// that copies the result over the return-address slot and returns.
    pub fn lower(
        &self,
        collector: &mut Vec<UnresolvedInstruction>,
        ctxt: &mut LoweringContext,
    ) -> (r: Result<(), ()>)
        requires
            wf_expr(self.body),
            old(collector)@.len() + function_emit_count(*self) <= u32::MAX,
            labels_le(old(ctxt).labels.slots@, old(collector)@.len() as int),
        ensures
            old(collector)@.is_prefix_of(final(collector)@),
            final(collector)@.len() <= old(collector)@.len() + function_emit_count(*self),
            r is Ok ==> final(collector)@.len() == old(collector)@.len() + function_emit_count(
                *self,
            ),
            stack_names(final(ctxt).stack) =~= stack_names(old(ctxt).stack).push(anon_entry()),
            label_extends(old(ctxt).labels.slots@, final(ctxt).labels.slots@),
            labels_le(final(ctxt).labels.slots@, final(collector)@.len() as int - 2),
            region_refs_ok(
                final(collector)@,
                old(collector)@.len() as int,
                final(collector)@.len() as int,
                final(ctxt).labels.slots@,
                old(collector)@.len() as int,
                final(collector)@.len() as int,
            ),
            final(ctxt).labels.names@ == old(ctxt).labels.names@.push(
                (self.name, old(ctxt).labels.slots@.len() as usize),
            ),
            final(ctxt).labels.slots@.len() > old(ctxt).labels.slots@.len(),
            final(ctxt).labels.slots@[old(ctxt).labels.slots@.len() as int] == Some(
                old(collector)@.len() as u32,
            ),
            (r is Ok <==> lowerable(self.body, stack_names(old(ctxt).stack))),
            r is Ok ==> final(collector)@ == old(collector)@ + lowered_code(
                self.body,
                stack_names(old(ctxt).stack),
                old(ctxt).labels.slots@.len() as nat + 1,
            ) + seq![UnresolvedInstruction::PopCopy(1), UnresolvedInstruction::Ret(0, 0)],
            r is Ok ==> final(ctxt).labels.slots@ == old(ctxt).labels.slots@ + seq![
                Some(old(collector)@.len() as u32),
            ] + lowered_labels(self.body, old(collector)@.len() as int),
            r is Ok ==> final(ctxt).errs == old(ctxt).errs,
            r is Err ==> error_messages(final(ctxt).errs).len() > error_messages(
                old(ctxt).errs,
            ).len(),
            error_messages(final(ctxt).errs).len() == error_messages(old(ctxt).errs).len()
                + lower_count(self.body, stack_names(old(ctxt).stack)),
            error_messages(old(ctxt).errs).is_prefix_of(error_messages(final(ctxt).errs)),
        decreases *self,
    {
        let ghost i0 = collector@;
        let ghost c0 = *ctxt;
        ctxt.labels_mut().new_named(self.name.clone(), collector.len() as u32);
        let ghost c0b = *ctxt;
        let body_exp = self.body().lower(collector, ctxt);
        let ghost i1 = collector@;
        let ghost c1 = *ctxt;
        collector.push(UnresolvedInstruction::pop_copy(1));
        collector.push(UnresolvedInstruction::ret());
        proof {
            if body_exp is Ok {
                assert(collector@ =~= i0 + lowered_code(
                    self.body,
                    stack_names(c0.stack),
                    c0.labels.slots@.len() as nat + 1,
                ) + seq![UnresolvedInstruction::PopCopy(1), UnresolvedInstruction::Ret(0, 0)]);
                assert(ctxt.labels.slots@ =~= c0.labels.slots@ + seq![
                    Some(i0.len() as u32),
                ] + lowered_labels(self.body, i0.len() as int));
            }
            assert(label_extends(c0.labels.slots@, c0b.labels.slots@));
            lemma_label_extends_trans(
                c0.labels.slots@,
                c0b.labels.slots@,
                ctxt.labels.slots@,
            );
            lemma_region_refs_mono(
                i1,
                collector@,
                i0.len() as int,
                i1.len() as int,
                c1.labels.slots@,
                ctxt.labels.slots@,
                i0.len() as int,
                i1.len() as int,
                i0.len() as int,
                collector@.len() as int,
            );
        }
        body_exp
    }
}

/// The number of instructions lowering the first `n` functions of a program
/// emits.
pub open spec fn functions_emit_count(functions: Vec<Function>, n: int) -> nat
    decreases n,
{
    if n <= 0 || n > functions@.len() {
        0
    } else {
        functions_emit_count(functions, n - 1) + function_emit_count(functions[n - 1])
    }
}

/// The number of instructions lowering a whole program emits, before the
/// replacement of `main`'s epilogue by `f_stop`.
pub open spec fn program_emit_count(p: Program) -> nat {
    functions_emit_count(p.functions, p.functions@.len() as int)
}

/// Whether every function body of a program is structurally fit.
pub open spec fn wf_functions(functions: Vec<Function>, n: int) -> bool
    decreases n,
{
    if n <= 0 || n > functions@.len() {
        true
    } else {
        wf_functions(functions, n - 1) && wf_expr(functions[n - 1].body)
    }
}

/// Whether a program is structurally fit for lowering.
pub open spec fn wf_program(p: Program) -> bool {
    wf_functions(p.functions, p.functions@.len() as int)
}

/// A sequence of `k` anonymous compile-time stack entries: the residue the
/// previously lowered functions leave behind.
pub open spec fn anons(k: nat) -> Seq<Seq<char>> {
    Seq::new(k, |j: int| anon_entry())
}

/// The number of functions other than the one at `mi` among the first `n`.
pub open spec fn others_before(mi: int, n: int) -> int {
    if 0 <= mi < n {
        n - 1
    } else {
        n
    }
}

/// Whether each function other than `main` lowers against the anonymous
/// residue left by the functions lowered before it.
pub open spec fn funcs_lowerable(functions: Vec<Function>, mi: int, n: int) -> bool
    decreases n,
{
    if n <= 0 || n > functions@.len() {
        true
    } else {
        &&& funcs_lowerable(functions, mi, n - 1)
        &&& (n - 1 == mi || lowerable(
            functions[n - 1].body,
            anons((1 + others_before(mi, n - 1)) as nat),
        ))
    }
}

/// Whether lowering a whole program succeeds: a `main` exists, its body
/// lowers against an empty stack, and every other function's body lowers
/// against the residue before it.
pub open spec fn program_lowerable(p: Program) -> bool {
    exists|mi: int|
        {
            &&& #[trigger] crate::type_checker::is_first_main(p.functions@, mi)
            &&& lowerable(p.functions@[mi].body, Seq::empty())
            &&& funcs_lowerable(p.functions, mi, p.functions@.len() as int)
        }
}

proof fn lemma_wf_functions_at(functions: Vec<Function>, n: int, k: int)
    requires
        wf_functions(functions, n),
        0 <= k < n <= functions@.len(),
    ensures
        wf_expr(functions[k].body),
    decreases n,
{
    if k < n - 1 {
        lemma_wf_functions_at(functions, n - 1, k);
    }
}

proof fn lemma_functions_count_mono(functions: Vec<Function>, k: int, n: int)
    requires
        0 <= k <= n <= functions@.len(),
    ensures
        functions_emit_count(functions, k) <= functions_emit_count(functions, n),
    decreases n,
{
    if k < n {
        lemma_functions_count_mono(functions, k, n - 1);
    }
}

/// The emission counts of the functions processed so far, in the order the
/// lowering works: `main` first, then the others in source order up to `k`.
pub open spec fn processed_emit_count(functions: Vec<Function>, mi: int, k: int) -> nat
    decreases k,
{
    if k <= 0 || k > functions@.len() {
        0
    } else {
        processed_emit_count(functions, mi, k - 1) + if k - 1 == mi {
            0
        } else {
            function_emit_count(functions[k - 1])
        }
    }
}

/// The number of labels the non-`main` functions among the first `k` hand
/// out: one entry label and the body's labels each.
pub open spec fn others_nl(functions: Vec<Function>, mi: int, k: int) -> nat
    decreases k,
{
    if k <= 0 || k > functions@.len() {
        0
    } else {
        others_nl(functions, mi, k - 1) + if k - 1 == mi {
            0
        } else {
            1 + label_count(functions@[k - 1].body)
        }
    }
}

/// The code the non-`main` functions among the first `k` emit, each
/// lowered against the anonymous residue of the functions before it.
pub open spec fn others_code(functions: Vec<Function>, mi: int, k: int, main_nl: nat) -> Seq<
    UnresolvedInstruction,
>
    decreases k,
{
    if k <= 0 || k > functions@.len() {
        Seq::empty()
    } else {
        others_code(functions, mi, k - 1, main_nl) + if k - 1 == mi {
            Seq::empty()
        } else {
            lowered_code(
                functions@[k - 1].body,
                anons((1 + others_before(mi, k - 1)) as nat),
                main_nl + others_nl(functions, mi, k - 1) + 1,
            ) + seq![UnresolvedInstruction::PopCopy(1), UnresolvedInstruction::Ret(0, 0)]
        }
    }
}

/// The label-table entries the non-`main` functions among the first `k`
/// append: each function's entry label at its first instruction, then its
/// body's labels.
pub open spec fn others_labels(functions: Vec<Function>, mi: int, k: int, main_len: int) -> Seq<
    Option<u32>,
>
    decreases k,
{
    if k <= 0 || k > functions@.len() {
        Seq::empty()
    } else {
        others_labels(functions, mi, k - 1, main_len) + if k - 1 == mi {
            Seq::empty()
        } else {
            seq![Some((main_len + processed_emit_count(functions, mi, k - 1)) as u32)]
                + lowered_labels(
                functions@[k - 1].body,
                main_len + processed_emit_count(functions, mi, k - 1) as int,
            )
        }
    }
}

/// The named entries the non-`main` functions among the first `k` add.
pub open spec fn others_names(functions: Vec<Function>, mi: int, k: int, main_nl: nat) -> Seq<
    (String, usize),
>
    decreases k,
{
    if k <= 0 || k > functions@.len() {
        Seq::empty()
    } else {
        others_names(functions, mi, k - 1, main_nl) + if k - 1 == mi {
            Seq::empty()
        } else {
            seq![(functions@[k - 1].name, (main_nl + others_nl(functions, mi, k - 1)) as usize)]
        }
    }
}

/// The diagnostics the non-`main` functions among the first `k` record,
/// `base` being the anonymous residue already on the stack when the first
/// of them is lowered.
pub open spec fn others_lower_count(functions: Vec<Function>, mi: int, k: int, base: nat) -> nat
    decreases k,
{
    if k <= 0 || k > functions@.len() {
        0
    } else {
        others_lower_count(functions, mi, k - 1, base) + if k - 1 == mi {
            0
        } else {
            lower_count(
                functions@[k - 1].body,
                anons((base + others_before(mi, k - 1)) as nat),
            )
        }
    }
}

/// The diagnostics lowering a whole program records: one if `main` is
/// missing, plus each function body's own.  `mi` is the first `main`'s
/// index, or -1 when there is none.
pub open spec fn program_lower_count(p: Program, mi: int) -> nat {
    if mi >= 0 {
        lower_count(p.functions@[mi].body, Seq::empty()) + others_lower_count(
            p.functions,
            mi,
            p.functions@.len() as int,
            1,
        )
    } else {
        1 + others_lower_count(p.functions, -1, p.functions@.len() as int, 0)
    }
}

/// The whole instruction list a successful lowering of a program emits:
/// `main`'s body with the full stop in place of its epilogue, then the
/// remaining functions in source order, each with its epilogue.
pub open spec fn program_code(p: Program, mi: int) -> Seq<UnresolvedInstruction> {
    lowered_code(p.functions@[mi].body, Seq::empty(), 1) + seq![UnresolvedInstruction::FStop]
        + others_code(
        p.functions,
        mi,
        p.functions@.len() as int,
        1 + label_count(p.functions@[mi].body),
    )
}

/// The whole label table a successful lowering of a program builds:
/// `main`'s entry at position 0 first.
pub open spec fn program_labels(p: Program, mi: int) -> Seq<Option<u32>> {
    seq![Some(0u32)] + lowered_labels(p.functions@[mi].body, 0) + others_labels(
        p.functions,
        mi,
        p.functions@.len() as int,
        emit_count(p.functions@[mi].body) as int + 1,
    )
}

/// The named entries a successful lowering of a program records: `main`
/// first, then the others in source order.
pub open spec fn program_names(p: Program, mi: int) -> Seq<(String, usize)> {
    seq![(p.functions@[mi].name, 0usize)] + others_names(
        p.functions,
        mi,
        p.functions@.len() as int,
        1 + label_count(p.functions@[mi].body),
    )
}

proof fn lemma_others_labels_len(functions: Vec<Function>, mi: int, k: int, main_len: int)
    ensures
        others_labels(functions, mi, k, main_len).len() == others_nl(functions, mi, k),
    decreases k,
{
    if 0 < k <= functions@.len() {
        lemma_others_labels_len(functions, mi, k - 1, main_len);
        if k - 1 != mi {
            lemma_lowered_labels_len(
                functions@[k - 1].body,
                main_len + processed_emit_count(functions, mi, k - 1) as int,
            );
        }
    }
}

proof fn lemma_others_code_len(functions: Vec<Function>, mi: int, k: int, main_nl: nat)
    requires
        funcs_lowerable(functions, mi, k),
    ensures
        others_code(functions, mi, k, main_nl).len() == processed_emit_count(functions, mi, k),
    decreases k,
{
    if 0 < k <= functions@.len() {
        lemma_others_code_len(functions, mi, k - 1, main_nl);
        if k - 1 != mi {
            lemma_lowered_code_len(
                functions@[k - 1].body,
                anons((1 + others_before(mi, k - 1)) as nat),
                main_nl + others_nl(functions, mi, k - 1) + 1,
            );
        }
    }
}

/// A successful lowering emits exactly `emit_count` instructions, so the
/// mirror has that length.
pub proof fn lemma_lowered_code_len(e: ExprKind, stack: Seq<Seq<char>>, nl: nat)
    requires
        lowerable(e, stack),
    ensures
        lowered_code(e, stack, nl).len() == emit_count(e),
    decreases e, 1int,
{
    match e {
        ExprKind::Addition(a) => {
            lemma_lowered_code_len(*a.lhs, stack, nl);
            lemma_lowered_code_len(
                *a.rhs,
                stack.push(anon_entry()),
                nl + label_count(*a.lhs),
            );
        },
        ExprKind::Subtraction(s) => {
            lemma_lowered_code_len(*s.lhs, stack, nl);
            lemma_lowered_code_len(
                *s.rhs,
                stack.push(anon_entry()),
                nl + label_count(*s.lhs),
            );
        },
        ExprKind::Multiplication(m) => {
            lemma_lowered_code_len(*m.lhs, stack, nl);
            lemma_lowered_code_len(
                *m.rhs,
                stack.push(anon_entry()),
                nl + label_count(*m.lhs),
            );
        },
        ExprKind::If(i) => {
            let cs = (nl + label_count(*i.condition)) as usize;
            lemma_lowered_code_len(*i.condition, stack, nl);
            lemma_lowered_code_len(*i.consequent, stack, (cs + 3) as nat);
            lemma_lowered_code_len(
                *i.alternative,
                stack,
                (cs + 3) as nat + label_count(*i.consequent),
            );
        },
        ExprKind::Bindings(b) => {
            let n = b.defines@.len() as int;
            lemma_lowered_defines_len(b.defines, stack, nl, n);
            lemma_lowered_code_len(
                *b.ending,
                lower_stack_upto(b.defines, stack, n),
                nl + defines_label_count(b.defines, n),
            );
        },
        _ => {},
    }
}

proof fn lemma_lowered_defines_len(defines: Vec<Binding>, stack: Seq<Seq<char>>, nl: nat, n: int)
    requires
        defines_lowerable(defines, stack, n),
    ensures
        lowered_defines(defines, stack, nl, n).len() == defines_emit_count(defines, n),
    decreases defines, n,
{
    if 0 < n <= defines@.len() {
        lemma_lowered_defines_len(defines, stack, nl, n - 1);
        lemma_lowered_code_len(
            defines[n - 1].value,
            lower_stack_upto(defines, stack, n - 1),
            nl + defines_label_count(defines, n - 1),
        );
    }
}

proof fn lemma_processed_mono(functions: Vec<Function>, mi: int, k: int, n: int)
    requires
        0 <= k <= n <= functions@.len(),
    ensures
        processed_emit_count(functions, mi, k) <= processed_emit_count(functions, mi, n),
    decreases n,
{
    if k < n {
        lemma_processed_mono(functions, mi, k, n - 1);
    }
}

proof fn lemma_processed_plus_main(functions: Vec<Function>, mi: int, n: int)
    requires
        0 <= mi < n <= functions@.len(),
    ensures
        processed_emit_count(functions, mi, n) + function_emit_count(functions[mi])
            == functions_emit_count(functions, n),
    decreases n,
{
    if mi < n - 1 {
        lemma_processed_plus_main(functions, mi, n - 1);
    } else {
        lemma_processed_equals_total_without(functions, mi, n - 1);
    }
}

proof fn lemma_processed_equals_total_without(functions: Vec<Function>, mi: int, n: int)
    requires
        0 <= n <= functions@.len(),
        mi >= n,
    ensures
        processed_emit_count(functions, mi, n) == functions_emit_count(functions, n),
    decreases n,
{
    if n > 0 {
        lemma_processed_equals_total_without(functions, mi, n - 1);
    }
}

proof fn lemma_processed_none(functions: Vec<Function>, mi: int, n: int)
    requires
        0 <= n <= functions@.len(),
        mi < 0,
    ensures
        processed_emit_count(functions, mi, n) == functions_emit_count(functions, n),
    decreases n,
{
    if n > 0 {
        lemma_processed_none(functions, mi, n - 1);
    }
}

/// References whose positions are bounded by the label table's own bound
/// can have their upper bound tightened to it.
proof fn lemma_refs_tighten(
    instrs: Seq<UnresolvedInstruction>,
    from: int,
    to: int,
    labels: Seq<Option<u32>>,
    lo: int,
    hi: int,
    hi2: int,
)
    requires
        region_refs_ok(instrs, from, to, labels, lo, hi),
        labels_le(labels, hi2),
    ensures
        region_refs_ok(instrs, from, to, labels, lo, hi2),
{
    assert forall|k: int| from <= k < to implies instr_label_refs_ok(
        #[trigger] instrs[k],
        labels,
        lo,
        hi2,
    ) by {
        assert(instr_label_refs_ok(instrs[k], labels, lo, hi));
    }
}

proof fn lemma_extends_preserve(l0: Seq<Option<u32>>, l1: Seq<Option<u32>>)
    requires
        label_extends(l0, l1),
    ensures
        labels_preserve_set(l0, l1),
{
}

impl Program {
    /// Lowers a whole program.  `main` is lowered first, so that execution
    /// starts at instruction 0, and its epilogue is replaced by `f_stop`;
    /// the remaining functions follow in source order.
    pub fn lower(
        &self,
        collector: &mut Vec<UnresolvedInstruction>,
        ctxt: &mut LoweringContext,
    ) -> (r: Result<(), ()>)
        requires
            wf_program(*self),
            program_emit_count(*self) + 1 <= u32::MAX,
            old(collector)@.len() == 0,
            stack_names(old(ctxt).stack).len() == 0,
            old(ctxt).labels.slots@.len() == 0,
            old(ctxt).labels.names@.len() == 0,
        ensures
            (r is Ok <==> program_lowerable(*self)),
            error_messages(old(ctxt).errs).is_prefix_of(error_messages(final(ctxt).errs)),
            r is Ok ==> final(ctxt).errs == old(ctxt).errs,
            final(collector)@.len() <= program_emit_count(*self) + 1,
            r is Ok ==> {
                &&& 1 <= final(collector)@.len()
                &&& labels_lt(final(ctxt).labels.slots@, final(collector)@.len() as int)
                &&& region_refs_ok(
                    final(collector)@,
                    0,
                    final(collector)@.len() as int,
                    final(ctxt).labels.slots@,
                    0,
                    final(collector)@.len() as int - 1,
                )
                &&& final(ctxt).labels.names@.len() >= 1
                &&& final(ctxt).labels.names@[0].0@ == "main"@
                &&& final(ctxt).labels.names@[0].1 == 0
                &&& final(ctxt).labels.slots@[0] == Some(0u32)
                &&& exists|mi: int|
                    {
                        &&& #[trigger] crate::type_checker::is_first_main(self.functions@, mi)
                        &&& emit_count(self.functions@[mi].body) < final(collector)@.len()
                        &&& final(collector)@[emit_count(self.functions@[mi].body) as int]
                            == UnresolvedInstruction::FStop
                    }
            },
            r is Ok ==> forall|mi: int|
                #[trigger] crate::type_checker::is_first_main(self.functions@, mi) ==> {
                    &&& final(collector)@ == program_code(*self, mi)
                    &&& final(ctxt).labels.slots@ == program_labels(*self, mi)
                    &&& final(ctxt).labels.names@ == program_names(*self, mi)
                },
            final(ctxt).labels.names@.len() == self.functions@.len(),
            r is Err ==> error_messages(final(ctxt).errs).len() > error_messages(
                old(ctxt).errs,
            ).len(),
            (forall|j: int|
                0 <= j < self.functions@.len() ==> (#[trigger] self.functions@[j].name@)
                    != "main"@) ==> error_messages(final(ctxt).errs)[error_messages(
                old(ctxt).errs,
            ).len() as int] == "No `main` function found"@,
            forall|mi2: int|
                #[trigger] crate::type_checker::is_first_main(self.functions@, mi2)
                    ==> error_messages(final(ctxt).errs).len() == error_messages(
                    old(ctxt).errs,
                ).len() + program_lower_count(*self, mi2),
            (forall|j: int|
                0 <= j < self.functions@.len() ==> (#[trigger] self.functions@[j].name@)
                    != "main"@) ==> error_messages(final(ctxt).errs).len() == error_messages(
                old(ctxt).errs,
            ).len() + program_lower_count(*self, -1),
    {
        let ghost c0 = *ctxt;
        let ghost n = self.functions@.len() as int;

        // Find the first function named `main`.
        let mut main_idx: Option<usize> = None;
        let mut k: usize = 0;
        while k < self.functions.len()
            invariant
                k <= self.functions@.len(),
                match main_idx {
                    Some(i) => crate::type_checker::is_first_main(self.functions@, i as int) && (
                    i as int) < k,
                    None => forall|j: int|
                        0 <= j < k ==> (#[trigger] self.functions@[j].name@) != "main"@,
                },
            decreases self.functions@.len() - k,
        {
            if main_idx.is_none() && crate::text::str_eq(
                self.functions[k].name.as_str(),
                "main",
            ) {
                main_idx = Some(k);
            }
            k = k + 1;
        }
        if main_idx.is_none() {
            ctxt.errs.add("No `main` function found");
        }
        let ghost errs_after_find = ctxt.errs;
        let ghost mi: int = match main_idx {
            Some(i) => i as int,
            None => -1,
        };

        // Lower `main` first, so the instructions to execute start at
        // offset 0.
        let main_fn_lowering: Result<(), ()> = match main_idx {
            Some(i) => {
                proof {
                    lemma_wf_functions_at(self.functions, n, i as int);
                    lemma_functions_count_mono(self.functions, i as int + 1, n);
                }
                self.functions[i].lower(collector, ctxt)
            },
            None => Err(()),
        };
        let ghost main_body_count: nat = if mi >= 0 {
            emit_count(self.functions@[mi].body)
        } else {
            0
        };

        // `main` does not return the way other functions do: replace its
        // epilogue with the full stop.
        if main_fn_lowering.is_ok() {
            let ghost pre_trunc = collector@;
            let newlen = collector.len() - 2;
            collector.truncate(newlen);
            collector.push(UnresolvedInstruction::f_stop());
            proof {
                assert(collector@.len() == main_body_count + 1);
                assert(collector@[main_body_count as int] == UnresolvedInstruction::FStop);
                assert forall|j: int| 0 <= j < main_body_count implies #[trigger] collector@[j]
                    == pre_trunc[j] by {}
                // `main`'s epilogue went; its body and the full stop remain
                assert(stack_names(c0.stack) =~= Seq::<Seq<char>>::empty());
                lemma_lowered_code_len(
                    self.functions@[mi].body,
                    Seq::<Seq<char>>::empty(),
                    1,
                );
                assert(collector@ =~= lowered_code(
                    self.functions@[mi].body,
                    Seq::<Seq<char>>::empty(),
                    1,
                ) + seq![UnresolvedInstruction::FStop]);
                assert(ctxt.labels.slots@ =~= seq![Some(0u32)] + lowered_labels(
                    self.functions@[mi].body,
                    0,
                ));
                assert(ctxt.labels.names@ =~= seq![(self.functions@[mi].name, 0usize)]);
                lemma_refs_tighten(
                    collector@,
                    0,
                    main_body_count as int,
                    ctxt.labels.slots@,
                    0,
                    pre_trunc.len() as int,
                    main_body_count as int,
                );
            }
        }

        // Lower the remaining functions after the full stop.
        let ghost i_m = collector@;
        let ghost c_m = *ctxt;
        let ghost errs_m = ctxt.errs;
        proof {
            if main_fn_lowering is Ok {
                lemma_lowered_labels_len(self.functions@[mi].body, 0);
                assert(i_m + others_code(
                    self.functions,
                    mi,
                    0,
                    c_m.labels.slots@.len() as nat,
                ) =~= i_m);
                assert(c_m.labels.slots@ + others_labels(
                    self.functions,
                    mi,
                    0,
                    i_m.len() as int,
                ) =~= c_m.labels.slots@);
                assert(c_m.labels.names@ + others_names(
                    self.functions,
                    mi,
                    0,
                    c_m.labels.slots@.len() as nat,
                ) =~= c_m.labels.names@);
            }
        }
        let mut others_ok = true;
        let mut k2: usize = 0;
        while k2 < self.functions.len()
            invariant
                k2 <= self.functions@.len(),
                n == self.functions@.len(),
                wf_program(*self),
                program_emit_count(*self) + 1 <= u32::MAX,
                mi == match main_idx {
                    Some(i) => i as int,
                    None => -1int,
                },
                main_idx matches Some(i) ==> crate::type_checker::is_first_main(
                    self.functions@,
                    i as int,
                ),
                i_m.len() <= (if mi >= 0 {
                    function_emit_count(self.functions@[mi])
                } else {
                    0
                }),
                i_m.is_prefix_of(collector@),
                collector@.len() <= i_m.len() + processed_emit_count(
                    self.functions,
                    mi,
                    k2 as int,
                ),
                stack_names(ctxt.stack) =~= anons(
                    ((if mi >= 0 {
                        1int
                    } else {
                        0int
                    }) + others_before(mi, k2 as int)) as nat,
                ),
                labels_le(ctxt.labels.slots@, collector@.len() as int - 1),
                labels_preserve_set(c_m.labels.slots@, ctxt.labels.slots@),
                region_refs_ok(
                    collector@,
                    0,
                    collector@.len() as int,
                    ctxt.labels.slots@,
                    0,
                    collector@.len() as int - 1,
                ),
                c_m.labels.names@.is_prefix_of(ctxt.labels.names@),
                ctxt.labels.names@.len() == c_m.labels.names@.len() + others_before(
                    mi,
                    k2 as int,
                ),
                (mi >= 0 ==> (others_ok <==> funcs_lowerable(self.functions, mi, k2 as int))),
                (main_fn_lowering is Ok && others_ok) ==> {
                    &&& c_m.labels.slots@.len() == 1 + label_count(self.functions@[mi].body)
                    &&& i_m.len() == emit_count(self.functions@[mi].body) + 1
                    &&& collector@ == i_m + others_code(
                        self.functions,
                        mi,
                        k2 as int,
                        c_m.labels.slots@.len() as nat,
                    )
                    &&& ctxt.labels.slots@ == c_m.labels.slots@ + others_labels(
                        self.functions,
                        mi,
                        k2 as int,
                        i_m.len() as int,
                    )
                    &&& ctxt.labels.names@ == c_m.labels.names@ + others_names(
                        self.functions,
                        mi,
                        k2 as int,
                        c_m.labels.slots@.len() as nat,
                    )
                },
                (main_fn_lowering is Ok && others_ok) ==> ctxt.errs == errs_m,
                main_fn_lowering is Ok ==> errs_m == c0.errs,
                error_messages(ctxt.errs).len() == error_messages(errs_m).len()
                    + others_lower_count(
                    self.functions,
                    mi,
                    k2 as int,
                    if mi >= 0 {
                        1nat
                    } else {
                        0nat
                    },
                ),
                error_messages(errs_m).len() == error_messages(c0.errs).len() + (if mi >= 0 {
                    lower_count(self.functions@[mi].body, Seq::empty())
                } else {
                    1nat
                }),
                !(main_fn_lowering is Ok && others_ok) ==> error_messages(ctxt.errs).len()
                    > error_messages(c0.errs).len(),
                error_messages(errs_m).is_prefix_of(error_messages(ctxt.errs)),
            decreases self.functions@.len() - k2,
        {
            let is_main = match main_idx {
                Some(i) => i == k2,
                None => false,
            };
            if !is_main {
                proof {
                    lemma_wf_functions_at(self.functions, n, k2 as int);
                    lemma_processed_mono(self.functions, mi, k2 as int + 1, n);
                    if mi >= 0 {
                        lemma_processed_plus_main(self.functions, mi, n);
                    } else {
                        lemma_processed_none(self.functions, mi, n);
                    }
                }
                let ghost i_k = collector@;
                let ghost c_k = *ctxt;
                let fr = self.functions[k2].lower(collector, ctxt);
                proof {
                    if main_fn_lowering is Ok && others_ok && fr is Ok {
                        let main_nl = c_m.labels.slots@.len() as nat;
                        lemma_others_labels_len(self.functions, mi, k2 as int, i_m.len() as int);
                        lemma_others_code_len(self.functions, mi, k2 as int, main_nl);
                        assert(collector@ =~= i_m + others_code(
                            self.functions,
                            mi,
                            k2 as int + 1,
                            main_nl,
                        ));
                        assert(ctxt.labels.slots@ =~= c_m.labels.slots@ + others_labels(
                            self.functions,
                            mi,
                            k2 as int + 1,
                            i_m.len() as int,
                        ));
                        assert(ctxt.labels.names@ =~= c_m.labels.names@ + others_names(
                            self.functions,
                            mi,
                            k2 as int + 1,
                            main_nl,
                        ));
                    }
                    lemma_extends_preserve(c_k.labels.slots@, ctxt.labels.slots@);
                    lemma_preserve_set_trans(
                        c_m.labels.slots@,
                        c_k.labels.slots@,
                        ctxt.labels.slots@,
                    );
                    lemma_prefix_trans(i_m, i_k, collector@);
                    lemma_region_refs_mono(
                        i_k,
                        collector@,
                        0,
                        i_k.len() as int,
                        c_k.labels.slots@,
                        ctxt.labels.slots@,
                        0,
                        i_k.len() as int - 1,
                        0,
                        collector@.len() as int - 1,
                    );
                    lemma_refs_tighten(
                        collector@,
                        i_k.len() as int,
                        collector@.len() as int,
                        ctxt.labels.slots@,
                        i_k.len() as int,
                        collector@.len() as int,
                        collector@.len() as int - 2,
                    );
                }
                others_ok = others_ok && fr.is_ok();
            }
            k2 = k2 + 1;
        }
        proof {
            if mi >= 0 {
                lemma_processed_plus_main(self.functions, mi, n);
            } else {
                lemma_processed_none(self.functions, mi, n);
            }
            // two functions cannot both be the first `main`
            assert forall|a: int, b: int|
                crate::type_checker::is_first_main(self.functions@, a)
                    && crate::type_checker::is_first_main(self.functions@, b) implies a == b by {
                if a < b {
                    assert(self.functions@[a].name@ == "main"@);
                } else if b < a {
                    assert(self.functions@[b].name@ == "main"@);
                }
            }
            if main_fn_lowering is Ok {
                assert(stack_names(c0.stack) =~= Seq::<Seq<char>>::empty());
                // the entry of `main` is the first named label, at position 0
                assert(c_m.labels.names@.len() == 1);
                assert(ctxt.labels.names@[0] == c_m.labels.names@[0]);
                assert(c_m.labels.slots@[0] == Some(0u32));
                assert(ctxt.labels.slots@[0] == Some(0u32));
                // the full stop sits where `main`'s body ends
                assert(i_m[main_body_count as int] == UnresolvedInstruction::FStop);
                assert(collector@[main_body_count as int] == i_m[main_body_count as int]);
                if others_ok {
                    assert(program_lowerable(*self));
                    // the emitted program is the emission table's, end to end
                    assert(collector@ =~= program_code(*self, mi));
                    assert(ctxt.labels.slots@ =~= program_labels(*self, mi));
                    assert(ctxt.labels.names@ =~= program_names(*self, mi));
                }
            }
            if mi < 0 {
                // the missing-`main` diagnostic sits right after the
                // diagnostics that were already pending
                assert(error_messages(errs_after_find) == error_messages(c0.errs).push(
                    "No `main` function found"@,
                ));
                assert(error_messages(errs_after_find).is_prefix_of(
                    error_messages(ctxt.errs),
                ));
                assert(error_messages(ctxt.errs)[error_messages(c0.errs).len() as int]
                    == "No `main` function found"@) by {
                    let a = error_messages(errs_after_find);
                    let c = error_messages(ctxt.errs);
                    assert(a =~= c.subrange(0, a.len() as int));
                    assert(c.subrange(0, a.len() as int)[a.len() - 1] == c[a.len() - 1]);
                }
            }
            if program_lowerable(*self) {
                let w = choose|w: int|
                    {
                        &&& #[trigger] crate::type_checker::is_first_main(self.functions@, w)
                        &&& lowerable(self.functions@[w].body, Seq::empty())
                        &&& funcs_lowerable(self.functions, mi, n)
                    };
                assert(main_idx is Some);
            }
        }
        match (main_fn_lowering, others_ok) {
            (Ok(()), true) => Ok(()),
            _ => Err(()),
        }
    }
}

/// Lowers a whole program, wrapping the outcome as a compilation pass: the
/// pass succeeds exactly when the program lowers and no diagnostic was
/// pending or recorded.
pub fn lower_ast(ast: &Program, ctxt: LoweringContext) -> (r: crate::context::PassResult<
    LoweringContext,
    Vec<UnresolvedInstruction>,
>)
    requires
        wf_program(*ast),
        program_emit_count(*ast) + 1 <= u32::MAX,
        stack_names(ctxt.stack).len() == 0,
        ctxt.labels.slots@.len() == 0,
        ctxt.labels.names@.len() == 0,
    ensures
        r is Ok <==> (program_lowerable(*ast) && error_messages(ctxt.errs).len() == 0),
        r matches Ok((c, instrs)) ==> {
            &&& 1 <= instrs@.len() <= program_emit_count(*ast) + 1
            &&& labels_lt(c.labels.slots@, instrs@.len() as int)
            &&& region_refs_ok(
                instrs@,
                0,
                instrs@.len() as int,
                c.labels.slots@,
                0,
                instrs@.len() as int - 1,
            )
            &&& c.labels.names@.len() >= 1
            &&& c.labels.names@[0].0@ == "main"@
            &&& c.labels.names@[0].1 == 0
            &&& c.labels.slots@[0] == Some(0u32)
            &&& exists|mi: int|
                {
                    &&& #[trigger] crate::type_checker::is_first_main(ast.functions@, mi)
                    &&& emit_count(ast.functions@[mi].body) < instrs@.len()
                    &&& instrs@[emit_count(ast.functions@[mi].body) as int]
                        == UnresolvedInstruction::FStop
                }
            &&& forall|mi: int|
                #[trigger] crate::type_checker::is_first_main(ast.functions@, mi) ==> {
                    &&& instrs@ == program_code(*ast, mi)
                    &&& c.labels.slots@ == program_labels(*ast, mi)
                    &&& c.labels.names@ == program_names(*ast, mi)
                }
        },
        r matches Err(e) ==> e.0 >= 1,
        forall|mi: int|
            #[trigger] crate::type_checker::is_first_main(ast.functions@, mi) ==> (r matches Err(
                e,
            ) ==> e.0 == error_messages(ctxt.errs).len() + program_lower_count(*ast, mi)),
        (forall|j: int|
            0 <= j < ast.functions@.len() ==> (#[trigger] ast.functions@[j].name@) != "main"@)
            ==> (r matches Err(e) ==> e.0 == error_messages(ctxt.errs).len()
            + program_lower_count(*ast, -1)),
{
    let mut tmp: Vec<UnresolvedInstruction> = Vec::new();
    let mut c = ctxt;
    let lowered = ast.lower(&mut tmp, &mut c);
    proof {
        if lowered is Err {
            assert(error_messages(c.errs).len() >= 1);
        }
    }
    let lowering_rslt: Result<Vec<UnresolvedInstruction>, ()> = match lowered {
        Ok(()) => Ok(tmp),
        Err(()) => Err(()),
    };
    c.wrap_result(lowering_rslt)
}

// ---------------------------------------------------------------------------
// Label resolution
// ---------------------------------------------------------------------------

/// Whether every label referenced by one instruction has a position.
pub open spec fn instr_labels_defined(i: UnresolvedInstruction, labels: Seq<Option<u32>>) -> bool {
    match i {
        UnresolvedInstruction::Call(l) => label_defined(labels, l),
        UnresolvedInstruction::Goto(l) => label_defined(labels, l),
        UnresolvedInstruction::CondJmp(a, b, c) => label_defined(labels, a) && label_defined(
            labels,
            b,
        ) && label_defined(labels, c),
        _ => true,
    }
}

/// Whether label `l` has a position in the table.
pub open spec fn label_defined(labels: Seq<Option<u32>>, l: usize) -> bool {
    l < labels.len() && labels[l as int] is Some
}

/// The position of a label, assuming it has one.
pub open spec fn label_pos(labels: Seq<Option<u32>>, l: usize) -> u32
    recommends
        label_defined(labels, l),
{
    match labels[l as int] {
        Some(p) => p,
        None => 0,
    }
}

/// The error resolving label `l` reports when it has no position.
pub open spec fn spec_label_err(labels: Seq<Option<u32>>, l: usize) -> LabelResolutionError {
    if l >= labels.len() {
        LabelResolutionError::UnknownLabel
    } else {
        LabelResolutionError::UnknownLabelPosition
    }
}

/// The wire instruction an unresolved instruction resolves to, each label
/// replaced by its position.
pub open spec fn spec_resolve_instr(i: UnresolvedInstruction, labels: Seq<Option<u32>>) -> Instruction
    recommends
        instr_labels_defined(i, labels),
{
    match i {
        UnresolvedInstruction::PushI(v) => Instruction::PushI(codec::PushI(v)),
        UnresolvedInstruction::AddI => Instruction::AddI(codec::AddI),
        UnresolvedInstruction::FStop => Instruction::FStop(codec::FStop),
        UnresolvedInstruction::PushCopy(o) => Instruction::PushCopy(codec::PushCopy(o)),
        UnresolvedInstruction::Call(l) => Instruction::Call(codec::Call(label_pos(labels, l))),
        UnresolvedInstruction::Ret(shrink, ip) => Instruction::Ret(
            codec::Ret { shrink_offset: shrink, ip_offset: ip },
        ),
        UnresolvedInstruction::ResV(c) => Instruction::ResV(codec::ResV(c)),
        UnresolvedInstruction::PopCopy(o) => Instruction::PopCopy(codec::PopCopy(o)),
        UnresolvedInstruction::Goto(l) => Instruction::Goto(codec::Goto(label_pos(labels, l))),
        UnresolvedInstruction::CondJmp(a, b, c) => Instruction::CondJmp(
            codec::CondJmp {
                negative_addr: label_pos(labels, a),
                null_addr: label_pos(labels, b),
                positive_addr: label_pos(labels, c),
            },
        ),
        UnresolvedInstruction::Neg => Instruction::Neg(codec::Neg),
        UnresolvedInstruction::Mul => Instruction::Mul(codec::Mul),
        UnresolvedInstruction::Pop(c) => Instruction::Pop(codec::Pop(c)),
    }
}

impl UnresolvedInstruction {
    /// Resolves this instruction's labels against the label table.
    pub fn resolve(&self, ctxt: &LoweringContext) -> (r: Result<Instruction, LabelResolutionError>)
        ensures
            r is Ok <==> instr_labels_defined(*self, ctxt.labels.slots@),
            r matches Ok(instr) ==> instr == spec_resolve_instr(*self, ctxt.labels.slots@),
            r matches Err(e) ==> match *self {
                UnresolvedInstruction::Call(l) => e == spec_label_err(ctxt.labels.slots@, l),
                UnresolvedInstruction::Goto(l) => e == spec_label_err(ctxt.labels.slots@, l),
                UnresolvedInstruction::CondJmp(a, b, c) => e == if !label_defined(
                    ctxt.labels.slots@,
                    a,
                ) {
                    spec_label_err(ctxt.labels.slots@, a)
                } else if !label_defined(ctxt.labels.slots@, b) {
                    spec_label_err(ctxt.labels.slots@, b)
                } else {
                    spec_label_err(ctxt.labels.slots@, c)
                },
                _ => false,
            },
    {
        match self {
            UnresolvedInstruction::PushI(v) => Ok(Instruction::push_i(*v)),
            UnresolvedInstruction::AddI => Ok(Instruction::add_i()),
            UnresolvedInstruction::FStop => Ok(Instruction::f_stop()),
            UnresolvedInstruction::PushCopy(o) => Ok(Instruction::push_cpy(*o)),
            UnresolvedInstruction::Call(l) => {
                let pos = ctxt.labels().resolve(*l)?;
                Ok(Instruction::call(pos))
            },
            UnresolvedInstruction::Ret(shrink, ip) => Ok(Instruction::ret(*ip, *shrink)),
            UnresolvedInstruction::ResV(c) => Ok(Instruction::res_v(*c)),
            UnresolvedInstruction::PopCopy(o) => Ok(Instruction::pop_cpy(*o)),
            UnresolvedInstruction::Goto(l) => {
                let pos = ctxt.labels().resolve(*l)?;
                Ok(Instruction::goto(pos))
            },
            UnresolvedInstruction::CondJmp(a, b, c) => {
                let negative_addr = ctxt.labels().resolve(*a)?;
                let null_addr = ctxt.labels().resolve(*b)?;
                let positive_addr = ctxt.labels().resolve(*c)?;
                Ok(Instruction::cond_jmp(negative_addr, null_addr, positive_addr))
            },
            UnresolvedInstruction::Neg => Ok(Instruction::neg()),
            UnresolvedInstruction::Mul => Ok(Instruction::mul()),
            UnresolvedInstruction::Pop(c) => Ok(Instruction::pop(*c)),
        }
    }
}

/// Resolves a whole instruction list against the label table.
pub fn resolve_context(
    instructions: &Vec<UnresolvedInstruction>,
    ctxt: &LoweringContext,
) -> (r: Result<Vec<Instruction>, LabelResolutionError>)
    ensures
        r is Ok <==> (forall|k: int|
            0 <= k < instructions@.len() ==> instr_labels_defined(
                #[trigger] instructions@[k],
                ctxt.labels.slots@,
            )),
        r matches Ok(v) ==> v@.len() == instructions@.len() && forall|k: int|
            0 <= k < instructions@.len() ==> v@[k] == spec_resolve_instr(
                #[trigger] instructions@[k],
                ctxt.labels.slots@,
            ),
{
    let mut out: Vec<Instruction> = Vec::new();
    let mut k: usize = 0;
    while k < instructions.len()
        invariant
            k <= instructions@.len(),
            out@.len() == k,
            forall|j: int|
                0 <= j < k ==> instr_labels_defined(
                    #[trigger] instructions@[j],
                    ctxt.labels.slots@,
                ),
            forall|j: int|
                0 <= j < k ==> out@[j] == spec_resolve_instr(
                    #[trigger] instructions@[j],
                    ctxt.labels.slots@,
                ),
        decreases instructions@.len() - k,
    {
        let instr = instructions[k].resolve(ctxt)?;
        out.push(instr);
        k = k + 1;
    }
    Ok(out)
}

// ---------------------------------------------------------------------------
// Bounds of resolved control flow
// ---------------------------------------------------------------------------

/// Whether every control-flow target of a wire instruction lies within a
/// program of `len` instructions.
pub open spec fn instr_targets_in_bounds(i: Instruction, len: nat) -> bool {
    match i {
        Instruction::Call(op) => op.0 < len,
        Instruction::Goto(op) => op.0 < len,
        Instruction::CondJmp(op) => op.negative_addr < len && op.null_addr < len
            && op.positive_addr < len,
        _ => true,
    }
}

/// Adds two counters, reporting when the sum does not fit.
fn checked_add_u64(a: u64, b: u64) -> (r: Option<u64>)
    ensures
        r matches Some(c) ==> c == a + b,
        r is None ==> a + b > u64::MAX,
{
    if b > u64::MAX - a {
        None
    } else {
        Some(a + b)
    }
}

/// Counts the instructions lowering an expression will emit, or reports
/// that the count does not fit in a counter.
#[verifier::loop_isolation(false)]
pub fn emit_count_exec(e: &ExprKind) -> (r: Option<u64>)
    ensures
        r matches Some(c) ==> c == emit_count(*e),
        r is None ==> emit_count(*e) > u64::MAX,
    decreases *e, 1int,
{
    match e {
        ExprKind::Integer(_) => Some(1),
        ExprKind::Bool(_) => Some(1),
        ExprKind::Ident(_) => Some(1),
        ExprKind::Addition(a) => {
            let lhs = emit_count_exec(&a.lhs)?;
            let rhs = emit_count_exec(&a.rhs)?;
            let sum = checked_add_u64(lhs, rhs)?;
            checked_add_u64(sum, 1)
        },
        ExprKind::Subtraction(sub) => {
            let lhs = emit_count_exec(&sub.lhs)?;
            let rhs = emit_count_exec(&sub.rhs)?;
            let sum = checked_add_u64(lhs, rhs)?;
            checked_add_u64(sum, 2)
        },
        ExprKind::Multiplication(m) => {
            let lhs = emit_count_exec(&m.lhs)?;
            let rhs = emit_count_exec(&m.rhs)?;
            let sum = checked_add_u64(lhs, rhs)?;
            checked_add_u64(sum, 1)
        },
        ExprKind::If(i) => {
            let c = emit_count_exec(&i.condition)?;
            let cons = emit_count_exec(&i.consequent)?;
            let alt = emit_count_exec(&i.alternative)?;
            let sum = checked_add_u64(c, cons)?;
            let sum = checked_add_u64(sum, alt)?;
            checked_add_u64(sum, 2)
        },
        ExprKind::Bindings(b) => {
            let ghost n = b.defines@.len() as int;
            let mut acc: u64 = 0;
            let mut k: usize = 0;
            while k < b.defines.len()
                invariant
                    k <= b.defines@.len(),
                    n == b.defines@.len(),
                    acc == defines_emit_count(b.defines, k as int),
                decreases b.defines@.len() - k,
            {
                let v = match emit_count_exec(&b.defines[k].value) {
                    Some(v) => v,
                    None => {
                        proof {
                            lemma_defines_count_mono(b.defines, k as int + 1, n);
                        }
                        return None;
                    },
                };
                acc = match checked_add_u64(acc, v) {
                    Some(a) => a,
                    None => {
                        proof {
                            lemma_defines_count_mono(b.defines, k as int + 1, n);
                        }
                        return None;
                    },
                };
                k = k + 1;
            }
            let ending = emit_count_exec(&b.ending)?;
            let sum = checked_add_u64(acc, ending)?;
            checked_add_u64(sum, 2)
        },
    }
}

/// Counts the instructions lowering a whole program will emit, or reports
/// that the count does not fit in a counter.
#[verifier::loop_isolation(false)]
pub fn program_emit_count_exec(p: &Program) -> (r: Option<u64>)
    ensures
        r matches Some(c) ==> c == program_emit_count(*p),
        r is None ==> program_emit_count(*p) > u64::MAX,
{
    let ghost n = p.functions@.len() as int;
    let mut acc: u64 = 0;
    let mut k: usize = 0;
    while k < p.functions.len()
        invariant
            k <= p.functions@.len(),
            n == p.functions@.len(),
            acc == functions_emit_count(p.functions, k as int),
        decreases p.functions@.len() - k,
    {
        let body = match emit_count_exec(&p.functions[k].body) {
            Some(v) => v,
            None => {
                proof {
                    lemma_functions_count_mono(p.functions, k as int + 1, n);
                }
                return None;
            },
        };
        let with_epilogue = match checked_add_u64(body, 2) {
            Some(v) => v,
            None => {
                proof {
                    lemma_functions_count_mono(p.functions, k as int + 1, n);
                }
                return None;
            },
        };
        acc = match checked_add_u64(acc, with_epilogue) {
            Some(a) => a,
            None => {
                proof {
                    lemma_functions_count_mono(p.functions, k as int + 1, n);
                }
                return None;
            },
        };
        k = k + 1;
    }
    Some(acc)
}

/// After resolving labels, every instruction referencing a label has a
/// target within the program: label positions bounded by the instruction
/// count become addresses bounded by it.
pub proof fn lemma_resolved_targets_in_bounds(
    instrs: Seq<UnresolvedInstruction>,
    labels: Seq<Option<u32>>,
    resolved: Seq<Instruction>,
)
    requires
        resolved.len() == instrs.len(),
        forall|k: int|
            0 <= k < instrs.len() ==> #[trigger] resolved[k] == spec_resolve_instr(
                instrs[k],
                labels,
            ),
        region_refs_ok(instrs, 0, instrs.len() as int, labels, 0, instrs.len() as int - 1),
    ensures
        forall|k: int|
            0 <= k < resolved.len() ==> instr_targets_in_bounds(
                #[trigger] resolved[k],
                resolved.len(),
            ),
{
    assert forall|k: int| 0 <= k < resolved.len() implies instr_targets_in_bounds(
        #[trigger] resolved[k],
        resolved.len(),
    ) by {
        assert(instr_label_refs_ok(instrs[k], labels, 0, instrs.len() as int - 1));
    }
}

} // verus!
