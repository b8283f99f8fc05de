//! The contexts that the compilation passes thread through their work: the
//! shared error channel, the typing environment, the label table and the
//! compile-time stack model.

use vstd::prelude::*;

use crate::text::{dec_digits, str_eq, u64_to_string};
use crate::ty::Ty;

verus! {

// ---------------------------------------------------------------------------
// Errors
// ---------------------------------------------------------------------------

/// One diagnostic, as the text shown to the user.
#[derive(Debug, PartialEq, Eq, Clone)]
pub struct CompilationError(pub String);

impl CompilationError {
    pub fn new(message: String) -> (r: CompilationError)
        ensures
            r.0 == message,
    {
        CompilationError(message)
    }

    /// The diagnostic's text.
    pub fn message(&self) -> (r: &str)
        ensures
            r@ == self.0@,
    {
        self.0.as_str()
    }
}

/// The error channel every pass records its diagnostics in.
#[derive(Debug, PartialEq, Eq, Clone)]
pub struct ErrorContext(pub Vec<CompilationError>);

/// The messages held by an error channel.
pub open spec fn error_messages(errs: ErrorContext) -> Seq<Seq<char>> {
    errs.0@.map_values(|e: CompilationError| e.0@)
}

/// The rendering of an error list: each message followed by a newline.
pub open spec fn rendered_errors(msgs: Seq<Seq<char>>) -> Seq<char>
    decreases msgs.len(),
{
    if msgs.len() == 0 {
        Seq::empty()
    } else {
        rendered_errors(msgs.drop_last()) + msgs.last() + seq!['\n']
    }
}

impl ErrorContext {
    pub fn new() -> (r: ErrorContext)
        ensures
            error_messages(r) =~= Seq::<Seq<char>>::empty(),
    {
        ErrorContext(Vec::new())
    }

    /// Records one diagnostic.
    pub fn add(&mut self, e: &str)
        ensures
            error_messages(*final(self)) =~= error_messages(*old(self)).push(e@),
    {
        self.0.push(CompilationError(e.to_owned()));
    }

    /// Records one diagnostic given as an owned string.
    pub fn add_string(&mut self, e: String)
        ensures
            error_messages(*final(self)) =~= error_messages(*old(self)).push(e@),
    {
        self.0.push(CompilationError(e));
    }

    /// The number of diagnostics recorded so far.
    pub fn len(&self) -> (r: usize)
        ensures
            r == error_messages(*self).len(),
    {
        self.0.len()
    }

    /// The recorded diagnostics, one per line.
    pub fn render(&self) -> (r: String)
        ensures
            r@ == rendered_errors(error_messages(*self)),
    {
        let mut out = String::new();
        let mut k: usize = 0;
        while k < self.0.len()
            invariant
                k <= self.0@.len(),
                out@ == rendered_errors(error_messages(*self).take(k as int)),
            decreases self.0@.len() - k,
        {
            out.append(self.0[k].0.as_str());
            crate::text::string_push_char(&mut out, '\n');
            proof {
                let msgs = error_messages(*self);
                assert(msgs.take(k + 1).drop_last() =~= msgs.take(k as int));
                assert(msgs.take(k + 1).last() == msgs[k as int]);
                assert(rendered_errors(msgs.take(k + 1)) =~= (rendered_errors(msgs.take(k as int))
                    + msgs[k as int]).push('\n'));
            }
            k = k + 1;
        }
        proof {
            assert(error_messages(*self).take(error_messages(*self).len() as int) =~= error_messages(
                *self,
            ));
        }
        out
    }

    /// Wraps a pass outcome: the pass succeeds exactly when it produced a
    /// value and no diagnostic was recorded; otherwise the diagnostic count
    /// travels in the error.
    pub fn emit_possible_errors<T>(&self, rslt: Result<T, ()>) -> (r: Result<T, CompilerPassError>)
        ensures
            match r {
                Ok(_) => rslt is Ok && error_messages(*self).len() == 0,
                Err(e) => (rslt is Err || error_messages(*self).len() > 0) && e
                    == CompilerPassError(error_messages(*self).len() as usize) && e.0
                    == error_messages(*self).len(),
            },
            match rslt {
                Ok(v) => error_messages(*self).len() == 0 ==> r == Ok::<T, CompilerPassError>(v),
                Err(_) => true,
            },
    {
        match rslt {
            Ok(v) => {
                if self.0.len() == 0 {
                    Ok(v)
                } else {
                    Err(CompilerPassError(self.0.len()))
                }
            },
            Err(()) => Err(CompilerPassError(self.0.len())),
        }
    }
}

/// A failed compilation pass, carrying the number of diagnostics recorded.
#[derive(Clone, Copy, Debug, PartialEq, Eq, Structural)]
pub struct CompilerPassError(pub usize);

impl CompilerPassError {
    /// The failure's text: the number of errors the compilation ended with.
    pub fn message(&self) -> (r: String)
        ensures
            r@ == "Compilation failed with "@ + dec_digits(self.0 as nat) + (if self.0 == 1 {
                " error"@
            } else {
                " errors"@
            }),
    {
        let mut out = "Compilation failed with ".to_owned();
        let digits = u64_to_string(self.0 as u64);
        out.append(digits.as_str());
        if self.0 == 1 {
            out.append(" error");
        } else {
            out.append(" errors");
        }
        out
    }
}

/// The outcome of one compilation pass: the pass's context and artifact, or
/// the number of diagnostics it recorded.
pub type PassResult<C, T> = Result<(C, T), CompilerPassError>;

// ---------------------------------------------------------------------------
// Pass contexts
// ---------------------------------------------------------------------------

/// The context the parser threads: the shared error channel.
#[derive(Debug, PartialEq, Eq, Clone)]
pub struct ParsingContext {
    pub errs: ErrorContext,
}

impl ParsingContext {
    pub fn new() -> (r: ParsingContext)
        ensures
            error_messages(r.errs) =~= Seq::<Seq<char>>::empty(),
    {
        ParsingContext { errs: ErrorContext::new() }
    }

    /// The diagnostics recorded so far.
    pub fn errors(&self) -> (r: &ErrorContext)
        ensures
            *r == self.errs,
    {
        &self.errs
    }

    /// Hands the error channel on to the type-checking pass.
    pub fn into_typing_context(self) -> (r: TypingContext)
        ensures
            r.errs == self.errs,
            r.bindings@ =~= Seq::<(String, Ty)>::empty(),
    {
        TypingContext { bindings: Vec::new(), errs: self.errs }
    }

    /// Hands the error channel on to the lowering pass.
    pub fn into_lowering_context(self) -> (r: LoweringContext)
        ensures
            r.errs == self.errs,
            r.labels.slots@ =~= Seq::<Option<u32>>::empty(),
            r.labels.names@ =~= Seq::<(String, usize)>::empty(),
            r.stack.entries@ =~= Seq::<String>::empty(),
    {
        LoweringContext {
            labels: LabelContext::new(),
            stack: StackContext::new(),
            errs: self.errs,
        }
    }

    /// Wraps the parsing pass's outcome.
    pub fn wrap_result<T>(self, rslt: Result<T, ()>) -> (r: PassResult<ParsingContext, T>)
        ensures
            match r {
                Ok((c, _)) => rslt is Ok && error_messages(self.errs).len() == 0 && c == self,
                Err(e) => (rslt is Err || error_messages(self.errs).len() > 0) && e
                    == CompilerPassError(error_messages(self.errs).len() as usize) && e.0
                    == error_messages(self.errs).len(),
            },
            match rslt {
                Ok(v) => error_messages(self.errs).len() == 0 ==> (r matches Ok((c, w)) && w
                    == v),
                Err(_) => true,
            },
    {
        match self.errs.emit_possible_errors(rslt) {
            Ok(v) => Ok((self, v)),
            Err(e) => Err(e),
        }
    }
}

// ---------------------------------------------------------------------------
// Typing environment
// ---------------------------------------------------------------------------

/// The type bound to `name` in the environment: the binding nearest the top
/// wins, so inner bindings shadow outer ones.
pub open spec fn lookup_ty(env: Seq<(String, Ty)>, name: Seq<char>) -> Option<Ty>
    decreases env.len(),
{
    if env.len() == 0 {
        None
    } else if env.last().0@ == name {
        Some(env.last().1)
    } else {
        lookup_ty(env.drop_last(), name)
    }
}

/// The context the type checker threads: the binding environment and the
/// shared error channel.
#[derive(Debug, PartialEq, Eq, Clone)]
pub struct TypingContext {
    pub bindings: Vec<(String, Ty)>,
    pub errs: ErrorContext,
}

impl TypingContext {
    pub fn new() -> (r: TypingContext)
        ensures
            r.bindings@ =~= Seq::<(String, Ty)>::empty(),
            error_messages(r.errs) =~= Seq::<Seq<char>>::empty(),
    {
        TypingContext { bindings: Vec::new(), errs: ErrorContext::new() }
    }

    /// Binds `name` to `ty`, shadowing any earlier binding of the name.
    pub fn add_binding(&mut self, name: String, ty: Ty)
        ensures
            final(self).bindings@ == old(self).bindings@.push((name, ty)),
            final(self).errs == old(self).errs,
    {
        self.bindings.push((name, ty));
    }

    /// The type bound to `name`, if any.
    pub fn resolve_binding(&self, name: &str) -> (r: Option<Ty>)
        ensures
            r == lookup_ty(self.bindings@, name@),
    {
        proof {
            assert(self.bindings@.take(self.bindings@.len() as int) =~= self.bindings@);
        }
        let mut k: usize = self.bindings.len();
        while k > 0
            invariant
                k <= self.bindings@.len(),
                lookup_ty(self.bindings@, name@) == lookup_ty(
                    self.bindings@.take(k as int),
                    name@,
                ),
            decreases k,
        {
            k = k - 1;
            if str_eq(self.bindings[k].0.as_str(), name) {
                proof {
                    assert(self.bindings@.take(k + 1).last() == self.bindings@[k as int]);
                }
                return Some(self.bindings[k].1);
            }
            proof {
                assert(self.bindings@.take(k + 1).drop_last() =~= self.bindings@.take(k as int));
            }
        }
        proof {
            assert(self.bindings@.take(0) =~= Seq::<(String, Ty)>::empty());
        }
        None
    }

    /// Opens a nested scope; bindings added after this call are dropped by
    /// `drop_subcontext`.
    pub fn new_subcontext(&self) -> (r: usize)
        ensures
            r == self.bindings@.len(),
    {
        self.bindings.len()
    }

    /// Closes a nested scope, dropping the bindings added inside it.
    pub fn drop_subcontext(&mut self, new_top: usize)
        ensures
            new_top <= old(self).bindings@.len() ==> final(self).bindings@ == old(
                self,
            ).bindings@.take(new_top as int),
            new_top > old(self).bindings@.len() ==> final(self).bindings@ == old(self).bindings@,
            final(self).errs == old(self).errs,
    {
        self.bindings.truncate(new_top);
    }

    /// The diagnostics recorded so far.
    pub fn errors(&self) -> (r: &ErrorContext)
        ensures
            *r == self.errs,
    {
        &self.errs
    }

    /// Hands the error channel on to the lowering pass.
    pub fn into_lowering_context(self) -> (r: LoweringContext)
        ensures
            r.errs == self.errs,
            r.labels.slots@ =~= Seq::<Option<u32>>::empty(),
            r.labels.names@ =~= Seq::<(String, usize)>::empty(),
            r.stack.entries@ =~= Seq::<String>::empty(),
    {
        LoweringContext {
            labels: LabelContext::new(),
            stack: StackContext::new(),
            errs: self.errs,
        }
    }

    /// Wraps the type-checking pass's outcome.
    pub fn wrap_result<T>(self, rslt: Result<T, ()>) -> (r: PassResult<TypingContext, T>)
        ensures
            match r {
                Ok((c, _)) => rslt is Ok && error_messages(self.errs).len() == 0 && c == self,
                Err(e) => (rslt is Err || error_messages(self.errs).len() > 0) && e
                    == CompilerPassError(error_messages(self.errs).len() as usize) && e.0
                    == error_messages(self.errs).len(),
            },
            match rslt {
                Ok(v) => error_messages(self.errs).len() == 0 ==> (r matches Ok((c, w)) && w
                    == v),
                Err(_) => true,
            },
    {
        match self.errs.emit_possible_errors(rslt) {
            Ok(v) => Ok((self, v)),
            Err(e) => Err(e),
        }
    }
}

// ---------------------------------------------------------------------------
// Label table
// ---------------------------------------------------------------------------

/// A failed label definition.
#[derive(Copy, Clone, Debug, PartialEq, Eq, Structural)]
pub enum LabelDefinitionError {
    AlreadyDefined(u32),
    UnknownLabel,
}

/// A failed label resolution.
#[derive(Copy, Clone, Debug, PartialEq, Eq, Structural)]
pub enum LabelResolutionError {
    UnknownLabel,
    UnknownLabelPosition,
}

/// The label table: a dense vector indexed by label identifier, each entry
/// either unset or the instruction index the label resolves to.  Identifiers
/// are handed out monotonically and never deleted; function entry points
/// also record their name.
#[derive(Debug, PartialEq, Eq, Clone)]
pub struct LabelContext {
    pub slots: Vec<Option<u32>>,
    pub names: Vec<(String, usize)>,
}

impl LabelContext {
    pub fn new() -> (r: LabelContext)
        ensures
            r.slots@ =~= Seq::<Option<u32>>::empty(),
            r.names@ =~= Seq::<(String, usize)>::empty(),
    {
        LabelContext { slots: Vec::new(), names: Vec::new() }
    }

    /// Hands out a fresh label with no position yet.
    pub fn new_anonymous(&mut self) -> (r: usize)
        ensures
            r == old(self).slots@.len(),
            final(self).slots@ == old(self).slots@.push(None::<u32>),
            final(self).names@ == old(self).names@,
    {
        let tmp = self.slots.len();
        self.slots.push(None);
        tmp
    }

    /// Hands out a fresh label already positioned at `pos` and remembers it
    /// under `name`: a function entry point.
    pub fn new_named(&mut self, name: String, pos: u32) -> (r: usize)
        ensures
            r == old(self).slots@.len(),
            final(self).slots@ == old(self).slots@.push(Some(pos)),
            final(self).names@ == old(self).names@.push((name, old(self).slots@.len() as usize)),
    {
        let id = self.slots.len();
        self.slots.push(Some(pos));
        self.names.push((name, id));
        id
    }

    /// Sets the position of a label that does not have one yet.
    pub fn set_position(&mut self, label_id: usize, pos: u32) -> (r: Result<
        (),
        LabelDefinitionError,
    >)
        ensures
            final(self).names@ == old(self).names@,
            match r {
                Ok(()) => {
                    &&& label_id < old(self).slots@.len()
                    &&& old(self).slots@[label_id as int] is None
                    &&& final(self).slots@ == old(self).slots@.update(
                        label_id as int,
                        Some(pos),
                    )
                },
                Err(e) => final(self).slots@ == old(self).slots@ && if label_id >= old(
                    self,
                ).slots@.len() {
                    e == LabelDefinitionError::UnknownLabel
                } else {
                    old(self).slots@[label_id as int] matches Some(addr) && e
                        == LabelDefinitionError::AlreadyDefined(addr)
                },
            },
    {
        if label_id >= self.slots.len() {
            return Err(LabelDefinitionError::UnknownLabel);
        }
        match self.slots[label_id] {
            None => {
                self.slots[label_id] = Some(pos);
                Ok(())
            },
            Some(addr) => Err(LabelDefinitionError::AlreadyDefined(addr)),
        }
    }

    /// The position a label resolves to.
    pub fn resolve(&self, label_id: usize) -> (r: Result<u32, LabelResolutionError>)
        ensures
            match r {
                Ok(pos) => label_id < self.slots@.len() && self.slots@[label_id as int] == Some(
                    pos,
                ),
                Err(e) => if label_id >= self.slots@.len() {
                    e == LabelResolutionError::UnknownLabel
                } else {
                    self.slots@[label_id as int] is None && e
                        == LabelResolutionError::UnknownLabelPosition
                },
            },
    {
        if label_id >= self.slots.len() {
            return Err(LabelResolutionError::UnknownLabel);
        }
        match self.slots[label_id] {
            Some(pos) => Ok(pos),
            None => Err(LabelResolutionError::UnknownLabelPosition),
        }
    }

    /// The position an anonymous label resolves to.
    pub fn resolve_anonymous(&self, label_id: usize) -> (r: Result<u32, LabelResolutionError>)
        ensures
            match r {
                Ok(pos) => label_id < self.slots@.len() && self.slots@[label_id as int] == Some(
                    pos,
                ),
                Err(e) => if label_id >= self.slots@.len() {
                    e == LabelResolutionError::UnknownLabel
                } else {
                    self.slots@[label_id as int] is None && e
                        == LabelResolutionError::UnknownLabelPosition
                },
            },
    {
        self.resolve(label_id)
    }

    /// The label identifier remembered under `name`: the earliest entry
    /// with that name wins.
    pub open spec fn lookup_named(names: Seq<(String, usize)>, name: Seq<char>) -> Option<usize>
        decreases names.len(),
    {
        if names.len() == 0 {
            None
        } else if names[0].0@ == name {
            Some(names[0].1)
        } else {
            Self::lookup_named(names.drop_first(), name)
        }
    }

    /// The position of the function entry point remembered under `name`.
    pub fn resolve_named(&self, name: &str) -> (r: Result<u32, LabelResolutionError>)
        ensures
            match Self::lookup_named(self.names@, name@) {
                None => r == Err::<u32, LabelResolutionError>(
                    LabelResolutionError::UnknownLabel,
                ),
                Some(id) => match r {
                    Ok(pos) => id < self.slots@.len() && self.slots@[id as int] == Some(pos),
                    Err(e) => if id >= self.slots@.len() {
                        e == LabelResolutionError::UnknownLabel
                    } else {
                        self.slots@[id as int] is None && e
                            == LabelResolutionError::UnknownLabelPosition
                    },
                },
            },
    {
        proof {
            assert(self.names@.skip(0) =~= self.names@);
        }
        let mut k: usize = 0;
        while k < self.names.len()
            invariant
                k <= self.names@.len(),
                Self::lookup_named(self.names@, name@) == Self::lookup_named(
                    self.names@.skip(k as int),
                    name@,
                ),
                forall|j: int| 0 <= j < k ==> (#[trigger] self.names@[j].0@) != name@,
            decreases self.names@.len() - k,
        {
            proof {
                assert(self.names@.skip(k as int)[0] == self.names@[k as int]);
                assert(self.names@.skip(k as int).drop_first() =~= self.names@.skip(k + 1));
            }
            if str_eq(self.names[k].0.as_str(), name) {
                return self.resolve(self.names[k].1);
            }
            k = k + 1;
        }
        proof {
            assert(self.names@.skip(self.names@.len() as int) =~= Seq::<(String, usize)>::empty());
        }
        Err(LabelResolutionError::UnknownLabel)
    }
}

// ---------------------------------------------------------------------------
// Compile-time stack model
// ---------------------------------------------------------------------------

/// A failed renaming of the top stack entry.
#[derive(Copy, Clone, Debug, PartialEq, Eq, Structural)]
pub enum AnonymousNamingError {
    NoTopVariable,
    NotAnonymous,
}

/// A failed pop of the top stack entry.
#[derive(Copy, Clone, Debug, PartialEq, Eq, Structural)]
pub enum AnonymousPoppingError {
    EmptyStack,
    NotAnonymous,
}

/// The name of an anonymous compile-time stack entry: the empty string.
pub open spec fn anon_entry() -> Seq<char> {
    Seq::empty()
}

/// The depth, counted from the top starting at zero, of the nearest entry
/// named `name`.
pub open spec fn spec_resolve_depth(stack: Seq<Seq<char>>, name: Seq<char>) -> Option<int>
    decreases stack.len(),
{
    if stack.len() == 0 {
        None
    } else if stack.last() == name {
        Some(0int)
    } else {
        match spec_resolve_depth(stack.drop_last(), name) {
            Some(d) => Some(d + 1),
            None => None,
        }
    }
}

/// The names of the entries of a compile-time stack.
pub open spec fn stack_names(stack: StackContext) -> Seq<Seq<char>> {
    stack.entries@.map_values(|s: String| s@)
}

/// The compile-time model of the runtime stack: one entry per value that
/// will live on the stack, either named (a variable) or anonymous (a
/// temporary, written as the empty string).
#[derive(Debug, PartialEq, Eq, Clone)]
pub struct StackContext {
    pub entries: Vec<String>,
}

impl StackContext {
    pub fn new() -> (r: StackContext)
        ensures
            r.entries@ =~= Seq::<String>::empty(),
            stack_names(r) =~= Seq::<Seq<char>>::empty(),
    {
        StackContext { entries: Vec::new() }
    }

    /// Pushes an anonymous entry: a temporary.
    pub fn push_anonymous(&mut self)
        ensures
            stack_names(*final(self)) =~= stack_names(*old(self)).push(anon_entry()),
    {
        self.entries.push(String::new());
    }

    /// Pushes an entry under the given name.
    pub fn push_variable(&mut self, name: String)
        ensures
            stack_names(*final(self)) =~= stack_names(*old(self)).push(name@),
    {
        self.entries.push(name);
    }

    /// Pushes an entry under the given name.
    pub fn push_named(&mut self, name: String)
        ensures
            stack_names(*final(self)) =~= stack_names(*old(self)).push(name@),
    {
        self.entries.push(name);
    }

    /// Gives the anonymous top entry a name: a `let` binding takes effect.
    pub fn name_top_anonymous(&mut self, name: String) -> (r: Result<(), AnonymousNamingError>)
        ensures
            match r {
                Ok(()) => {
                    &&& stack_names(*old(self)).len() >= 1
                    &&& stack_names(*old(self)).last() == anon_entry()
                    &&& stack_names(*final(self)) =~= stack_names(*old(self)).drop_last().push(
                        name@,
                    )
                },
                Err(e) => stack_names(*final(self)) =~= stack_names(*old(self)) && if stack_names(
                    *old(self),
                ).len() == 0 {
                    e == AnonymousNamingError::NoTopVariable
                } else {
                    stack_names(*old(self)).last() != anon_entry() && e
                        == AnonymousNamingError::NotAnonymous
                },
            },
    {
        if self.entries.len() == 0 {
            return Err(AnonymousNamingError::NoTopVariable);
        }
        let top = self.entries.len() - 1;
        if self.entries[top].as_str().is_empty() {
            self.entries[top] = name;
            proof {
                assert(stack_names(*self) =~= stack_names(*old(self)).drop_last().push(name@));
            }
            Ok(())
        } else {
            Err(AnonymousNamingError::NotAnonymous)
        }
    }

    /// The depth, from the top, at which `name` is bound, where the top
    /// entry has depth zero; `None` when the name is unbound or deeper than
    /// an operand can address.
    pub fn resolve(&self, name: &str) -> (r: Option<u16>)
        ensures
            match r {
                Some(d) => spec_resolve_depth(stack_names(*self), name@) == Some(d as int),
                None => spec_resolve_depth(stack_names(*self), name@) is None
                    || spec_resolve_depth(stack_names(*self), name@).unwrap() > u16::MAX,
            },
    {
        proof {
            assert(stack_names(*self).take(stack_names(*self).len() as int) =~= stack_names(
                *self,
            ));
        }
        let mut k: usize = self.entries.len();
        while k > 0
            invariant
                k <= self.entries@.len(),
                spec_resolve_depth(stack_names(*self), name@) matches Some(d) ==> (
                spec_resolve_depth(stack_names(*self).take(k as int), name@) matches Some(d2)
                    && d == d2 + (stack_names(*self).len() - k)),
                spec_resolve_depth(stack_names(*self), name@) is None ==> spec_resolve_depth(
                    stack_names(*self).take(k as int),
                    name@,
                ) is None,
            decreases k,
        {
            k = k - 1;
            proof {
                assert(stack_names(*self).take(k + 1).last() == stack_names(*self)[k as int]);
                assert(stack_names(*self).take(k + 1).drop_last() =~= stack_names(*self).take(
                    k as int,
                ));
            }
            if str_eq(self.entries[k].as_str(), name) {
                let depth = self.entries.len() - 1 - k;
                if depth <= u16::MAX as usize {
                    return Some(depth as u16);
                } else {
                    return None;
                }
            }
        }
        proof {
            assert(stack_names(*self).take(0) =~= Seq::<Seq<char>>::empty());
        }
        None
    }

    /// Opens a nested scope: remembers the current depth.
    pub fn new_subcontext(&self) -> (r: usize)
        ensures
            r == stack_names(*self).len(),
    {
        self.entries.len()
    }

    /// Closes a nested scope: truncates back to the remembered depth.
    pub fn drop_subcontext(&mut self, new_top: usize)
        ensures
            new_top <= stack_names(*old(self)).len() ==> stack_names(*final(self)) =~= stack_names(
                *old(self),
            ).take(new_top as int),
            new_top > stack_names(*old(self)).len() ==> stack_names(*final(self)) =~= stack_names(
                *old(self),
            ),
    {
        self.entries.truncate(new_top);
        proof {
            if new_top <= old(self).entries@.len() {
                assert(stack_names(*self) =~= stack_names(*old(self)).take(new_top as int));
            }
        }
    }

    /// Pops the top entry, which must be anonymous: a temporary dies.
    pub fn pop_top_anonymous(&mut self) -> (r: Result<(), AnonymousPoppingError>)
        ensures
            match r {
                Ok(()) => {
                    &&& stack_names(*old(self)).len() >= 1
                    &&& stack_names(*old(self)).last() == anon_entry()
                    &&& stack_names(*final(self)) =~= stack_names(*old(self)).drop_last()
                },
                Err(e) => if stack_names(*old(self)).len() == 0 {
                    stack_names(*final(self)) =~= stack_names(*old(self)) && e
                        == AnonymousPoppingError::EmptyStack
                } else {
                    &&& stack_names(*old(self)).last() != anon_entry()
                    &&& stack_names(*final(self)) =~= stack_names(*old(self)).drop_last()
                    &&& e == AnonymousPoppingError::NotAnonymous
                },
            },
    {
        match self.entries.pop() {
            None => Err(AnonymousPoppingError::EmptyStack),
            Some(top) => {
                proof {
                    assert(stack_names(*self) =~= stack_names(*old(self)).drop_last());
                    assert(stack_names(*old(self)).last() == top@);
                }
                if top.as_str().is_empty() {
                    Ok(())
                } else {
                    Err(AnonymousPoppingError::NotAnonymous)
                }
            },
        }
    }

    /// The number of entries on the compile-time stack.
    pub fn depth(&self) -> (r: usize)
        ensures
            r == stack_names(*self).len(),
    {
        self.entries.len()
    }

    /// The top entry's name, if the stack is not empty.
    pub fn top(&self) -> (r: Option<&str>)
        ensures
            match r {
                Some(s) => stack_names(*self).len() >= 1 && s@ == stack_names(*self).last(),
                None => stack_names(*self).len() == 0,
            },
    {
        if self.entries.len() == 0 {
            None
        } else {
            Some(self.entries[self.entries.len() - 1].as_str())
        }
    }
}

// ---------------------------------------------------------------------------
// Lowering context
// ---------------------------------------------------------------------------

/// The context the lowering pass threads: the label table, the compile-time
/// stack model and the shared error channel.
#[derive(Debug, PartialEq, Eq, Clone)]
pub struct LoweringContext {
    pub labels: LabelContext,
    pub stack: StackContext,
    pub errs: ErrorContext,
}

impl LoweringContext {
    pub fn new() -> (r: LoweringContext)
        ensures
            r.labels.slots@ =~= Seq::<Option<u32>>::empty(),
            r.labels.names@ =~= Seq::<(String, usize)>::empty(),
            r.stack.entries@ =~= Seq::<String>::empty(),
            error_messages(r.errs) =~= Seq::<Seq<char>>::empty(),
    {
        LoweringContext {
            labels: LabelContext::new(),
            stack: StackContext::new(),
            errs: ErrorContext::new(),
        }
    }

    /// The label table.
    pub fn labels(&self) -> (r: &LabelContext)
        ensures
            *r == self.labels,
    {
        &self.labels
    }

    /// The label table, for mutation.
    pub fn labels_mut(&mut self) -> (r: &mut LabelContext)
        ensures
            *r == old(self).labels,
            final(self).labels == *final(r),
            final(self).stack == old(self).stack,
            final(self).errs == old(self).errs,
    {
        &mut self.labels
    }

    /// The compile-time stack.
    pub fn stack(&self) -> (r: &StackContext)
        ensures
            *r == self.stack,
    {
        &self.stack
    }

    /// The compile-time stack, for mutation.
    pub fn stack_mut(&mut self) -> (r: &mut StackContext)
        ensures
            *r == old(self).stack,
            final(self).stack == *final(r),
            final(self).labels == old(self).labels,
            final(self).errs == old(self).errs,
    {
        &mut self.stack
    }

    /// The diagnostics recorded so far.
    pub fn errors(&self) -> (r: &ErrorContext)
        ensures
            *r == self.errs,
    {
        &self.errs
    }

    /// Wraps the lowering pass's outcome.
    pub fn wrap_result<T>(self, rslt: Result<T, ()>) -> (r: PassResult<LoweringContext, T>)
        ensures
            match r {
                Ok((c, _)) => rslt is Ok && error_messages(self.errs).len() == 0 && c == self,
                Err(e) => (rslt is Err || error_messages(self.errs).len() > 0) && e
                    == CompilerPassError(error_messages(self.errs).len() as usize) && e.0
                    == error_messages(self.errs).len(),
            },
            match rslt {
                Ok(v) => error_messages(self.errs).len() == 0 ==> (r matches Ok((c, w)) && w
                    == v),
                Err(_) => true,
            },
    {
        match self.errs.emit_possible_errors(rslt) {
            Ok(v) => Ok((self, v)),
            Err(e) => Err(e),
        }
    }
}

} // verus!
