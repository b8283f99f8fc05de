//! The compilation pipeline: parse, type-check, lower, resolve labels and
//! encode.

use vstd::prelude::*;

use crate::ast::Program;
use crate::codec;
use crate::codec::{
    instrs_bytes, lemma_decode_all_of_encoded, spec_decode_all, Instruction,
};
use crate::context::{CompilerPassError, ParsingContext, TypingContext};
use crate::lowering::{
    instr_labels_defined, instr_targets_in_bounds, lemma_resolved_targets_in_bounds,
    program_code, program_emit_count, program_emit_count_exec, program_labels,
    program_lowerable, resolve_context, spec_resolve_instr, wf_program, UnresolvedInstruction,
};
use crate::parser::{chars_of, p_program, program, program_matches};
use crate::type_checker::{check_program, is_first_main, program_well_typed_in};

verus! {

/// What the pipeline guarantees of every instruction list it produces: the
/// program is nonempty and addressable by the wire format, every
/// control-flow target lies within it, and a full stop exists on it.
pub open spec fn compiled_program_ok(instrs: Seq<Instruction>) -> bool {
    &&& 1 <= instrs.len() <= u32::MAX
    &&& forall|k: int|
        0 <= k < instrs.len() ==> instr_targets_in_bounds(#[trigger] instrs[k], instrs.len())
    &&& exists|k: int|
        0 <= k < instrs.len() && #[trigger] instrs[k] == Instruction::FStop(codec::FStop)
}

/// Whether a parsed program compiles: it is well typed, its code fits the
/// wire format's 32-bit instruction addressing, and every variable it reads
/// is bound at an addressable depth.
pub open spec fn program_compiles(p: Program) -> bool {
    &&& program_well_typed_in(p, Seq::empty())
    &&& program_emit_count(p) < u32::MAX
    &&& program_lowerable(p)
}

/// The wire instructions a program compiles to: the lowering's emission
/// with each label replaced by the position the label table gives it.
pub open spec fn compiled_instructions(p: Program, mi: int) -> Seq<Instruction> {
    Seq::new(
        program_code(p, mi).len(),
        |k: int| spec_resolve_instr(program_code(p, mi)[k], program_labels(p, mi)),
    )
}

/// A failed compilation: the pass error carrying the diagnostic count, and
/// the diagnostics themselves, rendered one per line.
pub struct CompilationFailure {
    pub error: CompilerPassError,
    pub diagnostics: String,
}

/// Compiles a parsed program: type check, address-space check, lowering and
/// label resolution.  Succeeds exactly when the program compiles, and then
/// returns exactly the instructions the emission table gives it, labels
/// resolved; a failure carries at least one diagnostic.
pub fn compile_ast(ast: &Program) -> (r: Result<Vec<Instruction>, CompilationFailure>)
    requires
        wf_program(*ast),
    ensures
        r is Ok <==> program_compiles(*ast),
        r matches Ok(instrs) ==> compiled_program_ok(instrs@) && forall|mi: int|
            #[trigger] is_first_main(ast.functions@, mi) ==> instrs@ == compiled_instructions(
                *ast,
                mi,
            ),
        r matches Err(failure) ==> failure.error.0 >= 1,
{
    let mut ctxt = TypingContext::new();
    let typed = check_program(ast, &mut ctxt);
    if typed.is_err() {
        return Err(
            CompilationFailure {
                error: CompilerPassError(ctxt.errs.len()),
                diagnostics: ctxt.errs.render(),
            },
        );
    }

    // The wire format addresses instructions with 32 bits: reject a program
    // that could not be addressed.
    let within_address_space = match program_emit_count_exec(ast) {
        Some(count) => count < u32::MAX as u64,
        None => false,
    };
    if !within_address_space {
        let mut ctxt = ctxt;
        ctxt.errs.add("Program is too large for the bytecode format");
        return Err(
            CompilationFailure {
                error: CompilerPassError(ctxt.errs.len()),
                diagnostics: ctxt.errs.render(),
            },
        );
    }

    let ctxt = ctxt.into_lowering_context();
    let mut instructions: Vec<UnresolvedInstruction> = Vec::new();
    let mut lctxt = ctxt;
    let lowered = ast.lower(&mut instructions, &mut lctxt);
    if lowered.is_err() {
        return Err(
            CompilationFailure {
                error: CompilerPassError(lctxt.errs.len()),
                diagnostics: lctxt.errs.render(),
            },
        );
    }

    proof {
        assert forall|k: int| 0 <= k < instructions@.len() implies instr_labels_defined(
            #[trigger] instructions@[k],
            lctxt.labels.slots@,
        ) by {
            assert(crate::lowering::instr_label_refs_ok(
                instructions@[k],
                lctxt.labels.slots@,
                0,
                instructions@.len() as int - 1,
            ));
        }
    }
    let final_instructions = match resolve_context(&instructions, &lctxt) {
        Ok(v) => v,
        Err(_) => {
            proof {
                assert(false);
            }
            return Err(
                CompilationFailure {
                    error: CompilerPassError(1),
                    diagnostics: lctxt.errs.render(),
                },
            );
        },
    };
    proof {
        lemma_resolved_targets_in_bounds(
            instructions@,
            lctxt.labels.slots@,
            final_instructions@,
        );
        let mi = choose|mi: int|
            {
                &&& #[trigger] is_first_main(ast.functions@, mi)
                &&& crate::lowering::emit_count(ast.functions@[mi].body) < instructions@.len()
                &&& instructions@[crate::lowering::emit_count(ast.functions@[mi].body) as int]
                    == UnresolvedInstruction::FStop
            };
        let fk = crate::lowering::emit_count(ast.functions@[mi].body) as int;
        assert(final_instructions@[fk] == spec_resolve_instr(
            instructions@[fk],
            lctxt.labels.slots@,
        ));
        assert(final_instructions@[fk] == Instruction::FStop(codec::FStop));
        assert forall|mi2: int| #[trigger] is_first_main(ast.functions@, mi2) implies
            final_instructions@ =~= compiled_instructions(*ast, mi2) by {}
    }
    Ok(final_instructions)
}

/// Compiles a source text into the resolved instruction list it denotes,
/// reporting the diagnostics of a failed compilation.  If the text parses
/// with no recovery diagnostic, success is exactly `program_compiles` of
/// the parsed program, and the instructions are exactly its compilation;
/// on success the program starts with `main`'s code at instruction 0,
/// every jump and call target lies within the program, and `main`'s path
/// ends at a full stop.
pub fn compile_program(source: &str) -> (r: Result<Vec<Instruction>, CompilationFailure>)
    ensures
        r matches Ok(instrs) ==> compiled_program_ok(instrs@),
        r is Ok ==> ({
            let (m, d) = p_program(source@, 0);
            m is Some && d == 0
        }),
        ({
            let (m, d) = p_program(source@, 0);
            (m is None || d != 0) ==> r is Err
        }),
        r matches Ok(instrs) ==> (p_program(source@, 0).0 matches Some(ms) && exists|p: Program|
            {
                &&& #[trigger] program_matches(p, ms)
                &&& wf_program(p)
                &&& program_compiles(p)
                &&& forall|mi: int|
                    #[trigger] is_first_main(p.functions@, mi) ==> instrs@
                        == compiled_instructions(p, mi)
            }),
        ({
            let (m, d) = p_program(source@, 0);
            (m matches Some(ms) && d == 0 && (forall|p: Program|
                program_matches(p, ms) && #[trigger] wf_program(p) ==> program_compiles(p)))
                ==> r is Ok
        }),
{
    let s = chars_of(source);
    let mut ctxt = ParsingContext::new();
    let ast = match program(&s, 0, &mut ctxt) {
        Some((ast, _)) => ast,
        None => {
            return Err(
                CompilationFailure {
                    error: CompilerPassError(ctxt.errs.len()),
                    diagnostics: ctxt.errs.render(),
                },
            );
        },
    };
    if ctxt.errs.len() > 0 {
        return Err(
            CompilationFailure {
                error: CompilerPassError(ctxt.errs.len()),
                diagnostics: ctxt.errs.render(),
            },
        );
    }
    compile_ast(&ast)
}

/// Compiles a source text into the resolved instruction list it denotes.
pub fn bytecode_from_program(source: &str) -> (r: Result<Vec<Instruction>, CompilerPassError>)
    ensures
        r matches Ok(instrs) ==> compiled_program_ok(instrs@),
        r is Ok ==> ({
            let (m, d) = p_program(source@, 0);
            m is Some && d == 0
        }),
        r matches Ok(instrs) ==> (p_program(source@, 0).0 matches Some(ms) && exists|p: Program|
            {
                &&& #[trigger] program_matches(p, ms)
                &&& wf_program(p)
                &&& program_compiles(p)
                &&& forall|mi: int|
                    #[trigger] is_first_main(p.functions@, mi) ==> instrs@
                        == compiled_instructions(p, mi)
            }),
        ({
            let (m, d) = p_program(source@, 0);
            (m matches Some(ms) && d == 0 && (forall|p: Program|
                program_matches(p, ms) && #[trigger] wf_program(p) ==> program_compiles(p)))
                ==> r is Ok
        }),
{
    match compile_program(source) {
        Ok(instrs) => Ok(instrs),
        Err(failure) => Err(failure.error),
    }
}

/// Compiles a source text into its wire bytes: exactly the encoding of the
/// instruction list the source compiles to.  On success the bytes decode
/// back to that well-formed program.
pub fn compile(source: &str) -> (r: Result<Vec<u8>, CompilerPassError>)
    ensures
        r matches Ok(bytes) ==> (spec_decode_all(bytes@) matches Some(instrs) && {
            &&& compiled_program_ok(instrs)
            &&& bytes@ == instrs_bytes(instrs)
            &&& p_program(source@, 0).0 matches Some(ms) && exists|p: Program|
                {
                    &&& #[trigger] program_matches(p, ms)
                    &&& wf_program(p)
                    &&& program_compiles(p)
                    &&& forall|mi: int|
                        #[trigger] is_first_main(p.functions@, mi) ==> instrs
                            == compiled_instructions(p, mi)
                }
        }),
        r is Ok ==> ({
            let (m, d) = p_program(source@, 0);
            m is Some && d == 0
        }),
        ({
            let (m, d) = p_program(source@, 0);
            (m matches Some(ms) && d == 0 && (forall|p: Program|
                program_matches(p, ms) && #[trigger] wf_program(p) ==> program_compiles(p)))
                ==> r is Ok
        }),
{
    let instructions = bytecode_from_program(source)?;
    let output = Instruction::encode_multiple(&instructions);
    proof {
        lemma_decode_all_of_encoded(instructions@);
    }
    Ok(output)
}

} // verus!
