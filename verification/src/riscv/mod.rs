//! Lowering of Koopa IR programs to RISC-V assembly.
pub mod koopa_ir;
pub mod error;
pub mod program;
pub mod frame;
pub mod context;
pub mod asm_spec;
pub mod generate;
pub mod machine;

use vstd::prelude::*;
use context::AsmContext;
use error::GenerateAsmError;
use koopa_ir::{global_view, parse_program, program_functions, program_globals};
use program::{read_program, program_ok, GlobalModel, ProgramModel};
use generate::lowers_to;
use asm_spec::{asm_functions, asm_global_list, asm_globals, asm_program, lemma_asm_globals_view};

verus! {

/// `s` is the assembly of the program `p`: it starts with the text of
/// `p`'s global values, by their names and initializers in layout order,
/// and it is the assembly of a well-formed model of `p` with those global
/// values.
pub open spec fn assembled(p: ::koopa::ir::Program, s: Seq<char>) -> bool {
    &&& asm_global_list(program_globals(p), 0) matches Ok(gt) && gt.is_prefix_of(s)
    &&& exists|m: ProgramModel| program_ok(m) && m.globals@.map_values(|g: GlobalModel| global_view(g)) == program_globals(p)
        && #[trigger] lowers_to(m, s)
}

/// Lowers Koopa programs to RISC-V assembly.
pub struct AsmBuilder {
    pub context: AsmContext,
}

impl AsmBuilder {
    pub fn new() -> (b: AsmBuilder)
        ensures
            b.context.output@ == Seq::<char>::empty(),
            b.context.edge_label_id == 0,
    {
        AsmBuilder { context: AsmContext::new() }
    }

    /// Lowers a Koopa program: it is read into plain values, then its
    /// global variables and functions are lowered in order.
    pub fn gen_program(&mut self, program: &::koopa::ir::Program) -> (r: Result<String, GenerateAsmError>)
        ensures
            r matches Ok(s) ==> assembled(*program, s@),
            asm_global_list(program_globals(*program), 0) is Err ==> r is Err,
            program_functions(*program).len() == 0 ==> match asm_global_list(program_globals(*program), 0) {
                Ok(gt) => r matches Ok(s) && s@ == gt,
                Err(x) => r matches Err(y) && y@ == x,
            },
    {
        let m = read_program(program)?;
        let r = self.gen_model(&m);
        proof {
            lemma_asm_globals_view(m, 0);
            if m.functions@.len() == 0 {
                assert(asm_functions(m, 0) == Ok::<(Seq<char>, usize), asm_spec::AsmErr>((Seq::empty(), 0usize)));
                if asm_globals(m, 0) is Ok {
                    assert(asm_globals(m, 0)->Ok_0 + Seq::<char>::empty() =~= asm_globals(m, 0)->Ok_0);
                }
            }
            if r is Ok {
                let s = r->Ok_0@;
                assert(lowers_to(m, s));
                let gt = asm_global_list(program_globals(*program), 0)->Ok_0;
                assert(gt =~= s.subrange(0, gt.len() as int));
            }
        }
        r
    }
}

/// Parses Koopa IR text that lowering a SysY unit produced; the only error
/// is a parse error of the Koopa front end.
pub fn str_to_program(source: &str) -> (r: Result<::koopa::ir::Program, GenerateAsmError>)
    requires
        koopa_ir::lowered(source@),
    ensures
        r is Err ==> r matches Err(GenerateAsmError::KoopaParse(_)),
        match koopa_ir::koopa_parse(source@) {
            None => r is Err,
            Some((gs, fs)) => r matches Ok(p) && program_globals(p) == gs && program_functions(p) == fs,
        },
{
    match parse_program(source) {
        Ok(p) => Ok(p),
        Err(e) => Err(GenerateAsmError::KoopaParse(e)),
    }
}

/// Lowers a Koopa program to RISC-V assembly.
pub fn generate_asm(program: &::koopa::ir::Program) -> (r: Result<String, GenerateAsmError>)
    ensures
        r matches Ok(s) ==> assembled(*program, s@),
        asm_global_list(program_globals(*program), 0) is Err ==> r is Err,
        program_functions(*program).len() == 0 ==> match asm_global_list(program_globals(*program), 0) {
            Ok(gt) => r matches Ok(s) && s@ == gt,
            Err(x) => r matches Err(y) && y@ == x,
        },
{
    let mut builder = AsmBuilder::new();
    builder.gen_program(program)
}

} // verus!
