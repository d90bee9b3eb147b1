//! Lowering of the instructions of a Koopa program to RISC-V: every value
//! lives in its stack slot, and instructions work in `t0`..`t2`.
use vstd::prelude::*;
use crate::text::{dec_int, dec_nat, push_i64, push_str, push_u64};
use super::AsmBuilder;
use super::context::{asm_step, sp_adjust_text, stack_access_text, strip_prefix, AsmContext};
use super::error::GenerateAsmError;
use super::frame::{StackFrame, FRAME_LIMIT};
use super::koopa_ir::GlobalInit;
use super::asm_spec::{arg_reg, asm_address, asm_arg_saves, asm_binary, asm_block_label, asm_branch, asm_call, asm_call_args, asm_load, asm_param_loads, asm_pass_args, asm_pointer_offset, asm_store, asm_value, binary_text, emitted, inst, joined, asm_edge_branch, asm_function, asm_functions, asm_program, asm_global, asm_globals, asm_insts, asm_blocks, asm_param_saves, lemma_asm_functions_err, lemma_joined_assoc, lemma_joined_empty, AsmErr};
use super::program::{function_ok, indices_ok, inst_ok, program_ok, ref_ok, FunctionModel, GlobalModel, Inst, ProgramModel, ValueRef};

verus! {

/// The register that carries argument `i` of a call.
pub fn arg_register(i: usize) -> (r: &'static str)
    requires
        i < 8,
    ensures
        r@ == arg_reg(i as nat),
{
    if i == 0 { "a0" }
    else if i == 1 { "a1" }
    else if i == 2 { "a2" }
    else if i == 3 { "a3" }
    else if i == 4 { "a4" }
    else if i == 5 { "a5" }
    else if i == 6 { "a6" }
    else { "a7" }
}

/// What the generation of a function may rely on: the function's
/// references resolve and its frame is well laid out.
pub open spec fn frame_for(f: FunctionModel, ng: nat, frame: StackFrame) -> bool {
    &&& function_ok(f, ng)
    &&& frame.frame_ok()
    &&& frame.slots@.len() == f.values@.len()
}

/// `s` is the assembly of `m`.
pub open spec fn lowers_to(m: ProgramModel, s: Seq<char>) -> bool {
    asm_program(m) == Ok::<Seq<char>, AsmErr>(s)
}

impl AsmBuilder {
    /// Lowers a program: its global variables, then each function that has
    /// a body, in the stack frame laid out for it.
    #[verifier::spinoff_prover]
    pub fn gen_model(&mut self, m: &ProgramModel) -> (r: Result<String, GenerateAsmError>)
        requires
            program_ok(*m),
        ensures
            match asm_program(*m) {
                Ok(t) => r matches Ok(s) && s@ == t,
                Err(x) => r matches Err(y) && y@ == x,
            },
    {
        self.context = AsmContext::new();
        let ghost mut done: Seq<char> = Seq::empty();
        proof {
            lemma_joined_empty(asm_globals(*m, 0));
        }
        let mut i: usize = 0;
        while i < m.globals.len()
            invariant
                i <= m.globals@.len(),
                self.context.output@ == done,
                self.context.edge_label_id == 0,
                asm_globals(*m, 0) == joined(Ok(done), asm_globals(*m, i as nat)),
            decreases m.globals.len() - i,
        {
            let ghost d0 = done;
            self.gen_global(&m.globals[i])?;
            proof {
                let t = asm_global(m.globals@[i as int])->Ok_0;
                done = d0 + t;
                lemma_joined_assoc(d0, t, asm_globals(*m, (i + 1) as nat));
            }
            i = i + 1;
        }
        let ghost gt = done;
        assert(gt + Seq::<char>::empty() =~= gt);
        let ghost ng = m.globals@.len() as nat;
        let ghost mut ft: Seq<char> = Seq::empty();
        let mut i: usize = 0;
        while i < m.functions.len()
            invariant
                i <= m.functions@.len(),
                program_ok(*m),
                ng == m.globals@.len(),
                asm_globals(*m, 0) == Ok::<Seq<char>, AsmErr>(gt),
                asm_functions(*m, i as nat) == Ok::<(Seq<char>, usize), AsmErr>((ft, self.context.edge_label_id)),
                self.context.output@ == gt + ft,
            decreases m.functions.len() - i,
        {
            let f = &m.functions[i];
            assert(function_ok(*f, ng));
            if f.blocks.len() > 0 {
                let frame = match StackFrame::build(f, Ghost(ng)) {
                    Ok(fr) => fr,
                    Err(y) => {
                        proof {
                            lemma_asm_functions_err(*m, (i + 1) as nat, m.functions@.len());
                        }
                        return Err(y);
                    },
                };
                let ghost c0 = self.context;
                match self.gen_function(m, f, &frame) {
                    Ok(()) => {},
                    Err(y) => {
                        proof {
                            lemma_asm_functions_err(*m, (i + 1) as nat, m.functions@.len());
                        }
                        return Err(y);
                    },
                }
                proof {
                    let (t2, e2) = asm_function(*m, *f, frame@, c0.edge_label_id)->Ok_0;
                    ft = ft + t2;
                    assert(self.context.output@ =~= gt + ft);
                }
            }
            i = i + 1;
        }
        Ok(self.context.take_output())
    }

    /// Emits a global word: its initializer must be an integer or zero.
    fn gen_global(&mut self, g: &GlobalModel) -> (r: Result<(), GenerateAsmError>)
        ensures
            asm_step(old(self).context, final(self).context),
            final(self).context.edge_label_id == old(self).context.edge_label_id,
            emitted(old(self).context.output@, final(self).context.output@, r, asm_global(*g)),
    {
        if let GlobalInit::NotAlloc = g.init {
            return Err(GenerateAsmError::UnsupportedGlobalInitializer);
        }
        let name = match &g.name {
            Some(n) => strip_prefix(n)?,
            None => {
                return Err(GenerateAsmError::GlobalValueNoName);
            },
        };
        self.context.emit_instruction(".data");
        let mut globl = String::from_str(".globl ");
        push_str(&mut globl, name.as_str());
        self.context.emit_instruction(globl.as_str());
        let mut label = name.clone();
        push_str(&mut label, ":");
        self.context.emit_line(label.as_str());
        let ghost c1 = self.context;
        assert(c1.output@ =~= old(self).context.output@ + (inst(".data"@) + inst(".globl "@ + name@) + name@ + ":"@ + "\n"@));
        match g.init {
            GlobalInit::Integer(v) => {
                let mut word = String::from_str(".word ");
                push_i64(&mut word, v as i64);
                self.context.emit_instruction(word.as_str());
                assert(self.context.output@ =~= old(self).context.output@ + (inst(".data"@) + inst(".globl "@ + name@) + name@
                    + ":"@ + "\n"@ + inst(".word "@ + dec_int(v as int))));
            },
            GlobalInit::Zero => {
                self.context.emit_instruction(".zero 4");
                assert(self.context.output@ =~= old(self).context.output@ + (inst(".data"@) + inst(".globl "@ + name@) + name@
                    + ":"@ + "\n"@ + inst(".zero 4"@)));
            },
            _ => {
                return Err(GenerateAsmError::UnsupportedGlobalInitializer);
            },
        }
        Ok(())
    }

    /// Lowers a function with a body in the frame `frame`: the prologue
    /// makes room for the frame, saves the return address and stores the
    /// parameters in their slots; then each block is lowered in order.
    #[verifier::spinoff_prover]
    fn gen_function(&mut self, m: &ProgramModel, f: &FunctionModel, frame: &StackFrame) -> (r: Result<(), GenerateAsmError>)
        requires
            frame_for(*f, m.globals@.len() as nat, *frame),
        ensures
            asm_step(old(self).context, final(self).context),
            match asm_function(*m, *f, frame@, old(self).context.edge_label_id) {
                Ok((text, edge)) => r is Ok && final(self).context.output@ == old(self).context.output@ + text
                    && final(self).context.edge_label_id == edge,
                Err(x) => r matches Err(y) && y@ == x,
            },
    {
        proof {
            reveal(asm_function);
        }
        let name = strip_prefix(&f.name)?;
        self.context.emit_instruction(".text");
        let mut globl = String::from_str(".globl ");
        push_str(&mut globl, name.as_str());
        self.context.emit_instruction(globl.as_str());
        let mut label = name.clone();
        push_str(&mut label, ":");
        self.context.emit_line(label.as_str());
        self.context.emit_sp_adjust(0i64 - frame.size as i64);
        match frame.ra_slot {
            Some(ra) => self.context.emit_stack_access("sw", "ra", ra as u64),
            None => {},
        }
        let ghost head = self.context;
        let ghost hd = inst(".text"@) + inst(".globl "@ + name@) + name@ + ":"@ + "\n"@
            + sp_adjust_text(0 - frame.size) + match frame.ra_slot {
            Some(ra) => stack_access_text("sw"@, "ra"@, ra as nat),
            None => Seq::empty(),
        };
        assert(head.output@ =~= old(self).context.output@ + hd);
        self.gen_param_saves(f, frame)?;
        let ghost c2 = self.context;
        self.gen_blocks(m, f, frame)?;
        proof {
            let ps = asm_param_saves(*f, frame@, 0)->Ok_0;
            let bt = asm_blocks(*m, *f, frame@, 0, c2.edge_label_id)->Ok_0.0;
            assert(self.context.output@ =~= old(self).context.output@ + (hd + ps + bt));
        }
        Ok(())
    }

    /// Stores the parameters of `f` in their slots.
    #[verifier::spinoff_prover]
    fn gen_param_saves(&mut self, f: &FunctionModel, frame: &StackFrame) -> (r: Result<(), GenerateAsmError>)
        requires
            indices_ok(f.params@, f.values@.len()),
            frame.slots@.len() == f.values@.len(),
            frame.size <= FRAME_LIMIT,
        ensures
            asm_step(old(self).context, final(self).context),
            final(self).context.edge_label_id == old(self).context.edge_label_id,
            emitted(old(self).context.output@, final(self).context.output@, r, asm_param_saves(*f, frame@, 0)),
    {
        proof {
            reveal_with_fuel(asm_param_saves, 1);
        }
        let ghost mut done: Seq<char> = Seq::empty();
        proof {
            lemma_joined_empty(asm_param_saves(*f, frame@, 0));
        }
        let mut i: usize = 0;
        while i < f.params.len()
            invariant
                indices_ok(f.params@, f.values@.len()),
                frame.slots@.len() == f.values@.len(),
                frame.size <= FRAME_LIMIT,
                asm_step(old(self).context, self.context),
                self.context.edge_label_id == old(self).context.edge_label_id,
                self.context.output@ == old(self).context.output@ + done,
                asm_param_saves(*f, frame@, 0) == joined(Ok(done), asm_param_saves(*f, frame@, i as nat)),
            decreases f.params.len() - i,
        {
            proof {
                reveal_with_fuel(asm_param_saves, 1);
            }
            let ghost d0 = done;
            let v = f.params[i];
            assert(v < f.values@.len());
            let slot = slot_of(frame, v)?;
            if i < 8 {
                self.context.emit_stack_access("sw", arg_register(i), slot);
                proof {
                    let step = stack_access_text("sw"@, arg_reg(i as nat), slot as nat);
                    done = d0 + step;
                    lemma_joined_assoc(d0, step, asm_param_saves(*f, frame@, (i + 1) as nat));
                }
            } else {
                let extra = (i - 8) as u64;
                let incoming = match extra.checked_mul(4) {
                    Some(x) => match (frame.size as u64).checked_add(x) {
                        Some(y) => y,
                        None => {
                            return Err(GenerateAsmError::FrameTooLarge);
                        },
                    },
                    None => {
                        return Err(GenerateAsmError::FrameTooLarge);
                    },
                };
                self.context.emit_stack_access("lw", "t0", incoming);
                self.context.emit_stack_access("sw", "t0", slot);
                proof {
                    let step = stack_access_text("lw"@, "t0"@, incoming as nat) + stack_access_text("sw"@, "t0"@, slot as nat);
                    done = d0 + step;
                    lemma_joined_assoc(d0, step, asm_param_saves(*f, frame@, (i + 1) as nat));
                }
            }
            assert(self.context.output@ =~= old(self).context.output@ + done);
            i = i + 1;
        }
        proof {
            reveal_with_fuel(asm_param_saves, 1);
        }
        assert(done + Seq::<char>::empty() =~= done);
        Ok(())
    }

    /// Lowers the blocks of `f` in order, each after its label.
    #[verifier::spinoff_prover]
    fn gen_blocks(&mut self, m: &ProgramModel, f: &FunctionModel, frame: &StackFrame) -> (r: Result<(), GenerateAsmError>)
        requires
            frame_for(*f, m.globals@.len() as nat, *frame),
        ensures
            asm_step(old(self).context, final(self).context),
            match asm_blocks(*m, *f, frame@, 0, old(self).context.edge_label_id) {
                Ok((text, edge)) => r is Ok && final(self).context.output@ == old(self).context.output@ + text
                    && final(self).context.edge_label_id == edge,
                Err(x) => r matches Err(y) && y@ == x,
            },
    {
        let ghost ng = m.globals@.len() as nat;
        let ghost mut done: Seq<char> = Seq::empty();
        let ghost e_old = self.context.edge_label_id;
        assert(asm_blocks(*m, *f, frame@, 0, e_old) == match asm_blocks(*m, *f, frame@, 0, e_old) {
            Ok((t, e)) => Ok::<(Seq<char>, usize), AsmErr>((done + t, e)),
            Err(x) => Err(x),
        }) by {
            match asm_blocks(*m, *f, frame@, 0, e_old) {
                Ok((t, e)) => {
                    assert(done + t =~= t);
                },
                Err(x) => {},
            }
        }
        let mut b: usize = 0;
        while b < f.blocks.len()
            invariant
                ng == m.globals@.len(),
                frame_for(*f, ng, *frame),
                asm_step(old(self).context, self.context),
                e_old == old(self).context.edge_label_id,
                self.context.output@ == old(self).context.output@ + done,
                asm_blocks(*m, *f, frame@, 0, e_old) == match asm_blocks(*m, *f, frame@, b as nat, self.context.edge_label_id) {
                    Ok((t, e)) => Ok::<(Seq<char>, usize), AsmErr>((done + t, e)),
                    Err(x) => Err(x),
                },
            decreases f.blocks.len() - b,
        {
            proof {
                reveal_with_fuel(asm_blocks, 1);
            }
            let ghost d0 = done;
            let ghost e0 = self.context.edge_label_id;
            let bname = block_label(f, b)?;
            let mut line = bname;
            push_str(&mut line, ":");
            self.context.emit_line(line.as_str());
            let ghost c1 = self.context;
            self.gen_insts(m, f, frame, b)?;
            proof {
                let (bt, e2) = asm_insts(*m, *f, frame@, f.blocks@[b as int].insts@, 0, e0)->Ok_0;
                let step = bname@ + ":"@ + "\n"@ + bt;
                done = d0 + step;
                assert(self.context.output@ =~= old(self).context.output@ + done);
                match asm_blocks(*m, *f, frame@, (b + 1) as nat, self.context.edge_label_id) {
                    Ok((t3, e3)) => {
                        assert(d0 + (bname@ + ":"@ + "\n"@ + bt + t3) =~= done + t3);
                    },
                    Err(x) => {},
                }
            }
            b = b + 1;
        }
        proof {
            reveal_with_fuel(asm_blocks, 1);
        }
        assert(done + Seq::<char>::empty() =~= done);
        Ok(())
    }

    /// Lowers the instructions of block `b` of `f` in order.
    #[verifier::spinoff_prover]
    fn gen_insts(&mut self, m: &ProgramModel, f: &FunctionModel, frame: &StackFrame, b: usize) -> (r: Result<(), GenerateAsmError>)
        requires
            frame_for(*f, m.globals@.len() as nat, *frame),
            b < f.blocks@.len(),
        ensures
            asm_step(old(self).context, final(self).context),
            match asm_insts(*m, *f, frame@, f.blocks@[b as int].insts@, 0, old(self).context.edge_label_id) {
                Ok((text, edge)) => r is Ok && final(self).context.output@ == old(self).context.output@ + text
                    && final(self).context.edge_label_id == edge,
                Err(x) => r matches Err(y) && y@ == x,
            },
    {
        let ghost ng = m.globals@.len() as nat;
        let block = &f.blocks[b];
        assert(indices_ok(block.insts@, f.values@.len()));
        let ghost e_old = self.context.edge_label_id;
        let ghost mut bt: Seq<char> = Seq::empty();
        assert(asm_insts(*m, *f, frame@, block.insts@, 0, e_old) == match asm_insts(*m, *f, frame@, block.insts@, 0, e_old) {
            Ok((t, e)) => Ok::<(Seq<char>, usize), AsmErr>((bt + t, e)),
            Err(x) => Err(x),
        }) by {
            match asm_insts(*m, *f, frame@, block.insts@, 0, e_old) {
                Ok((t, e)) => {
                    assert(bt + t =~= t);
                },
                Err(x) => {},
            }
        }
        let mut k: usize = 0;
        while k < block.insts.len()
            invariant
                ng == m.globals@.len(),
                frame_for(*f, ng, *frame),
                indices_ok(block.insts@, f.values@.len()),
                block.insts@ == f.blocks@[b as int].insts@,
                asm_step(old(self).context, self.context),
                e_old == old(self).context.edge_label_id,
                self.context.output@ == old(self).context.output@ + bt,
                asm_insts(*m, *f, frame@, block.insts@, 0, e_old) == match asm_insts(*m, *f, frame@, block.insts@, k as nat,
                    self.context.edge_label_id) {
                    Ok((t, e)) => Ok::<(Seq<char>, usize), AsmErr>((bt + t, e)),
                    Err(x) => Err(x),
                },
            decreases block.insts.len() - k,
        {
            proof {
                reveal_with_fuel(asm_insts, 1);
            }
            let ghost b0 = bt;
            let ghost ek = self.context.edge_label_id;
            self.gen_value(m, f, frame, block.insts[k])?;
            proof {
                let (t, e2) = asm_value(*m, *f, frame@, block.insts@[k as int] as int, ek)->Ok_0;
                bt = b0 + t;
                assert(self.context.output@ =~= old(self).context.output@ + bt);
                match asm_insts(*m, *f, frame@, block.insts@, (k + 1) as nat, e2) {
                    Ok((t3, e3)) => {
                        assert(b0 + (t + t3) =~= bt + t3);
                    },
                    Err(x) => {},
                }
            }
            k = k + 1;
        }
        proof {
            reveal_with_fuel(asm_insts, 1);
        }
        assert(bt + Seq::<char>::empty() =~= bt);
        Ok(())
    }

    /// Lowers one instruction.
    #[verifier::spinoff_prover]
    #[verifier::rlimit(60)]
    fn gen_value(&mut self, m: &ProgramModel, f: &FunctionModel, frame: &StackFrame, v: usize)
        -> (r: Result<(), GenerateAsmError>)
        requires
            frame_for(*f, m.globals@.len() as nat, *frame),
            v < f.values@.len(),
        ensures
            asm_step(old(self).context, final(self).context),
            match asm_value(*m, *f, frame@, v as int, old(self).context.edge_label_id) {
                Ok((text, edge)) => r is Ok && final(self).context.output@ == old(self).context.output@ + text
                    && final(self).context.edge_label_id == edge,
                Err(x) => r matches Err(y) && y@ == x,
            },
    {
        proof {
            reveal(asm_value);
        }
        let ghost ng = m.globals@.len() as nat;
        assert(inst_ok(f.values@[v as int].inst, f.values@.len(), f.blocks@.len(), ng));
        match &f.values[v].inst {
            Inst::Return(ret) => {
                match ret {
                    Some(x) => self.load_to(f, frame, x, "a0")?,
                    None => {},
                }
                let ghost c1 = self.context;
                match frame.ra_slot {
                    Some(ra) => self.context.emit_stack_access("lw", "ra", ra as u64),
                    None => {},
                }
                self.context.emit_sp_adjust(frame.size as i64);
                self.context.emit_instruction("ret");
                proof {
                    let la = match ret {
                        Some(x) => asm_load(*f, frame@, *x, "a0"@)->Ok_0,
                        None => Seq::empty(),
                    };
                    let tail = match frame.ra_slot {
                        Some(ra) => stack_access_text("lw"@, "ra"@, ra as nat),
                        None => Seq::empty(),
                    } + sp_adjust_text(frame.size as int) + inst("ret"@);
                    assert(c1.output@ =~= old(self).context.output@ + la);
                    assert(self.context.output@ =~= old(self).context.output@ + (la + tail));
                }
            },
            Inst::Binary(op, lhs, rhs) => self.gen_binary(f, frame, v, op, lhs, rhs)?,
            Inst::Alloc => {
                assert(self.context.output@ =~= old(self).context.output@ + Seq::<char>::empty());
            },
            Inst::Store(value, dest) => {
                self.load_to(f, frame, value, "t0")?;
                self.load_address_to(m, f, frame, dest, "t1")?;
                self.context.emit_instruction("sw t0, 0(t1)");
                proof {
                    let la = asm_load(*f, frame@, *value, "t0"@)->Ok_0;
                    let lb = asm_address(*m, *f, frame@, *dest, "t1"@)->Ok_0;
                    assert(self.context.output@ =~= old(self).context.output@ + (la + (lb + inst("sw t0, 0(t1)"@))));
                }
            },
            Inst::Load(src) => {
                self.load_address_to(m, f, frame, src, "t0")?;
                self.context.emit_instruction("lw t0, 0(t0)");
                self.store_from(frame, v, "t0")?;
                proof {
                    let la = asm_address(*m, *f, frame@, *src, "t0"@)->Ok_0;
                    let st = asm_store(frame@, v as int, "t0"@)->Ok_0;
                    assert(self.context.output@ =~= old(self).context.output@ + (la + (inst("lw t0, 0(t0)"@) + st)));
                }
            },
            Inst::GetPtr(src, index) => self.gen_pointer_offset(m, f, frame, v, src, index)?,
            Inst::GetElemPtr(src, index) => self.gen_pointer_offset(m, f, frame, v, src, index)?,
            Inst::Branch(cond, t, targs, e, eargs) => self.gen_branch(f, frame, cond, *t, targs, *e, eargs)?,
            Inst::Jump(t, args) => {
                let target = block_label(f, *t)?;
                self.pass_bb_args(f, frame, *t, args)?;
                let ghost c1 = self.context;
                let mut line = String::from_str("j ");
                push_str(&mut line, target.as_str());
                self.context.emit_instruction(line.as_str());
                proof {
                    let pa = asm_pass_args(*f, frame@, *t as int, args@)->Ok_0;
                    assert(self.context.output@ =~= old(self).context.output@ + (pa + inst("j "@ + target@)));
                }
            },
            Inst::Call(callee, args) => self.gen_call(f, frame, v, callee, args)?,
            Inst::Integer(_) | Inst::Param => {
                return Err(GenerateAsmError::UnsupportedValue(String::from_str("operand in instruction position")));
            },
            Inst::Unsupported(s) => {
                return Err(GenerateAsmError::UnsupportedValue(s.clone()));
            },
        }
        Ok(())
    }

    /// Lowers a binary operation on `t0` and `t1` into `t2`.
    #[verifier::spinoff_prover]
    fn gen_binary(&mut self, f: &FunctionModel, frame: &StackFrame, v: usize, op: &String, lhs: &ValueRef,
        rhs: &ValueRef) -> (r: Result<(), GenerateAsmError>)
        requires
            v < f.values@.len(),
            frame.slots@.len() == f.values@.len(),
            ref_ok(*lhs, f.values@.len(), 0) || lhs is Global,
            ref_ok(*rhs, f.values@.len(), 0) || rhs is Global,
        ensures
            asm_step(old(self).context, final(self).context),
            final(self).context.edge_label_id == old(self).context.edge_label_id,
            emitted(old(self).context.output@, final(self).context.output@, r, asm_binary(*f, frame@, v as int, op@, *lhs, *rhs)),
    {
        proof {
            reveal(asm_binary);
        }
        self.load_to(f, frame, lhs, "t0")?;
        let ghost c1 = self.context;
        self.load_to(f, frame, rhs, "t1")?;
        let ghost c2 = self.context;
        self.emit_binary_op(op)?;
        let ghost c3 = self.context;
        let r = self.store_from(frame, v, "t2");
        proof {
            if r is Ok {
                let la = asm_load(*f, frame@, *lhs, "t0"@)->Ok_0;
                let lb = asm_load(*f, frame@, *rhs, "t1"@)->Ok_0;
                let t = binary_text(op@)->Some_0;
                let st = asm_store(frame@, v as int, "t2"@)->Ok_0;
                assert(self.context.output@ =~= old(self).context.output@ + (la + (lb + (t + st))));
            }
        }
        r
    }

    /// Emits the instructions of the Koopa operation `op` on `t0` and `t1`
    /// into `t2`.
    #[verifier::spinoff_prover]
    fn emit_binary_op(&mut self, op: &String) -> (r: Result<(), GenerateAsmError>)
        ensures
            asm_step(old(self).context, final(self).context),
            final(self).context.edge_label_id == old(self).context.edge_label_id,
            match binary_text(op@) {
                Some(t) => r is Ok && final(self).context.output@ == old(self).context.output@ + t,
                None => r matches Err(e) && e@ == AsmErr::UnsupportedValue(op@),
            },
    {
        if is_op(op, "eq") {
            self.context.emit_instruction("xor t2, t0, t1");
            self.context.emit_instruction("seqz t2, t2");
        } else if is_op(op, "ne") {
            self.context.emit_instruction("xor t2, t0, t1");
            self.context.emit_instruction("snez t2, t2");
        } else if is_op(op, "add") {
            self.context.emit_instruction("add t2, t0, t1");
        } else if is_op(op, "sub") {
            self.context.emit_instruction("sub t2, t0, t1");
        } else if is_op(op, "mul") {
            self.context.emit_instruction("mul t2, t0, t1");
        } else if is_op(op, "div") {
            self.context.emit_instruction("div t2, t0, t1");
        } else if is_op(op, "mod") {
            self.context.emit_instruction("rem t2, t0, t1");
        } else if is_op(op, "lt") {
            self.context.emit_instruction("slt t2, t0, t1");
        } else if is_op(op, "gt") {
            self.context.emit_instruction("slt t2, t1, t0");
        } else if is_op(op, "le") {
            self.context.emit_instruction("slt t2, t1, t0");
            self.context.emit_instruction("seqz t2, t2");
        } else if is_op(op, "ge") {
            self.context.emit_instruction("slt t2, t0, t1");
            self.context.emit_instruction("seqz t2, t2");
        } else if is_op(op, "and") {
            self.context.emit_instruction("and t2, t0, t1");
        } else if is_op(op, "or") {
            self.context.emit_instruction("or t2, t0, t1");
        } else if is_op(op, "xor") {
            self.context.emit_instruction("xor t2, t0, t1");
        } else if is_op(op, "shl") {
            self.context.emit_instruction("sll t2, t0, t1");
        } else if is_op(op, "shr") {
            self.context.emit_instruction("srl t2, t0, t1");
        } else if is_op(op, "sar") {
            self.context.emit_instruction("sra t2, t0, t1");
        } else {
            return Err(GenerateAsmError::UnsupportedValue(op.clone()));
        }
        assert(self.context.output@ =~= old(self).context.output@ + binary_text(op@)->Some_0);
        Ok(())
    }
}

/// The offset of the slot of value `v`.
pub fn slot_of(frame: &StackFrame, v: usize) -> (r: Result<u64, GenerateAsmError>)
    requires
        v < frame.slots@.len(),
    ensures
        r matches Ok(o) ==> frame.slots@[v as int] is Some && o as int == frame.slots@[v as int]->Some_0 as int,
        r is Err ==> frame.slots@[v as int] is None && r matches Err(GenerateAsmError::MissingStackSlot),
{
    match frame.slots[v] {
        Some(o) => Ok(o as u64),
        None => Err(GenerateAsmError::MissingStackSlot),
    }
}

/// The label `.L_function_block` of block `b` of `f`.
pub fn block_label(f: &FunctionModel, b: usize) -> (r: Result<String, GenerateAsmError>)
    requires
        b < f.blocks@.len(),
    ensures
        match asm_block_label(*f, b as int) {
            Ok(t) => r matches Ok(s) && s@ == t,
            Err(e) => r matches Err(y) && y@ == e,
        },
{
    proof {
        reveal(asm_block_label);
    }
    let function = strip_prefix(&f.name)?;
    let block = match &f.blocks[b].name {
        Some(n) => strip_prefix(n)?,
        None => {
            return Err(GenerateAsmError::BBNoName);
        },
    };
    let mut label = String::from_str(".L_");
    push_str(&mut label, function.as_str());
    push_str(&mut label, "_");
    push_str(&mut label, block.as_str());
    assert(label@ =~= ".L_"@ + function@ + "_"@ + block@);
    Ok(label)
}

/// Whether the mnemonic `op` is `name`.
fn is_op(op: &String, name: &str) -> (r: bool)
    ensures
        r == (op@ == name@),
{
    *op == String::from_str(name)
}

impl AsmBuilder {
    /// Puts the value of an operand in `reg`: an integer directly, any
    /// other value from its slot.
    fn load_to(&mut self, f: &FunctionModel, frame: &StackFrame, x: &ValueRef, reg: &str)
        -> (r: Result<(), GenerateAsmError>)
        requires
            frame.slots@.len() == f.values@.len(),
            x matches ValueRef::Local(i) ==> i < f.values@.len(),
        ensures
            asm_step(old(self).context, final(self).context),
            final(self).context.edge_label_id == old(self).context.edge_label_id,
            emitted(old(self).context.output@, final(self).context.output@, r, asm_load(*f, frame@, *x, reg@)),
    {
        proof {
            reveal(asm_load);
        }
        match x {
            ValueRef::Global(_) => Err(GenerateAsmError::UnsupportedValue(String::from_str("global value used as an operand"))),
            ValueRef::Local(i) => match &f.values[*i].inst {
                Inst::Integer(v) => {
                    let mut line = String::from_str("li ");
                    push_str(&mut line, reg);
                    push_str(&mut line, ", ");
                    push_i64(&mut line, *v as i64);
                    self.context.emit_instruction(line.as_str());
                    assert(self.context.output@ =~= old(self).context.output@ + inst("li "@ + reg@ + ", "@ + dec_int(*v as int)));
                    Ok(())
                },
                _ => {
                    let slot = slot_of(frame, *i)?;
                    self.context.emit_stack_access("lw", reg, slot);
                    Ok(())
                },
            },
        }
    }

    /// Stores `reg` into the slot of value `v`.
    fn store_from(&mut self, frame: &StackFrame, v: usize, reg: &str) -> (r: Result<(), GenerateAsmError>)
        requires
            v < frame.slots@.len(),
        ensures
            asm_step(old(self).context, final(self).context),
            final(self).context.edge_label_id == old(self).context.edge_label_id,
            emitted(old(self).context.output@, final(self).context.output@, r, asm_store(frame@, v as int, reg@)),
    {
        proof {
            reveal(asm_store);
        }
        let slot = slot_of(frame, v)?;
        self.context.emit_stack_access("sw", reg, slot);
        Ok(())
    }

    /// Puts the address that an operand stands for in `reg`: a global's
    /// symbol, the slot of an allocation, or the pointer held in a slot.
    fn load_address_to(&mut self, m: &ProgramModel, f: &FunctionModel, frame: &StackFrame, x: &ValueRef, reg: &str)
        -> (r: Result<(), GenerateAsmError>)
        requires
            frame.slots@.len() == f.values@.len(),
            ref_ok(*x, f.values@.len(), m.globals@.len() as nat),
        ensures
            asm_step(old(self).context, final(self).context),
            final(self).context.edge_label_id == old(self).context.edge_label_id,
            emitted(old(self).context.output@, final(self).context.output@, r, asm_address(*m, *f, frame@, *x, reg@)),
    {
        proof {
            reveal(asm_address);
        }
        match x {
            ValueRef::Global(g) => {
                let name = match &m.globals[*g].name {
                    Some(n) => strip_prefix(n)?,
                    None => {
                        return Err(GenerateAsmError::GlobalValueNoName);
                    },
                };
                let mut line = String::from_str("la ");
                push_str(&mut line, reg);
                push_str(&mut line, ", ");
                push_str(&mut line, name.as_str());
                self.context.emit_instruction(line.as_str());
                assert(self.context.output@ =~= old(self).context.output@ + inst("la "@ + reg@ + ", "@ + name@));
                Ok(())
            },
            ValueRef::Local(i) => {
                let slot = slot_of(frame, *i)?;
                match &f.values[*i].inst {
                    Inst::Alloc => self.context.emit_stack_address(reg, slot),
                    _ => self.context.emit_stack_access("lw", reg, slot),
                }
                Ok(())
            },
        }
    }

    /// Lowers `getptr` and `getelemptr`: the address plus the index times
    /// the size of what the result points to.
    #[verifier::spinoff_prover]
    #[verifier::rlimit(40)]
    fn gen_pointer_offset(&mut self, m: &ProgramModel, f: &FunctionModel, frame: &StackFrame, v: usize,
        src: &ValueRef, index: &ValueRef) -> (r: Result<(), GenerateAsmError>)
        requires
            v < f.values@.len(),
            frame.slots@.len() == f.values@.len(),
            ref_ok(*src, f.values@.len(), m.globals@.len() as nat),
            ref_ok(*index, f.values@.len(), m.globals@.len() as nat),
        ensures
            asm_step(old(self).context, final(self).context),
            final(self).context.edge_label_id == old(self).context.edge_label_id,
            emitted(old(self).context.output@, final(self).context.output@, r,
                asm_pointer_offset(*m, *f, frame@, v as int, *src, *index)),
    {
        proof {
            reveal(asm_pointer_offset);
        }
        self.load_address_to(m, f, frame, src, "t0")?;
        self.load_to(f, frame, index, "t1")?;
        let ghost c1 = self.context;
        let stride = match f.values[v].pointee_size {
            Some(n) => n,
            None => {
                return Err(GenerateAsmError::ExpectedPointer);
            },
        };
        if stride != 1 {
            let mut line = String::from_str("li t2, ");
            push_u64(&mut line, stride as u64);
            self.context.emit_instruction(line.as_str());
            self.context.emit_instruction("mul t1, t1, t2");
        }
        self.context.emit_instruction("add t0, t0, t1");
        let ghost x = if stride != 1 {
            inst("li t2, "@ + dec_nat(stride as nat)) + inst("mul t1, t1, t2"@)
        } else {
            Seq::empty()
        } + inst("add t0, t0, t1"@);
        assert(self.context.output@ =~= c1.output@ + x);
        let r = self.store_from(frame, v, "t0");
        proof {
            if r is Ok {
                let la = asm_address(*m, *f, frame@, *src, "t0"@)->Ok_0;
                let lb = asm_load(*f, frame@, *index, "t1"@)->Ok_0;
                let st = asm_store(frame@, v as int, "t0"@)->Ok_0;
                assert(self.context.output@ =~= old(self).context.output@ + (la + (lb + (x + st))));
            }
        }
        r
    }

    /// Lowers a conditional branch; when either target takes arguments, the
    /// false edge gets a label of its own where its arguments are passed.
    #[verifier::spinoff_prover]
    #[verifier::rlimit(40)]
    fn gen_branch(&mut self, f: &FunctionModel, frame: &StackFrame, cond: &ValueRef, t: usize,
        targs: &Vec<ValueRef>, e: usize, eargs: &Vec<ValueRef>) -> (r: Result<(), GenerateAsmError>)
        requires
            frame.slots@.len() == f.values@.len(),
            t < f.blocks@.len(),
            e < f.blocks@.len(),
            cond matches ValueRef::Local(i) ==> i < f.values@.len(),
            forall|k: int| 0 <= k < targs@.len() ==> (#[trigger] targs@[k] matches ValueRef::Local(i) ==> i < f.values@.len()),
            forall|k: int| 0 <= k < eargs@.len() ==> (#[trigger] eargs@[k] matches ValueRef::Local(i) ==> i < f.values@.len()),
            forall|b: int| 0 <= b < f.blocks@.len() ==> indices_ok((#[trigger] f.blocks@[b]).params@, f.values@.len()),
        ensures
            asm_step(old(self).context, final(self).context),
            match asm_branch(*f, frame@, *cond, t as int, targs@, e as int, eargs@, old(self).context.edge_label_id) {
                Ok((text, edge)) => r is Ok && final(self).context.output@ == old(self).context.output@ + text
                    && final(self).context.edge_label_id == edge,
                Err(x) => r matches Err(y) && y@ == x,
            },
    {
        proof {
            reveal(asm_branch);
        }
        self.load_to(f, frame, cond, "t0")?;
        let true_bb = block_label(f, t)?;
        let false_bb = block_label(f, e)?;
        let ghost c1 = self.context;
        let ghost mut tail: Seq<char> = Seq::empty();
        if targs.len() == 0 && eargs.len() == 0 {
            let mut line = String::from_str("bnez t0, ");
            push_str(&mut line, true_bb.as_str());
            self.context.emit_instruction(line.as_str());
            let mut line = String::from_str("j ");
            push_str(&mut line, false_bb.as_str());
            self.context.emit_instruction(line.as_str());
            proof {
                tail = inst("bnez t0, "@ + true_bb@) + inst("j "@ + false_bb@);
                assert(self.context.output@ =~= c1.output@ + tail);
            }
        } else {
            self.gen_edge_branch(f, frame, t, targs, e, eargs, &true_bb, &false_bb)?;
            proof {
                tail = asm_edge_branch(*f, frame@, t as int, targs@, e as int, eargs@, true_bb@, false_bb@,
                    c1.edge_label_id)->Ok_0.0;
            }
        }
        proof {
            let lc = asm_load(*f, frame@, *cond, "t0"@)->Ok_0;
            assert(self.context.output@ =~= old(self).context.output@ + (lc + tail));
        }
        Ok(())
    }

    /// The branch when a target takes arguments: the false edge gets a
    /// label of its own, where its arguments are passed.
    #[verifier::spinoff_prover]
    #[verifier::rlimit(40)]
    fn gen_edge_branch(&mut self, f: &FunctionModel, frame: &StackFrame, t: usize, targs: &Vec<ValueRef>, e: usize,
        eargs: &Vec<ValueRef>, true_bb: &String, false_bb: &String) -> (r: Result<(), GenerateAsmError>)
        requires
            frame.slots@.len() == f.values@.len(),
            t < f.blocks@.len(),
            e < f.blocks@.len(),
            forall|k: int| 0 <= k < targs@.len() ==> (#[trigger] targs@[k] matches ValueRef::Local(i) ==> i < f.values@.len()),
            forall|k: int| 0 <= k < eargs@.len() ==> (#[trigger] eargs@[k] matches ValueRef::Local(i) ==> i < f.values@.len()),
            forall|b: int| 0 <= b < f.blocks@.len() ==> indices_ok((#[trigger] f.blocks@[b]).params@, f.values@.len()),
        ensures
            asm_step(old(self).context, final(self).context),
            match asm_edge_branch(*f, frame@, t as int, targs@, e as int, eargs@, true_bb@, false_bb@,
                old(self).context.edge_label_id) {
                Ok((text, edge)) => r is Ok && final(self).context.output@ == old(self).context.output@ + text
                    && final(self).context.edge_label_id == edge,
                Err(x) => r matches Err(y) && y@ == x,
            },
    {
        let edge = self.context.new_edge_label()?;
        let mut edge_name = String::from_str(".L_edge_");
        push_u64(&mut edge_name, edge as u64);
        let ghost en = edge_name@;
        let mut line = String::from_str("beqz t0, ");
        push_str(&mut line, edge_name.as_str());
        self.context.emit_instruction(line.as_str());
        let ghost c2 = self.context;
        self.pass_bb_args(f, frame, t, targs)?;
        let ghost c3 = self.context;
        let mut line = String::from_str("j ");
        push_str(&mut line, true_bb.as_str());
        self.context.emit_instruction(line.as_str());
        push_str(&mut edge_name, ":");
        self.context.emit_line(edge_name.as_str());
        let ghost c4 = self.context;
        self.pass_bb_args(f, frame, e, eargs)?;
        let ghost c5 = self.context;
        let mut line = String::from_str("j ");
        push_str(&mut line, false_bb.as_str());
        self.context.emit_instruction(line.as_str());
        proof {
            let pa = asm_pass_args(*f, frame@, t as int, targs@)->Ok_0;
            let pb = asm_pass_args(*f, frame@, e as int, eargs@)->Ok_0;
            assert(en =~= ".L_edge_"@ + dec_nat(edge as nat));
            assert(c2.output@ =~= old(self).context.output@ + inst("beqz t0, "@ + en));
            assert(c4.output@ =~= c3.output@ + (inst("j "@ + true_bb@) + en + ":"@ + "\n"@));
            assert(self.context.output@ =~= old(self).context.output@ + (inst("beqz t0, "@ + en) + pa + inst("j "@ + true_bb@)
                + en + ":"@ + "\n"@ + pb + inst("j "@ + false_bb@)));
        }
        Ok(())
    }

    /// Passes arguments to the parameters of block `target`: all are read
    /// into scratch words first, then written to the parameters, so that an
    /// argument may be a parameter being overwritten.
    #[verifier::spinoff_prover]
    fn pass_bb_args(&mut self, f: &FunctionModel, frame: &StackFrame, target: usize, args: &Vec<ValueRef>)
        -> (r: Result<(), GenerateAsmError>)
        requires
            frame.slots@.len() == f.values@.len(),
            target < f.blocks@.len(),
            forall|k: int| 0 <= k < args@.len() ==> (#[trigger] args@[k] matches ValueRef::Local(i) ==> i < f.values@.len()),
            forall|b: int| 0 <= b < f.blocks@.len() ==> indices_ok((#[trigger] f.blocks@[b]).params@, f.values@.len()),
        ensures
            asm_step(old(self).context, final(self).context),
            final(self).context.edge_label_id == old(self).context.edge_label_id,
            emitted(old(self).context.output@, final(self).context.output@, r, asm_pass_args(*f, frame@, target as int, args@)),
            f.blocks@[target as int].params@.len() != args@.len() ==> final(self).context.output@ == old(self).context.output@,
    {
        proof {
            reveal(asm_pass_args);
        }
        let params = &f.blocks[target].params;
        assert(indices_ok(params@, f.values@.len()));
        if params.len() != args.len() {
            return Err(GenerateAsmError::Unknown);
        }
        let ghost mut done: Seq<char> = Seq::empty();
        proof {
            lemma_joined_empty(asm_arg_saves(*f, frame@, args@, 0));
        }
        let mut k: usize = 0;
        while k < args.len()
            invariant
                params@.len() == args@.len(),
                params@ == f.blocks@[target as int].params@,
                frame.slots@.len() == f.values@.len(),
                forall|j: int| 0 <= j < args@.len() ==> (#[trigger] args@[j] matches ValueRef::Local(i) ==> i < f.values@.len()),
                asm_step(old(self).context, self.context),
                self.context.edge_label_id == old(self).context.edge_label_id,
                self.context.output@ == old(self).context.output@ + done,
                asm_pass_args(*f, frame@, target as int, args@) == joined(asm_arg_saves(*f, frame@, args@, 0),
                    asm_param_loads(frame@, params@, 0)),
                asm_arg_saves(*f, frame@, args@, 0) == joined(Ok(done), asm_arg_saves(*f, frame@, args@, k as nat)),
            decreases args.len() - k,
        {
            if k >= frame.scratch.len() {
                return Err(GenerateAsmError::MissingStackSlot);
            }
            let ghost c0 = self.context;
            let ghost d0 = done;
            let scratch = frame.scratch[k] as u64;
            self.load_to(f, frame, &args[k], "t1")?;
            self.context.emit_stack_access("sw", "t1", scratch);
            proof {
                let step = asm_load(*f, frame@, args@[k as int], "t1"@)->Ok_0 + stack_access_text("sw"@, "t1"@,
                    frame.scratch@[k as int] as nat);
                done = d0 + step;
                assert(self.context.output@ =~= old(self).context.output@ + done);
                lemma_joined_assoc(d0, step, asm_arg_saves(*f, frame@, args@, (k + 1) as nat));
            }
            k = k + 1;
        }
        let ghost saves = done;
        let ghost mut done: Seq<char> = Seq::empty();
        proof {
            lemma_joined_empty(asm_param_loads(frame@, params@, 0));
            assert(saves + Seq::<char>::empty() =~= saves);
        }
        let ghost c1 = self.context;
        let mut k: usize = 0;
        while k < params.len()
            invariant
                params@.len() == args@.len(),
                params@ == f.blocks@[target as int].params@,
                frame.slots@.len() == f.values@.len(),
                indices_ok(params@, f.values@.len()),
                asm_step(old(self).context, self.context),
                self.context.edge_label_id == old(self).context.edge_label_id,
                self.context.output@ == c1.output@ + done,
                c1.output@ == old(self).context.output@ + saves,
                asm_pass_args(*f, frame@, target as int, args@) == joined(Ok(saves), asm_param_loads(frame@, params@, 0)),
                asm_param_loads(frame@, params@, 0) == joined(Ok(done), asm_param_loads(frame@, params@, k as nat)),
            decreases params.len() - k,
        {
            if k >= frame.scratch.len() {
                return Err(GenerateAsmError::MissingStackSlot);
            }
            let ghost d0 = done;
            let scratch = frame.scratch[k] as u64;
            self.context.emit_stack_access("lw", "t1", scratch);
            self.store_from(frame, params[k], "t1")?;
            proof {
                let step = stack_access_text("lw"@, "t1"@, frame.scratch@[k as int] as nat)
                    + asm_store(frame@, params@[k as int] as int, "t1"@)->Ok_0;
                done = d0 + step;
                assert(self.context.output@ =~= c1.output@ + done);
                lemma_joined_assoc(d0, step, asm_param_loads(frame@, params@, (k + 1) as nat));
            }
            k = k + 1;
        }
        assert(done + Seq::<char>::empty() =~= done);
        assert(self.context.output@ =~= old(self).context.output@ + (saves + done));
        Ok(())
    }

    /// Lowers a call: the first eight arguments go in `a0`..`a7`, the rest
    /// in the outgoing argument words; a result is stored from `a0`.
    #[verifier::spinoff_prover]
    fn gen_call(&mut self, f: &FunctionModel, frame: &StackFrame, v: usize, callee: &String, args: &Vec<ValueRef>)
        -> (r: Result<(), GenerateAsmError>)
        requires
            v < f.values@.len(),
            frame.slots@.len() == f.values@.len(),
            forall|k: int| 0 <= k < args@.len() ==> (#[trigger] args@[k] matches ValueRef::Local(i) ==> i < f.values@.len()),
        ensures
            asm_step(old(self).context, final(self).context),
            final(self).context.edge_label_id == old(self).context.edge_label_id,
            emitted(old(self).context.output@, final(self).context.output@, r, asm_call(*f, frame@, v as int, callee@, args@)),
    {
        proof {
            reveal(asm_call);
        }
        let ghost mut done: Seq<char> = Seq::empty();
        proof {
            lemma_joined_empty(asm_call_args(*f, frame@, args@, 0));
        }
        let mut k: usize = 0;
        while k < args.len()
            invariant
                frame.slots@.len() == f.values@.len(),
                forall|j: int| 0 <= j < args@.len() ==> (#[trigger] args@[j] matches ValueRef::Local(i) ==> i < f.values@.len()),
                asm_step(old(self).context, self.context),
                self.context.edge_label_id == old(self).context.edge_label_id,
                self.context.output@ == old(self).context.output@ + done,
                asm_call_args(*f, frame@, args@, 0) == joined(Ok(done), asm_call_args(*f, frame@, args@, k as nat)),
            decreases args.len() - k,
        {
            proof {
                reveal(asm_call);
            }
            let ghost d0 = done;
            if k < 8 {
                self.load_to(f, frame, &args[k], arg_register(k))?;
                proof {
                    let step = asm_load(*f, frame@, args@[k as int], arg_reg(k as nat))->Ok_0;
                    done = d0 + step;
                    lemma_joined_assoc(d0, step, asm_call_args(*f, frame@, args@, (k + 1) as nat));
                }
            } else {
                if k - 8 >= frame.outgoing.len() {
                    return Err(GenerateAsmError::MissingStackSlot);
                }
                let slot = frame.outgoing[k - 8] as u64;
                self.load_to(f, frame, &args[k], "t1")?;
                self.context.emit_stack_access("sw", "t1", slot);
                proof {
                    let step = asm_load(*f, frame@, args@[k as int], "t1"@)->Ok_0 + stack_access_text("sw"@, "t1"@,
                        frame.outgoing@[k - 8] as nat);
                    done = d0 + step;
                    lemma_joined_assoc(d0, step, asm_call_args(*f, frame@, args@, (k + 1) as nat));
                }
            }
            assert(self.context.output@ =~= old(self).context.output@ + done);
            k = k + 1;
        }
        assert(done + Seq::<char>::empty() =~= done);
        let ghost c1 = self.context;
        let name = strip_prefix(callee)?;
        let mut line = String::from_str("call ");
        push_str(&mut line, name.as_str());
        self.context.emit_instruction(line.as_str());
        let ghost c2 = self.context;
        assert(c2.output@ =~= c1.output@ + inst("call "@ + name@));
        if !f.values[v].is_unit {
            self.store_from(frame, v, "a0")?;
        } else {
            assert(self.context.output@ =~= c2.output@ + Seq::<char>::empty());
        }
        proof {
            let tail = if !f.values@[v as int].is_unit { asm_store(frame@, v as int, "a0"@)->Ok_0 } else { Seq::empty() };
            assert(self.context.output@ =~= old(self).context.output@ + (done + (inst("call "@ + name@) + tail)));
        }
        Ok(())
    }
}

} // verus!
