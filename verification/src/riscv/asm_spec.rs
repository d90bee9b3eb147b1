//! The assembly text that lowering a value, a function or a global emits,
//! for a given stack frame.
use vstd::prelude::*;
use crate::text::{dec_int, dec_nat};
use super::context::{sp_adjust_text, stack_access_text, stack_address_text, stripped};
use super::error::GenerateAsmError;
use super::frame::{layout, FrameView};
use super::koopa_ir::{global_view, GlobalInit};
use super::program::{FunctionModel, GlobalModel, Inst, ProgramModel, ValueRef};

verus! {

/// An assembly error with its message seen as a sequence.
pub enum AsmErr {
    Parse,
    KoopaParse,
    MissingStackSlot,
    BBNoName,
    GlobalValueNoName,
    UnsupportedGlobalInitializer,
    ExpectedPointer,
    UnsupportedValue(Seq<char>),
    Unknown,
    FrameTooLarge,
}

impl View for GenerateAsmError {
    type V = AsmErr;

    open spec fn view(&self) -> AsmErr {
        match self {
            GenerateAsmError::Parse => AsmErr::Parse,
            GenerateAsmError::KoopaParse(_) => AsmErr::KoopaParse,
            GenerateAsmError::MissingStackSlot => AsmErr::MissingStackSlot,
            GenerateAsmError::BBNoName => AsmErr::BBNoName,
            GenerateAsmError::GlobalValueNoName => AsmErr::GlobalValueNoName,
            GenerateAsmError::UnsupportedGlobalInitializer => AsmErr::UnsupportedGlobalInitializer,
            GenerateAsmError::ExpectedPointer => AsmErr::ExpectedPointer,
            GenerateAsmError::UnsupportedValue(s) => AsmErr::UnsupportedValue(s@),
            GenerateAsmError::Unknown => AsmErr::Unknown,
            GenerateAsmError::FrameTooLarge => AsmErr::FrameTooLarge,
        }
    }
}

/// The operation agrees with `s`: on success it appends the text that `s`
/// gives; otherwise it fails with the error that `s` gives.
pub open spec fn emitted<T>(old: Seq<char>, new: Seq<char>, r: Result<T, GenerateAsmError>, s: Result<Seq<char>, AsmErr>) -> bool {
    match s {
        Ok(t) => r is Ok && new == old + t,
        Err(e) => r matches Err(y) && y@ == e,
    }
}

/// A tab-indented instruction line.
pub open spec fn inst(s: Seq<char>) -> Seq<char> {
    "\t"@ + s + "\n"@
}

/// The register of argument `i` of a call, for `i < 8`.
pub open spec fn arg_reg(i: nat) -> Seq<char> {
    if i == 0 { "a0"@ }
    else if i == 1 { "a1"@ }
    else if i == 2 { "a2"@ }
    else if i == 3 { "a3"@ }
    else if i == 4 { "a4"@ }
    else if i == 5 { "a5"@ }
    else if i == 6 { "a6"@ }
    else { "a7"@ }
}

/// Puts the value of an operand in `reg`: an integer directly, any other
/// value from its slot.
#[verifier::opaque]
pub open spec fn asm_load(f: FunctionModel, frame: FrameView, x: ValueRef, reg: Seq<char>) -> Result<Seq<char>, AsmErr> {
    match x {
        ValueRef::Global(_) => Err(AsmErr::UnsupportedValue("global value used as an operand"@)),
        ValueRef::Local(i) => match f.values@[i as int].inst {
            Inst::Integer(v) => Ok(inst("li "@ + reg + ", "@ + dec_int(v as int))),
            _ => match frame.slots[i as int] {
                None => Err(AsmErr::MissingStackSlot),
                Some(o) => Ok(stack_access_text("lw"@, reg, o as nat)),
            },
        },
    }
}

/// Stores `reg` into the slot of value `v`.
#[verifier::opaque]
pub open spec fn asm_store(frame: FrameView, v: int, reg: Seq<char>) -> Result<Seq<char>, AsmErr> {
    match frame.slots[v] {
        None => Err(AsmErr::MissingStackSlot),
        Some(o) => Ok(stack_access_text("sw"@, reg, o as nat)),
    }
}

/// Puts the address that an operand stands for in `reg`: a global's
/// symbol, the slot of an allocation, or the pointer held in a slot.
#[verifier::opaque]
pub open spec fn asm_address(m: ProgramModel, f: FunctionModel, frame: FrameView, x: ValueRef, reg: Seq<char>)
    -> Result<Seq<char>, AsmErr>
{
    match x {
        ValueRef::Global(g) => match m.globals@[g as int].name {
            None => Err(AsmErr::GlobalValueNoName),
            Some(n) => match stripped(n@) {
                Err(_) => Err(AsmErr::Parse),
                Ok(s) => Ok(inst("la "@ + reg + ", "@ + s)),
            },
        },
        ValueRef::Local(i) => match frame.slots[i as int] {
            None => Err(AsmErr::MissingStackSlot),
            Some(o) => match f.values@[i as int].inst {
                Inst::Alloc => Ok(stack_address_text(reg, o as nat)),
                _ => Ok(stack_access_text("lw"@, reg, o as nat)),
            },
        },
    }
}

/// The instructions that compute the Koopa operation `op` on `t0` and
/// `t1` into `t2`, if it is one that is supported.
pub open spec fn binary_text(op: Seq<char>) -> Option<Seq<char>> {
    if op == "eq"@ { Some(inst("xor t2, t0, t1"@) + inst("seqz t2, t2"@)) }
    else if op == "ne"@ { Some(inst("xor t2, t0, t1"@) + inst("snez t2, t2"@)) }
    else if op == "add"@ { Some(inst("add t2, t0, t1"@)) }
    else if op == "sub"@ { Some(inst("sub t2, t0, t1"@)) }
    else if op == "mul"@ { Some(inst("mul t2, t0, t1"@)) }
    else if op == "div"@ { Some(inst("div t2, t0, t1"@)) }
    else if op == "mod"@ { Some(inst("rem t2, t0, t1"@)) }
    else if op == "lt"@ { Some(inst("slt t2, t0, t1"@)) }
    else if op == "gt"@ { Some(inst("slt t2, t1, t0"@)) }
    else if op == "le"@ { Some(inst("slt t2, t1, t0"@) + inst("seqz t2, t2"@)) }
    else if op == "ge"@ { Some(inst("slt t2, t0, t1"@) + inst("seqz t2, t2"@)) }
    else if op == "and"@ { Some(inst("and t2, t0, t1"@)) }
    else if op == "or"@ { Some(inst("or t2, t0, t1"@)) }
    else if op == "xor"@ { Some(inst("xor t2, t0, t1"@)) }
    else if op == "shl"@ { Some(inst("sll t2, t0, t1"@)) }
    else if op == "shr"@ { Some(inst("srl t2, t0, t1"@)) }
    else if op == "sar"@ { Some(inst("sra t2, t0, t1"@)) }
    else { None }
}

/// `a` followed by `b`, failing with the first failure.
pub open spec fn joined(a: Result<Seq<char>, AsmErr>, b: Result<Seq<char>, AsmErr>) -> Result<Seq<char>, AsmErr> {
    match a {
        Err(e) => Err(e),
        Ok(x) => match b {
            Err(e) => Err(e),
            Ok(y) => Ok(x + y),
        },
    }
}

/// A binary operation: operands in `t0` and `t1`, result from `t2` to the
/// slot of `v`.
#[verifier::opaque]
pub open spec fn asm_binary(f: FunctionModel, frame: FrameView, v: int, op: Seq<char>, l: ValueRef, r: ValueRef)
    -> Result<Seq<char>, AsmErr>
{
    joined(asm_load(f, frame, l, "t0"@), joined(asm_load(f, frame, r, "t1"@), match binary_text(op) {
        None => Err(AsmErr::UnsupportedValue(op)),
        Some(t) => joined(Ok(t), asm_store(frame, v, "t2"@)),
    }))
}

/// `getptr` and `getelemptr`: the address plus the index times the size
/// of what the result points to.
#[verifier::opaque]
pub open spec fn asm_pointer_offset(m: ProgramModel, f: FunctionModel, frame: FrameView, v: int, src: ValueRef,
    index: ValueRef) -> Result<Seq<char>, AsmErr>
{
    joined(asm_address(m, f, frame, src, "t0"@), joined(asm_load(f, frame, index, "t1"@), match f.values@[v].pointee_size {
        None => Err(AsmErr::ExpectedPointer),
        Some(n) => joined(Ok(if n != 1 {
            inst("li t2, "@ + dec_nat(n as nat)) + inst("mul t1, t1, t2"@)
        } else {
            Seq::empty()
        } + inst("add t0, t0, t1"@)), asm_store(frame, v, "t0"@)),
    }))
}

/// The label `.L_function_block` of block `b` of `f`.
#[verifier::opaque]
pub open spec fn asm_block_label(f: FunctionModel, b: int) -> Result<Seq<char>, AsmErr> {
    match stripped(f.name@) {
        Err(_) => Err(AsmErr::Parse),
        Ok(fname) => match f.blocks@[b].name {
            None => Err(AsmErr::BBNoName),
            Some(n) => match stripped(n@) {
                Err(_) => Err(AsmErr::Parse),
                Ok(bname) => Ok(".L_"@ + fname + "_"@ + bname),
            },
        },
    }
}

/// Reads the block arguments from position `k` on into scratch words.
pub open spec fn asm_arg_saves(f: FunctionModel, frame: FrameView, args: Seq<ValueRef>, k: nat) -> Result<Seq<char>, AsmErr>
    decreases args.len() - k,
{
    if k >= args.len() {
        Ok(Seq::empty())
    } else if k >= frame.scratch.len() {
        Err(AsmErr::MissingStackSlot)
    } else {
        joined(joined(asm_load(f, frame, args[k as int], "t1"@), Ok(stack_access_text("sw"@, "t1"@, frame.scratch[k as int] as nat))),
            asm_arg_saves(f, frame, args, k + 1))
    }
}

/// Writes the scratch words to the block parameters from position `k` on.
pub open spec fn asm_param_loads(frame: FrameView, params: Seq<usize>, k: nat) -> Result<Seq<char>, AsmErr>
    decreases params.len() - k,
{
    if k >= params.len() {
        Ok(Seq::empty())
    } else if k >= frame.scratch.len() {
        Err(AsmErr::MissingStackSlot)
    } else {
        joined(joined(Ok(stack_access_text("lw"@, "t1"@, frame.scratch[k as int] as nat)), asm_store(frame, params[k as int] as int, "t1"@)),
            asm_param_loads(frame, params, k + 1))
    }
}

/// Passes arguments to the parameters of block `target`: all are read
/// into scratch words first, then written to the parameters.
#[verifier::opaque]
pub open spec fn asm_pass_args(f: FunctionModel, frame: FrameView, target: int, args: Seq<ValueRef>) -> Result<Seq<char>, AsmErr> {
    let params = f.blocks@[target].params@;
    if params.len() != args.len() {
        Err(AsmErr::Unknown)
    } else {
        joined(asm_arg_saves(f, frame, args, 0), asm_param_loads(frame, params, 0))
    }
}

/// A conditional branch; when either target takes arguments, the false
/// edge gets a label of its own, numbered `edge`, where its arguments are
/// passed. Gives the text and the next edge number.
#[verifier::opaque]
pub open spec fn asm_branch(f: FunctionModel, frame: FrameView, cond: ValueRef, t: int, targs: Seq<ValueRef>, e: int,
    eargs: Seq<ValueRef>, edge: usize) -> Result<(Seq<char>, usize), AsmErr>
{
    match asm_load(f, frame, cond, "t0"@) {
        Err(x) => Err(x),
        Ok(lc) => match asm_block_label(f, t) {
            Err(x) => Err(x),
            Ok(tb) => match asm_block_label(f, e) {
                Err(x) => Err(x),
                Ok(fb) => if targs.len() == 0 && eargs.len() == 0 {
                    Ok((lc + inst("bnez t0, "@ + tb) + inst("j "@ + fb), edge))
                } else {
                    match asm_edge_branch(f, frame, t, targs, e, eargs, tb, fb, edge) {
                        Err(x) => Err(x),
                        Ok((text, edge2)) => Ok((lc + text, edge2)),
                    }
                },
            },
        },
    }
}

/// The branch of `asm_branch` when a target takes arguments: the false
/// edge gets the label `.L_edge_n` for the edge number `edge`.
pub open spec fn asm_edge_branch(f: FunctionModel, frame: FrameView, t: int, targs: Seq<ValueRef>, e: int,
    eargs: Seq<ValueRef>, tb: Seq<char>, fb: Seq<char>, edge: usize) -> Result<(Seq<char>, usize), AsmErr>
{
    if edge == usize::MAX {
        Err(AsmErr::Unknown)
    } else {
        let en = ".L_edge_"@ + dec_nat(edge as nat);
        match asm_pass_args(f, frame, t, targs) {
            Err(x) => Err(x),
            Ok(pa) => match asm_pass_args(f, frame, e, eargs) {
                Err(x) => Err(x),
                Ok(pb) => Ok((inst("beqz t0, "@ + en) + pa + inst("j "@ + tb) + en + ":"@ + "\n"@ + pb
                    + inst("j "@ + fb), (edge + 1) as usize)),
            },
        }
    }
}

/// The arguments of a call from position `k` on: the first eight in
/// `a0`..`a7`, the rest in the outgoing argument words.
pub open spec fn asm_call_args(f: FunctionModel, frame: FrameView, args: Seq<ValueRef>, k: nat) -> Result<Seq<char>, AsmErr>
    decreases args.len() - k,
{
    if k >= args.len() {
        Ok(Seq::empty())
    } else if k < 8 {
        joined(asm_load(f, frame, args[k as int], arg_reg(k)), asm_call_args(f, frame, args, k + 1))
    } else if k - 8 >= frame.outgoing.len() {
        Err(AsmErr::MissingStackSlot)
    } else {
        joined(joined(asm_load(f, frame, args[k as int], "t1"@), Ok(stack_access_text("sw"@, "t1"@, frame.outgoing[k - 8] as nat))),
            asm_call_args(f, frame, args, k + 1))
    }
}

/// A call; a result is stored from `a0` into the slot of `v`.
#[verifier::opaque]
pub open spec fn asm_call(f: FunctionModel, frame: FrameView, v: int, callee: Seq<char>, args: Seq<ValueRef>) -> Result<Seq<char>, AsmErr> {
    joined(asm_call_args(f, frame, args, 0), match stripped(callee) {
        Err(_) => Err(AsmErr::Parse),
        Ok(n) => joined(Ok(inst("call "@ + n)), if !f.values@[v].is_unit { asm_store(frame, v, "a0"@) } else { Ok(Seq::empty()) }),
    })
}

/// `r` with the edge number unchanged.
pub open spec fn with_edge(edge: usize, r: Result<Seq<char>, AsmErr>) -> Result<(Seq<char>, usize), AsmErr> {
    match r {
        Err(x) => Err(x),
        Ok(t) => Ok((t, edge)),
    }
}

/// One instruction, with the edge number it starts from; gives the text
/// and the next edge number.
#[verifier::opaque]
pub open spec fn asm_value(m: ProgramModel, f: FunctionModel, frame: FrameView, v: int, edge: usize)
    -> Result<(Seq<char>, usize), AsmErr>
{
    match f.values@[v].inst {
        Inst::Return(ret) => with_edge(edge, joined(match ret {
            Some(x) => asm_load(f, frame, x, "a0"@),
            None => Ok(Seq::empty()),
        }, Ok(match frame.ra_slot {
            Some(ra) => stack_access_text("lw"@, "ra"@, ra as nat),
            None => Seq::empty(),
        } + sp_adjust_text(frame.size as int) + inst("ret"@)))),
        Inst::Binary(op, l, r) => with_edge(edge, asm_binary(f, frame, v, op@, l, r)),
        Inst::Alloc => with_edge(edge, Ok(Seq::empty())),
        Inst::Store(value, dest) => with_edge(edge, joined(asm_load(f, frame, value, "t0"@),
            joined(asm_address(m, f, frame, dest, "t1"@), Ok(inst("sw t0, 0(t1)"@))))),
        Inst::Load(src) => with_edge(edge, joined(asm_address(m, f, frame, src, "t0"@),
            joined(Ok(inst("lw t0, 0(t0)"@)), asm_store(frame, v, "t0"@)))),
        Inst::GetPtr(src, index) => with_edge(edge, asm_pointer_offset(m, f, frame, v, src, index)),
        Inst::GetElemPtr(src, index) => with_edge(edge, asm_pointer_offset(m, f, frame, v, src, index)),
        Inst::Branch(cond, t, targs, e, eargs) => asm_branch(f, frame, cond, t as int, targs@, e as int, eargs@, edge),
        Inst::Jump(t, args) => with_edge(edge, match asm_block_label(f, t as int) {
            Err(x) => Err(x),
            Ok(tb) => joined(asm_pass_args(f, frame, t as int, args@), Ok(inst("j "@ + tb))),
        }),
        Inst::Call(callee, args) => with_edge(edge, asm_call(f, frame, v, callee@, args@)),
        Inst::Integer(_) => Err(AsmErr::UnsupportedValue("operand in instruction position"@)),
        Inst::Param => Err(AsmErr::UnsupportedValue("operand in instruction position"@)),
        Inst::Unsupported(s) => Err(AsmErr::UnsupportedValue(s@)),
    }
}


pub proof fn lemma_joined_assoc(a: Seq<char>, b: Seq<char>, r: Result<Seq<char>, AsmErr>)
    ensures
        joined(Ok(a), joined(Ok(b), r)) == joined(Ok(a + b), r),
{
    if r is Ok {
        assert(a + (b + r->Ok_0) =~= (a + b) + r->Ok_0);
    }
}

pub proof fn lemma_joined_empty(r: Result<Seq<char>, AsmErr>)
    ensures
        joined(Ok(Seq::empty()), r) == r,
        joined(r, Ok(Seq::empty())) == r,
{
    if r is Ok {
        assert(Seq::<char>::empty() + r->Ok_0 =~= r->Ok_0);
        assert(r->Ok_0 + Seq::<char>::empty() =~= r->Ok_0);
    }
}


/// A global word: its initializer must be an integer or zero.
pub open spec fn asm_global(g: GlobalModel) -> Result<Seq<char>, AsmErr> {
    asm_global_view(global_view(g))
}

/// A global word, from its name and initializer.
pub open spec fn asm_global_view(g: (Option<Seq<char>>, GlobalInit)) -> Result<Seq<char>, AsmErr> {
    if g.1 is NotAlloc {
        Err(AsmErr::UnsupportedGlobalInitializer)
    } else {
        match g.0 {
            None => Err(AsmErr::GlobalValueNoName),
            Some(n) => match stripped(n) {
                Err(_) => Err(AsmErr::Parse),
                Ok(s) => {
                    let head = inst(".data"@) + inst(".globl "@ + s) + s + ":"@ + "\n"@;
                    match g.1 {
                        GlobalInit::Integer(v) => Ok(head + inst(".word "@ + dec_int(v as int))),
                        GlobalInit::Zero => Ok(head + inst(".zero 4"@)),
                        _ => Err(AsmErr::UnsupportedGlobalInitializer),
                    }
                },
            },
        }
    }
}

/// The globals from position `i` on, from their names and initializers.
pub open spec fn asm_global_list(gs: Seq<(Option<Seq<char>>, GlobalInit)>, i: nat) -> Result<Seq<char>, AsmErr>
    decreases gs.len() - i,
{
    if i >= gs.len() {
        Ok(Seq::empty())
    } else {
        joined(asm_global_view(gs[i as int]), asm_global_list(gs, i + 1))
    }
}

/// Stores the function's parameters from position `i` on in their slots:
/// the first eight from `a0`..`a7`, the rest from the caller's outgoing
/// words just above the frame.
#[verifier::opaque]
pub open spec fn asm_param_saves(f: FunctionModel, frame: FrameView, i: nat) -> Result<Seq<char>, AsmErr>
    decreases f.params@.len() - i,
{
    if i >= f.params@.len() {
        Ok(Seq::empty())
    } else {
        match frame.slots[f.params@[i as int] as int] {
            None => Err(AsmErr::MissingStackSlot),
            Some(slot) => if i < 8 {
                joined(Ok(stack_access_text("sw"@, arg_reg(i), slot as nat)), asm_param_saves(f, frame, i + 1))
            } else if frame.size + (i - 8) * 4 > u64::MAX {
                Err(AsmErr::FrameTooLarge)
            } else {
                joined(Ok(stack_access_text("lw"@, "t0"@, (frame.size + (i - 8) * 4) as nat)
                    + stack_access_text("sw"@, "t0"@, slot as nat)), asm_param_saves(f, frame, i + 1))
            },
        }
    }
}

/// Parameter `i` beyond the eighth is read from the caller's outgoing
/// words, at `size + 4 * (i - 8)` above the stack pointer, and stored in
/// its slot.
pub proof fn lemma_incoming_arg(f: FunctionModel, frame: FrameView, i: nat)
    requires
        8 <= i < f.params@.len(),
        frame.slots[f.params@[i as int] as int] matches Some(slot),
        frame.size + (i - 8) * 4 <= u64::MAX,
    ensures
        asm_param_saves(f, frame, i) == joined(Ok(stack_access_text("lw"@, "t0"@, (frame.size + 4 * (i - 8)) as nat)
            + stack_access_text("sw"@, "t0"@, frame.slots[f.params@[i as int] as int]->Some_0 as nat)),
            asm_param_saves(f, frame, i + 1)),
{
    reveal_with_fuel(asm_param_saves, 1);
    assert((frame.size + (i - 8) * 4) == (frame.size + 4 * (i - 8)));
}

/// The instructions of a block from position `k` on.
#[verifier::opaque]
pub open spec fn asm_insts(m: ProgramModel, f: FunctionModel, frame: FrameView, insts: Seq<usize>, k: nat, edge: usize)
    -> Result<(Seq<char>, usize), AsmErr>
    decreases insts.len() - k,
{
    if k >= insts.len() {
        Ok((Seq::empty(), edge))
    } else {
        match asm_value(m, f, frame, insts[k as int] as int, edge) {
            Err(x) => Err(x),
            Ok((t, e2)) => match asm_insts(m, f, frame, insts, k + 1, e2) {
                Err(x) => Err(x),
                Ok((t2, e3)) => Ok((t + t2, e3)),
            },
        }
    }
}

/// The blocks of a function from position `b` on, each after its label.
#[verifier::opaque]
pub open spec fn asm_blocks(m: ProgramModel, f: FunctionModel, frame: FrameView, b: nat, edge: usize)
    -> Result<(Seq<char>, usize), AsmErr>
    decreases f.blocks@.len() - b,
{
    if b >= f.blocks@.len() {
        Ok((Seq::empty(), edge))
    } else {
        match asm_block_label(f, b as int) {
            Err(x) => Err(x),
            Ok(l) => match asm_insts(m, f, frame, f.blocks@[b as int].insts@, 0, edge) {
                Err(x) => Err(x),
                Ok((t, e2)) => match asm_blocks(m, f, frame, b + 1, e2) {
                    Err(x) => Err(x),
                    Ok((t2, e3)) => Ok((l + ":"@ + "\n"@ + t + t2, e3)),
                },
            },
        }
    }
}

/// A function with a body, in the frame `frame`: the prologue makes room
/// for the frame, saves the return address and stores the parameters in
/// their slots; then each block follows in order.
#[verifier::opaque]
pub open spec fn asm_function(m: ProgramModel, f: FunctionModel, frame: FrameView, edge: usize)
    -> Result<(Seq<char>, usize), AsmErr>
{
    match stripped(f.name@) {
        Err(_) => Err(AsmErr::Parse),
        Ok(name) => {
            let head = inst(".text"@) + inst(".globl "@ + name) + name + ":"@ + "\n"@ + sp_adjust_text(0 - frame.size)
                + match frame.ra_slot {
                Some(ra) => stack_access_text("sw"@, "ra"@, ra as nat),
                None => Seq::empty(),
            };
            match asm_param_saves(f, frame, 0) {
                Err(x) => Err(x),
                Ok(ps) => match asm_blocks(m, f, frame, 0, edge) {
                    Err(x) => Err(x),
                    Ok((bt, e2)) => Ok((head + ps + bt, e2)),
                },
            }
        },
    }
}

/// The globals of a program give the text that their names and
/// initializers give.
pub proof fn lemma_asm_globals_view(m: ProgramModel, i: nat)
    ensures
        asm_globals(m, i) == asm_global_list(m.globals@.map_values(|g: GlobalModel| global_view(g)), i),
    decreases m.globals@.len() - i,
{
    if i < m.globals@.len() {
        lemma_asm_globals_view(m, i + 1);
    }
}

/// The globals of a program from position `i` on.
pub open spec fn asm_globals(m: ProgramModel, i: nat) -> Result<Seq<char>, AsmErr>
    decreases m.globals@.len() - i,
{
    if i >= m.globals@.len() {
        Ok(Seq::empty())
    } else {
        joined(asm_global(m.globals@[i as int]), asm_globals(m, i + 1))
    }
}

/// The first `n` functions of a program (those with a body), each in the
/// frame laid out for it, with edge labels numbered from 0: the text and
/// the next edge number.
pub open spec fn asm_functions(m: ProgramModel, n: nat) -> Result<(Seq<char>, usize), AsmErr>
    decreases n,
{
    if n == 0 {
        Ok((Seq::empty(), 0))
    } else {
        match asm_functions(m, (n - 1) as nat) {
            Err(x) => Err(x),
            Ok((t, e)) => if m.functions@[n - 1].blocks@.len() == 0 {
                Ok((t, e))
            } else {
                match layout(m.functions@[n - 1]) {
                    Err(x) => Err(x),
                    Ok(frame) => match asm_function(m, m.functions@[n - 1], frame, e) {
                        Err(x) => Err(x),
                        Ok((t2, e2)) => Ok((t + t2, e2)),
                    },
                }
            },
        }
    }
}

/// The assembly of a program: its global variables, then its functions.
pub open spec fn asm_program(m: ProgramModel) -> Result<Seq<char>, AsmErr> {
    match asm_globals(m, 0) {
        Err(x) => Err(x),
        Ok(gt) => match asm_functions(m, m.functions@.len()) {
            Err(x) => Err(x),
            Ok((ft, _)) => Ok(gt + ft),
        },
    }
}

/// Once a function fails, the program fails with its error.
pub proof fn lemma_asm_functions_err(m: ProgramModel, k: nat, n: nat)
    requires
        k <= n,
        asm_functions(m, k) is Err,
    ensures
        asm_functions(m, n) == asm_functions(m, k),
    decreases n,
{
    if k < n {
        lemma_asm_functions_err(m, k, (n - 1) as nat);
    }
}

} // verus!
