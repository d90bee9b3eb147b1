//! A Koopa program as plain values: what the assembly generator reads of
//! it, with values and blocks referred to by their position.
use vstd::prelude::*;
use super::error::GenerateAsmError;
use super::koopa_ir::{
    block_insts, block_name, block_params, branch_inst, control_inst, value_kind, function_blocks, function_data, function_name,
    function_params, functions, global_data, global_values, global_view, program_functions, program_globals, is_global, memory_inst, same_block,
    same_value, type_shape, value_type, pointer_size, ControlInst, GlobalInit, MemInst, TypeShape,
};

verus! {

/// The size of a type in bytes, as Koopa computes it, or `None` when an
/// array's size does not fit in a `usize`; pointers and functions take
/// `ptr` bytes.
pub open spec fn shape_size(t: TypeShape, ptr: usize) -> Option<usize>
    decreases t,
{
    match t {
        TypeShape::Int32 => Some(4),
        TypeShape::Unit => Some(0),
        TypeShape::Array(base, len) => match shape_size(*base, ptr) {
            Some(n) => if n * len <= usize::MAX { Some((n * len) as usize) } else { None },
            None => None,
        },
        TypeShape::Pointer(_) | TypeShape::Function => Some(ptr),
    }
}

/// Computes `shape_size`.
pub fn type_size(t: &TypeShape, ptr: usize) -> (r: Option<usize>)
    ensures
        r == shape_size(*t, ptr),
    decreases t,
{
    match t {
        TypeShape::Int32 => Some(4),
        TypeShape::Unit => Some(0),
        TypeShape::Array(base, len) => match type_size(base, ptr) {
            Some(n) => n.checked_mul(*len),
            None => None,
        },
        TypeShape::Pointer(_) | TypeShape::Function => Some(ptr),
    }
}

/// A value used by an instruction: a value of the function, or a global.
pub enum ValueRef {
    Local(usize),
    Global(usize),
}

/// What a value of a function is.
pub enum Inst {
    Integer(i32),
    Alloc,
    /// A parameter of the function or of a basic block.
    Param,
    Load(ValueRef),
    Store(ValueRef, ValueRef),
    GetPtr(ValueRef, ValueRef),
    GetElemPtr(ValueRef, ValueRef),
    /// A binary operation named by its Koopa mnemonic.
    Binary(String, ValueRef, ValueRef),
    /// A branch on a condition to two blocks, with their arguments.
    Branch(ValueRef, usize, Vec<ValueRef>, usize, Vec<ValueRef>),
    Jump(usize, Vec<ValueRef>),
    /// A call of the function with the given Koopa name.
    Call(String, Vec<ValueRef>),
    Return(Option<ValueRef>),
    /// Any other value, described for the error message.
    Unsupported(String),
}

/// A value of a function with its type: size in bytes, whether it is the
/// unit type, and the size of what it points to.
pub struct ValueInfo {
    pub inst: Inst,
    pub size: usize,
    pub is_unit: bool,
    pub pointee_size: Option<usize>,
}

pub struct BlockModel {
    pub name: Option<String>,
    pub params: Vec<usize>,
    pub insts: Vec<usize>,
}

/// A function: its blocks in layout order (none for a declaration) and
/// the table of the values they use.
pub struct FunctionModel {
    pub name: String,
    pub params: Vec<usize>,
    pub blocks: Vec<BlockModel>,
    pub values: Vec<ValueInfo>,
}

pub struct GlobalModel {
    pub name: Option<String>,
    pub init: GlobalInit,
}

pub struct ProgramModel {
    pub globals: Vec<GlobalModel>,
    pub functions: Vec<FunctionModel>,
}

pub open spec fn ref_ok(r: ValueRef, nv: nat, ng: nat) -> bool {
    match r {
        ValueRef::Local(i) => i < nv,
        ValueRef::Global(g) => g < ng,
    }
}

pub open spec fn refs_ok(s: Seq<ValueRef>, nv: nat, ng: nat) -> bool {
    forall|k: int| 0 <= k < s.len() ==> ref_ok(#[trigger] s[k], nv, ng)
}

/// Every value and block that an instruction refers to exists.
pub open spec fn inst_ok(i: Inst, nv: nat, nb: nat, ng: nat) -> bool {
    match i {
        Inst::Load(a) => ref_ok(a, nv, ng),
        Inst::Store(a, b) => ref_ok(a, nv, ng) && ref_ok(b, nv, ng),
        Inst::GetPtr(a, b) => ref_ok(a, nv, ng) && ref_ok(b, nv, ng),
        Inst::GetElemPtr(a, b) => ref_ok(a, nv, ng) && ref_ok(b, nv, ng),
        Inst::Binary(_, a, b) => ref_ok(a, nv, ng) && ref_ok(b, nv, ng),
        Inst::Branch(c, t, ta, f, fa) => ref_ok(c, nv, ng) && t < nb && f < nb && refs_ok(ta@, nv, ng)
            && refs_ok(fa@, nv, ng),
        Inst::Jump(t, a) => t < nb && refs_ok(a@, nv, ng),
        Inst::Call(_, a) => refs_ok(a@, nv, ng),
        Inst::Return(Some(a)) => ref_ok(a, nv, ng),
        _ => true,
    }
}

pub open spec fn indices_ok(s: Seq<usize>, nv: nat) -> bool {
    forall|k: int| 0 <= k < s.len() ==> #[trigger] s[k] < nv
}

/// A function whose references all resolve.
pub open spec fn function_ok(f: FunctionModel, ng: nat) -> bool {
    let nv = f.values@.len();
    let nb = f.blocks@.len();
    &&& indices_ok(f.params@, nv)
    &&& forall|b: int| 0 <= b < nb ==> indices_ok((#[trigger] f.blocks@[b]).params@, nv)
        && indices_ok(f.blocks@[b].insts@, nv)
    &&& forall|v: int| 0 <= v < nv ==> inst_ok((#[trigger] f.values@[v]).inst, nv, nb, ng)
}

pub open spec fn program_ok(p: ProgramModel) -> bool {
    forall|i: int| 0 <= i < p.functions@.len() ==> function_ok(#[trigger] p.functions@[i], p.globals@.len())
}

proof fn lemma_inst_ok_grow(i: Inst, nv: nat, nv2: nat, nb: nat, ng: nat)
    requires
        inst_ok(i, nv, nb, ng),
        nv <= nv2,
    ensures
        inst_ok(i, nv2, nb, ng),
{
    match i {
        Inst::Branch(c, t, ta, f, fa) => {
            assert(refs_ok(ta@, nv2, ng));
            assert(refs_ok(fa@, nv2, ng));
        },
        Inst::Jump(t, a) => {
            assert(refs_ok(a@, nv2, ng));
        },
        Inst::Call(_, a) => {
            assert(refs_ok(a@, nv2, ng));
        },
        _ => {},
    }
}

/// The values of one function being read, with the handles they came from.
struct Table {
    handles: Vec<::koopa::ir::Value>,
    infos: Vec<ValueInfo>,
}

impl Table {
    spec fn ok(&self, nb: nat, ng: nat) -> bool {
        &&& self.handles@.len() == self.infos@.len()
        &&& forall|v: int| 0 <= v < self.infos@.len() ==> inst_ok((#[trigger] self.infos@[v]).inst, self.infos@.len(), nb, ng)
    }

    /// Adds a value of the given kind.
    fn push(&mut self, d: &::koopa::ir::FunctionData, h: ::koopa::ir::Value, inst: Inst, nb: Ghost<nat>, ng: Ghost<nat>)
        -> (r: Result<usize, GenerateAsmError>)
        requires
            old(self).ok(nb@, ng@),
            inst_ok(inst, old(self).infos@.len() + 1, nb@, ng@),
            old(self).infos@.len() < usize::MAX,
        ensures
            final(self).ok(nb@, ng@),
            r matches Ok(i) ==> i == old(self).infos@.len() && final(self).infos@.len() == old(self).infos@.len() + 1,
            r is Err ==> final(self).infos@.len() == old(self).infos@.len(),
    {
        let ptr = pointer_size();
        let (size, is_unit, pointee_size) = match value_type(d, h) {
            Some(ty) => {
                let t = type_shape(&ty);
                let size = match type_size(&t, ptr) {
                    Some(n) => n,
                    None => {
                        return Err(GenerateAsmError::FrameTooLarge);
                    },
                };
                let pointee_size = match &t {
                    TypeShape::Pointer(base) => match type_size(base, ptr) {
                        Some(n) => Some(n),
                        None => {
                            return Err(GenerateAsmError::FrameTooLarge);
                        },
                    },
                    _ => None,
                };
                (size, matches!(t, TypeShape::Unit), pointee_size)
            },
            None => (0, false, None),
        };
        let i = self.infos.len();
        self.handles.push(h);
        self.infos.push(ValueInfo { inst, size, is_unit, pointee_size });
        assert forall|v: int| 0 <= v < self.infos@.len() implies inst_ok((#[trigger] self.infos@[v]).inst,
            self.infos@.len(), nb@, ng@) by {
            if v < i {
                lemma_inst_ok_grow(old(self).infos@[v].inst, old(self).infos@.len(), self.infos@.len(), nb@, ng@);
            }
        }
        Ok(i)
    }

    /// The position of a handle already in the table.
    fn find(&self, h: ::koopa::ir::Value) -> (r: Option<usize>)
        ensures
            r matches Some(i) ==> i < self.handles@.len(),
    {
        let mut i: usize = 0;
        while i < self.handles.len()
            invariant
                i <= self.handles@.len(),
            decreases self.handles.len() - i,
        {
            if same_value(self.handles[i], h) {
                return Some(i);
            }
            i = i + 1;
        }
        None
    }
}

/// The position of a handle in a list of handles.
fn position(list: &Vec<::koopa::ir::Value>, h: ::koopa::ir::Value) -> (r: Option<usize>)
    ensures
        r matches Some(i) ==> i < list@.len(),
{
    let mut i: usize = 0;
    while i < list.len()
        invariant
            i <= list@.len(),
        decreases list.len() - i,
    {
        if same_value(list[i], h) {
            return Some(i);
        }
        i = i + 1;
    }
    None
}

/// The position of a basic block handle.
fn block_position(list: &Vec<::koopa::ir::BasicBlock>, b: ::koopa::ir::BasicBlock) -> (r: Option<usize>)
    ensures
        r matches Some(i) ==> i < list@.len(),
{
    let mut i: usize = 0;
    while i < list.len()
        invariant
            i <= list@.len(),
        decreases list.len() - i,
    {
        if same_block(list[i], b) {
            return Some(i);
        }
        i = i + 1;
    }
    None
}

/// Reads the functions and global values of a Koopa program.
struct Reader<'p> {
    program: &'p ::koopa::ir::Program,
    globals: Vec<::koopa::ir::Value>,
}

impl<'p> Reader<'p> {
    /// The reference for a value handle used by an instruction: a global,
    /// a value already in the table, or a constant added to it.
    fn operand(&self, d: &::koopa::ir::FunctionData, t: &mut Table, h: ::koopa::ir::Value, nb: Ghost<nat>)
        -> (r: Result<ValueRef, GenerateAsmError>)
        requires
            old(t).ok(nb@, self.globals@.len() as nat),
        ensures
            final(t).ok(nb@, self.globals@.len() as nat),
            old(t).infos@.len() <= final(t).infos@.len(),
            r matches Ok(x) ==> ref_ok(x, final(t).infos@.len(), self.globals@.len() as nat),
    {
        let ng = Ghost(self.globals@.len() as nat);
        if t.infos.len() == usize::MAX {
            return Err(GenerateAsmError::Unknown);
        }
        if is_global(h) {
            match position(&self.globals, h) {
                Some(g) => {
                    return Ok(ValueRef::Global(g));
                },
                None => {
                    let i = t.push(d, h, Inst::Unsupported(String::from_str("unknown global value")), nb, ng)?;
                    return Ok(ValueRef::Local(i));
                },
            }
        }
        match t.find(h) {
            Some(i) => Ok(ValueRef::Local(i)),
            None => {
                let inst = match value_kind(d, h) {
                    Some(k) => match memory_inst(k) {
                        MemInst::Integer(v) => Inst::Integer(v),
                        _ => Inst::Unsupported(String::from_str("value defined nowhere in the function")),
                    },
                    None => Inst::Unsupported(String::from_str("value defined nowhere in the function")),
                };
                Ok(ValueRef::Local(t.push(d, h, inst, nb, ng)?))
            },
        }
    }

    /// The references for a list of handles.
    fn operands(&self, d: &::koopa::ir::FunctionData, t: &mut Table, hs: &Vec<::koopa::ir::Value>, nb: Ghost<nat>)
        -> (r: Result<Vec<ValueRef>, GenerateAsmError>)
        requires
            old(t).ok(nb@, self.globals@.len() as nat),
        ensures
            final(t).ok(nb@, self.globals@.len() as nat),
            old(t).infos@.len() <= final(t).infos@.len(),
            r matches Ok(x) ==> refs_ok(x@, final(t).infos@.len(), self.globals@.len() as nat),
    {
        let mut out: Vec<ValueRef> = Vec::new();
        let mut i: usize = 0;
        while i < hs.len()
            invariant
                i <= hs@.len(),
                t.ok(nb@, self.globals@.len() as nat),
                old(t).infos@.len() <= t.infos@.len(),
                refs_ok(out@, t.infos@.len(), self.globals@.len() as nat),
            decreases hs.len() - i,
        {
            let r = self.operand(d, t, hs[i], nb)?;
            out.push(r);
            i = i + 1;
        }
        Ok(out)
    }

    /// Reads the kind of an instruction of a function whose blocks are
    /// `blocks`.
    #[verifier::rlimit(40)]
    fn inst(&self, d: &::koopa::ir::FunctionData, t: &mut Table, h: ::koopa::ir::Value,
        blocks: &Vec<::koopa::ir::BasicBlock>) -> (r: Result<Inst, GenerateAsmError>)
        requires
            old(t).ok(blocks@.len() as nat, self.globals@.len() as nat),
        ensures
            final(t).ok(blocks@.len() as nat, self.globals@.len() as nat),
            old(t).infos@.len() <= final(t).infos@.len(),
            r matches Ok(i) ==> inst_ok(i, final(t).infos@.len(), blocks@.len() as nat, self.globals@.len() as nat),
    {
        let nb = Ghost(blocks@.len() as nat);
        let ghost ng = self.globals@.len() as nat;
        let kind = match value_kind(d, h) {
            Some(k) => k,
            None => {
                return Ok(Inst::Unsupported(String::from_str("instruction missing from the function")));
            },
        };
        match memory_inst(kind) {
            MemInst::Integer(v) => {
                return Ok(Inst::Integer(v));
            },
            MemInst::Alloc => {
                return Ok(Inst::Alloc);
            },
            MemInst::Load(a) => {
                let a = self.operand(d, t, a, nb)?;
                return Ok(Inst::Load(a));
            },
            MemInst::Store(a, b) => {
                let a = self.operand(d, t, a, nb)?;
                let b = self.operand(d, t, b, nb)?;
                return Ok(Inst::Store(a, b));
            },
            MemInst::GetPtr(a, b) => {
                let a = self.operand(d, t, a, nb)?;
                let b = self.operand(d, t, b, nb)?;
                return Ok(Inst::GetPtr(a, b));
            },
            MemInst::GetElemPtr(a, b) => {
                let a = self.operand(d, t, a, nb)?;
                let b = self.operand(d, t, b, nb)?;
                return Ok(Inst::GetElemPtr(a, b));
            },
            _ => {},
        }
        match control_inst(kind) {
            ControlInst::Binary(op, a, b) => {
                let a = self.operand(d, t, a, nb)?;
                let b = self.operand(d, t, b, nb)?;
                Ok(Inst::Binary(op, a, b))
            },
            ControlInst::Branch => match branch_inst(kind) {
                Some(br) => {
                    let c = self.operand(d, t, br.cond, nb)?;
                    let ta = self.operands(d, t, &br.true_args, nb)?;
                    let fa = self.operands(d, t, &br.false_args, nb)?;
                    match (block_position(blocks, br.true_bb), block_position(blocks, br.false_bb)) {
                        (Some(ti), Some(fi)) => Ok(Inst::Branch(c, ti, ta, fi, fa)),
                        _ => Ok(Inst::Unsupported(String::from_str("branch to a block outside the function"))),
                    }
                },
                None => Ok(Inst::Unsupported(String::from_str("malformed branch"))),
            },
            ControlInst::Jump(tb, args) => {
                let args = self.operands(d, t, &args, nb)?;
                match block_position(blocks, tb) {
                    Some(ti) => Ok(Inst::Jump(ti, args)),
                    None => Ok(Inst::Unsupported(String::from_str("jump to a block outside the function"))),
                }
            },
            ControlInst::Call(f, args) => {
                let args = self.operands(d, t, &args, nb)?;
                match function_data(self.program, f) {
                    Some(callee) => Ok(Inst::Call(function_name(callee), args)),
                    None => Ok(Inst::Unsupported(String::from_str("call of an unknown function"))),
                }
            },
            ControlInst::Return(v) => match v {
                Some(v) => {
                    let v = self.operand(d, t, v, nb)?;
                    Ok(Inst::Return(Some(v)))
                },
                None => Ok(Inst::Return(None)),
            },
            ControlInst::Other(s) => Ok(Inst::Unsupported(s)),
        }
    }

    /// Adds parameters to the table.
    fn params(&self, d: &::koopa::ir::FunctionData, t: &mut Table, hs: &Vec<::koopa::ir::Value>, nb: Ghost<nat>)
        -> (r: Result<Vec<usize>, GenerateAsmError>)
        requires
            old(t).ok(nb@, self.globals@.len() as nat),
        ensures
            final(t).ok(nb@, self.globals@.len() as nat),
            old(t).infos@.len() <= final(t).infos@.len(),
            r matches Ok(x) ==> indices_ok(x@, final(t).infos@.len()),
    {
        let mut out: Vec<usize> = Vec::new();
        let mut i: usize = 0;
        while i < hs.len()
            invariant
                i <= hs@.len(),
                t.ok(nb@, self.globals@.len() as nat),
                old(t).infos@.len() <= t.infos@.len(),
                indices_ok(out@, t.infos@.len()),
            decreases hs.len() - i,
        {
            if t.infos.len() == usize::MAX {
                return Err(GenerateAsmError::Unknown);
            }
            let k = t.push(d, hs[i], Inst::Param, nb, Ghost(self.globals@.len() as nat))?;
            out.push(k);
            i = i + 1;
        }
        Ok(out)
    }

    /// Adds the instructions of a block to the table; their kinds are read
    /// once every block is known.
    fn placeholders(&self, d: &::koopa::ir::FunctionData, t: &mut Table, hs: &Vec<::koopa::ir::Value>, nb: Ghost<nat>)
        -> (r: Result<Vec<usize>, GenerateAsmError>)
        requires
            old(t).ok(nb@, self.globals@.len() as nat),
        ensures
            final(t).ok(nb@, self.globals@.len() as nat),
            old(t).infos@.len() <= final(t).infos@.len(),
            r matches Ok(x) ==> indices_ok(x@, final(t).infos@.len()),
    {
        let mut out: Vec<usize> = Vec::new();
        let mut i: usize = 0;
        while i < hs.len()
            invariant
                i <= hs@.len(),
                t.ok(nb@, self.globals@.len() as nat),
                old(t).infos@.len() <= t.infos@.len(),
                indices_ok(out@, t.infos@.len()),
            decreases hs.len() - i,
        {
            if t.infos.len() == usize::MAX {
                return Err(GenerateAsmError::Unknown);
            }
            let k = t.push(d, hs[i], Inst::Unsupported(String::new()), nb, Ghost(self.globals@.len() as nat))?;
            out.push(k);
            i = i + 1;
        }
        Ok(out)
    }

    /// Reads a function.
    #[verifier::rlimit(40)]
    fn function(&self, d: &::koopa::ir::FunctionData) -> (r: Result<FunctionModel, GenerateAsmError>)
        ensures
            r matches Ok(f) ==> function_ok(f, self.globals@.len() as nat),
    {
        let ghost ng = self.globals@.len() as nat;
        let name = function_name(d);
        let handles = function_blocks(d);
        let nb = Ghost(handles@.len() as nat);
        let mut t = Table { handles: Vec::new(), infos: Vec::new() };
        let ps = function_params(d);
        let params = self.params(d, &mut t, &ps, nb)?;
        let mut blocks: Vec<BlockModel> = Vec::new();
        let mut i: usize = 0;
        while i < handles.len()
            invariant
                i <= handles@.len(),
                nb@ == handles@.len(),
                ng == self.globals@.len(),
                blocks@.len() == i,
                t.ok(nb@, ng),
                indices_ok(params@, t.infos@.len()),
                forall|b: int| 0 <= b < blocks@.len() ==> indices_ok((#[trigger] blocks@[b]).params@, t.infos@.len())
                    && indices_ok(blocks@[b].insts@, t.infos@.len()),
            decreases handles.len() - i,
        {
            let bb = handles[i];
            let bname = block_name(d, bb);
            let bps = block_params(d, bb);
            let bparams = self.params(d, &mut t, &bps, nb)?;
            let bis = block_insts(d, bb);
            let insts = self.placeholders(d, &mut t, &bis, nb)?;
            blocks.push(BlockModel { name: bname, params: bparams, insts });
            i = i + 1;
        }
        let mut b: usize = 0;
        while b < blocks.len()
            invariant
                b <= blocks@.len(),
                nb@ == handles@.len(),
                ng == self.globals@.len(),
                blocks@.len() == handles@.len(),
                t.ok(nb@, ng),
                indices_ok(params@, t.infos@.len()),
                forall|c: int| 0 <= c < blocks@.len() ==> indices_ok((#[trigger] blocks@[c]).params@, t.infos@.len())
                    && indices_ok(blocks@[c].insts@, t.infos@.len()),
            decreases blocks.len() - b,
        {
            let mut k: usize = 0;
            while k < blocks[b].insts.len()
                invariant
                    b < blocks@.len(),
                    k <= blocks@[b as int].insts@.len(),
                    nb@ == handles@.len(),
                    ng == self.globals@.len(),
                    blocks@.len() == handles@.len(),
                    t.ok(nb@, ng),
                    indices_ok(params@, t.infos@.len()),
                    forall|c: int| 0 <= c < blocks@.len() ==> indices_ok((#[trigger] blocks@[c]).params@, t.infos@.len())
                        && indices_ok(blocks@[c].insts@, t.infos@.len()),
                decreases blocks@[b as int].insts@.len() - k,
            {
                let v = blocks[b].insts[k];
                assert(indices_ok(blocks@[b as int].insts@, t.infos@.len()));
                assert(v < t.infos@.len());
                let h = t.handles[v];
                let inst = self.inst(d, &mut t, h, &handles)?;
                let old_info = &t.infos[v];
                let info = ValueInfo {
                    inst,
                    size: old_info.size,
                    is_unit: old_info.is_unit,
                    pointee_size: old_info.pointee_size,
                };
                let ghost before = t.infos@;
                t.infos.set(v, info);
                assert forall|w: int| 0 <= w < t.infos@.len() implies inst_ok((#[trigger] t.infos@[w]).inst,
                    t.infos@.len(), nb@, ng) by {
                    if w != v {
                        assert(t.infos@[w] == before[w]);
                    }
                }
                k = k + 1;
            }
            b = b + 1;
        }
        let f = FunctionModel { name, params, blocks, values: t.infos };
        Ok(f)
    }
}

/// Reads a Koopa program into plain values.
pub fn read_program(p: &::koopa::ir::Program) -> (r: Result<ProgramModel, GenerateAsmError>)
    ensures
        r matches Ok(m) ==> program_ok(m) && m.globals@.map_values(|g: GlobalModel| global_view(g)) == program_globals(*p),
        program_functions(*p).len() == 0 ==> (r matches Ok(m) && m.functions@.len() == 0),
{
    let handles = global_values(p);
    let globals = global_data(p);
    assert(globals@.len() == handles@.len()) by {
        assert(globals@.map_values(|g: GlobalModel| global_view(g)).len() == globals@.len());
    }
    let reader = Reader { program: p, globals: handles };
    let funcs = functions(p);
    let mut out: Vec<FunctionModel> = Vec::new();
    let mut i: usize = 0;
    while i < funcs.len()
        invariant
            i <= funcs@.len(),
            reader.globals@.len() == globals@.len(),
            forall|k: int| 0 <= k < out@.len() ==> function_ok(#[trigger] out@[k], globals@.len() as nat),
            out@.len() <= i,
            funcs@.len() == program_functions(*p).len(),
        decreases funcs.len() - i,
    {
        match function_data(p, funcs[i]) {
            Some(d) => {
                let f = reader.function(d)?;
                out.push(f);
            },
            None => {},
        }
        i = i + 1;
    }
    Ok(ProgramModel { globals, functions: out })
}

} // verus!
