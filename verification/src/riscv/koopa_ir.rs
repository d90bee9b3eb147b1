//! Access to programs of the `koopa` crate: each function here makes one
//! call into the crate and converts its result to plain values.
use vstd::prelude::*;
use ::koopa::ir::Type as KoopaType;
use crate::ast::CompUnitItem;
use crate::ir::error::ErrView;
use crate::ir::generate::unit_spec::lower_unit;
use super::program::GlobalModel;

verus! {

#[verifier::external_type_specification]
#[verifier::external_body]
pub struct ExProgram(::koopa::ir::Program);

#[verifier::external_type_specification]
#[verifier::external_body]
pub struct ExValue(::koopa::ir::Value);

#[verifier::external_type_specification]
#[verifier::external_body]
pub struct ExBasicBlock(::koopa::ir::BasicBlock);

#[verifier::external_type_specification]
#[verifier::external_body]
pub struct ExFunction(::koopa::ir::Function);

#[verifier::external_type_specification]
#[verifier::external_body]
pub struct ExFunctionData(::koopa::ir::FunctionData);

#[verifier::external_type_specification]
#[verifier::external_body]
pub struct ExValueKind(::koopa::ir::ValueKind);

#[verifier::external_type_specification]
#[verifier::external_body]
pub struct ExSpanError(::koopa::front::span::Error);

#[verifier::external_type_specification]
#[verifier::external_body]
pub struct ExType(KoopaType);

/// How a global allocation is initialized.
pub enum GlobalInit {
    /// The value is not a global allocation.
    NotAlloc,
    Integer(i32),
    Zero,
    /// Any other initializer, such as an aggregate.
    Other,
}

/// The instructions that read or write memory, and integer constants.
pub enum MemInst {
    Integer(i32),
    Alloc,
    Load(::koopa::ir::Value),
    Store(::koopa::ir::Value, ::koopa::ir::Value),
    GetPtr(::koopa::ir::Value, ::koopa::ir::Value),
    GetElemPtr(::koopa::ir::Value, ::koopa::ir::Value),
    /// Any other kind of value.
    Other,
}

/// Computation and control-flow instructions; a binary operator is given
/// by its Koopa mnemonic (`add`, `lt`, ...).
pub enum ControlInst {
    Binary(String, ::koopa::ir::Value, ::koopa::ir::Value),
    /// A conditional branch, read with `branch_inst`.
    Branch,
    Jump(::koopa::ir::BasicBlock, Vec<::koopa::ir::Value>),
    Call(::koopa::ir::Function, Vec<::koopa::ir::Value>),
    Return(Option<::koopa::ir::Value>),
    /// Any other kind of value, in its debug form.
    Other(String),
}

/// The shape of a Koopa type, as far as its size depends on it.
pub enum TypeShape {
    Int32,
    Unit,
    Array(Box<TypeShape>, usize),
    Pointer(Box<TypeShape>),
    Function,
}

/// Text that lowering some SysY compilation unit gives. Its arrays have
/// positive lengths, each of its functions consists of labelled blocks that
/// end in a jump, a branch or a return to blocks it defines, and each call
/// passes as many arguments as the callee's declaration names.
pub open spec fn lowered(s: Seq<char>) -> bool {
    exists|items: Seq<CompUnitItem>| lower_unit(items) == Ok::<Seq<char>, ErrView>(s)
}

/// What parsing Koopa text gives: `None` when it fails, else the global
/// values (by name and initializer) and the function names of the program.
pub uninterp spec fn koopa_parse(s: Seq<char>) -> Option<(Seq<(Option<Seq<char>>, GlobalInit)>, Seq<Seq<char>>)>;

/// Parses Koopa IR text (`::koopa::front::Driver::generate_program`). The
/// Koopa builder panics on some texts that parse: an array of length zero
/// (`Type::get_array`), a jump to a block that is not defined
/// (`init_local_bbs`), a call whose argument count differs from the
/// callee's (`Builder::call`); the text is therefore one that lowering
/// produced, which has none of these. Nothing is stated of the result.
#[verifier::external_body]
pub(crate) fn parse_program(source: &str) -> (r: Result<::koopa::ir::Program, ::koopa::front::span::Error>)
    requires
        lowered(source@),
    ensures
        match koopa_parse(source@) {
            None => r is Err,
            Some((gs, fs)) => r matches Ok(p) && program_globals(p) == gs && program_functions(p) == fs,
        },
{
    ::koopa::front::Driver::from(source).generate_program()
}

/// What the global values of a program hold, in layout order: each one's
/// name and initializer.
pub uninterp spec fn program_globals(p: ::koopa::ir::Program) -> Seq<(Option<Seq<char>>, GlobalInit)>;

/// A name as plain text.
pub open spec fn name_view(n: Option<String>) -> Option<Seq<char>> {
    match n {
        Some(s) => Some(s@),
        None => None,
    }
}

/// A global value as plain values.
pub open spec fn global_view(g: GlobalModel) -> (Option<Seq<char>>, GlobalInit) {
    (name_view(g.name), g.init)
}

/// The global value handles of a program, in order
/// (`::koopa::ir::Program::inst_layout`).
#[verifier::external_body]
pub(crate) fn global_values(p: &::koopa::ir::Program) -> (r: Vec<::koopa::ir::Value>)
    ensures
        r@.len() == program_globals(*p).len(),
{
    p.inst_layout().to_vec()
}

/// The name (`ValueData::name`) and initializer (`GlobalAlloc::init`) of
/// each global value, in order; a value that is not a global allocation
/// reads as `NotAlloc`.
#[verifier::external_body]
pub(crate) fn global_data(p: &::koopa::ir::Program) -> (r: Vec<GlobalModel>)
    ensures
        r@.map_values(|g: GlobalModel| global_view(g)) == program_globals(*p),
{
    let values = p.borrow_values();
    let init_of = |v: ::koopa::ir::Value| match values.get(&v).map(|d| d.kind()) {
        Some(::koopa::ir::ValueKind::Integer(i)) => GlobalInit::Integer(i.value()),
        Some(::koopa::ir::ValueKind::ZeroInit(_)) => GlobalInit::Zero,
        _ => GlobalInit::Other,
    };
    p.inst_layout().iter().map(|v| match values.get(v) {
        Some(d) => GlobalModel { name: d.name().clone(), init: match d.kind() {
            ::koopa::ir::ValueKind::GlobalAlloc(a) => init_of(a.init()),
            _ => GlobalInit::NotAlloc,
        } },
        None => GlobalModel { name: None, init: GlobalInit::NotAlloc },
    }).collect()
}

/// What the function layout of a program holds: the functions, by name, in
/// layout order.
pub uninterp spec fn program_functions(p: ::koopa::ir::Program) -> Seq<Seq<char>>;

/// The function handles of a program, in order
/// (`::koopa::ir::Program::func_layout`).
#[verifier::external_body]
pub(crate) fn functions(p: &::koopa::ir::Program) -> (r: Vec<::koopa::ir::Function>)
    ensures
        r@.len() == program_functions(*p).len(),
{
    p.func_layout().to_vec()
}

/// The data of a function (`::koopa::ir::Program::funcs`), `None` when `p` has no such
/// function.
#[verifier::external_body]
pub(crate) fn function_data(p: &::koopa::ir::Program, f: ::koopa::ir::Function) -> Option<&::koopa::ir::FunctionData> {
    p.funcs().get(&f)
}

/// The name of a function, with its `@` (`::koopa::ir::FunctionData::name`).
#[verifier::external_body]
pub(crate) fn function_name(d: &::koopa::ir::FunctionData) -> String {
    d.name().to_string()
}

/// The parameters of a function (`::koopa::ir::FunctionData::params`).
#[verifier::external_body]
pub(crate) fn function_params(d: &::koopa::ir::FunctionData) -> Vec<::koopa::ir::Value> {
    d.params().to_vec()
}

/// The basic blocks of a function in layout order, the entry first; none
/// for a declaration (`Layout::bbs`).
#[verifier::external_body]
pub(crate) fn function_blocks(d: &::koopa::ir::FunctionData) -> Vec<::koopa::ir::BasicBlock> {
    d.layout().bbs().keys().copied().collect()
}

/// The name of a basic block (`BasicBlockData::name`).
#[verifier::external_body]
pub(crate) fn block_name(d: &::koopa::ir::FunctionData, bb: ::koopa::ir::BasicBlock) -> Option<String> {
    match d.dfg().bbs().get(&bb) {
        Some(data) => data.name().clone(),
        None => None,
    }
}

/// The parameters of a basic block (`BasicBlockData::params`).
#[verifier::external_body]
pub(crate) fn block_params(d: &::koopa::ir::FunctionData, bb: ::koopa::ir::BasicBlock) -> Vec<::koopa::ir::Value> {
    match d.dfg().bbs().get(&bb) {
        Some(data) => data.params().to_vec(),
        None => Vec::new(),
    }
}

/// The instructions of a basic block in order (`BasicBlockNode::insts`).
#[verifier::external_body]
pub(crate) fn block_insts(d: &::koopa::ir::FunctionData, bb: ::koopa::ir::BasicBlock) -> Vec<::koopa::ir::Value> {
    match d.layout().bbs().node(&bb) {
        Some(node) => node.insts().keys().copied().collect(),
        None => Vec::new(),
    }
}

/// The kind of a local value (`ValueData::kind`), `None` when the value
/// is not in the function.
#[verifier::external_body]
pub(crate) fn value_kind(d: &::koopa::ir::FunctionData, v: ::koopa::ir::Value) -> Option<&::koopa::ir::ValueKind> {
    d.dfg().values().get(&v).map(|data| data.kind())
}

/// A value kind seen as a memory instruction or constant.
#[verifier::external_body]
pub(crate) fn memory_inst(k: &::koopa::ir::ValueKind) -> MemInst {
    match k {
        ::koopa::ir::ValueKind::Integer(i) => MemInst::Integer(i.value()),
        ::koopa::ir::ValueKind::Alloc(_) => MemInst::Alloc,
        ::koopa::ir::ValueKind::Load(l) => MemInst::Load(l.src()),
        ::koopa::ir::ValueKind::Store(s) => MemInst::Store(s.value(), s.dest()),
        ::koopa::ir::ValueKind::GetPtr(g) => MemInst::GetPtr(g.src(), g.index()),
        ::koopa::ir::ValueKind::GetElemPtr(g) => MemInst::GetElemPtr(g.src(), g.index()),
        _ => MemInst::Other,
    }
}

/// A value kind seen as a computation or control-flow instruction.
#[verifier::external_body]
pub(crate) fn control_inst(k: &::koopa::ir::ValueKind) -> ControlInst {
    match k {
        ::koopa::ir::ValueKind::Binary(b) => ControlInst::Binary(b.op().to_string(), b.lhs(), b.rhs()),
        ::koopa::ir::ValueKind::Branch(_) => ControlInst::Branch,
        ::koopa::ir::ValueKind::Jump(j) => ControlInst::Jump(j.target(), j.args().to_vec()),
        ::koopa::ir::ValueKind::Call(c) => ControlInst::Call(c.callee(), c.args().to_vec()),
        ::koopa::ir::ValueKind::Return(r) => ControlInst::Return(r.value()),
        kind => ControlInst::Other(format!("{kind:?}")),
    }
}

/// A conditional branch: its condition, and each target with its
/// arguments (`values::Branch`).
pub struct BranchInst {
    pub cond: ::koopa::ir::Value,
    pub true_bb: ::koopa::ir::BasicBlock,
    pub true_args: Vec<::koopa::ir::Value>,
    pub false_bb: ::koopa::ir::BasicBlock,
    pub false_args: Vec<::koopa::ir::Value>,
}

/// A value kind seen as a conditional branch.
#[verifier::external_body]
pub(crate) fn branch_inst(k: &::koopa::ir::ValueKind) -> Option<BranchInst> {
    match k {
        ::koopa::ir::ValueKind::Branch(b) => Some(BranchInst {
            cond: b.cond(),
            true_bb: b.true_bb(),
            true_args: b.true_args().to_vec(),
            false_bb: b.false_bb(),
            false_args: b.false_args().to_vec(),
        }),
        _ => None,
    }
}

/// The type of a local value (`ValueData::ty`), `None` when `v` is not a
/// value of `d`.
#[verifier::external_body]
pub(crate) fn value_type(d: &::koopa::ir::FunctionData, v: ::koopa::ir::Value) -> Option<KoopaType> {
    Some(d.dfg().values().get(&v)?.ty().clone())
}

/// The shape of a type (`::koopa::ir::Type::kind`), converted at every
/// level.
#[verifier::external_body]
pub(crate) fn type_shape(ty: &KoopaType) -> TypeShape {
    match ty.kind() {
        ::koopa::ir::TypeKind::Int32 => TypeShape::Int32,
        ::koopa::ir::TypeKind::Unit => TypeShape::Unit,
        ::koopa::ir::TypeKind::Array(base, len) => TypeShape::Array(Box::new(type_shape(base)), *len),
        ::koopa::ir::TypeKind::Pointer(base) => TypeShape::Pointer(Box::new(type_shape(base))),
        ::koopa::ir::TypeKind::Function(..) => TypeShape::Function,
    }
}

/// The size of pointers on the target machine, as Koopa sizes pointer
/// types (`::koopa::ir::Type::size` of a pointer type).
#[verifier::external_body]
pub(crate) fn pointer_size() -> usize {
    KoopaType::get_pointer(KoopaType::get_i32()).size()
}

/// Whether a value handle is a global one (`::koopa::ir::Value::is_global`).
#[verifier::external_body]
pub(crate) fn is_global(v: ::koopa::ir::Value) -> bool {
    v.is_global()
}

/// Whether two value handles are the same handle (`::koopa::ir::Value` equality).
#[verifier::external_body]
pub(crate) fn same_value(a: ::koopa::ir::Value, b: ::koopa::ir::Value) -> (r: bool)
    ensures
        r == (a == b),
{
    a == b
}

/// Whether two basic block handles are the same (`::koopa::ir::BasicBlock` equality).
#[verifier::external_body]
pub(crate) fn same_block(a: ::koopa::ir::BasicBlock, b: ::koopa::ir::BasicBlock) -> (r: bool)
    ensures
        r == (a == b),
{
    a == b
}

} // verus!
