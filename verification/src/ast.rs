//! Abstract syntax tree of SysY programs.
use vstd::prelude::*;

verus! {

/// An identifier as written in the source.
#[derive(Debug)]
pub struct Ident {
    pub id: String,
}

/// A whole translation unit.
#[derive(Debug)]
pub struct CompUnit {
    pub items: Vec<CompUnitItem>,
}

#[derive(Debug)]
pub enum CompUnitItem {
    Decl(Decl),
    FuncDef(FuncDef),
    FuncDecl(FuncDecl),
}

#[derive(Clone, Copy, PartialEq, Eq, Debug)]
pub enum BType {
    Int,
}

#[derive(Clone, Copy, PartialEq, Eq, Debug)]
pub enum FuncType {
    Int,
    Void,
}

#[derive(Debug)]
pub enum Decl {
    ConstDecl(ConstDecl),
    VarDecl(VarDecl),
}

#[derive(Debug)]
pub struct ConstDecl {
    pub b_type: BType,
    pub const_defs: Vec<ConstDef>,
}

#[derive(Debug)]
pub struct ConstDef {
    pub id: Ident,
    pub dimensions: Vec<ConstExp>,
    pub init: ConstInitVal,
}

#[derive(Debug)]
pub enum ConstInitVal {
    Exp(ConstExp),
    List(Vec<ConstInitVal>),
}

#[derive(Debug)]
pub struct VarDecl {
    pub b_type: BType,
    pub var_defs: Vec<VarDef>,
}

#[derive(Debug)]
pub struct VarDef {
    pub id: Ident,
    pub dimensions: Vec<ConstExp>,
    pub init: Option<InitVal>,
}

#[derive(Debug)]
pub enum InitVal {
    Exp(Exp),
    List(Vec<InitVal>),
}

/// A function definition; `params` is `None` for an empty parameter list.
#[derive(Debug)]
pub struct FuncDef {
    pub func_type: FuncType,
    pub id: Ident,
    pub params: Option<Vec<FuncParam>>,
    pub block: Block,
}

#[derive(Debug)]
pub struct FuncParam {
    pub ty: FuncParamType,
    pub id: Ident,
}

/// The type of a named parameter: a scalar, or an array whose first
/// dimension is omitted.
#[derive(Debug)]
pub enum FuncParamType {
    Scalar(BType),
    Array { base: BType, trailing_dimensions: Vec<ConstExp> },
}

/// A function declaration without a body (`extern int f(int[], int);`).
#[derive(Debug)]
pub struct FuncDecl {
    pub is_extern: bool,
    pub func_type: FuncType,
    pub id: Ident,
    pub params: Vec<FuncDeclParamType>,
}

#[derive(Debug)]
pub enum FuncDeclParamType {
    Scalar(BType),
    Array { base: BType, trailing_dimensions: Vec<ConstExp> },
}

#[derive(Debug)]
pub struct Block {
    pub items: Vec<BlockItem>,
}

#[derive(Debug)]
pub enum BlockItem {
    Decl(Decl),
    Stmt(Stmt),
}

#[derive(Debug)]
pub enum Stmt {
    Return(Option<Exp>),
    Assign(LVal, Exp),
    /// `x++` (with `AddOp::Add`) or `x--` (with `AddOp::Sub`).
    Update(LVal, AddOp),
    Exp(Option<Exp>),
    Block(Block),
    If(Exp, Box<Stmt>, Option<Box<Stmt>>),
    Loop { init: Option<Box<Stmt>>, cond: Option<Exp>, inc: Option<Box<Stmt>>, body: Box<Stmt> },
    Break,
    Continue,
}

#[derive(Debug)]
pub struct Exp {
    pub l_or_exp: LOrExp,
}

#[derive(Debug)]
pub struct ConstExp {
    pub exp: Exp,
}

#[derive(Debug)]
pub enum LOrExp {
    LAndExp(LAndExp),
    LOrOp(Box<LOrExp>, LAndExp),
}

#[derive(Debug)]
pub enum LAndExp {
    EqExp(EqExp),
    LAndOp(Box<LAndExp>, EqExp),
}

#[derive(Debug)]
pub enum EqExp {
    RelExp(RelExp),
    EqOp(Box<EqExp>, EqOp, RelExp),
}

#[derive(Debug)]
pub enum RelExp {
    AddExp(AddExp),
    RelOp(Box<RelExp>, RelOp, AddExp),
}

#[derive(Debug)]
pub enum AddExp {
    MulExp(MulExp),
    AddOp(Box<AddExp>, AddOp, MulExp),
}

#[derive(Debug)]
pub enum MulExp {
    UnaryExp(UnaryExp),
    MulOp(Box<MulExp>, MulOp, UnaryExp),
}

#[derive(Debug)]
pub enum UnaryExp {
    PrimaryExp(PrimaryExp),
    UnaryOp(UnaryOp, Box<UnaryExp>),
    FuncCall(Ident, Vec<Exp>),
}

#[derive(Debug)]
pub enum PrimaryExp {
    Exp(Box<Exp>),
    Number(Number),
    LVal(LVal),
}

/// A named object, possibly indexed (`a[i][j]`).
#[derive(Debug)]
pub struct LVal {
    pub id: Ident,
    pub indices: Vec<Exp>,
}

#[derive(Debug)]
pub struct Number {
    pub value: i32,
}

#[derive(Clone, Copy, PartialEq, Eq, Debug)]
pub enum UnaryOp {
    Plus,
    Minus,
    Not,
}

#[derive(Clone, Copy, PartialEq, Eq, Debug)]
pub enum MulOp {
    Mul,
    Div,
    Mod,
}

#[derive(Clone, Copy, PartialEq, Eq, Debug)]
pub enum AddOp {
    Add,
    Sub,
}

#[derive(Clone, Copy, PartialEq, Eq, Debug)]
pub enum RelOp {
    Lt,
    Gt,
    Le,
    Ge,
}

#[derive(Clone, Copy, PartialEq, Eq, Debug)]
pub enum EqOp {
    Eq,
    Ne,
}

/// The Koopa type name of a function's return type.
pub open spec fn func_type_name(t: FuncType) -> Seq<char> {
    match t {
        FuncType::Int => "i32"@,
        FuncType::Void => "void"@,
    }
}

impl FuncType {
    /// The Koopa type name of this return type (`i32` or `void`).
    pub fn koopa_name(&self) -> (s: &'static str)
        ensures
            s@ == func_type_name(*self),
    {
        match self {
            FuncType::Int => "i32",
            FuncType::Void => "void",
        }
    }
}

/// The Koopa instruction name of a multiplicative operator.
pub open spec fn mul_op_name(op: MulOp) -> Seq<char> {
    match op {
        MulOp::Mul => "mul"@,
        MulOp::Div => "div"@,
        MulOp::Mod => "mod"@,
    }
}

impl MulOp {
    /// The Koopa instruction name of this operator.
    pub fn inst_name(&self) -> (s: &'static str)
        ensures
            s@ == mul_op_name(*self),
    {
        match self {
            MulOp::Mul => "mul",
            MulOp::Div => "div",
            MulOp::Mod => "mod",
        }
    }
}

/// The Koopa instruction name of an additive operator.
pub open spec fn add_op_name(op: AddOp) -> Seq<char> {
    match op {
        AddOp::Add => "add"@,
        AddOp::Sub => "sub"@,
    }
}

impl AddOp {
    /// The Koopa instruction name of this operator.
    pub fn inst_name(&self) -> (s: &'static str)
        ensures
            s@ == add_op_name(*self),
    {
        match self {
            AddOp::Add => "add",
            AddOp::Sub => "sub",
        }
    }
}

/// What a relational operator of SysY means on two integers.
pub open spec fn rel_holds(op: RelOp, a: int, b: int) -> bool {
    match op {
        RelOp::Lt => a < b,
        RelOp::Gt => a > b,
        RelOp::Le => a <= b,
        RelOp::Ge => a >= b,
    }
}

/// What an equality operator of SysY means on two integers.
pub open spec fn eq_holds(op: EqOp, a: int, b: int) -> bool {
    match op {
        EqOp::Eq => a == b,
        EqOp::Ne => a != b,
    }
}

/// What a Koopa comparison instruction, named `name`, tests of its two
/// operands (its result is 1 exactly when the test holds); `None` for a
/// name that is not a comparison.
pub open spec fn koopa_compare(name: Seq<char>, a: int, b: int) -> Option<bool> {
    if name == "lt"@ {
        Some(a < b)
    } else if name == "gt"@ {
        Some(a > b)
    } else if name == "le"@ {
        Some(a <= b)
    } else if name == "ge"@ {
        Some(a >= b)
    } else if name == "eq"@ {
        Some(a == b)
    } else if name == "ne"@ {
        Some(a != b)
    } else {
        None
    }
}

/// What an additive operator of SysY computes on two `i32` values: the sum
/// or the difference, wrapped to 32 bits.
pub open spec fn add_value(op: AddOp, a: i32, b: i32) -> i32 {
    match op {
        AddOp::Add => a.wrapping_add(b),
        AddOp::Sub => a.wrapping_sub(b),
    }
}

/// What a multiplicative operator of SysY computes on two `i32` values: the
/// product wrapped to 32 bits, or the quotient or remainder of division
/// rounded toward zero (`None` for a zero divisor or an overflowing
/// quotient).
pub open spec fn mul_value(op: MulOp, a: i32, b: i32) -> Option<i32> {
    match op {
        MulOp::Mul => Some(a.wrapping_mul(b)),
        MulOp::Div => a.checked_div(b),
        MulOp::Mod => a.checked_rem(b),
    }
}

/// What a Koopa arithmetic or bitwise instruction, named `name`, computes
/// on two `i32` values; `None` for another name or where it is undefined.
pub open spec fn koopa_arith(name: Seq<char>, a: i32, b: i32) -> Option<i32> {
    if name == "add"@ {
        Some(a.wrapping_add(b))
    } else if name == "sub"@ {
        Some(a.wrapping_sub(b))
    } else if name == "mul"@ {
        Some(a.wrapping_mul(b))
    } else if name == "div"@ {
        a.checked_div(b)
    } else if name == "mod"@ {
        a.checked_rem(b)
    } else if name == "and"@ {
        Some(a & b)
    } else if name == "or"@ {
        Some(a | b)
    } else if name == "xor"@ {
        Some(a ^ b)
    } else {
        None
    }
}

/// The names of the Koopa arithmetic instructions are different words.
proof fn lemma_arith_names()
    ensures
        "add"@ != "sub"@, "add"@ != "mul"@, "add"@ != "div"@, "add"@ != "mod"@,
        "sub"@ != "mul"@, "sub"@ != "div"@, "sub"@ != "mod"@,
        "mul"@ != "div"@, "mul"@ != "mod"@,
        "div"@ != "mod"@,
{
    reveal_strlit("add");
    reveal_strlit("sub");
    reveal_strlit("mul");
    reveal_strlit("div");
    reveal_strlit("mod");
    assert("add"@[0] != "sub"@[0] && "add"@[0] != "mul"@[0] && "add"@[0] != "div"@[0] && "add"@[0] != "mod"@[0]);
    assert("sub"@[0] != "mul"@[0] && "sub"@[0] != "div"@[0] && "sub"@[0] != "mod"@[0]);
    assert("mul"@[0] != "div"@[0] && "mul"@[1] != "mod"@[1]);
    assert("div"@[0] != "mod"@[0]);
}

/// An additive operator is lowered to the Koopa instruction that computes
/// the same value on all operands.
pub proof fn law_add_op_name(op: AddOp, a: i32, b: i32)
    ensures
        koopa_arith(add_op_name(op), a, b) == Some(add_value(op, a, b)),
{
    lemma_arith_names();
}

/// A multiplicative operator is lowered to the Koopa instruction that
/// computes the same value on all operands.
pub proof fn law_mul_op_name(op: MulOp, a: i32, b: i32)
    ensures
        koopa_arith(mul_op_name(op), a, b) == mul_value(op, a, b),
{
    lemma_arith_names();
}

/// The names of the Koopa comparisons are six different words.
proof fn lemma_compare_names()
    ensures
        "lt"@ != "gt"@, "lt"@ != "le"@, "lt"@ != "ge"@, "lt"@ != "eq"@, "lt"@ != "ne"@,
        "gt"@ != "le"@, "gt"@ != "ge"@, "gt"@ != "eq"@, "gt"@ != "ne"@,
        "le"@ != "ge"@, "le"@ != "eq"@, "le"@ != "ne"@,
        "ge"@ != "eq"@, "ge"@ != "ne"@,
        "eq"@ != "ne"@,
{
    reveal_strlit("lt");
    reveal_strlit("gt");
    reveal_strlit("le");
    reveal_strlit("ge");
    reveal_strlit("eq");
    reveal_strlit("ne");
    assert("lt"@[0] != "gt"@[0] && "lt"@[1] != "le"@[1] && "lt"@[0] != "ge"@[0] && "lt"@[0] != "eq"@[0]
        && "lt"@[0] != "ne"@[0]);
    assert("gt"@[0] != "le"@[0] && "gt"@[1] != "ge"@[1] && "gt"@[0] != "eq"@[0] && "gt"@[0] != "ne"@[0]);
    assert("le"@[0] != "ge"@[0] && "le"@[1] != "eq"@[1] && "le"@[0] != "ne"@[0]);
    assert("ge"@[0] != "eq"@[0] && "ge"@[0] != "ne"@[0]);
    assert("eq"@[0] != "ne"@[0]);
}

/// A relational operator is lowered to the Koopa comparison that tests the
/// same relation: for all operands the instruction's result is 1 exactly
/// when the operator holds.
pub proof fn law_rel_op_name(op: RelOp, a: int, b: int)
    ensures
        koopa_compare(rel_op_name(op), a, b) == Some(rel_holds(op, a, b)),
{
    lemma_compare_names();
}

/// An equality operator is lowered to the Koopa comparison that tests the
/// same relation.
pub proof fn law_eq_op_name(op: EqOp, a: int, b: int)
    ensures
        koopa_compare(eq_op_name(op), a, b) == Some(eq_holds(op, a, b)),
{
    lemma_compare_names();
}

/// The Koopa instruction name of a relational operator.
pub open spec fn rel_op_name(op: RelOp) -> Seq<char> {
    match op {
        RelOp::Lt => "lt"@,
        RelOp::Gt => "gt"@,
        RelOp::Le => "le"@,
        RelOp::Ge => "ge"@,
    }
}

impl RelOp {
    /// The Koopa instruction name of this operator.
    pub fn inst_name(&self) -> (s: &'static str)
        ensures
            s@ == rel_op_name(*self),
    {
        match self {
            RelOp::Lt => "lt",
            RelOp::Gt => "gt",
            RelOp::Le => "le",
            RelOp::Ge => "ge",
        }
    }
}

/// The Koopa instruction name of an equality operator.
pub open spec fn eq_op_name(op: EqOp) -> Seq<char> {
    match op {
        EqOp::Eq => "eq"@,
        EqOp::Ne => "ne"@,
    }
}

impl EqOp {
    /// The Koopa instruction name of this operator.
    pub fn inst_name(&self) -> (s: &'static str)
        ensures
            s@ == eq_op_name(*self),
    {
        match self {
            EqOp::Eq => "eq",
            EqOp::Ne => "ne",
        }
    }
}

} // verus!
