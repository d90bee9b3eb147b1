//! The token sequence that spells each syntax tree node. The parser is
//! proved against these functions: every tree it returns spells exactly the
//! tokens it consumed.
use vstd::prelude::*;
use crate::ast::{
    AddExp, AddOp, Block, BlockItem, CompUnit, CompUnitItem, ConstDef, ConstExp, ConstInitVal, Decl,
    EqExp, EqOp, Exp, FuncDecl, FuncDeclParamType, FuncDef, FuncParam, FuncParamType, FuncType, InitVal,
    LAndExp, LOrExp, LVal, MulExp, MulOp, PrimaryExp, RelExp, RelOp, Stmt, UnaryExp, UnaryOp, VarDef,
};
use crate::lexer::Token;

verus! {

pub open spec fn unary_op_tok(op: UnaryOp) -> Token {
    match op {
        UnaryOp::Plus => Token::Plus,
        UnaryOp::Minus => Token::Minus,
        UnaryOp::Not => Token::Not,
    }
}

pub open spec fn mul_op_tok(op: MulOp) -> Token {
    match op {
        MulOp::Mul => Token::Star,
        MulOp::Div => Token::Slash,
        MulOp::Mod => Token::Percent,
    }
}

pub open spec fn add_op_tok(op: AddOp) -> Token {
    match op {
        AddOp::Add => Token::Plus,
        AddOp::Sub => Token::Minus,
    }
}

pub open spec fn rel_op_tok(op: RelOp) -> Token {
    match op {
        RelOp::Lt => Token::Lt,
        RelOp::Gt => Token::Gt,
        RelOp::Le => Token::Le,
        RelOp::Ge => Token::Ge,
    }
}

pub open spec fn eq_op_tok(op: EqOp) -> Token {
    match op {
        EqOp::Eq => Token::EqEq,
        EqOp::Ne => Token::Ne,
    }
}

pub open spec fn func_type_tok(t: FuncType) -> Token {
    match t {
        FuncType::Int => Token::KwInt,
        FuncType::Void => Token::KwVoid,
    }
}

pub open spec fn tok_exp(e: Exp) -> Seq<Token>
    decreases e,
{
    tok_lor(e.l_or_exp)
}

pub open spec fn tok_lor(x: LOrExp) -> Seq<Token>
    decreases x,
{
    match x {
        LOrExp::LAndExp(a) => tok_land(a),
        LOrExp::LOrOp(l, r) => tok_lor(*l) + seq![Token::OrOr] + tok_land(r),
    }
}

pub open spec fn tok_land(x: LAndExp) -> Seq<Token>
    decreases x,
{
    match x {
        LAndExp::EqExp(a) => tok_eq(a),
        LAndExp::LAndOp(l, r) => tok_land(*l) + seq![Token::AndAnd] + tok_eq(r),
    }
}

pub open spec fn tok_eq(x: EqExp) -> Seq<Token>
    decreases x,
{
    match x {
        EqExp::RelExp(a) => tok_rel(a),
        EqExp::EqOp(l, op, r) => tok_eq(*l) + seq![eq_op_tok(op)] + tok_rel(r),
    }
}

pub open spec fn tok_rel(x: RelExp) -> Seq<Token>
    decreases x,
{
    match x {
        RelExp::AddExp(a) => tok_add(a),
        RelExp::RelOp(l, op, r) => tok_rel(*l) + seq![rel_op_tok(op)] + tok_add(r),
    }
}

pub open spec fn tok_add(x: AddExp) -> Seq<Token>
    decreases x,
{
    match x {
        AddExp::MulExp(a) => tok_mul(a),
        AddExp::AddOp(l, op, r) => tok_add(*l) + seq![add_op_tok(op)] + tok_mul(r),
    }
}

pub open spec fn tok_mul(x: MulExp) -> Seq<Token>
    decreases x,
{
    match x {
        MulExp::UnaryExp(a) => tok_unary(a),
        MulExp::MulOp(l, op, r) => tok_mul(*l) + seq![mul_op_tok(op)] + tok_unary(r),
    }
}

pub open spec fn tok_unary(x: UnaryExp) -> Seq<Token>
    decreases x,
{
    match x {
        UnaryExp::PrimaryExp(p) => tok_primary(p),
        UnaryExp::UnaryOp(op, u) => seq![unary_op_tok(op)] + tok_unary(*u),
        UnaryExp::FuncCall(id, args) => seq![Token::Ident(id.id), Token::LParen] + tok_args(args@)
            + seq![Token::RParen],
    }
}

/// Comma-separated expressions.
pub open spec fn tok_args(s: Seq<Exp>) -> Seq<Token>
    decreases s,
{
    if s.len() == 0 {
        Seq::empty()
    } else if s.len() == 1 {
        tok_exp(s[0])
    } else {
        tok_args(s.subrange(0, s.len() - 1)) + seq![Token::Comma] + tok_exp(s[s.len() - 1])
    }
}

pub open spec fn tok_primary(x: PrimaryExp) -> Seq<Token>
    decreases x,
{
    match x {
        PrimaryExp::Exp(e) => seq![Token::LParen] + tok_exp(*e) + seq![Token::RParen],
        PrimaryExp::Number(n) => seq![Token::IntLit(n.value)],
        PrimaryExp::LVal(lv) => tok_lval(lv),
    }
}

pub open spec fn tok_lval(lv: LVal) -> Seq<Token>
    decreases lv,
{
    seq![Token::Ident(lv.id.id)] + tok_indices(lv.indices@)
}

/// `[e1][e2]...`
pub open spec fn tok_indices(s: Seq<Exp>) -> Seq<Token>
    decreases s,
{
    if s.len() == 0 {
        Seq::empty()
    } else {
        tok_indices(s.subrange(0, s.len() - 1)) + seq![Token::LBracket] + tok_exp(s[s.len() - 1])
            + seq![Token::RBracket]
    }
}

/// `[c1][c2]...` for constant expressions.
#[verifier::opaque]
pub open spec fn tok_dims(s: Seq<ConstExp>) -> Seq<Token>
    decreases s,
{
    if s.len() == 0 {
        Seq::empty()
    } else {
        tok_dims(s.subrange(0, s.len() - 1)) + seq![Token::LBracket] + tok_exp(s[s.len() - 1].exp)
            + seq![Token::RBracket]
    }
}

pub open spec fn tok_const_init(v: ConstInitVal) -> Seq<Token>
    decreases v,
{
    match v {
        ConstInitVal::Exp(c) => tok_exp(c.exp),
        ConstInitVal::List(l) => seq![Token::LBrace] + tok_const_inits(l@) + seq![Token::RBrace],
    }
}

pub open spec fn tok_const_inits(s: Seq<ConstInitVal>) -> Seq<Token>
    decreases s,
{
    if s.len() == 0 {
        Seq::empty()
    } else if s.len() == 1 {
        tok_const_init(s[0])
    } else {
        tok_const_inits(s.subrange(0, s.len() - 1)) + seq![Token::Comma] + tok_const_init(s[s.len() - 1])
    }
}

pub open spec fn tok_init(v: InitVal) -> Seq<Token>
    decreases v,
{
    match v {
        InitVal::Exp(e) => tok_exp(e),
        InitVal::List(l) => seq![Token::LBrace] + tok_inits(l@) + seq![Token::RBrace],
    }
}

pub open spec fn tok_inits(s: Seq<InitVal>) -> Seq<Token>
    decreases s,
{
    if s.len() == 0 {
        Seq::empty()
    } else if s.len() == 1 {
        tok_init(s[0])
    } else {
        tok_inits(s.subrange(0, s.len() - 1)) + seq![Token::Comma] + tok_init(s[s.len() - 1])
    }
}

#[verifier::opaque]
pub open spec fn tok_const_def(d: ConstDef) -> Seq<Token> {
    seq![Token::Ident(d.id.id)] + tok_dims(d.dimensions@) + seq![Token::Assign] + tok_const_init(d.init)
}

#[verifier::opaque]
pub open spec fn tok_const_defs(s: Seq<ConstDef>) -> Seq<Token>
    decreases s.len(),
{
    if s.len() == 0 {
        Seq::empty()
    } else if s.len() == 1 {
        tok_const_def(s[0])
    } else {
        tok_const_defs(s.subrange(0, s.len() - 1)) + seq![Token::Comma] + tok_const_def(s[s.len() - 1])
    }
}

#[verifier::opaque]
pub open spec fn tok_var_def(d: VarDef) -> Seq<Token> {
    seq![Token::Ident(d.id.id)] + tok_dims(d.dimensions@) + match d.init {
        Some(i) => seq![Token::Assign] + tok_init(i),
        None => Seq::empty(),
    }
}

#[verifier::opaque]
pub open spec fn tok_var_defs(s: Seq<VarDef>) -> Seq<Token>
    decreases s.len(),
{
    if s.len() == 0 {
        Seq::empty()
    } else if s.len() == 1 {
        tok_var_def(s[0])
    } else {
        tok_var_defs(s.subrange(0, s.len() - 1)) + seq![Token::Comma] + tok_var_def(s[s.len() - 1])
    }
}

#[verifier::opaque]
pub open spec fn tok_decl(d: Decl) -> Seq<Token> {
    match d {
        Decl::ConstDecl(c) => seq![Token::KwConst, Token::KwInt] + tok_const_defs(c.const_defs@)
            + seq![Token::Semi],
        Decl::VarDecl(v) => seq![Token::KwInt] + tok_var_defs(v.var_defs@) + seq![Token::Semi],
    }
}

#[verifier::rlimit(60)]
pub open spec fn tok_stmt(s: Stmt) -> Seq<Token>
    decreases s,
{
    match s {
        Stmt::Return(None) => seq![Token::KwReturn, Token::Semi],
        Stmt::Return(Some(e)) => seq![Token::KwReturn] + tok_exp(e) + seq![Token::Semi],
        Stmt::Assign(lv, e) => tok_lval(lv) + seq![Token::Assign] + tok_exp(e) + seq![Token::Semi],
        Stmt::Update(lv, op) => tok_lval(lv) + match op {
            AddOp::Add => seq![Token::PlusPlus, Token::Semi],
            AddOp::Sub => seq![Token::MinusMinus, Token::Semi],
        },
        Stmt::Exp(None) => seq![Token::Semi],
        Stmt::Exp(Some(e)) => tok_exp(e) + seq![Token::Semi],
        Stmt::Block(b) => tok_block(b),
        Stmt::If(c, t, None) => seq![Token::KwIf, Token::LParen] + tok_exp(c) + seq![Token::RParen]
            + tok_stmt(*t),
        Stmt::If(c, t, Some(e)) => seq![Token::KwIf, Token::LParen] + tok_exp(c) + seq![Token::RParen]
            + tok_stmt(*t) + seq![Token::KwElse] + tok_stmt(*e),
        Stmt::Loop { init, cond, inc, body } => seq![Token::KwWhile, Token::LParen] + match cond {
            Some(c) => tok_exp(c),
            None => Seq::empty(),
        } + seq![Token::RParen] + tok_stmt(*body),
        Stmt::Break => seq![Token::KwBreak, Token::Semi],
        Stmt::Continue => seq![Token::KwContinue, Token::Semi],
    }
}

pub open spec fn tok_block(b: Block) -> Seq<Token>
    decreases b,
{
    seq![Token::LBrace] + tok_items(b.items@) + seq![Token::RBrace]
}

pub open spec fn tok_items(s: Seq<BlockItem>) -> Seq<Token>
    decreases s,
{
    if s.len() == 0 {
        Seq::empty()
    } else {
        tok_items(s.subrange(0, s.len() - 1)) + match s[s.len() - 1] {
            BlockItem::Decl(d) => tok_decl(d),
            BlockItem::Stmt(st) => tok_stmt(st),
        }
    }
}

#[verifier::opaque]
pub open spec fn tok_param(p: FuncParam) -> Seq<Token> {
    match p.ty {
        FuncParamType::Scalar(_) => seq![Token::KwInt, Token::Ident(p.id.id)],
        FuncParamType::Array { base, trailing_dimensions } => seq![Token::KwInt, Token::Ident(p.id.id),
            Token::LBracket, Token::RBracket] + tok_dims(trailing_dimensions@),
    }
}

#[verifier::opaque]
pub open spec fn tok_params(s: Seq<FuncParam>) -> Seq<Token>
    decreases s.len(),
{
    if s.len() == 0 {
        Seq::empty()
    } else if s.len() == 1 {
        tok_param(s[0])
    } else {
        tok_params(s.subrange(0, s.len() - 1)) + seq![Token::Comma] + tok_param(s[s.len() - 1])
    }
}

#[verifier::opaque]
pub open spec fn tok_decl_param(p: FuncDeclParamType) -> Seq<Token> {
    match p {
        FuncDeclParamType::Scalar(_) => seq![Token::KwInt],
        FuncDeclParamType::Array { base, trailing_dimensions } => seq![Token::KwInt, Token::LBracket,
            Token::RBracket] + tok_dims(trailing_dimensions@),
    }
}

#[verifier::opaque]
pub open spec fn tok_decl_params(s: Seq<FuncDeclParamType>) -> Seq<Token>
    decreases s.len(),
{
    if s.len() == 0 {
        Seq::empty()
    } else if s.len() == 1 {
        tok_decl_param(s[0])
    } else {
        tok_decl_params(s.subrange(0, s.len() - 1)) + seq![Token::Comma] + tok_decl_param(s[s.len() - 1])
    }
}

#[verifier::opaque]
pub open spec fn tok_func_def(f: FuncDef) -> Seq<Token> {
    seq![func_type_tok(f.func_type), Token::Ident(f.id.id), Token::LParen] + match f.params {
        Some(ps) => tok_params(ps@),
        None => Seq::empty(),
    } + seq![Token::RParen] + tok_block(f.block)
}

#[verifier::opaque]
pub open spec fn tok_func_decl(f: FuncDecl) -> Seq<Token> {
    (if f.is_extern { seq![Token::KwExtern] } else { Seq::empty() }) + seq![func_type_tok(f.func_type),
        Token::Ident(f.id.id), Token::LParen] + tok_decl_params(f.params@) + seq![Token::RParen, Token::Semi]
}

#[verifier::opaque]
pub open spec fn tok_item(i: CompUnitItem) -> Seq<Token> {
    match i {
        CompUnitItem::Decl(d) => tok_decl(d),
        CompUnitItem::FuncDef(f) => tok_func_def(f),
        CompUnitItem::FuncDecl(f) => tok_func_decl(f),
    }
}

#[verifier::opaque]
pub open spec fn tok_unit_items(s: Seq<CompUnitItem>) -> Seq<Token>
    decreases s.len(),
{
    if s.len() == 0 {
        Seq::empty()
    } else {
        tok_unit_items(s.subrange(0, s.len() - 1)) + tok_item(s[s.len() - 1])
    }
}

/// The tokens that spell a whole translation unit.
pub open spec fn tok_comp_unit(c: CompUnit) -> Seq<Token> {
    tok_unit_items(c.items@)
}

} // verus!
