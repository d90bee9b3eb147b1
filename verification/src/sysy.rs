//! Recursive-descent parser for SysY. Every syntax tree it returns is proved
//! to spell exactly the tokens of the input (see `render`).
use vstd::prelude::*;
use crate::ast::{
    AddExp, AddOp, BType, Block, BlockItem, CompUnit, CompUnitItem, ConstDecl, ConstDef, ConstExp,
    ConstInitVal, Decl, EqExp, EqOp, Exp, FuncDecl, FuncDeclParamType, FuncDef, FuncParam,
    FuncParamType, FuncType, Ident, InitVal, LAndExp, LOrExp, LVal, MulExp, MulOp, Number, PrimaryExp,
    RelExp, RelOp, Stmt, UnaryExp, UnaryOp, VarDecl, VarDef,
};
use crate::lexer::{chars_of, lex, lexed_from, LexError, Token};
use crate::render::{
    add_op_tok, eq_op_tok, func_type_tok, mul_op_tok, rel_op_tok, tok_add, tok_args, tok_block,
    tok_comp_unit, tok_const_def, tok_const_defs, tok_const_init, tok_const_inits, tok_decl,
    tok_decl_param, tok_decl_params, tok_dims, tok_eq, tok_exp, tok_func_decl, tok_func_def,
    tok_indices, tok_init, tok_inits, tok_item, tok_items, tok_land, tok_lor, tok_lval, tok_mul,
    tok_param, tok_params, tok_primary, tok_rel, tok_stmt, tok_unary, tok_unit_items, tok_var_def,
    tok_var_defs, unary_op_tok,
};

verus! {

/// Why a source text is not a SysY program.
#[derive(Debug, PartialEq, Eq)]
pub enum ParseError {
    /// The text could not be split into tokens.
    Lex(LexError),
    /// The token at this index does not fit the grammar.
    UnexpectedToken(usize),
    /// The tokens ended where more were needed.
    UnexpectedEnd,
}

/// The kind of a token, without its payload.
#[derive(Clone, Copy, PartialEq, Eq, Structural)]
pub enum Kind {
    KwInt, KwVoid, KwConst, KwIf, KwElse, KwWhile, KwBreak, KwContinue, KwReturn, KwExtern,
    Ident, IntLit, LParen, RParen, LBrace, RBrace, LBracket, RBracket, Comma, Semi, Assign,
    Plus, Minus, Star, Slash, Percent, Not, Lt, Gt, Le, Ge, EqEq, Ne, AndAnd, OrOr, PlusPlus,
    MinusMinus, End,
}

pub open spec fn kind_of(t: Token) -> Kind {
    match t {
        Token::KwInt => Kind::KwInt,
        Token::KwVoid => Kind::KwVoid,
        Token::KwConst => Kind::KwConst,
        Token::KwIf => Kind::KwIf,
        Token::KwElse => Kind::KwElse,
        Token::KwWhile => Kind::KwWhile,
        Token::KwBreak => Kind::KwBreak,
        Token::KwContinue => Kind::KwContinue,
        Token::KwReturn => Kind::KwReturn,
        Token::KwExtern => Kind::KwExtern,
        Token::Ident(_) => Kind::Ident,
        Token::IntLit(_) => Kind::IntLit,
        Token::LParen => Kind::LParen,
        Token::RParen => Kind::RParen,
        Token::LBrace => Kind::LBrace,
        Token::RBrace => Kind::RBrace,
        Token::LBracket => Kind::LBracket,
        Token::RBracket => Kind::RBracket,
        Token::Comma => Kind::Comma,
        Token::Semi => Kind::Semi,
        Token::Assign => Kind::Assign,
        Token::Plus => Kind::Plus,
        Token::Minus => Kind::Minus,
        Token::Star => Kind::Star,
        Token::Slash => Kind::Slash,
        Token::Percent => Kind::Percent,
        Token::Not => Kind::Not,
        Token::Lt => Kind::Lt,
        Token::Gt => Kind::Gt,
        Token::Le => Kind::Le,
        Token::Ge => Kind::Ge,
        Token::EqEq => Kind::EqEq,
        Token::Ne => Kind::Ne,
        Token::AndAnd => Kind::AndAnd,
        Token::OrOr => Kind::OrOr,
        Token::PlusPlus => Kind::PlusPlus,
        Token::MinusMinus => Kind::MinusMinus,
    }
}

/// The token of a payload-free kind.
pub open spec fn tok_of_kind(k: Kind) -> Token {
    match k {
        Kind::KwInt => Token::KwInt,
        Kind::KwVoid => Token::KwVoid,
        Kind::KwConst => Token::KwConst,
        Kind::KwIf => Token::KwIf,
        Kind::KwElse => Token::KwElse,
        Kind::KwWhile => Token::KwWhile,
        Kind::KwBreak => Token::KwBreak,
        Kind::KwContinue => Token::KwContinue,
        Kind::KwReturn => Token::KwReturn,
        Kind::KwExtern => Token::KwExtern,
        Kind::LParen => Token::LParen,
        Kind::RParen => Token::RParen,
        Kind::LBrace => Token::LBrace,
        Kind::RBrace => Token::RBrace,
        Kind::LBracket => Token::LBracket,
        Kind::RBracket => Token::RBracket,
        Kind::Comma => Token::Comma,
        Kind::Semi => Token::Semi,
        Kind::Assign => Token::Assign,
        Kind::Plus => Token::Plus,
        Kind::Minus => Token::Minus,
        Kind::Star => Token::Star,
        Kind::Slash => Token::Slash,
        Kind::Percent => Token::Percent,
        Kind::Not => Token::Not,
        Kind::Lt => Token::Lt,
        Kind::Gt => Token::Gt,
        Kind::Le => Token::Le,
        Kind::Ge => Token::Ge,
        Kind::EqEq => Token::EqEq,
        Kind::Ne => Token::Ne,
        Kind::AndAnd => Token::AndAnd,
        Kind::OrOr => Token::OrOr,
        Kind::PlusPlus => Token::PlusPlus,
        Kind::MinusMinus => Token::MinusMinus,
        _ => Token::Semi,
    }
}

/// The kind of the token at `pos`, or `End` past the last token.
pub open spec fn peek_spec(t: Seq<Token>, pos: int) -> Kind {
    if 0 <= pos < t.len() { kind_of(t[pos]) } else { Kind::End }
}

/// The kinds of the relational operators.
pub open spec fn rel_kind(k: Kind) -> bool {
    k == Kind::Lt || k == Kind::Gt || k == Kind::Le || k == Kind::Ge
}

/// The kinds of the equality operators.
pub open spec fn eq_kind(k: Kind) -> bool {
    k == Kind::EqEq || k == Kind::Ne
}

/// The kinds of the additive operators.
pub open spec fn add_kind(k: Kind) -> bool {
    k == Kind::Plus || k == Kind::Minus
}

/// The kinds of the multiplicative operators.
pub open spec fn mul_kind(k: Kind) -> bool {
    k == Kind::Star || k == Kind::Slash || k == Kind::Percent
}

pub open spec fn plain_kind(k: Kind) -> bool {
    k != Kind::Ident && k != Kind::IntLit && k != Kind::End
}

/// The kind of the token at `pos`, or `End` past the last token.
fn peek(t: &Vec<Token>, pos: usize) -> (k: Kind)
    ensures
        pos < t.len() ==> k == kind_of(t@[pos as int]),
        pos < t.len() && plain_kind(k) ==> t@[pos as int] == tok_of_kind(k),
        pos >= t.len() <==> k == Kind::End,
        k == peek_spec(t@, pos as int),
{
    if pos >= t.len() {
        return Kind::End;
    }
    match &t[pos] {
        Token::KwInt => Kind::KwInt,
        Token::KwVoid => Kind::KwVoid,
        Token::KwConst => Kind::KwConst,
        Token::KwIf => Kind::KwIf,
        Token::KwElse => Kind::KwElse,
        Token::KwWhile => Kind::KwWhile,
        Token::KwBreak => Kind::KwBreak,
        Token::KwContinue => Kind::KwContinue,
        Token::KwReturn => Kind::KwReturn,
        Token::KwExtern => Kind::KwExtern,
        Token::Ident(_) => Kind::Ident,
        Token::IntLit(_) => Kind::IntLit,
        Token::LParen => Kind::LParen,
        Token::RParen => Kind::RParen,
        Token::LBrace => Kind::LBrace,
        Token::RBrace => Kind::RBrace,
        Token::LBracket => Kind::LBracket,
        Token::RBracket => Kind::RBracket,
        Token::Comma => Kind::Comma,
        Token::Semi => Kind::Semi,
        Token::Assign => Kind::Assign,
        Token::Plus => Kind::Plus,
        Token::Minus => Kind::Minus,
        Token::Star => Kind::Star,
        Token::Slash => Kind::Slash,
        Token::Percent => Kind::Percent,
        Token::Not => Kind::Not,
        Token::Lt => Kind::Lt,
        Token::Gt => Kind::Gt,
        Token::Le => Kind::Le,
        Token::Ge => Kind::Ge,
        Token::EqEq => Kind::EqEq,
        Token::Ne => Kind::Ne,
        Token::AndAnd => Kind::AndAnd,
        Token::OrOr => Kind::OrOr,
        Token::PlusPlus => Kind::PlusPlus,
        Token::MinusMinus => Kind::MinusMinus,
    }
}

/// Consumes a token of kind `k` at `pos`.
fn expect(t: &Vec<Token>, pos: usize, k: Kind) -> (r: Result<usize, ParseError>)
    requires
        plain_kind(k),
    ensures
        r matches Ok(p) ==> pos < t.len() && p == pos + 1 && t@[pos as int] == tok_of_kind(k),
{
    let got = peek(t, pos);
    if got == k {
        Ok(pos + 1)
    } else if got == Kind::End {
        Err(ParseError::UnexpectedEnd)
    } else {
        Err(ParseError::UnexpectedToken(pos))
    }
}

/// The name carried by the identifier token at `pos`.
fn ident_at(t: &Vec<Token>, pos: usize) -> (id: Ident)
    requires
        pos < t.len(),
        kind_of(t@[pos as int]) == Kind::Ident,
    ensures
        t@[pos as int] == Token::Ident(id.id),
{
    match &t[pos] {
        Token::Ident(s) => Ident { id: s.clone() },
        _ => {
            proof {
                assert(false);
            }
            Ident { id: String::new() }
        },
    }
}

/// Consumes an identifier token at `pos`.
fn expect_ident(t: &Vec<Token>, pos: usize) -> (r: Result<(Ident, usize), ParseError>)
    ensures
        r matches Ok((id, p)) ==> pos < t.len() && p == pos + 1 && t@[pos as int] == Token::Ident(id.id),
{
    let k = peek(t, pos);
    if k == Kind::Ident {
        Ok((ident_at(t, pos), pos + 1))
    } else if k == Kind::End {
        Err(ParseError::UnexpectedEnd)
    } else {
        Err(ParseError::UnexpectedToken(pos))
    }
}

proof fn lemma_split3(s: Seq<Token>, a: int, b: int, c: int)
    requires
        0 <= a <= b < c <= s.len(),
    ensures
        s.subrange(a, c) == s.subrange(a, b) + seq![s[b]] + s.subrange(b + 1, c),
{
    assert(s.subrange(a, c) =~= s.subrange(a, b) + seq![s[b]] + s.subrange(b + 1, c));
}

proof fn lemma_split2(s: Seq<Token>, a: int, b: int, c: int)
    requires
        0 <= a <= b <= c <= s.len(),
    ensures
        s.subrange(a, c) == s.subrange(a, b) + s.subrange(b, c),
{
    assert(s.subrange(a, c) =~= s.subrange(a, b) + s.subrange(b, c));
}

proof fn lemma_split_wrapped(s: Seq<Token>, a: int, b: int, c: int)
    requires
        0 <= a <= b < c < s.len(),
    ensures
        s.subrange(a, c + 1) == s.subrange(a, b) + (seq![s[b]] + s.subrange(b + 1, c) + seq![s[c]]),
{
    assert(s.subrange(a, c + 1) =~= s.subrange(a, b) + (seq![s[b]] + s.subrange(b + 1, c) + seq![s[c]]));
}

proof fn lemma_extend_wrapped(s: Seq<Token>, a: int, p: int, q: int, x: Seq<Token>, y: Seq<Token>, open: Token, close: Token)
    requires
        0 <= a <= p < q < s.len(),
        s.subrange(a, p) == x,
        s[p] == open,
        s.subrange(p + 1, q) == y,
        s[q] == close,
    ensures
        s.subrange(a, q + 1) == x + (seq![open] + y + seq![close]),
{
    assert(s.subrange(a, q + 1) =~= s.subrange(a, p) + (seq![s[p]] + s.subrange(p + 1, q) + seq![s[q]]));
}

proof fn lemma_extend_sep(s: Seq<Token>, a: int, p: int, q: int, x: Seq<Token>, y: Seq<Token>, sep: Token)
    requires
        0 <= a <= p < q <= s.len(),
        s.subrange(a, p) == x,
        s[p] == sep,
        s.subrange(p + 1, q) == y,
    ensures
        s.subrange(a, q) == x + seq![sep] + y,
{
    assert(s.subrange(a, q) =~= s.subrange(a, p) + seq![s[p]] + s.subrange(p + 1, q));
}

proof fn lemma_concat(s: Seq<Token>, a: int, b: int, c: int, x: Seq<Token>, y: Seq<Token>)
    requires
        0 <= a <= b <= c <= s.len(),
        s.subrange(a, b) == x,
        s.subrange(b, c) == y,
    ensures
        s.subrange(a, c) == x + y,
{
    assert(s.subrange(a, c) =~= s.subrange(a, b) + s.subrange(b, c));
}

proof fn lemma_assoc(x: Seq<Token>, y: Seq<Token>, z: Seq<Token>)
    ensures
        x + y + z == x + (y + z),
{
    assert(x + y + z =~= x + (y + z));
}

proof fn lemma_one(s: Seq<Token>, a: int)
    requires
        0 <= a < s.len(),
    ensures
        s.subrange(a, a + 1) == seq![s[a]],
{
    assert(s.subrange(a, a + 1) =~= seq![s[a]]);
}

proof fn lemma_args_push(s: Seq<Exp>, e: Exp)
    requires
        s.len() >= 1,
    ensures
        tok_args(s.push(e)) == tok_args(s) + seq![Token::Comma] + tok_exp(e),
{
    assert(s.push(e).subrange(0, s.len() as int) =~= s);
}

proof fn lemma_indices_push(s: Seq<Exp>, e: Exp)
    ensures
        tok_indices(s.push(e)) == tok_indices(s) + (seq![Token::LBracket] + tok_exp(e) + seq![Token::RBracket]),
{
    assert(tok_indices(s) + seq![Token::LBracket] + tok_exp(e) + seq![Token::RBracket]
        =~= tok_indices(s) + (seq![Token::LBracket] + tok_exp(e) + seq![Token::RBracket]));
    assert(s.push(e).subrange(0, s.len() as int) =~= s);
}

/// The value carried by the integer literal token at `pos`.
fn int_at(t: &Vec<Token>, pos: usize) -> (v: i32)
    requires
        pos < t.len(),
        kind_of(t@[pos as int]) == Kind::IntLit,
    ensures
        t@[pos as int] == Token::IntLit(v),
{
    match &t[pos] {
        Token::IntLit(v) => *v,
        _ => {
            proof {
                assert(false);
            }
            0
        },
    }
}

// ---------------------------------------------------------------- expressions

#[verifier::spinoff_prover]
#[verifier::rlimit(50)]
pub fn parse_exp(t: &Vec<Token>, pos: usize) -> (r: Result<(Exp, usize), ParseError>)
    requires
        pos <= t.len(),
    ensures
        r matches Ok((e, p)) ==> pos < p <= t.len() && t@.subrange(pos as int, p as int) == tok_exp(e),
    decreases t@.len() - pos, 10int,
{
    let (l, p) = parse_lor(t, pos)?;
    Ok((Exp { l_or_exp: l }, p))
}

#[verifier::spinoff_prover]
#[verifier::rlimit(50)]
fn parse_lor(t: &Vec<Token>, pos: usize) -> (r: Result<(LOrExp, usize), ParseError>)
    requires
        pos <= t.len(),
    ensures
        r matches Ok((e, p)) ==> pos < p <= t.len() && t@.subrange(pos as int, p as int) == tok_lor(e),
        r matches Ok((e, p)) ==> peek_spec(t@, p as int) != Kind::OrOr,
    decreases t@.len() - pos, 9int,
{
    let (first, mut p) = parse_land(t, pos)?;
    let mut acc = LOrExp::LAndExp(first);
    loop
        invariant
            pos < p <= t.len(),
            t@.subrange(pos as int, p as int) == tok_lor(acc),
        ensures
            peek_spec(t@, p as int) != Kind::OrOr,
        decreases t@.len() - p,
    {
        if peek(t, p) != Kind::OrOr {
            break;
        }
        let (rhs, q) = parse_land(t, p + 1)?;
        proof {
            lemma_split3(t@, pos as int, p as int, q as int);
        }
        acc = LOrExp::LOrOp(Box::new(acc), rhs);
        p = q;
    }
    Ok((acc, p))
}

#[verifier::spinoff_prover]
#[verifier::rlimit(50)]
fn parse_land(t: &Vec<Token>, pos: usize) -> (r: Result<(LAndExp, usize), ParseError>)
    requires
        pos <= t.len(),
    ensures
        r matches Ok((e, p)) ==> pos < p <= t.len() && t@.subrange(pos as int, p as int) == tok_land(e),
        r matches Ok((e, p)) ==> peek_spec(t@, p as int) != Kind::AndAnd,
    decreases t@.len() - pos, 8int,
{
    let (first, mut p) = parse_eq(t, pos)?;
    let mut acc = LAndExp::EqExp(first);
    loop
        invariant
            pos < p <= t.len(),
            t@.subrange(pos as int, p as int) == tok_land(acc),
        ensures
            peek_spec(t@, p as int) != Kind::AndAnd,
        decreases t@.len() - p,
    {
        if peek(t, p) != Kind::AndAnd {
            break;
        }
        let (rhs, q) = parse_eq(t, p + 1)?;
        proof {
            lemma_split3(t@, pos as int, p as int, q as int);
        }
        acc = LAndExp::LAndOp(Box::new(acc), rhs);
        p = q;
    }
    Ok((acc, p))
}

#[verifier::spinoff_prover]
#[verifier::rlimit(50)]
fn parse_eq(t: &Vec<Token>, pos: usize) -> (r: Result<(EqExp, usize), ParseError>)
    requires
        pos <= t.len(),
    ensures
        r matches Ok((e, p)) ==> pos < p <= t.len() && t@.subrange(pos as int, p as int) == tok_eq(e),
        r matches Ok((e, p)) ==> !eq_kind(peek_spec(t@, p as int)),
    decreases t@.len() - pos, 7int,
{
    let (first, mut p) = parse_rel(t, pos)?;
    let mut acc = EqExp::RelExp(first);
    loop
        invariant
            pos < p <= t.len(),
            t@.subrange(pos as int, p as int) == tok_eq(acc),
        ensures
            !eq_kind(peek_spec(t@, p as int)),
        decreases t@.len() - p,
    {
        let k = peek(t, p);
        let op = if k == Kind::EqEq {
            EqOp::Eq
        } else if k == Kind::Ne {
            EqOp::Ne
        } else {
            break;
        };
        let (rhs, q) = parse_rel(t, p + 1)?;
        proof {
            lemma_split3(t@, pos as int, p as int, q as int);
            assert(t@[p as int] == eq_op_tok(op));
        }
        acc = EqExp::EqOp(Box::new(acc), op, rhs);
        p = q;
    }
    Ok((acc, p))
}

#[verifier::spinoff_prover]
#[verifier::rlimit(50)]
fn parse_rel(t: &Vec<Token>, pos: usize) -> (r: Result<(RelExp, usize), ParseError>)
    requires
        pos <= t.len(),
    ensures
        r matches Ok((e, p)) ==> pos < p <= t.len() && t@.subrange(pos as int, p as int) == tok_rel(e),
        r matches Ok((e, p)) ==> !rel_kind(peek_spec(t@, p as int)),
    decreases t@.len() - pos, 6int,
{
    let (first, mut p) = parse_add(t, pos)?;
    let mut acc = RelExp::AddExp(first);
    loop
        invariant
            pos < p <= t.len(),
            t@.subrange(pos as int, p as int) == tok_rel(acc),
        ensures
            !rel_kind(peek_spec(t@, p as int)),
        decreases t@.len() - p,
    {
        let k = peek(t, p);
        let op = if k == Kind::Lt {
            RelOp::Lt
        } else if k == Kind::Gt {
            RelOp::Gt
        } else if k == Kind::Le {
            RelOp::Le
        } else if k == Kind::Ge {
            RelOp::Ge
        } else {
            break;
        };
        let (rhs, q) = parse_add(t, p + 1)?;
        proof {
            lemma_split3(t@, pos as int, p as int, q as int);
            assert(t@[p as int] == rel_op_tok(op));
        }
        acc = RelExp::RelOp(Box::new(acc), op, rhs);
        p = q;
    }
    Ok((acc, p))
}

#[verifier::spinoff_prover]
#[verifier::rlimit(50)]
fn parse_add(t: &Vec<Token>, pos: usize) -> (r: Result<(AddExp, usize), ParseError>)
    requires
        pos <= t.len(),
    ensures
        r matches Ok((e, p)) ==> pos < p <= t.len() && t@.subrange(pos as int, p as int) == tok_add(e),
        r matches Ok((e, p)) ==> !add_kind(peek_spec(t@, p as int)),
    decreases t@.len() - pos, 5int,
{
    let (first, mut p) = parse_mul(t, pos)?;
    let mut acc = AddExp::MulExp(first);
    loop
        invariant
            pos < p <= t.len(),
            t@.subrange(pos as int, p as int) == tok_add(acc),
        ensures
            !add_kind(peek_spec(t@, p as int)),
        decreases t@.len() - p,
    {
        let k = peek(t, p);
        let op = if k == Kind::Plus {
            AddOp::Add
        } else if k == Kind::Minus {
            AddOp::Sub
        } else {
            break;
        };
        let (rhs, q) = parse_mul(t, p + 1)?;
        proof {
            lemma_split3(t@, pos as int, p as int, q as int);
            assert(t@[p as int] == add_op_tok(op));
        }
        acc = AddExp::AddOp(Box::new(acc), op, rhs);
        p = q;
    }
    Ok((acc, p))
}

#[verifier::spinoff_prover]
#[verifier::rlimit(50)]
fn parse_mul(t: &Vec<Token>, pos: usize) -> (r: Result<(MulExp, usize), ParseError>)
    requires
        pos <= t.len(),
    ensures
        r matches Ok((e, p)) ==> pos < p <= t.len() && t@.subrange(pos as int, p as int) == tok_mul(e),
        r matches Ok((e, p)) ==> !mul_kind(peek_spec(t@, p as int)),
    decreases t@.len() - pos, 4int,
{
    let (first, mut p) = parse_unary(t, pos)?;
    let mut acc = MulExp::UnaryExp(first);
    loop
        invariant
            pos < p <= t.len(),
            t@.subrange(pos as int, p as int) == tok_mul(acc),
        ensures
            !mul_kind(peek_spec(t@, p as int)),
        decreases t@.len() - p,
    {
        let k = peek(t, p);
        let op = if k == Kind::Star {
            MulOp::Mul
        } else if k == Kind::Slash {
            MulOp::Div
        } else if k == Kind::Percent {
            MulOp::Mod
        } else {
            break;
        };
        let (rhs, q) = parse_unary(t, p + 1)?;
        proof {
            lemma_split3(t@, pos as int, p as int, q as int);
            assert(t@[p as int] == mul_op_tok(op));
        }
        acc = MulExp::MulOp(Box::new(acc), op, rhs);
        p = q;
    }
    Ok((acc, p))
}

#[verifier::spinoff_prover]
#[verifier::rlimit(50)]
fn parse_unary(t: &Vec<Token>, pos: usize) -> (r: Result<(UnaryExp, usize), ParseError>)
    requires
        pos <= t.len(),
    ensures
        r matches Ok((e, p)) ==> pos < p <= t.len() && t@.subrange(pos as int, p as int) == tok_unary(e),
    decreases t@.len() - pos, 3int,
{
    let k = peek(t, pos);
    if k == Kind::Plus || k == Kind::Minus || k == Kind::Not {
        let op = if k == Kind::Plus {
            UnaryOp::Plus
        } else if k == Kind::Minus {
            UnaryOp::Minus
        } else {
            UnaryOp::Not
        };
        let (inner, p) = parse_unary(t, pos + 1)?;
        proof {
            lemma_split2(t@, pos as int, pos + 1, p as int);
            lemma_one(t@, pos as int);
            assert(t@[pos as int] == unary_op_tok(op));
        }
        return Ok((UnaryExp::UnaryOp(op, Box::new(inner)), p));
    }
    if k == Kind::Ident && peek(t, pos + 1) == Kind::LParen {
        let id = ident_at(t, pos);
        let (args, p) = parse_call_args(t, pos + 2)?;
        let end = expect(t, p, Kind::RParen)?;
        proof {
            lemma_split_wrapped(t@, pos as int, pos + 1, p as int);
            lemma_one(t@, pos as int);
            assert(t@[pos + 1] == Token::LParen);
            assert(t@[p as int] == Token::RParen);
            assert(t@[pos as int] == Token::Ident(id.id));
            assert(seq![t@[pos as int]] + (seq![t@[pos + 1]] + t@.subrange(pos + 2, p as int) + seq![t@[p as int]])
                =~= seq![t@[pos as int], t@[pos + 1]] + t@.subrange(pos + 2, p as int) + seq![t@[p as int]]);
            assert(t@.subrange(pos as int, end as int) == seq![Token::Ident(id.id), Token::LParen] + tok_args(args@)
                + seq![Token::RParen]);
        }
        let ghost args_view = args@;
        let ghost name = id.id;
        let call = UnaryExp::FuncCall(id, args);
        assert(tok_unary(call) == seq![Token::Ident(name), Token::LParen] + tok_args(args_view)
            + seq![Token::RParen]);
        return Ok((call, end));
    }
    let (prim, p) = parse_primary(t, pos)?;
    Ok((UnaryExp::PrimaryExp(prim), p))
}

/// Parses the comma-separated arguments of a call, up to (not including)
/// the closing parenthesis.
#[verifier::spinoff_prover]
#[verifier::rlimit(50)]
fn parse_call_args(t: &Vec<Token>, pos: usize) -> (r: Result<(Vec<Exp>, usize), ParseError>)
    requires
        pos <= t.len(),
    ensures
        r matches Ok((args, p)) ==> pos <= p <= t.len() && t@.subrange(pos as int, p as int) == tok_args(args@),
    decreases t@.len() - pos + 1, 0int,
{
    let mut args: Vec<Exp> = Vec::new();
    if peek(t, pos) == Kind::RParen {
        proof {
                }
        assert(t@.subrange(pos as int, pos as int) =~= tok_args(args@));
        return Ok((args, pos));
    }
    let (first, mut p) = parse_exp(t, pos)?;
    args.push(first);
    proof {
            assert(args@ =~= seq![first]);
    }
    loop
        invariant
            pos < p <= t.len(),
            args@.len() >= 1,
            t@.subrange(pos as int, p as int) == tok_args(args@),
        decreases t@.len() - p,
    {
        if peek(t, p) != Kind::Comma {
            break;
        }
        let (e, q) = parse_exp(t, p + 1)?;
        proof {
            lemma_extend_sep(t@, pos as int, p as int, q as int, tok_args(args@), tok_exp(e), Token::Comma);
            lemma_args_push(args@, e);
        }
        args.push(e);
        p = q;
    }
    Ok((args, p))
}

#[verifier::spinoff_prover]
#[verifier::rlimit(50)]
fn parse_primary(t: &Vec<Token>, pos: usize) -> (r: Result<(PrimaryExp, usize), ParseError>)
    requires
        pos <= t.len(),
    ensures
        r matches Ok((e, p)) ==> pos < p <= t.len() && t@.subrange(pos as int, p as int) == tok_primary(e),
    decreases t@.len() - pos, 2int,
{
    let k = peek(t, pos);
    if k == Kind::LParen {
        let (e, p) = parse_exp(t, pos + 1)?;
        let end = expect(t, p, Kind::RParen)?;
        proof {
            lemma_split_wrapped(t@, pos as int, pos as int, p as int);
            assert(t@.subrange(pos as int, pos as int) =~= Seq::<Token>::empty());
            assert(Seq::<Token>::empty() + (seq![Token::LParen] + tok_exp(e) + seq![Token::RParen])
                =~= seq![Token::LParen] + tok_exp(e) + seq![Token::RParen]);
        }
        Ok((PrimaryExp::Exp(Box::new(e)), end))
    } else if k == Kind::IntLit {
        let v = int_at(t, pos);
        proof {
            lemma_one(t@, pos as int);
        }
        Ok((PrimaryExp::Number(Number { value: v }), pos + 1))
    } else if k == Kind::Ident {
        let (lv, p) = parse_lval(t, pos)?;
        Ok((PrimaryExp::LVal(lv), p))
    } else if k == Kind::End {
        Err(ParseError::UnexpectedEnd)
    } else {
        Err(ParseError::UnexpectedToken(pos))
    }
}

/// Parses `name[e1][e2]...`.
#[verifier::spinoff_prover]
#[verifier::rlimit(50)]
pub fn parse_lval(t: &Vec<Token>, pos: usize) -> (r: Result<(LVal, usize), ParseError>)
    requires
        pos <= t.len(),
    ensures
        r matches Ok((lv, p)) ==> pos < p <= t.len() && t@.subrange(pos as int, p as int) == tok_lval(lv),
    decreases t@.len() - pos, 1int,
{
    let (id, mut p) = expect_ident(t, pos)?;
    let mut indices: Vec<Exp> = Vec::new();
    proof {
        lemma_one(t@, pos as int);
            assert(t@.subrange(pos as int, p as int) =~= seq![Token::Ident(id.id)] + tok_indices(indices@));
    }
    loop
        invariant
            pos < p <= t.len(),
            t@.subrange(pos as int, p as int) == seq![Token::Ident(id.id)] + tok_indices(indices@),
        decreases t@.len() - p,
    {
        if peek(t, p) != Kind::LBracket {
            break;
        }
        let (e, q) = parse_exp(t, p + 1)?;
        let end = expect(t, q, Kind::RBracket)?;
        proof {
            lemma_indices_push(indices@, e);
            lemma_extend_wrapped(t@, pos as int, p as int, q as int, seq![Token::Ident(id.id)] + tok_indices(indices@),
                tok_exp(e), Token::LBracket, Token::RBracket);
            lemma_assoc(seq![Token::Ident(id.id)], tok_indices(indices@), seq![Token::LBracket] + tok_exp(e) + seq![Token::RBracket]);
        }
        indices.push(e);
        p = end;
    }
    Ok((LVal { id, indices }, p))
}


// ------------------------------------------------------------- list lemmas

proof fn lemma_dims_push(s: Seq<ConstExp>, e: ConstExp)
    ensures
        tok_dims(s.push(e)) == tok_dims(s) + (seq![Token::LBracket] + tok_exp(e.exp) + seq![Token::RBracket]),
{
    reveal(tok_dims);
    assert(tok_dims(s) + seq![Token::LBracket] + tok_exp(e.exp) + seq![Token::RBracket]
        =~= tok_dims(s) + (seq![Token::LBracket] + tok_exp(e.exp) + seq![Token::RBracket]));
    assert(s.push(e).subrange(0, s.len() as int) =~= s);
}

proof fn lemma_const_inits_push(s: Seq<ConstInitVal>, e: ConstInitVal)
    requires
        s.len() >= 1,
    ensures
        tok_const_inits(s.push(e)) == tok_const_inits(s) + seq![Token::Comma] + tok_const_init(e),
{
    assert(s.push(e).subrange(0, s.len() as int) =~= s);
}

proof fn lemma_inits_push(s: Seq<InitVal>, e: InitVal)
    requires
        s.len() >= 1,
    ensures
        tok_inits(s.push(e)) == tok_inits(s) + seq![Token::Comma] + tok_init(e),
{
    assert(s.push(e).subrange(0, s.len() as int) =~= s);
}

proof fn lemma_const_defs_push(s: Seq<ConstDef>, e: ConstDef)
    requires
        s.len() >= 1,
    ensures
        tok_const_defs(s.push(e)) == tok_const_defs(s) + seq![Token::Comma] + tok_const_def(e),
{
    reveal(tok_const_defs);
    assert(s.push(e).subrange(0, s.len() as int) =~= s);
}

proof fn lemma_var_defs_push(s: Seq<VarDef>, e: VarDef)
    requires
        s.len() >= 1,
    ensures
        tok_var_defs(s.push(e)) == tok_var_defs(s) + seq![Token::Comma] + tok_var_def(e),
{
    reveal(tok_var_defs);
    assert(s.push(e).subrange(0, s.len() as int) =~= s);
}

proof fn lemma_params_push(s: Seq<FuncParam>, e: FuncParam)
    requires
        s.len() >= 1,
    ensures
        tok_params(s.push(e)) == tok_params(s) + seq![Token::Comma] + tok_param(e),
{
    reveal(tok_params);
    assert(s.push(e).subrange(0, s.len() as int) =~= s);
}

proof fn lemma_decl_params_push(s: Seq<FuncDeclParamType>, e: FuncDeclParamType)
    requires
        s.len() >= 1,
    ensures
        tok_decl_params(s.push(e)) == tok_decl_params(s) + seq![Token::Comma] + tok_decl_param(e),
{
    reveal(tok_decl_params);
    assert(s.push(e).subrange(0, s.len() as int) =~= s);
}

proof fn lemma_items_push(s: Seq<BlockItem>, e: BlockItem)
    ensures
        tok_items(s.push(e)) == tok_items(s) + match e {
            BlockItem::Decl(d) => tok_decl(d),
            BlockItem::Stmt(st) => tok_stmt(st),
        },
{
    assert(s.push(e).subrange(0, s.len() as int) =~= s);
}

proof fn lemma_unit_items_push(s: Seq<CompUnitItem>, e: CompUnitItem)
    ensures
        tok_unit_items(s.push(e)) == tok_unit_items(s) + tok_item(e),
{
    reveal(tok_unit_items);
    assert(s.push(e).subrange(0, s.len() as int) =~= s);
}

// ------------------------------------------------------------ declarations

/// Parses `[c1][c2]...` (possibly none).
#[verifier::spinoff_prover]
#[verifier::rlimit(50)]
fn parse_dims(t: &Vec<Token>, pos: usize) -> (r: Result<(Vec<ConstExp>, usize), ParseError>)
    requires
        pos <= t.len(),
    ensures
        r matches Ok((d, p)) ==> pos <= p <= t.len() && t@.subrange(pos as int, p as int) == tok_dims(d@),
{
    let mut dims: Vec<ConstExp> = Vec::new();
    let mut p = pos;
    proof {
        reveal(tok_dims);
    }
    assert(t@.subrange(pos as int, p as int) =~= tok_dims(dims@));
    loop
        invariant
            pos <= p <= t.len(),
            t@.subrange(pos as int, p as int) == tok_dims(dims@),
        decreases t@.len() - p,
    {
        if peek(t, p) != Kind::LBracket {
            break;
        }
        let (e, q) = parse_exp(t, p + 1)?;
        let end = expect(t, q, Kind::RBracket)?;
        proof {
            lemma_dims_push(dims@, ConstExp { exp: e });
            lemma_extend_wrapped(t@, pos as int, p as int, q as int, tok_dims(dims@), tok_exp(e),
                Token::LBracket, Token::RBracket);
        }
        dims.push(ConstExp { exp: e });
        p = end;
    }
    Ok((dims, p))
}

#[verifier::spinoff_prover]
#[verifier::rlimit(50)]
fn parse_const_init(t: &Vec<Token>, pos: usize) -> (r: Result<(ConstInitVal, usize), ParseError>)
    requires
        pos <= t.len(),
    ensures
        r matches Ok((v, p)) ==> pos < p <= t.len() && t@.subrange(pos as int, p as int) == tok_const_init(v),
    decreases t@.len() - pos,
{
    if peek(t, pos) != Kind::LBrace {
        let (e, p) = parse_exp(t, pos)?;
        return Ok((ConstInitVal::Exp(ConstExp { exp: e }), p));
    }
    let mut items: Vec<ConstInitVal> = Vec::new();
    let mut p = pos + 1;
    if peek(t, p) != Kind::RBrace {
        let (first, q) = parse_const_init(t, p)?;
        items.push(first);
        assert(items@ =~= seq![first]);
        p = q;
        loop
            invariant
                pos + 1 < p <= t.len(),
                items@.len() >= 1,
                t@.subrange(pos + 1, p as int) == tok_const_inits(items@),
            decreases t@.len() - p,
        {
            if peek(t, p) != Kind::Comma {
                break;
            }
            let (e, q) = parse_const_init(t, p + 1)?;
            proof {
                lemma_extend_sep(t@, pos + 1, p as int, q as int, tok_const_inits(items@), tok_const_init(e), Token::Comma);
                lemma_const_inits_push(items@, e);
            }
            items.push(e);
            p = q;
        }
    } else {
        assert(t@.subrange(pos + 1, p as int) =~= tok_const_inits(items@));
    }
    let end = expect(t, p, Kind::RBrace)?;
    proof {
        assert(t@.subrange(pos as int, pos as int) =~= Seq::<Token>::empty());
        lemma_extend_wrapped(t@, pos as int, pos as int, p as int, Seq::empty(), tok_const_inits(items@),
            Token::LBrace, Token::RBrace);
        assert(Seq::<Token>::empty() + (seq![Token::LBrace] + tok_const_inits(items@) + seq![Token::RBrace])
            =~= seq![Token::LBrace] + tok_const_inits(items@) + seq![Token::RBrace]);
    }
    Ok((ConstInitVal::List(items), end))
}

#[verifier::spinoff_prover]
#[verifier::rlimit(50)]
fn parse_init(t: &Vec<Token>, pos: usize) -> (r: Result<(InitVal, usize), ParseError>)
    requires
        pos <= t.len(),
    ensures
        r matches Ok((v, p)) ==> pos < p <= t.len() && t@.subrange(pos as int, p as int) == tok_init(v),
    decreases t@.len() - pos,
{
    if peek(t, pos) != Kind::LBrace {
        let (e, p) = parse_exp(t, pos)?;
        return Ok((InitVal::Exp(e), p));
    }
    let mut items: Vec<InitVal> = Vec::new();
    let mut p = pos + 1;
    if peek(t, p) != Kind::RBrace {
        let (first, q) = parse_init(t, p)?;
        items.push(first);
        assert(items@ =~= seq![first]);
        p = q;
        loop
            invariant
                pos + 1 < p <= t.len(),
                items@.len() >= 1,
                t@.subrange(pos + 1, p as int) == tok_inits(items@),
            decreases t@.len() - p,
        {
            if peek(t, p) != Kind::Comma {
                break;
            }
            let (e, q) = parse_init(t, p + 1)?;
            proof {
                lemma_extend_sep(t@, pos + 1, p as int, q as int, tok_inits(items@), tok_init(e), Token::Comma);
                lemma_inits_push(items@, e);
            }
            items.push(e);
            p = q;
        }
    } else {
        assert(t@.subrange(pos + 1, p as int) =~= tok_inits(items@));
    }
    let end = expect(t, p, Kind::RBrace)?;
    proof {
        assert(t@.subrange(pos as int, pos as int) =~= Seq::<Token>::empty());
        lemma_extend_wrapped(t@, pos as int, pos as int, p as int, Seq::empty(), tok_inits(items@),
            Token::LBrace, Token::RBrace);
        assert(Seq::<Token>::empty() + (seq![Token::LBrace] + tok_inits(items@) + seq![Token::RBrace])
            =~= seq![Token::LBrace] + tok_inits(items@) + seq![Token::RBrace]);
    }
    Ok((InitVal::List(items), end))
}

#[verifier::spinoff_prover]
#[verifier::rlimit(50)]
fn parse_const_def(t: &Vec<Token>, pos: usize) -> (r: Result<(ConstDef, usize), ParseError>)
    requires
        pos <= t.len(),
    ensures
        r matches Ok((d, p)) ==> pos < p <= t.len() && t@.subrange(pos as int, p as int) == tok_const_def(d),
{
    let (id, p1) = expect_ident(t, pos)?;
    let (dims, p2) = parse_dims(t, p1)?;
    let p3 = expect(t, p2, Kind::Assign)?;
    let (init, p4) = parse_const_init(t, p3)?;
    proof {
        lemma_one(t@, pos as int);
        lemma_one(t@, p2 as int);
        lemma_concat(t@, pos as int, p1 as int, p2 as int, seq![Token::Ident(id.id)], tok_dims(dims@));
        lemma_concat(t@, pos as int, p2 as int, p3 as int, seq![Token::Ident(id.id)] + tok_dims(dims@), seq![Token::Assign]);
        lemma_concat(t@, pos as int, p3 as int, p4 as int, seq![Token::Ident(id.id)] + tok_dims(dims@) + seq![Token::Assign],
            tok_const_init(init));
        reveal(tok_const_def);
    }
    Ok((ConstDef { id, dimensions: dims, init }, p4))
}

#[verifier::spinoff_prover]
#[verifier::rlimit(50)]
fn parse_var_def(t: &Vec<Token>, pos: usize) -> (r: Result<(VarDef, usize), ParseError>)
    requires
        pos <= t.len(),
    ensures
        r matches Ok((d, p)) ==> pos < p <= t.len() && t@.subrange(pos as int, p as int) == tok_var_def(d),
{
    let (id, p1) = expect_ident(t, pos)?;
    let (dims, p2) = parse_dims(t, p1)?;
    if peek(t, p2) == Kind::Assign {
        let (init, p4) = parse_init(t, p2 + 1)?;
        proof {
            lemma_one(t@, pos as int);
            lemma_one(t@, p2 as int);
            lemma_concat(t@, pos as int, p1 as int, p2 as int, seq![Token::Ident(id.id)], tok_dims(dims@));
            lemma_concat(t@, p2 as int, p2 + 1, p4 as int, seq![Token::Assign], tok_init(init));
            lemma_concat(t@, pos as int, p2 as int, p4 as int, seq![Token::Ident(id.id)] + tok_dims(dims@),
                seq![Token::Assign] + tok_init(init));
            reveal(tok_var_def);
        }
        Ok((VarDef { id, dimensions: dims, init: Some(init) }, p4))
    } else {
        proof {
            lemma_one(t@, pos as int);
            lemma_concat(t@, pos as int, p1 as int, p2 as int, seq![Token::Ident(id.id)], tok_dims(dims@));
            assert(seq![Token::Ident(id.id)] + tok_dims(dims@) =~= seq![Token::Ident(id.id)] + tok_dims(dims@)
                + Seq::<Token>::empty());
            reveal(tok_var_def);
        }
        Ok((VarDef { id, dimensions: dims, init: None }, p2))
    }
}

#[verifier::spinoff_prover]
#[verifier::rlimit(50)]
fn parse_const_decl(t: &Vec<Token>, pos: usize) -> (r: Result<(Decl, usize), ParseError>)
    requires
        pos <= t.len(),
        peek_spec(t@, pos as int) == Kind::KwConst,
    ensures
        r matches Ok((d, p)) ==> pos < p <= t.len() && t@.subrange(pos as int, p as int) == tok_decl(d),
{
    let p1 = expect(t, pos + 1, Kind::KwInt)?;
    let (first, q) = parse_const_def(t, p1)?;
    let mut defs: Vec<ConstDef> = Vec::new();
    defs.push(first);
    proof {
        assert(defs@ =~= seq![first]);
        reveal(tok_const_defs);
        reveal(tok_var_defs);
    }
    let mut p = q;
    loop
        invariant
            p1 < p <= t.len(),
            defs@.len() >= 1,
            t@.subrange(p1 as int, p as int) == tok_const_defs(defs@),
        decreases t@.len() - p,
    {
        if peek(t, p) != Kind::Comma {
            break;
        }
        let (d, q) = parse_const_def(t, p + 1)?;
        proof {
            lemma_extend_sep(t@, p1 as int, p as int, q as int, tok_const_defs(defs@), tok_const_def(d), Token::Comma);
            lemma_const_defs_push(defs@, d);
        }
        defs.push(d);
        p = q;
    }
    let end = expect(t, p, Kind::Semi)?;
    proof {
        assert(t@.subrange(pos as int, p1 as int) =~= seq![Token::KwConst, Token::KwInt]);
        lemma_one(t@, p as int);
        lemma_concat(t@, pos as int, p1 as int, p as int, seq![Token::KwConst, Token::KwInt], tok_const_defs(defs@));
        lemma_concat(t@, pos as int, p as int, end as int, seq![Token::KwConst, Token::KwInt] + tok_const_defs(defs@),
            seq![Token::Semi]);
        reveal(tok_decl);
    }
    Ok((Decl::ConstDecl(ConstDecl { b_type: BType::Int, const_defs: defs }), end))
}

#[verifier::spinoff_prover]
#[verifier::rlimit(50)]
fn parse_var_decl(t: &Vec<Token>, pos: usize) -> (r: Result<(Decl, usize), ParseError>)
    requires
        pos <= t.len(),
    ensures
        r matches Ok((d, p)) ==> pos < p <= t.len() && t@.subrange(pos as int, p as int) == tok_decl(d),
{
    let p1 = expect(t, pos, Kind::KwInt)?;
    let (first, q) = parse_var_def(t, p1)?;
    let mut defs: Vec<VarDef> = Vec::new();
    defs.push(first);
    proof {
        assert(defs@ =~= seq![first]);
        reveal(tok_const_defs);
        reveal(tok_var_defs);
    }
    let mut p = q;
    loop
        invariant
            p1 < p <= t.len(),
            defs@.len() >= 1,
            t@.subrange(p1 as int, p as int) == tok_var_defs(defs@),
        decreases t@.len() - p,
    {
        if peek(t, p) != Kind::Comma {
            break;
        }
        let (d, q) = parse_var_def(t, p + 1)?;
        proof {
            lemma_extend_sep(t@, p1 as int, p as int, q as int, tok_var_defs(defs@), tok_var_def(d), Token::Comma);
            lemma_var_defs_push(defs@, d);
        }
        defs.push(d);
        p = q;
    }
    let end = expect(t, p, Kind::Semi)?;
    proof {
        lemma_one(t@, pos as int);
        lemma_one(t@, p as int);
        lemma_concat(t@, pos as int, p1 as int, p as int, seq![Token::KwInt], tok_var_defs(defs@));
        lemma_concat(t@, pos as int, p as int, end as int, seq![Token::KwInt] + tok_var_defs(defs@),
            seq![Token::Semi]);
        reveal(tok_decl);
    }
    Ok((Decl::VarDecl(VarDecl { b_type: BType::Int, var_defs: defs }), end))
}

/// Parses a constant or variable declaration.
#[verifier::spinoff_prover]
#[verifier::rlimit(50)]
fn parse_decl(t: &Vec<Token>, pos: usize) -> (r: Result<(Decl, usize), ParseError>)
    requires
        pos <= t.len(),
    ensures
        r matches Ok((d, p)) ==> pos < p <= t.len() && t@.subrange(pos as int, p as int) == tok_decl(d),
{
    if peek(t, pos) == Kind::KwConst {
        parse_const_decl(t, pos)
    } else {
        parse_var_decl(t, pos)
    }
}

// -------------------------------------------------------------- statements

/// The tokens that spell a block item.
pub open spec fn tok_block_item(i: BlockItem) -> Seq<Token> {
    match i {
        BlockItem::Decl(d) => tok_decl(d),
        BlockItem::Stmt(st) => tok_stmt(st),
    }
}

proof fn lemma_two(s: Seq<Token>, a: int)
    requires
        0 <= a && a + 1 < s.len(),
    ensures
        s.subrange(a, a + 2) == seq![s[a], s[a + 1]],
{
    assert(s.subrange(a, a + 2) =~= seq![s[a], s[a + 1]]);
}

#[verifier::spinoff_prover]
#[verifier::rlimit(50)]
fn parse_block_item(t: &Vec<Token>, pos: usize) -> (r: Result<(BlockItem, usize), ParseError>)
    requires
        pos <= t.len(),
    ensures
        r matches Ok((i, p)) ==> pos < p <= t.len() && t@.subrange(pos as int, p as int) == tok_block_item(i),
        r matches Ok((i, p)) ==> item_else_nearest(i),
    decreases t@.len() - pos, 3int,
{
    let k = peek(t, pos);
    if k == Kind::KwConst || k == Kind::KwInt {
        let (d, p) = parse_decl(t, pos)?;
        Ok((BlockItem::Decl(d), p))
    } else {
        let (st, p) = parse_stmt(t, pos)?;
        Ok((BlockItem::Stmt(st), p))
    }
}

/// Parses `{ item* }`.
#[verifier::spinoff_prover]
#[verifier::rlimit(50)]
pub fn parse_block(t: &Vec<Token>, pos: usize) -> (r: Result<(Block, usize), ParseError>)
    requires
        pos <= t.len(),
    ensures
        r matches Ok((b, p)) ==> pos < p <= t.len() && t@.subrange(pos as int, p as int) == tok_block(b),
        r matches Ok((b, p)) ==> items_else_nearest(b, 0),
    decreases t@.len() - pos, 1int,
{
    let mut p = expect(t, pos, Kind::LBrace)?;
    let mut items: Vec<BlockItem> = Vec::new();
    proof {
        lemma_one(t@, pos as int);
        assert(seq![Token::LBrace] =~= seq![Token::LBrace] + tok_items(items@));
    }
    loop
        invariant
            pos < p <= t.len(),
            t@.subrange(pos as int, p as int) == seq![Token::LBrace] + tok_items(items@),
            forall|j: int| 0 <= j < items@.len() ==> #[trigger] item_else_nearest(items@[j]),
        decreases t@.len() - p,
    {
        let k = peek(t, p);
        if k == Kind::RBrace {
            break;
        }
        if k == Kind::End {
            return Err(ParseError::UnexpectedEnd);
        }
        let (it, q) = parse_block_item(t, p)?;
        proof {
            lemma_concat(t@, pos as int, p as int, q as int, seq![Token::LBrace] + tok_items(items@), tok_block_item(it));
            lemma_items_push(items@, it);
            lemma_assoc(seq![Token::LBrace], tok_items(items@), tok_block_item(it));
        }
        items.push(it);
        p = q;
    }
    let end = expect(t, p, Kind::RBrace)?;
    proof {
        lemma_one(t@, p as int);
        lemma_concat(t@, pos as int, p as int, end as int, seq![Token::LBrace] + tok_items(items@), seq![Token::RBrace]);
    }
    let b = Block { items };
    proof {
        lemma_items_else_nearest(b, 0);
    }
    Ok((b, end))
}

/// Parses an expression statement `e;` starting at `pos`.
#[verifier::spinoff_prover]
#[verifier::rlimit(50)]
fn parse_exp_stmt(t: &Vec<Token>, pos: usize) -> (r: Result<(Stmt, usize), ParseError>)
    requires
        pos <= t.len(),
    ensures
        r matches Ok((s, p)) ==> pos < p <= t.len() && t@.subrange(pos as int, p as int) == tok_stmt(s),
        r matches Ok((s, p)) ==> else_nearest(s) && !open_end(s),
{
    let (e, p) = parse_exp(t, pos)?;
    let end = expect(t, p, Kind::Semi)?;
    proof {
        lemma_one(t@, p as int);
        lemma_concat(t@, pos as int, p as int, end as int, tok_exp(e), seq![Token::Semi]);
    }
    let st = Stmt::Exp(Some(e));
    assert(tok_stmt(st) == t@.subrange(pos as int, end as int));
    Ok((st, end))
}

/// Completes an assignment `lv = e;` whose target `lv` spans `pos..p`.
#[verifier::spinoff_prover]
#[verifier::rlimit(50)]
fn finish_assign(t: &Vec<Token>, pos: usize, lv: LVal, p: usize) -> (r: Result<(Stmt, usize), ParseError>)
    requires
        pos < p < t.len(),
        t@.subrange(pos as int, p as int) == tok_lval(lv),
        t@[p as int] == Token::Assign,
    ensures
        r matches Ok((s, q)) ==> pos < q <= t.len() && t@.subrange(pos as int, q as int) == tok_stmt(s),
        r matches Ok((s, q)) ==> else_nearest(s) && !open_end(s),
{
    let (e, q) = parse_exp(t, p + 1)?;
    let end = expect(t, q, Kind::Semi)?;
    let ghost lt = tok_lval(lv);
    proof {
        lemma_one(t@, p as int);
        lemma_one(t@, q as int);
        lemma_concat(t@, pos as int, p as int, p + 1, lt, seq![Token::Assign]);
        lemma_concat(t@, pos as int, p + 1, q as int, lt + seq![Token::Assign], tok_exp(e));
        lemma_concat(t@, pos as int, q as int, end as int, lt + seq![Token::Assign] + tok_exp(e), seq![Token::Semi]);
    }
    let st = Stmt::Assign(lv, e);
    assert(tok_stmt(st) == t@.subrange(pos as int, end as int));
    Ok((st, end))
}

/// Completes an update `lv++;` or `lv--;` whose target `lv` spans `pos..p`.
#[verifier::spinoff_prover]
#[verifier::rlimit(50)]
fn finish_update(t: &Vec<Token>, pos: usize, lv: LVal, p: usize, op: AddOp) -> (r: Result<(Stmt, usize), ParseError>)
    requires
        pos < p < t.len(),
        t@.subrange(pos as int, p as int) == tok_lval(lv),
        t@[p as int] == (if op == AddOp::Add { Token::PlusPlus } else { Token::MinusMinus }),
    ensures
        r matches Ok((s, q)) ==> pos < q <= t.len() && t@.subrange(pos as int, q as int) == tok_stmt(s),
        r matches Ok((s, q)) ==> else_nearest(s) && !open_end(s),
{
    let end = expect(t, p + 1, Kind::Semi)?;
    let ghost lt = tok_lval(lv);
    proof {
        lemma_two(t@, p as int);
        lemma_concat(t@, pos as int, p as int, end as int, lt, seq![t@[p as int], t@[p + 1]]);
    }
    let st = Stmt::Update(lv, op);
    assert(tok_stmt(st) == t@.subrange(pos as int, end as int));
    Ok((st, end))
}

/// Parses a statement that starts with a name: an assignment, an update
/// (`x++`, `x--`) or an expression statement.
#[verifier::spinoff_prover]
#[verifier::rlimit(50)]
fn parse_named_stmt(t: &Vec<Token>, pos: usize) -> (r: Result<(Stmt, usize), ParseError>)
    requires
        pos <= t.len(),
    ensures
        r matches Ok((s, p)) ==> pos < p <= t.len() && t@.subrange(pos as int, p as int) == tok_stmt(s),
        r matches Ok((s, p)) ==> else_nearest(s) && !open_end(s),
{
    match parse_lval(t, pos) {
        Ok((lv, p)) => {
            let k = peek(t, p);
            if k == Kind::Assign {
                return finish_assign(t, pos, lv, p);
            } else if k == Kind::PlusPlus {
                return finish_update(t, pos, lv, p, AddOp::Add);
            } else if k == Kind::MinusMinus {
                return finish_update(t, pos, lv, p, AddOp::Sub);
            }
        },
        Err(_) => {},
    }
    parse_exp_stmt(t, pos)
}

/// The statement ends in an `if` without an `else`: an `else` that
/// followed it would belong to that `if`.
pub open spec fn open_end(s: Stmt) -> bool
    decreases s,
{
    match s {
        Stmt::If(_, _, None) => true,
        Stmt::If(_, _, Some(o)) => open_end(*o),
        Stmt::Loop { body, .. } => open_end(*body),
        _ => false,
    }
}

/// Every `else` of the statement belongs to the nearest `if` before it
/// that has none: the branch before an `else` never ends in an `if`
/// without one.
pub open spec fn else_nearest(s: Stmt) -> bool
    decreases s, 1nat, 0nat,
{
    match s {
        Stmt::If(_, b, None) => else_nearest(*b),
        Stmt::If(_, b, Some(o)) => !open_end(*b) && else_nearest(*b) && else_nearest(*o),
        Stmt::Loop { body, .. } => else_nearest(*body),
        Stmt::Block(bl) => items_else_nearest(bl, 0),
        _ => true,
    }
}

/// `else_nearest` for a statement item.
pub open spec fn item_else_nearest(it: BlockItem) -> bool
    decreases it, 0nat, 0nat,
{
    match it {
        BlockItem::Stmt(s) => else_nearest(s),
        _ => true,
    }
}

/// `else_nearest` for the items of a block from position `k` on.
pub open spec fn items_else_nearest(b: Block, k: nat) -> bool
    decreases b, 0nat, b.items@.len() - k,
{
    if k >= b.items@.len() {
        true
    } else {
        proof {
            assert(decreases_to!(b => b.items@[k as int]));
        }
        item_else_nearest(b.items@[k as int]) && items_else_nearest(b, k + 1)
    }
}

proof fn lemma_items_else_nearest(b: Block, k: nat)
    requires
        forall|j: int| k <= j < b.items@.len() ==> #[trigger] item_else_nearest(b.items@[j]),
    ensures
        items_else_nearest(b, k),
    decreases b.items@.len() - k,
{
    if k < b.items@.len() {
        lemma_items_else_nearest(b, k + 1);
        assert(decreases_to!(b => b.items@[k as int]));
        assert(item_else_nearest(b.items@[k as int]));
    }
}

/// Every function body of the unit binds each `else` to the nearest `if`.
pub open spec fn unit_else_nearest(c: CompUnit) -> bool {
    forall|i: int| 0 <= i < c.items@.len() ==> (#[trigger] c.items@[i] matches CompUnitItem::FuncDef(f)
        ==> items_else_nearest(f.block, 0))
}

#[verifier::spinoff_prover]
#[verifier::rlimit(80)]
pub fn parse_stmt(t: &Vec<Token>, pos: usize) -> (r: Result<(Stmt, usize), ParseError>)
    requires
        pos <= t.len(),
    ensures
        r matches Ok((s, p)) ==> pos < p <= t.len() && t@.subrange(pos as int, p as int) == tok_stmt(s),
        r matches Ok((s, p)) ==> else_nearest(s) && (open_end(s) ==> peek_spec(t@, p as int) != Kind::KwElse),
    decreases t@.len() - pos, 2int,
{
    let k = peek(t, pos);
    if k == Kind::LBrace {
        let (b, p) = parse_block(t, pos)?;
        Ok((Stmt::Block(b), p))
    } else if k == Kind::KwIf || k == Kind::KwWhile {
        let p1 = expect(t, pos + 1, Kind::LParen)?;
        let (c, p2) = parse_exp(t, p1)?;
        let p3 = expect(t, p2, Kind::RParen)?;
        let (body, p4) = parse_stmt(t, p3)?;
        let ghost head = seq![t@[pos as int], Token::LParen] + tok_exp(c) + seq![Token::RParen] + tok_stmt(body);
        proof {
            lemma_two(t@, pos as int);
            lemma_one(t@, p2 as int);
            lemma_concat(t@, pos as int, p1 as int, p2 as int, seq![t@[pos as int], Token::LParen], tok_exp(c));
            lemma_concat(t@, pos as int, p2 as int, p3 as int, seq![t@[pos as int], Token::LParen] + tok_exp(c),
                seq![Token::RParen]);
            lemma_concat(t@, pos as int, p3 as int, p4 as int, seq![t@[pos as int], Token::LParen] + tok_exp(c)
                + seq![Token::RParen], tok_stmt(body));
        }
        if k == Kind::KwWhile {
            let st = Stmt::Loop { init: None, cond: Some(c), inc: None, body: Box::new(body) };
            return Ok((st, p4));
        }
        if peek(t, p4) == Kind::KwElse {
            let (other, p5) = parse_stmt(t, p4 + 1)?;
            proof {
                lemma_one(t@, p4 as int);
                lemma_concat(t@, pos as int, p4 as int, p4 + 1, head, seq![Token::KwElse]);
                lemma_concat(t@, pos as int, p4 + 1, p5 as int, head + seq![Token::KwElse], tok_stmt(other));
            }
            Ok((Stmt::If(c, Box::new(body), Some(Box::new(other))), p5))
        } else {
            Ok((Stmt::If(c, Box::new(body), None), p4))
        }
    } else if k == Kind::KwBreak || k == Kind::KwContinue {
        let end = expect(t, pos + 1, Kind::Semi)?;
        proof {
            lemma_two(t@, pos as int);
        }
        if k == Kind::KwBreak {
            Ok((Stmt::Break, end))
        } else {
            Ok((Stmt::Continue, end))
        }
    } else if k == Kind::KwReturn {
        if peek(t, pos + 1) == Kind::Semi {
            proof {
                lemma_two(t@, pos as int);
            }
            return Ok((Stmt::Return(None), pos + 2));
        }
        let (e, p) = parse_exp(t, pos + 1)?;
        let end = expect(t, p, Kind::Semi)?;
        proof {
            lemma_one(t@, pos as int);
            lemma_one(t@, p as int);
            lemma_concat(t@, pos as int, pos + 1, p as int, seq![Token::KwReturn], tok_exp(e));
            lemma_concat(t@, pos as int, p as int, end as int, seq![Token::KwReturn] + tok_exp(e), seq![Token::Semi]);
        }
        Ok((Stmt::Return(Some(e)), end))
    } else if k == Kind::Semi {
        proof {
            lemma_one(t@, pos as int);
        }
        Ok((Stmt::Exp(None), pos + 1))
    } else if k == Kind::Ident {
        parse_named_stmt(t, pos)
    } else {
        parse_exp_stmt(t, pos)
    }
}

// --------------------------------------------------------------- functions

/// Parses `int name` or `int name[]` followed by `[c]...`.
#[verifier::spinoff_prover]
#[verifier::rlimit(50)]
fn parse_param(t: &Vec<Token>, pos: usize) -> (r: Result<(FuncParam, usize), ParseError>)
    requires
        pos <= t.len(),
    ensures
        r matches Ok((fp, p)) ==> pos < p <= t.len() && t@.subrange(pos as int, p as int) == tok_param(fp),
{
    let p1 = expect(t, pos, Kind::KwInt)?;
    let (id, p2) = expect_ident(t, p1)?;
    proof {
        lemma_two(t@, pos as int);
    }
    if peek(t, p2) == Kind::LBracket {
        let p3 = expect(t, p2 + 1, Kind::RBracket)?;
        let (dims, p4) = parse_dims(t, p3)?;
        proof {
            lemma_two(t@, p2 as int);
            lemma_concat(t@, pos as int, p2 as int, p3 as int, seq![Token::KwInt, Token::Ident(id.id)],
                seq![Token::LBracket, Token::RBracket]);
            assert(seq![Token::KwInt, Token::Ident(id.id)] + seq![Token::LBracket, Token::RBracket]
                =~= seq![Token::KwInt, Token::Ident(id.id), Token::LBracket, Token::RBracket]);
            lemma_concat(t@, pos as int, p3 as int, p4 as int,
                seq![Token::KwInt, Token::Ident(id.id), Token::LBracket, Token::RBracket], tok_dims(dims@));
            reveal(tok_param);
        }
        Ok((FuncParam { ty: FuncParamType::Array { base: BType::Int, trailing_dimensions: dims }, id }, p4))
    } else {
        proof {
            reveal(tok_param);
        }
        Ok((FuncParam { ty: FuncParamType::Scalar(BType::Int), id }, p2))
    }
}

/// Parses the type of a declared function's parameter: `int`, or `int[]`
/// followed by `[c]...`.
#[verifier::spinoff_prover]
#[verifier::rlimit(50)]
fn parse_decl_param(t: &Vec<Token>, pos: usize) -> (r: Result<(FuncDeclParamType, usize), ParseError>)
    requires
        pos <= t.len(),
    ensures
        r matches Ok((fp, p)) ==> pos < p <= t.len() && t@.subrange(pos as int, p as int) == tok_decl_param(fp),
{
    let p1 = expect(t, pos, Kind::KwInt)?;
    proof {
        lemma_one(t@, pos as int);
    }
    if peek(t, p1) == Kind::LBracket {
        let p3 = expect(t, p1 + 1, Kind::RBracket)?;
        let (dims, p4) = parse_dims(t, p3)?;
        proof {
            assert(t@.subrange(pos as int, p3 as int) =~= seq![Token::KwInt, Token::LBracket, Token::RBracket]);
            lemma_concat(t@, pos as int, p3 as int, p4 as int,
                seq![Token::KwInt, Token::LBracket, Token::RBracket], tok_dims(dims@));
            reveal(tok_decl_param);
        }
        Ok((FuncDeclParamType::Array { base: BType::Int, trailing_dimensions: dims }, p4))
    } else {
        proof {
            reveal(tok_decl_param);
        }
        Ok((FuncDeclParamType::Scalar(BType::Int), p1))
    }
}

/// Parses one or more comma-separated named parameters.
#[verifier::spinoff_prover]
#[verifier::rlimit(50)]
fn parse_params(t: &Vec<Token>, pos: usize) -> (r: Result<(Vec<FuncParam>, usize), ParseError>)
    requires
        pos <= t.len(),
    ensures
        r matches Ok((ps, p)) ==> pos < p <= t.len() && t@.subrange(pos as int, p as int) == tok_params(ps@),
{
    let (first, q) = parse_param(t, pos)?;
    let mut ps: Vec<FuncParam> = Vec::new();
    ps.push(first);
    proof {
        assert(ps@ =~= seq![first]);
        reveal(tok_params);
    }
    let mut p = q;
    loop
        invariant
            pos < p <= t.len(),
            ps@.len() >= 1,
            t@.subrange(pos as int, p as int) == tok_params(ps@),
        decreases t@.len() - p,
    {
        if peek(t, p) != Kind::Comma {
            break;
        }
        let (fp, q) = parse_param(t, p + 1)?;
        proof {
            lemma_extend_sep(t@, pos as int, p as int, q as int, tok_params(ps@), tok_param(fp), Token::Comma);
            lemma_params_push(ps@, fp);
        }
        ps.push(fp);
        p = q;
    }
    Ok((ps, p))
}

/// Parses zero or more comma-separated parameter types, up to (not
/// including) the closing parenthesis.
#[verifier::spinoff_prover]
#[verifier::rlimit(50)]
fn parse_decl_params(t: &Vec<Token>, pos: usize) -> (r: Result<(Vec<FuncDeclParamType>, usize), ParseError>)
    requires
        pos <= t.len(),
    ensures
        r matches Ok((ps, p)) ==> pos <= p <= t.len() && t@.subrange(pos as int, p as int) == tok_decl_params(ps@),
{
    let mut ps: Vec<FuncDeclParamType> = Vec::new();
    if peek(t, pos) == Kind::RParen {
        proof {
            reveal(tok_decl_params);
            assert(t@.subrange(pos as int, pos as int) =~= tok_decl_params(ps@));
        }
        return Ok((ps, pos));
    }
    let (first, q) = parse_decl_param(t, pos)?;
    ps.push(first);
    proof {
        assert(ps@ =~= seq![first]);
        reveal(tok_decl_params);
    }
    let mut p = q;
    loop
        invariant
            pos < p <= t.len(),
            ps@.len() >= 1,
            t@.subrange(pos as int, p as int) == tok_decl_params(ps@),
        decreases t@.len() - p,
    {
        if peek(t, p) != Kind::Comma {
            break;
        }
        let (fp, q) = parse_decl_param(t, p + 1)?;
        proof {
            lemma_extend_sep(t@, pos as int, p as int, q as int, tok_decl_params(ps@), tok_decl_param(fp), Token::Comma);
            lemma_decl_params_push(ps@, fp);
        }
        ps.push(fp);
        p = q;
    }
    Ok((ps, p))
}

/// Parses a function definition or declaration starting at `pos`.
#[verifier::spinoff_prover]
#[verifier::rlimit(80)]
fn parse_function(t: &Vec<Token>, pos: usize) -> (r: Result<(CompUnitItem, usize), ParseError>)
    requires
        pos <= t.len(),
    ensures
        r matches Ok((it, p)) ==> pos < p <= t.len() && t@.subrange(pos as int, p as int) == tok_item(it),
        r matches Ok((it, p)) ==> (it matches CompUnitItem::FuncDef(f) ==> items_else_nearest(f.block, 0)),
{
    let is_extern = peek(t, pos) == Kind::KwExtern;
    let p0 = if is_extern { pos + 1 } else { pos };
    let k0 = peek(t, p0);
    let func_type = if k0 == Kind::KwInt {
        FuncType::Int
    } else if k0 == Kind::KwVoid {
        FuncType::Void
    } else if k0 == Kind::End {
        return Err(ParseError::UnexpectedEnd);
    } else {
        return Err(ParseError::UnexpectedToken(p0));
    };
    let (id, p1) = expect_ident(t, p0 + 1)?;
    let p2 = expect(t, p1, Kind::LParen)?;
    let ghost pre: Seq<Token> = if is_extern { seq![Token::KwExtern] } else { Seq::empty() };
    let ghost head = seq![func_type_tok(func_type), Token::Ident(id.id), Token::LParen];
    proof {
        assert(t@.subrange(pos as int, p0 as int) =~= pre);
        assert(t@.subrange(p0 as int, p2 as int) =~= head);
        lemma_concat(t@, pos as int, p0 as int, p2 as int, pre, head);
    }
    let k2 = peek(t, p2);
    let is_def = !is_extern && ((k2 == Kind::RParen && peek(t, p2 + 1) != Kind::Semi)
        || (k2 == Kind::KwInt && peek(t, p2 + 1) == Kind::Ident));
    if is_def {
        let (params, p3) = if k2 == Kind::RParen {
            (None, p2)
        } else {
            let (ps, q) = parse_params(t, p2)?;
            (Some(ps), q)
        };
        let ghost pt: Seq<Token> = if params is Some { tok_params(params.unwrap()@) } else { Seq::empty() };
        proof {
            assert(t@.subrange(p2 as int, p3 as int) =~= pt);
        }
        let p4 = expect(t, p3, Kind::RParen)?;
        let (block, p5) = parse_block(t, p4)?;
        proof {
            assert(pre + head =~= head);
            lemma_concat(t@, pos as int, p2 as int, p3 as int, head, pt);
            lemma_one(t@, p3 as int);
            lemma_concat(t@, pos as int, p3 as int, p4 as int, head + pt, seq![Token::RParen]);
            lemma_concat(t@, pos as int, p4 as int, p5 as int, head + pt + seq![Token::RParen], tok_block(block));
            reveal(tok_func_def);
            reveal(tok_item);
        }
        Ok((CompUnitItem::FuncDef(FuncDef { func_type, id, params, block }), p5))
    } else {
        let (params, p3) = parse_decl_params(t, p2)?;
        let p4 = expect(t, p3, Kind::RParen)?;
        let p5 = expect(t, p4, Kind::Semi)?;
        proof {
            lemma_concat(t@, pos as int, p2 as int, p3 as int, pre + head, tok_decl_params(params@));
            lemma_two(t@, p3 as int);
            lemma_concat(t@, pos as int, p3 as int, p5 as int, pre + head + tok_decl_params(params@),
                seq![Token::RParen, Token::Semi]);
            reveal(tok_func_decl);
            reveal(tok_item);
        }
        Ok((CompUnitItem::FuncDecl(FuncDecl { is_extern, func_type, id, params }), p5))
    }
}

/// Parses a whole translation unit from its tokens.
#[verifier::spinoff_prover]
#[verifier::rlimit(50)]
pub fn parse_tokens(t: &Vec<Token>) -> (r: Result<CompUnit, ParseError>)
    ensures
        r matches Ok(c) ==> tok_comp_unit(c) == t@,
        r matches Ok(c) ==> unit_else_nearest(c),
{
    let mut items: Vec<CompUnitItem> = Vec::new();
    let mut p: usize = 0;
    proof {
        reveal(tok_unit_items);
        assert(t@.subrange(0, 0) =~= tok_unit_items(items@));
    }
    while p < t.len()
        invariant
            p <= t.len(),
            t@.subrange(0, p as int) == tok_unit_items(items@),
            forall|j: int| 0 <= j < items@.len() ==> (#[trigger] items@[j] matches CompUnitItem::FuncDef(f)
                ==> items_else_nearest(f.block, 0)),
        decreases t@.len() - p,
    {
        let k = peek(t, p);
        let (item, q) = if k == Kind::KwConst {
            let (d, q) = parse_decl(t, p)?;
            proof {
                reveal(tok_item);
            }
            (CompUnitItem::Decl(d), q)
        } else if k == Kind::KwExtern || ((k == Kind::KwInt || k == Kind::KwVoid) && peek(t, p + 1) == Kind::Ident
            && peek(t, p + 2) == Kind::LParen) {
            parse_function(t, p)?
        } else if k == Kind::KwInt {
            let (d, q) = parse_decl(t, p)?;
            proof {
                reveal(tok_item);
            }
            (CompUnitItem::Decl(d), q)
        } else {
            return Err(ParseError::UnexpectedToken(p));
        };
        proof {
            lemma_concat(t@, 0, p as int, q as int, tok_unit_items(items@), tok_item(item));
            lemma_unit_items_push(items@, item);
        }
        items.push(item);
        p = q;
    }
    proof {
        assert(t@.subrange(0, p as int) =~= t@);
    }
    Ok(CompUnit { items })
}

/// Parses SysY source text into a syntax tree.
pub struct CompUnitParser {}

impl CompUnitParser {
    pub fn new() -> (r: Self) {
        CompUnitParser {}
    }

    /// Parses `src`. A returned tree spells exactly the tokens of `src`,
    /// taken at character ranges separated by white space and comments.
    pub fn parse(&self, src: &str) -> (r: Result<CompUnit, ParseError>)
        ensures
            r matches Ok(c) ==> exists|toks: Seq<Token>, spans: Seq<(usize, usize)>|
                lexed_from(src@, toks, spans) && #[trigger] tok_comp_unit(c) == toks,
            r matches Ok(c) ==> unit_else_nearest(c),
    {
        let chars = chars_of(src);
        let (toks, spans) = match lex(&chars) {
            Ok(ts) => ts,
            Err(e) => { return Err(ParseError::Lex(e)); },
        };
        let c = parse_tokens(&toks)?;
        assert(lexed_from(src@, toks@, spans@) && tok_comp_unit(c) == toks@);
        Ok(c)
    }
}

} // verus!
