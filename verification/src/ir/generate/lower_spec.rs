//! What lowering an expression emits: the text, the operand that holds the
//! value, its type, and the counters of temporaries and labels afterwards,
//! as a function of the visible scopes, the counters before, and the
//! expression.
use vstd::prelude::*;
use crate::ast::{AddExp, EqExp, Exp, Ident, LAndExp, LOrExp, LVal, MulExp, PrimaryExp, RelExp, UnaryExp, UnaryOp,
    add_op_name, eq_op_name, mul_op_name, rel_op_name, AddOp, EqOp, MulOp, RelOp, add_value, eq_holds, koopa_arith,
    koopa_compare, law_add_op_name, law_eq_op_name, law_mul_op_name, law_rel_op_name, mul_value, rel_holds};
use super::super::context::{operand_text, Label, Operand};
use super::super::emit::{br_text, inst_text, jump_arg_text, label_line, load_text, param_label_text};
use super::super::error::{at_name, ErrView};
use super::super::symbol::{lookup_in, SymbolView, Tables};
use super::super::types::{type_text, Type};

verus! {

/// The scopes visible while lowering, outermost first.
pub type Scopes = Tables;

/// The outcome of lowering an expression.
pub struct Gen {
    pub text: Seq<char>,
    pub value: Operand,
    pub ty: Type,
    pub temp: usize,
    pub label: usize,
}

/// The outcome of lowering call arguments.
pub struct ArgsGen {
    pub text: Seq<char>,
    pub values: Seq<Operand>,
    pub temp: usize,
    pub label: usize,
}

/// `a` followed by `b`: the text of both, the value and counters of `b`.
pub open spec fn after(a: Seq<char>, b: Gen) -> Gen {
    Gen { text: a + b.text, ..b }
}

/// A binary instruction on two `i32` operands into a fresh temporary.
pub open spec fn bin(op: Seq<char>, a: Gen, b: Gen) -> Result<Gen, ErrView> {
    if a.ty != Type::I32 || b.ty != Type::I32 {
        Err(ErrView::ExpectedValue)
    } else if b.temp == usize::MAX {
        Err(ErrView::TooManyNames)
    } else {
        Ok(Gen {
            text: a.text + b.text + inst_text(b.temp, op, a.value, b.value),
            value: Operand::Temporary(b.temp),
            ty: Type::I32,
            temp: (b.temp + 1) as usize,
            label: b.label,
        })
    }
}

/// The text that merges the outcomes of `||` or `&&` in the block `end`,
/// whose parameter is the temporary `t`.
pub open spec fn merge_text(tl: Label, fl: Label, end: Label, t: usize) -> Seq<char> {
    label_line(tl) + jump_arg_text(end, Operand::Immediate(1)) + label_line(fl) + jump_arg_text(end, Operand::Immediate(0))
        + param_label_text(end, t)
}

#[verifier::opaque]
pub open spec fn lower_exp(s: Scopes, t: usize, l: usize, e: Exp) -> Result<Gen, ErrView>
    decreases e, 0nat, 0nat,
{
    lower_lor(s, t, l, e.l_or_exp)
}

/// An expression whose value must be an `i32`.
#[verifier::opaque]
pub open spec fn lower_i32(s: Scopes, t: usize, l: usize, e: Exp) -> Result<Gen, ErrView>
    decreases e, 1nat, 0nat,
{
    match lower_exp(s, t, l, e) {
        Err(x) => Err(x),
        Ok(g) => if g.ty == Type::I32 { Ok(g) } else { Err(ErrView::ExpectedValue) },
    }
}

/// An expression that must have a value.
#[verifier::opaque]
pub open spec fn lower_value(s: Scopes, t: usize, l: usize, e: Exp) -> Result<Gen, ErrView>
    decreases e, 1nat, 0nat,
{
    match lower_exp(s, t, l, e) {
        Err(x) => Err(x),
        Ok(g) => if g.ty == Type::Void { Err(ErrView::ExpectedValue) } else { Ok(g) },
    }
}

/// `a || b`: `b` is only evaluated when `a` is zero; the result is `1` or
/// `0` in the parameter of the end block.
#[verifier::opaque]
pub open spec fn lower_lor(s: Scopes, t: usize, l: usize, x: LOrExp) -> Result<Gen, ErrView>
    decreases x, 0nat, 0nat,
{
    match x {
        LOrExp::LAndExp(a) => lower_land(s, t, l, a),
        LOrExp::LOrOp(lx, r) => match lower_lor(s, t, l, *lx) {
            Err(e) => Err(e),
            Ok(a) => if a.ty != Type::I32 {
                Err(ErrView::ExpectedValue)
            } else if a.label > usize::MAX - 4 {
                Err(ErrView::TooManyNames)
            } else {
                let rl = Label { name: "or_rhs", id: a.label };
                let tl = Label { name: "or_true", id: (a.label + 1) as usize };
                let fl = Label { name: "or_false", id: (a.label + 2) as usize };
                let el = Label { name: "or_end", id: (a.label + 3) as usize };
                match lower_land(s, a.temp, (a.label + 4) as usize, r) {
                    Err(e) => Err(e),
                    Ok(b) => if b.ty != Type::I32 {
                        Err(ErrView::ExpectedValue)
                    } else if b.temp == usize::MAX {
                        Err(ErrView::TooManyNames)
                    } else {
                        Ok(Gen {
                            text: a.text + br_text(a.value, tl, rl) + label_line(rl) + b.text + br_text(b.value, tl, fl)
                                + merge_text(tl, fl, el, b.temp),
                            value: Operand::Temporary(b.temp),
                            ty: Type::I32,
                            temp: (b.temp + 1) as usize,
                            label: b.label,
                        })
                    },
                }
            },
        },
    }
}

/// `a && b`: `b` is only evaluated when `a` is not zero.
#[verifier::opaque]
pub open spec fn lower_land(s: Scopes, t: usize, l: usize, x: LAndExp) -> Result<Gen, ErrView>
    decreases x, 0nat, 0nat,
{
    match x {
        LAndExp::EqExp(a) => lower_eq(s, t, l, a),
        LAndExp::LAndOp(lx, r) => match lower_land(s, t, l, *lx) {
            Err(e) => Err(e),
            Ok(a) => if a.ty != Type::I32 {
                Err(ErrView::ExpectedValue)
            } else if a.label > usize::MAX - 4 {
                Err(ErrView::TooManyNames)
            } else {
                let rl = Label { name: "and_rhs", id: a.label };
                let tl = Label { name: "and_true", id: (a.label + 1) as usize };
                let fl = Label { name: "and_false", id: (a.label + 2) as usize };
                let el = Label { name: "and_end", id: (a.label + 3) as usize };
                match lower_eq(s, a.temp, (a.label + 4) as usize, r) {
                    Err(e) => Err(e),
                    Ok(b) => if b.ty != Type::I32 {
                        Err(ErrView::ExpectedValue)
                    } else if b.temp == usize::MAX {
                        Err(ErrView::TooManyNames)
                    } else {
                        Ok(Gen {
                            text: a.text + br_text(a.value, rl, fl) + label_line(rl) + b.text + br_text(b.value, tl, fl)
                                + merge_text(tl, fl, el, b.temp),
                            value: Operand::Temporary(b.temp),
                            ty: Type::I32,
                            temp: (b.temp + 1) as usize,
                            label: b.label,
                        })
                    },
                }
            },
        },
    }
}

#[verifier::opaque]
pub open spec fn lower_eq(s: Scopes, t: usize, l: usize, x: EqExp) -> Result<Gen, ErrView>
    decreases x, 0nat, 0nat,
{
    match x {
        EqExp::RelExp(a) => lower_rel(s, t, l, a),
        EqExp::EqOp(lx, op, r) => match lower_eq(s, t, l, *lx) {
            Err(e) => Err(e),
            Ok(a) => match lower_rel(s, a.temp, a.label, r) {
                Err(e) => Err(e),
                Ok(b) => bin(eq_op_name(op), a, b),
            },
        },
    }
}

#[verifier::opaque]
pub open spec fn lower_rel(s: Scopes, t: usize, l: usize, x: RelExp) -> Result<Gen, ErrView>
    decreases x, 0nat, 0nat,
{
    match x {
        RelExp::AddExp(a) => lower_add(s, t, l, a),
        RelExp::RelOp(lx, op, r) => match lower_rel(s, t, l, *lx) {
            Err(e) => Err(e),
            Ok(a) => match lower_add(s, a.temp, a.label, r) {
                Err(e) => Err(e),
                Ok(b) => bin(rel_op_name(op), a, b),
            },
        },
    }
}

#[verifier::opaque]
pub open spec fn lower_add(s: Scopes, t: usize, l: usize, x: AddExp) -> Result<Gen, ErrView>
    decreases x, 0nat, 0nat,
{
    match x {
        AddExp::MulExp(a) => lower_mul(s, t, l, a),
        AddExp::AddOp(lx, op, r) => match lower_add(s, t, l, *lx) {
            Err(e) => Err(e),
            Ok(a) => match lower_mul(s, a.temp, a.label, r) {
                Err(e) => Err(e),
                Ok(b) => bin(add_op_name(op), a, b),
            },
        },
    }
}

#[verifier::opaque]
pub open spec fn lower_mul(s: Scopes, t: usize, l: usize, x: MulExp) -> Result<Gen, ErrView>
    decreases x, 0nat, 0nat,
{
    match x {
        MulExp::UnaryExp(a) => lower_unary(s, t, l, a),
        MulExp::MulOp(lx, op, r) => match lower_mul(s, t, l, *lx) {
            Err(e) => Err(e),
            Ok(a) => match lower_unary(s, a.temp, a.label, r) {
                Err(e) => Err(e),
                Ok(b) => bin(mul_op_name(op), a, b),
            },
        },
    }
}

/// Unary operators take a fresh temporary, even `+`, which keeps its
/// operand.
#[verifier::opaque]
pub open spec fn lower_unary(s: Scopes, t: usize, l: usize, x: UnaryExp) -> Result<Gen, ErrView>
    decreases x, 0nat, 0nat,
{
    match x {
        UnaryExp::PrimaryExp(p) => lower_primary(s, t, l, p),
        UnaryExp::UnaryOp(op, u) => match lower_unary(s, t, l, *u) {
            Err(e) => Err(e),
            Ok(a) => if a.ty != Type::I32 {
                Err(ErrView::ExpectedValue)
            } else if a.temp == usize::MAX {
                Err(ErrView::TooManyNames)
            } else {
                match op {
                    UnaryOp::Plus => Ok(Gen { temp: (a.temp + 1) as usize, ..a }),
                    UnaryOp::Minus => Ok(Gen {
                        text: a.text + inst_text(a.temp, "sub"@, Operand::Immediate(0), a.value),
                        value: Operand::Temporary(a.temp),
                        ty: Type::I32,
                        temp: (a.temp + 1) as usize,
                        label: a.label,
                    }),
                    UnaryOp::Not => Ok(Gen {
                        text: a.text + inst_text(a.temp, "eq"@, Operand::Immediate(0), a.value),
                        value: Operand::Temporary(a.temp),
                        ty: Type::I32,
                        temp: (a.temp + 1) as usize,
                        label: a.label,
                    }),
                }
            },
        },
        UnaryExp::FuncCall(id, args) => lower_call(s, t, l, id, args),
    }
}

#[verifier::opaque]
pub open spec fn lower_primary(s: Scopes, t: usize, l: usize, x: PrimaryExp) -> Result<Gen, ErrView>
    decreases x, 0nat, 0nat,
{
    match x {
        PrimaryExp::Exp(e) => lower_exp(s, t, l, *e),
        PrimaryExp::Number(n) => Ok(Gen { text: Seq::empty(), value: Operand::Immediate(n.value), ty: Type::I32, temp: t, label: l }),
        PrimaryExp::LVal(lv) => lower_lval(s, t, l, lv),
    }
}

/// The value of a name or element: a constant's value, a loaded `i32` or
/// pointer, or the address of the first element of an array.
#[verifier::opaque]
pub open spec fn lower_lval(s: Scopes, t: usize, l: usize, lv: LVal) -> Result<Gen, ErrView>
    decreases lv, 2nat, 0nat,
{
    match lookup_in(s, lv.id.id@) {
        None => Err(ErrView::UndefinedSymbol(at_name(lv.id.id@))),
        Some(SymbolView::Const(v)) => if lv.indices@.len() == 0 {
            Ok(Gen { text: Seq::empty(), value: Operand::Immediate(v), ty: Type::I32, temp: t, label: l })
        } else {
            Err(ErrView::InvalidLVal(at_name(lv.id.id@)))
        },
        Some(SymbolView::Func { .. }) => Err(ErrView::InvalidLVal(at_name(lv.id.id@))),
        Some(SymbolView::Object { .. }) => match lower_place(s, t, l, lv) {
            Err(e) => Err(e),
            Ok(p) => if p.ty == Type::Void {
                Err(ErrView::ExpectedValue)
            } else if p.temp == usize::MAX {
                Err(ErrView::TooManyNames)
            } else {
                match p.ty {
                    Type::Array(e, _) => Ok(Gen {
                        text: p.text + inst_text(p.temp, "getelemptr"@, p.value, Operand::Immediate(0)),
                        value: Operand::Temporary(p.temp),
                        ty: Type::Pointer(e),
                        temp: (p.temp + 1) as usize,
                        label: p.label,
                    }),
                    _ => Ok(Gen {
                        text: p.text + load_text(p.temp, p.value),
                        value: Operand::Temporary(p.temp),
                        ty: p.ty,
                        temp: (p.temp + 1) as usize,
                        label: p.label,
                    }),
                }
            },
        },
    }
}

/// The address (in `value`) and type of the object or element that `lv`
/// names. A pointer parameter is loaded and offset by its first index with
/// `getptr`; each further index selects an element with `getelemptr`.
#[verifier::opaque]
pub open spec fn lower_place(s: Scopes, t: usize, l: usize, lv: LVal) -> Result<Gen, ErrView>
    decreases lv, 1nat, 0nat,
{
    match lookup_in(s, lv.id.id@) {
        None => Err(ErrView::UndefinedSymbol(at_name(lv.id.id@))),
        Some(SymbolView::Object { address, ty, .. }) => if lv.indices@.len() > 0 && ty is Pointer {
            if t == usize::MAX {
                Err(ErrView::TooManyNames)
            } else {
                match lower_i32(s, (t + 1) as usize, l, lv.indices@[0]) {
                    Err(e) => Err(e),
                    Ok(g) => if g.temp == usize::MAX {
                        Err(ErrView::TooManyNames)
                    } else {
                        match lower_chain(s, (g.temp + 1) as usize, g.label, lv, 1, Operand::Temporary(g.temp), *(ty->Pointer_0)) {
                            Err(e) => Err(e),
                            Ok(c) => Ok(after(load_text(t, Operand::Variable(address)) + g.text
                                + inst_text(g.temp, "getptr"@, Operand::Temporary(t), g.value), c)),
                        }
                    },
                }
            }
        } else {
            lower_chain(s, t, l, lv, 0, Operand::Variable(address), ty)
        },
        Some(_) => Err(ErrView::InvalidLVal(at_name(lv.id.id@))),
    }
}

/// Applies the indices of `lv` from position `k` on to the address `addr`
/// of a value of type `ty`.
#[verifier::opaque]
pub open spec fn lower_chain(s: Scopes, t: usize, l: usize, lv: LVal, k: nat, addr: Operand, ty: Type)
    -> Result<Gen, ErrView>
    decreases lv, 0nat, lv.indices@.len() - k,
{
    if k >= lv.indices@.len() {
        Ok(Gen { text: Seq::empty(), value: addr, ty, temp: t, label: l })
    } else {
        match ty {
            Type::Array(e, _) => {
                proof {
                    assert(decreases_to!(lv => lv.indices@[k as int]));
                }
                match lower_i32(s, t, l, lv.indices@[k as int]) {
                    Err(x) => Err(x),
                    Ok(g) => if g.temp == usize::MAX {
                        Err(ErrView::TooManyNames)
                    } else {
                        match lower_chain(s, (g.temp + 1) as usize, g.label, lv, k + 1, Operand::Temporary(g.temp), *e) {
                            Err(x) => Err(x),
                            Ok(c) => Ok(after(g.text + inst_text(g.temp, "getelemptr"@, addr, g.value), c)),
                        }
                    },
                }
            },
            _ => Err(ErrView::InvalidLVal(at_name(lv.id.id@))),
        }
    }
}

/// The operands of a call, separated by `, `.
pub open spec fn join_operands(v: Seq<Operand>) -> Seq<char>
    decreases v.len(),
{
    if v.len() == 0 {
        Seq::empty()
    } else if v.len() == 1 {
        operand_text(v[0])
    } else {
        join_operands(v.drop_last()) + ", "@ + operand_text(v.last())
    }
}

/// `call @f(args)`.
pub open spec fn call_text(name: Seq<char>, v: Seq<Operand>) -> Seq<char> {
    "call @"@ + name + "("@ + join_operands(v) + ")"@
}

/// A call: the callee must be a function, the arguments must match its
/// parameters in number, and each argument, lowered left to right, must
/// have its parameter's type.
#[verifier::opaque]
pub open spec fn lower_call(s: Scopes, t: usize, l: usize, id: Ident, args: Vec<Exp>) -> Result<Gen, ErrView>
    decreases args, 1nat, 0nat,
{
    match lookup_in(s, id.id@) {
        None => Err(ErrView::UndefinedSymbol(at_name(id.id@))),
        Some(SymbolView::Func { identifier, params, ret, .. }) => if args@.len() != params.len() {
            Err(ErrView::ArgumentCountMismatch {
                function: at_name(id.id@),
                expected: params.len() as usize,
                actual: args@.len() as usize,
            })
        } else {
            match lower_args(s, t, l, id.id@, params, args, 0) {
                Err(e) => Err(e),
                Ok(a) => if ret == Type::I32 {
                    if a.temp == usize::MAX {
                        Err(ErrView::TooManyNames)
                    } else {
                        Ok(Gen {
                            text: a.text + "\t"@ + operand_text(Operand::Temporary(a.temp)) + " = "@
                                + call_text(identifier, a.values) + "\n"@,
                            value: Operand::Temporary(a.temp),
                            ty: Type::I32,
                            temp: (a.temp + 1) as usize,
                            label: a.label,
                        })
                    }
                } else {
                    Ok(Gen {
                        text: a.text + "\t"@ + call_text(identifier, a.values) + "\n"@,
                        value: Operand::Immediate(0),
                        ty: Type::Void,
                        temp: a.temp,
                        label: a.label,
                    })
                },
            }
        },
        Some(_) => Err(ErrView::NotAFunction(at_name(id.id@))),
    }
}

/// The arguments from position `k` on.
#[verifier::opaque]
pub open spec fn lower_args(s: Scopes, t: usize, l: usize, name: Seq<char>, params: Seq<Type>, args: Vec<Exp>, k: nat)
    -> Result<ArgsGen, ErrView>
    decreases args, 0nat, args@.len() - k,
{
    if k >= args@.len() {
        Ok(ArgsGen { text: Seq::empty(), values: Seq::empty(), temp: t, label: l })
    } else {
        proof {
            assert(decreases_to!(args => args@[k as int]));
        }
        match lower_value(s, t, l, args@[k as int]) {
            Err(e) => Err(e),
            Ok(g) => if g.ty != params[k as int] {
                Err(ErrView::ArgumentTypeMismatch {
                    function: at_name(name),
                    index: k as usize,
                    expected: type_text(params[k as int]),
                    actual: type_text(g.ty),
                })
            } else {
                match lower_args(s, g.temp, g.label, name, params, args, k + 1) {
                    Err(e) => Err(e),
                    Ok(rest) => Ok(ArgsGen {
                        text: g.text + rest.text,
                        values: seq![g.value] + rest.values,
                        temp: rest.temp,
                        label: rest.label,
                    }),
                }
            },
        }
    }
}

#[verifier::spinoff_prover]
#[verifier::rlimit(50)]
pub proof fn lemma_lower_exp(s: Scopes, t: usize, l: usize, e: Exp)
    ensures
        lower_exp(s, t, l, e) == lower_lor(s, t, l, e.l_or_exp),
{
    reveal_with_fuel(lower_exp, 1);
}

/// A comparison `l op r` is lowered to the code of `l`, then that of `r`,
/// then one Koopa instruction that takes the value of `l` first and the
/// value of `r` second and tests the same relation as `op` on all operands.
pub proof fn law_lower_rel(s: Scopes, t: usize, l: usize, lx: RelExp, op: RelOp, r: AddExp)
    requires
        lower_rel(s, t, l, RelExp::RelOp(Box::new(lx), op, r)) is Ok,
    ensures
        ({
            let a = lower_rel(s, t, l, lx)->Ok_0;
            let b = lower_add(s, a.temp, a.label, r)->Ok_0;
            exists|n: Seq<char>| #[trigger] inst_text(b.temp, n, a.value, b.value) == inst_text(b.temp, n, a.value, b.value)
                && lower_rel(s, t, l, RelExp::RelOp(Box::new(lx), op, r))->Ok_0.text
                    == a.text + b.text + inst_text(b.temp, n, a.value, b.value)
                && forall|x: int, y: int| #[trigger] koopa_compare(n, x, y) == Some(rel_holds(op, x, y))
        }),
{
    reveal_with_fuel(lower_rel, 2);
    reveal_with_fuel(lower_add, 1);
    let x = RelExp::RelOp(Box::new(lx), op, r);
    assert(decreases_to!(x => lx));
    let a = lower_rel(s, t, l, lx)->Ok_0;
    let b = lower_add(s, a.temp, a.label, r)->Ok_0;
    let n = rel_op_name(op);
    assert forall|x: int, y: int| #[trigger] koopa_compare(n, x, y) == Some(rel_holds(op, x, y)) by {
        law_rel_op_name(op, x, y);
    }
    assert(inst_text(b.temp, n, a.value, b.value) == inst_text(b.temp, n, a.value, b.value));
}

/// An equality test `l op r` is lowered like a comparison: the value of `l`
/// first, that of `r` second, and an instruction that tests the same
/// relation as `op`.
pub proof fn law_lower_eq(s: Scopes, t: usize, l: usize, lx: EqExp, op: EqOp, r: RelExp)
    requires
        lower_eq(s, t, l, EqExp::EqOp(Box::new(lx), op, r)) is Ok,
    ensures
        ({
            let a = lower_eq(s, t, l, lx)->Ok_0;
            let b = lower_rel(s, a.temp, a.label, r)->Ok_0;
            exists|n: Seq<char>| #[trigger] inst_text(b.temp, n, a.value, b.value) == inst_text(b.temp, n, a.value, b.value)
                && lower_eq(s, t, l, EqExp::EqOp(Box::new(lx), op, r))->Ok_0.text
                    == a.text + b.text + inst_text(b.temp, n, a.value, b.value)
                && forall|x: int, y: int| #[trigger] koopa_compare(n, x, y) == Some(eq_holds(op, x, y))
        }),
{
    reveal_with_fuel(lower_eq, 2);
    reveal_with_fuel(lower_rel, 1);
    let x = EqExp::EqOp(Box::new(lx), op, r);
    assert(decreases_to!(x => lx));
    let a = lower_eq(s, t, l, lx)->Ok_0;
    let b = lower_rel(s, a.temp, a.label, r)->Ok_0;
    let n = eq_op_name(op);
    assert forall|x: int, y: int| #[trigger] koopa_compare(n, x, y) == Some(eq_holds(op, x, y)) by {
        law_eq_op_name(op, x, y);
    }
    assert(inst_text(b.temp, n, a.value, b.value) == inst_text(b.temp, n, a.value, b.value));
}

/// `l op r` with an additive operator is lowered to the code of `l`, then
/// that of `r`, then an instruction that takes the value of `l` first and
/// computes the same value as `op` on all operands.
pub proof fn law_lower_add(s: Scopes, t: usize, l: usize, lx: AddExp, op: AddOp, r: MulExp)
    requires
        lower_add(s, t, l, AddExp::AddOp(Box::new(lx), op, r)) is Ok,
    ensures
        ({
            let a = lower_add(s, t, l, lx)->Ok_0;
            let b = lower_mul(s, a.temp, a.label, r)->Ok_0;
            exists|n: Seq<char>| #[trigger] inst_text(b.temp, n, a.value, b.value) == inst_text(b.temp, n, a.value, b.value)
                && lower_add(s, t, l, AddExp::AddOp(Box::new(lx), op, r))->Ok_0.text
                    == a.text + b.text + inst_text(b.temp, n, a.value, b.value)
                && forall|x: i32, y: i32| #[trigger] koopa_arith(n, x, y) == Some(add_value(op, x, y))
        }),
{
    reveal_with_fuel(lower_add, 2);
    reveal_with_fuel(lower_mul, 1);
    let x = AddExp::AddOp(Box::new(lx), op, r);
    assert(decreases_to!(x => lx));
    let a = lower_add(s, t, l, lx)->Ok_0;
    let b = lower_mul(s, a.temp, a.label, r)->Ok_0;
    let n = add_op_name(op);
    assert forall|x: i32, y: i32| #[trigger] koopa_arith(n, x, y) == Some(add_value(op, x, y)) by {
        law_add_op_name(op, x, y);
    }
    assert(inst_text(b.temp, n, a.value, b.value) == inst_text(b.temp, n, a.value, b.value));
}

/// `l op r` with a multiplicative operator is lowered to the code of `l`,
/// then that of `r`, then an instruction that takes the value of `l` first
/// and computes the same value as `op` wherever it is defined.
pub proof fn law_lower_mul(s: Scopes, t: usize, l: usize, lx: MulExp, op: MulOp, r: UnaryExp)
    requires
        lower_mul(s, t, l, MulExp::MulOp(Box::new(lx), op, r)) is Ok,
    ensures
        ({
            let a = lower_mul(s, t, l, lx)->Ok_0;
            let b = lower_unary(s, a.temp, a.label, r)->Ok_0;
            exists|n: Seq<char>| #[trigger] inst_text(b.temp, n, a.value, b.value) == inst_text(b.temp, n, a.value, b.value)
                && lower_mul(s, t, l, MulExp::MulOp(Box::new(lx), op, r))->Ok_0.text
                    == a.text + b.text + inst_text(b.temp, n, a.value, b.value)
                && forall|x: i32, y: i32| #[trigger] koopa_arith(n, x, y) == mul_value(op, x, y)
        }),
{
    reveal_with_fuel(lower_mul, 2);
    reveal_with_fuel(lower_unary, 1);
    let x = MulExp::MulOp(Box::new(lx), op, r);
    assert(decreases_to!(x => lx));
    let a = lower_mul(s, t, l, lx)->Ok_0;
    let b = lower_unary(s, a.temp, a.label, r)->Ok_0;
    let n = mul_op_name(op);
    assert forall|x: i32, y: i32| #[trigger] koopa_arith(n, x, y) == mul_value(op, x, y) by {
        law_mul_op_name(op, x, y);
    }
    assert(inst_text(b.temp, n, a.value, b.value) == inst_text(b.temp, n, a.value, b.value));
}

/// `-x` is lowered to one instruction on the constant 0 first and the value
/// of `x` second whose result is the negation of `x` (wrapped to 32 bits);
/// `!x` to one on 0 and `x` whose result is 1 exactly when `x` is 0.
pub proof fn law_lower_unary(s: Scopes, t: usize, l: usize, op: UnaryOp, u: UnaryExp)
    requires
        lower_unary(s, t, l, UnaryExp::UnaryOp(op, Box::new(u))) is Ok,
        op != UnaryOp::Plus,
    ensures
        ({
            let a = lower_unary(s, t, l, u)->Ok_0;
            exists|n: Seq<char>| #[trigger] inst_text(a.temp, n, Operand::Immediate(0), a.value)
                    == inst_text(a.temp, n, Operand::Immediate(0), a.value)
                && lower_unary(s, t, l, UnaryExp::UnaryOp(op, Box::new(u)))->Ok_0.text
                    == a.text + inst_text(a.temp, n, Operand::Immediate(0), a.value)
                && (op == UnaryOp::Minus ==> forall|x: i32| #[trigger] koopa_arith(n, 0, x) matches Some(w)
                    && (if x == i32::MIN { w == i32::MIN } else { w as int == -(x as int) }))
                && (op == UnaryOp::Not ==> forall|x: int| #[trigger] koopa_compare(n, 0, x) == Some(x == 0))
        }),
{
    reveal_with_fuel(lower_unary, 2);
    reveal_with_fuel(lower_primary, 1);
    let x = UnaryExp::UnaryOp(op, Box::new(u));
    assert(decreases_to!(x => u));
    let a = lower_unary(s, t, l, u)->Ok_0;
    if op == UnaryOp::Minus {
        assert forall|x: i32| #[trigger] koopa_arith("sub"@, 0, x) matches Some(w)
            && (if x == i32::MIN { w == i32::MIN } else { w as int == -(x as int) }) by {
            law_add_op_name(AddOp::Sub, 0, x);
        }
        assert(inst_text(a.temp, "sub"@, Operand::Immediate(0), a.value) == inst_text(a.temp, "sub"@, Operand::Immediate(0), a.value));
    } else {
        assert forall|x: int| #[trigger] koopa_compare("eq"@, 0, x) == Some(x == 0) by {
            law_eq_op_name(EqOp::Eq, 0, x);
        }
        assert(inst_text(a.temp, "eq"@, Operand::Immediate(0), a.value) == inst_text(a.temp, "eq"@, Operand::Immediate(0), a.value));
    }
}

/// Code that tests `av` (computed by `at`), branching to `t1` when nonzero
/// and `f1` when zero, then in block `rl` tests `bv` (computed by `bt`),
/// branching to `tl` or `fl`; block `tl` passes 1 and block `fl` passes 0
/// to block `el`, whose parameter is `%k`.
pub open spec fn two_tests(at: Seq<char>, av: Operand, t1: Label, f1: Label, rl: Label, bt: Seq<char>, bv: Operand,
    tl: Label, fl: Label, el: Label, k: usize) -> Seq<char>
{
    at + br_text(av, t1, f1) + label_line(rl) + bt + br_text(bv, tl, fl) + label_line(tl)
        + jump_arg_text(el, Operand::Immediate(1)) + label_line(fl) + jump_arg_text(el, Operand::Immediate(0))
        + param_label_text(el, k)
}

/// `l || r` yields 1 as soon as `l` is nonzero and evaluates `r` only when
/// `l` is zero: the code of `l` branches to a block that passes 1 to the
/// end block when `l` is nonzero and otherwise to the block that follows,
/// where `r` is evaluated and branches to that block when nonzero and to
/// one that passes 0 when zero.
pub proof fn law_lower_lor(s: Scopes, t: usize, l: usize, lx: LOrExp, r: LAndExp)
    requires
        lower_lor(s, t, l, LOrExp::LOrOp(Box::new(lx), r)) is Ok,
    ensures
        ({
            let a = lower_lor(s, t, l, lx)->Ok_0;
            let g = lower_lor(s, t, l, LOrExp::LOrOp(Box::new(lx), r))->Ok_0;
            exists|tl: Label, fl: Label, rl: Label, el: Label, bt: Seq<char>, bv: Operand, k: usize|
                g.text == #[trigger] two_tests(a.text, a.value, tl, rl, rl, bt, bv, tl, fl, el, k)
                && g.value == Operand::Temporary(k)
        }),
{
    reveal_with_fuel(lower_lor, 2);
    reveal_with_fuel(lower_land, 1);
    let x = LOrExp::LOrOp(Box::new(lx), r);
    assert(decreases_to!(x => lx));
    let a = lower_lor(s, t, l, lx)->Ok_0;
    let b = lower_land(s, a.temp, (a.label + 4) as usize, r)->Ok_0;
    let rl = Label { name: "or_rhs", id: a.label };
    let tl = Label { name: "or_true", id: (a.label + 1) as usize };
    let fl = Label { name: "or_false", id: (a.label + 2) as usize };
    let el = Label { name: "or_end", id: (a.label + 3) as usize };
    let g = lower_lor(s, t, l, x)->Ok_0;
    assert(g.text =~= a.text + br_text(a.value, tl, rl) + label_line(rl) + b.text + br_text(b.value, tl, fl)
        + label_line(tl) + jump_arg_text(el, Operand::Immediate(1)) + label_line(fl)
        + jump_arg_text(el, Operand::Immediate(0)) + param_label_text(el, b.temp));
    assert(g.text == two_tests(a.text, a.value, tl, rl, rl, b.text, b.value, tl, fl, el, b.temp));
}

/// `l && r` yields 0 as soon as `l` is zero and evaluates `r` only when `l`
/// is nonzero: the code of `l` branches to the block that follows, where
/// `r` is evaluated, when nonzero and otherwise to a block that passes 0 to
/// the end block; `r` branches to a block that passes 1 when nonzero and to
/// the one that passes 0 when zero.
pub proof fn law_lower_land(s: Scopes, t: usize, l: usize, lx: LAndExp, r: EqExp)
    requires
        lower_land(s, t, l, LAndExp::LAndOp(Box::new(lx), r)) is Ok,
    ensures
        ({
            let a = lower_land(s, t, l, lx)->Ok_0;
            let g = lower_land(s, t, l, LAndExp::LAndOp(Box::new(lx), r))->Ok_0;
            exists|tl: Label, fl: Label, rl: Label, el: Label, bt: Seq<char>, bv: Operand, k: usize|
                g.text == #[trigger] two_tests(a.text, a.value, rl, fl, rl, bt, bv, tl, fl, el, k)
                && g.value == Operand::Temporary(k)
        }),
{
    reveal_with_fuel(lower_land, 2);
    reveal_with_fuel(lower_eq, 1);
    let x = LAndExp::LAndOp(Box::new(lx), r);
    assert(decreases_to!(x => lx));
    let a = lower_land(s, t, l, lx)->Ok_0;
    let b = lower_eq(s, a.temp, (a.label + 4) as usize, r)->Ok_0;
    let rl = Label { name: "and_rhs", id: a.label };
    let tl = Label { name: "and_true", id: (a.label + 1) as usize };
    let fl = Label { name: "and_false", id: (a.label + 2) as usize };
    let el = Label { name: "and_end", id: (a.label + 3) as usize };
    let g = lower_land(s, t, l, x)->Ok_0;
    assert(g.text =~= a.text + br_text(a.value, rl, fl) + label_line(rl) + b.text + br_text(b.value, tl, fl)
        + label_line(tl) + jump_arg_text(el, Operand::Immediate(1)) + label_line(fl)
        + jump_arg_text(el, Operand::Immediate(0)) + param_label_text(el, b.temp));
    assert(g.text == two_tests(a.text, a.value, rl, fl, rl, b.text, b.value, tl, fl, el, b.temp));
}

} // verus!
