//! Evaluation of constant expressions: array lengths, constant
//! initializers and the initializers of global variables.
use vstd::prelude::*;
use crate::ast::{add_value, eq_holds, mul_value, rel_holds, AddExp, AddOp, EqExp, EqOp, Exp, LAndExp, LOrExp, LVal, MulExp, MulOp, PrimaryExp, RelExp, RelOp, UnaryExp, UnaryOp};
use super::IRBuilder;
use super::error::{at_name, at_name_string, ErrView, IRBuilderErr};
use super::symbol::{lookup_in, Symbol, SymbolView, Tables};
use super::types::{spec_count, type_ok, Type};

verus! {

/// `1` for true, `0` for false.
pub open spec fn truth(b: bool) -> i32 {
    if b { 1 } else { 0 }
}

/// The value of a constant expression in the scopes of `c`. Arithmetic
/// wraps around on overflow; dividing by zero, or `i32::MIN` by `-1`, is an
/// error; `||` and `&&` do not evaluate their right operand when the left
/// one decides.
pub open spec fn ev_exp(c: Tables, e: Exp) -> Result<i32, ErrView>
    decreases e,
{
    ev_lor(c, e.l_or_exp)
}

pub open spec fn ev_lor(c: Tables, x: LOrExp) -> Result<i32, ErrView>
    decreases x,
{
    match x {
        LOrExp::LAndExp(a) => ev_land(c, a),
        LOrExp::LOrOp(l, r) => match ev_lor(c, *l) {
            Err(e) => Err(e),
            Ok(v) => if v != 0 {
                Ok(1)
            } else {
                match ev_land(c, r) {
                    Err(e) => Err(e),
                    Ok(w) => Ok(truth(w != 0)),
                }
            },
        },
    }
}

pub open spec fn ev_land(c: Tables, x: LAndExp) -> Result<i32, ErrView>
    decreases x,
{
    match x {
        LAndExp::EqExp(a) => ev_eq(c, a),
        LAndExp::LAndOp(l, r) => match ev_land(c, *l) {
            Err(e) => Err(e),
            Ok(v) => if v == 0 {
                Ok(0)
            } else {
                match ev_eq(c, r) {
                    Err(e) => Err(e),
                    Ok(w) => Ok(truth(w != 0)),
                }
            },
        },
    }
}

pub open spec fn ev_eq(c: Tables, x: EqExp) -> Result<i32, ErrView>
    decreases x,
{
    match x {
        EqExp::RelExp(a) => ev_rel(c, a),
        EqExp::EqOp(l, op, r) => match ev_eq(c, *l) {
            Err(e) => Err(e),
            Ok(a) => match ev_rel(c, r) {
                Err(e) => Err(e),
                Ok(b) => Ok(match op {
                    EqOp::Eq => truth(a == b),
                    EqOp::Ne => truth(a != b),
                }),
            },
        },
    }
}

pub open spec fn ev_rel(c: Tables, x: RelExp) -> Result<i32, ErrView>
    decreases x,
{
    match x {
        RelExp::AddExp(a) => ev_add(c, a),
        RelExp::RelOp(l, op, r) => match ev_rel(c, *l) {
            Err(e) => Err(e),
            Ok(a) => match ev_add(c, r) {
                Err(e) => Err(e),
                Ok(b) => Ok(match op {
                    RelOp::Lt => truth(a < b),
                    RelOp::Gt => truth(a > b),
                    RelOp::Le => truth(a <= b),
                    RelOp::Ge => truth(a >= b),
                }),
            },
        },
    }
}

/// A constant comparison is 1 when the relation holds between the integer
/// values of its operands and 0 otherwise.
pub proof fn law_ev_rel(c: Tables, l: RelExp, op: RelOp, r: AddExp)
    requires
        ev_rel(c, l) is Ok,
        ev_add(c, r) is Ok,
    ensures
        ev_rel(c, RelExp::RelOp(Box::new(l), op, r)) == Ok::<i32, ErrView>(
            if rel_holds(op, ev_rel(c, l)->Ok_0 as int, ev_add(c, r)->Ok_0 as int) { 1i32 } else { 0i32 }),
{
}

/// A constant equality test is 1 when the integer values of its operands
/// are (for `==`) or are not (for `!=`) equal, and 0 otherwise.
pub proof fn law_ev_eq(c: Tables, l: EqExp, op: EqOp, r: RelExp)
    requires
        ev_eq(c, l) is Ok,
        ev_rel(c, r) is Ok,
    ensures
        ev_eq(c, EqExp::EqOp(Box::new(l), op, r)) == Ok::<i32, ErrView>(
            if eq_holds(op, ev_eq(c, l)->Ok_0 as int, ev_rel(c, r)->Ok_0 as int) { 1i32 } else { 0i32 }),
{
}

/// A constant sum or difference is the value of the additive operator on
/// the values of its operands.
pub proof fn law_ev_add(c: Tables, l: AddExp, op: AddOp, r: MulExp)
    requires
        ev_add(c, l) is Ok,
        ev_mul(c, r) is Ok,
    ensures
        ev_add(c, AddExp::AddOp(Box::new(l), op, r)) == Ok::<i32, ErrView>(add_value(op, ev_add(c, l)->Ok_0, ev_mul(c, r)->Ok_0)),
{
}

/// A constant product, quotient or remainder is the value of the
/// multiplicative operator on the values of its operands, and a division
/// that is undefined (by zero, or overflowing) is an error.
pub proof fn law_ev_mul(c: Tables, l: MulExp, op: MulOp, r: UnaryExp)
    requires
        ev_mul(c, l) is Ok,
        ev_unary(c, r) is Ok,
    ensures
        ev_mul(c, MulExp::MulOp(Box::new(l), op, r)) == match mul_value(op, ev_mul(c, l)->Ok_0, ev_unary(c, r)->Ok_0) {
            Some(v) => Ok::<i32, ErrView>(v),
            None => Err(ErrView::InvalidConstDivision),
        },
{
}

/// `!x` is 1 when `x` is 0 and 0 otherwise; `-x` is the negation of `x`
/// (which stays `i32::MIN` for `i32::MIN`); `+x` is `x`.
pub proof fn law_ev_unary(c: Tables, op: UnaryOp, u: UnaryExp)
    requires
        ev_unary(c, u) is Ok,
    ensures
        ev_unary(c, UnaryExp::UnaryOp(op, Box::new(u))) matches Ok(w) && {
            let v = ev_unary(c, u)->Ok_0;
            match op {
                UnaryOp::Plus => w == v,
                UnaryOp::Minus => if v == i32::MIN { w == i32::MIN } else { w as int == -(v as int) },
                UnaryOp::Not => (w == 1 <==> v == 0) && (w == 0 <==> v != 0),
            }
        },
{
}

/// `l && r` is 0 without looking at `r` when `l` is 0; otherwise it is 1
/// exactly when `r` is nonzero.
pub proof fn law_ev_land(c: Tables, l: LAndExp, r: EqExp)
    requires
        ev_land(c, l) is Ok,
    ensures
        ev_land(c, l)->Ok_0 == 0 ==> ev_land(c, LAndExp::LAndOp(Box::new(l), r)) == Ok::<i32, ErrView>(0),
        ev_land(c, l)->Ok_0 != 0 && ev_eq(c, r) is Ok ==> ev_land(c, LAndExp::LAndOp(Box::new(l), r))
            == Ok::<i32, ErrView>(if ev_eq(c, r)->Ok_0 != 0 { 1i32 } else { 0i32 }),
{
}

/// `l || r` is 1 without looking at `r` when `l` is nonzero; otherwise it
/// is 1 exactly when `r` is nonzero.
pub proof fn law_ev_lor(c: Tables, l: LOrExp, r: LAndExp)
    requires
        ev_lor(c, l) is Ok,
    ensures
        ev_lor(c, l)->Ok_0 != 0 ==> ev_lor(c, LOrExp::LOrOp(Box::new(l), r)) == Ok::<i32, ErrView>(1),
        ev_lor(c, l)->Ok_0 == 0 && ev_land(c, r) is Ok ==> ev_lor(c, LOrExp::LOrOp(Box::new(l), r))
            == Ok::<i32, ErrView>(if ev_land(c, r)->Ok_0 != 0 { 1i32 } else { 0i32 }),
{
}

pub open spec fn ev_add(c: Tables, x: AddExp) -> Result<i32, ErrView>
    decreases x,
{
    match x {
        AddExp::MulExp(a) => ev_mul(c, a),
        AddExp::AddOp(l, op, r) => match ev_add(c, *l) {
            Err(e) => Err(e),
            Ok(a) => match ev_mul(c, r) {
                Err(e) => Err(e),
                Ok(b) => Ok(match op {
                    AddOp::Add => a.wrapping_add(b),
                    AddOp::Sub => a.wrapping_sub(b),
                }),
            },
        },
    }
}

/// `a / b` and `a % b` as Rust computes them, when they are defined.
pub open spec fn div_op(op: MulOp, a: i32, b: i32) -> Result<i32, ErrView> {
    match op {
        MulOp::Mul => Ok(a.wrapping_mul(b)),
        MulOp::Div => match a.checked_div(b) {
            Some(q) => Ok(q),
            None => Err(ErrView::InvalidConstDivision),
        },
        MulOp::Mod => match a.checked_rem(b) {
            Some(q) => Ok(q),
            None => Err(ErrView::InvalidConstDivision),
        },
    }
}

pub open spec fn ev_mul(c: Tables, x: MulExp) -> Result<i32, ErrView>
    decreases x,
{
    match x {
        MulExp::UnaryExp(a) => ev_unary(c, a),
        MulExp::MulOp(l, op, r) => match ev_mul(c, *l) {
            Err(e) => Err(e),
            Ok(a) => match ev_unary(c, r) {
                Err(e) => Err(e),
                Ok(b) => div_op(op, a, b),
            },
        },
    }
}

pub open spec fn ev_unary(c: Tables, x: UnaryExp) -> Result<i32, ErrView>
    decreases x,
{
    match x {
        UnaryExp::PrimaryExp(p) => ev_primary(c, p),
        UnaryExp::UnaryOp(op, u) => match ev_unary(c, *u) {
            Err(e) => Err(e),
            Ok(v) => Ok(match op {
                UnaryOp::Plus => v,
                UnaryOp::Minus => 0i32.wrapping_sub(v),
                UnaryOp::Not => truth(v == 0),
            }),
        },
        UnaryExp::FuncCall(id, _) => Err(ErrView::NonConstSymbol(at_name(id.id@))),
    }
}

pub open spec fn ev_primary(c: Tables, x: PrimaryExp) -> Result<i32, ErrView>
    decreases x,
{
    match x {
        PrimaryExp::Exp(e) => ev_exp(c, *e),
        PrimaryExp::Number(n) => Ok(n.value),
        PrimaryExp::LVal(l) => ev_lval(c, l),
    }
}

/// The values of a list of constant expressions, evaluated left to right;
/// the first error stops the evaluation.
pub open spec fn ev_list(c: Tables, s: Seq<Exp>) -> Result<Seq<i32>, ErrView>
    decreases s,
{
    if s.len() == 0 {
        Ok(Seq::empty())
    } else {
        match ev_list(c, s.drop_last()) {
            Err(e) => Err(e),
            Ok(v) => match ev_exp(c, s.last()) {
                Err(e) => Err(e),
                Ok(x) => Ok(v.push(x)),
            },
        }
    }
}

/// The position, in row-major order, of the scalar that the indices `ix`
/// select in a value of type `t`; `None` unless the indices reach an `i32`
/// and each lies within its dimension.
pub open spec fn flat_offset(t: Type, ix: Seq<i32>) -> Option<int>
    decreases ix.len(),
{
    if ix.len() == 0 {
        if t == Type::I32 { Some(0) } else { None }
    } else {
        match t {
            Type::Array(e, n) => if 0 <= ix[0] < n {
                match flat_offset(*e, ix.drop_first()) {
                    Some(k) => Some(ix[0] * spec_count(*e) + k),
                    None => None,
                }
            } else {
                None
            },
            _ => None,
        }
    }
}

/// A name used in a constant expression: a scalar constant (any indices
/// after it are not read), or an element of a constant array selected by
/// constant indices.
pub open spec fn ev_lval(c: Tables, l: LVal) -> Result<i32, ErrView>
    decreases l,
{
    match lookup_in(c, l.id.id@) {
        None => Err(ErrView::UndefinedSymbol(at_name(l.id.id@))),
        Some(SymbolView::Const(v)) => Ok(v),
        Some(SymbolView::Func { .. }) => Err(ErrView::InvalidLVal(at_name(l.id.id@))),
        Some(SymbolView::Object { ty, const_values, .. }) => match const_values {
            None => Err(ErrView::NonConstSymbol(at_name(l.id.id@))),
            Some(vals) => match ev_list(c, l.indices@) {
                Err(e) => Err(e),
                Ok(ix) => match flat_offset(ty, ix) {
                    Some(k) => Ok(vals[k]),
                    None => Err(ErrView::InvalidLVal(at_name(l.id.id@))),
                },
            },
        },
    }
}

/// Exec results agree with spec results, errors taken by their view.
pub open spec fn agrees<T>(r: Result<T, IRBuilderErr>, s: Result<T, ErrView>) -> bool {
    match (r, s) {
        (Ok(a), Ok(b)) => a == b,
        (Err(a), Err(b)) => a@ == b,
        _ => false,
    }
}

/// A selected scalar lies within the value.
pub proof fn lemma_flat_offset_bound(t: Type, ix: Seq<i32>)
    requires
        type_ok(t),
        flat_offset(t, ix) is Some,
    ensures
        0 <= flat_offset(t, ix).unwrap() < spec_count(t),
    decreases ix.len(),
{
    if ix.len() > 0 {
        match t {
            Type::Array(e, n) => {
                super::types::lemma_elem_count(*e, n);
                lemma_flat_offset_bound(*e, ix.drop_first());
                let k = flat_offset(*e, ix.drop_first()).unwrap();
                let i = ix[0] as int;
                let ce = spec_count(*e) as int;
                assert(0 <= i * ce + k < ce * n) by (nonlinear_arith)
                    requires 0 <= i < n, 0 <= k < ce;
            },
            _ => {},
        }
    }
}

fn offset_from(t: &Type, ix: &Vec<i32>, from: usize) -> (r: Option<usize>)
    requires
        type_ok(*t),
        from <= ix.len(),
    ensures
        match flat_offset(*t, ix@.subrange(from as int, ix@.len() as int)) {
            Some(k) => r == Some(k as usize) && 0 <= k < spec_count(*t),
            None => r is None,
        },
    decreases ix.len() - from,
{
    let ghost rest = ix@.subrange(from as int, ix@.len() as int);
    if from == ix.len() {
        assert(rest.len() == 0);
        return match t {
            Type::I32 => Some(0),
            _ => None,
        };
    }
    assert(rest[0] == ix@[from as int]);
    assert(rest.drop_first() =~= ix@.subrange(from + 1, ix@.len() as int));
    match t {
        Type::Array(e, n) => {
            let i = ix[from];
            if i < 0 || i as usize >= *n {
                return None;
            }
            proof {
                super::types::lemma_elem_count(**e, *n);
            }
            let sub = offset_from(e, ix, from + 1);
            match sub {
                Some(k) => {
                    proof { crate::ir::types::lemma_type_ok_fits(**e); }
                    let ce = super::types::scalar_count(e);
                    proof {
                        let nn = *n as int;
                        let kk = k as int;
                        let ii = i as int;
                        let cc = ce as int;
                        assert(0 <= kk < cc);
                        assert(ii * cc + kk < cc * nn) by (nonlinear_arith)
                            requires 0 <= ii < nn, 0 <= kk < cc;
                        assert(cc * nn == spec_count(*t));
                        assert(0 <= ii * cc) by (nonlinear_arith)
                            requires 0 <= ii, 0 <= cc;
                        assert(flat_offset(*t, rest) == Some(ii * cc + kk));
                    }
                    Some(i as usize * ce + k)
                },
                None => None,
            }
        },
        _ => None,
    }
}

impl IRBuilder {
    /// Evaluates a constant expression.
    pub fn eval_exp(&self, e: &Exp) -> (r: Result<i32, IRBuilderErr>)
        requires
            self.context.wf(),
        ensures
            agrees(r, ev_exp(self.context.tables(), *e)),
        decreases e, 0int,
    {
        self.eval_l_or_exp(&e.l_or_exp)
    }

    fn eval_l_or_exp(&self, x: &LOrExp) -> (r: Result<i32, IRBuilderErr>)
        requires
            self.context.wf(),
        ensures
            agrees(r, ev_lor(self.context.tables(), *x)),
        decreases x, 0int,
    {
        match x {
            LOrExp::LAndExp(a) => self.eval_l_and_exp(a),
            LOrExp::LOrOp(l, r) => {
                let lhs = self.eval_l_or_exp(l)?;
                if lhs != 0 {
                    Ok(1)
                } else {
                    let rhs = self.eval_l_and_exp(r)?;
                    Ok(if rhs != 0 { 1 } else { 0 })
                }
            },
        }
    }

    fn eval_l_and_exp(&self, x: &LAndExp) -> (r: Result<i32, IRBuilderErr>)
        requires
            self.context.wf(),
        ensures
            agrees(r, ev_land(self.context.tables(), *x)),
        decreases x, 0int,
    {
        match x {
            LAndExp::EqExp(a) => self.eval_eq_exp(a),
            LAndExp::LAndOp(l, r) => {
                let lhs = self.eval_l_and_exp(l)?;
                if lhs == 0 {
                    Ok(0)
                } else {
                    let rhs = self.eval_eq_exp(r)?;
                    Ok(if rhs != 0 { 1 } else { 0 })
                }
            },
        }
    }

    fn eval_eq_exp(&self, x: &EqExp) -> (r: Result<i32, IRBuilderErr>)
        requires
            self.context.wf(),
        ensures
            agrees(r, ev_eq(self.context.tables(), *x)),
        decreases x, 0int,
    {
        match x {
            EqExp::RelExp(a) => self.eval_rel_exp(a),
            EqExp::EqOp(l, op, r) => {
                let a = self.eval_eq_exp(l)?;
                let b = self.eval_rel_exp(r)?;
                Ok(match op {
                    EqOp::Eq => if a == b { 1 } else { 0 },
                    EqOp::Ne => if a != b { 1 } else { 0 },
                })
            },
        }
    }

    fn eval_rel_exp(&self, x: &RelExp) -> (r: Result<i32, IRBuilderErr>)
        requires
            self.context.wf(),
        ensures
            agrees(r, ev_rel(self.context.tables(), *x)),
        decreases x, 0int,
    {
        match x {
            RelExp::AddExp(a) => self.eval_add_exp(a),
            RelExp::RelOp(l, op, r) => {
                let a = self.eval_rel_exp(l)?;
                let b = self.eval_add_exp(r)?;
                Ok(match op {
                    RelOp::Lt => if a < b { 1 } else { 0 },
                    RelOp::Gt => if a > b { 1 } else { 0 },
                    RelOp::Le => if a <= b { 1 } else { 0 },
                    RelOp::Ge => if a >= b { 1 } else { 0 },
                })
            },
        }
    }

    fn eval_add_exp(&self, x: &AddExp) -> (r: Result<i32, IRBuilderErr>)
        requires
            self.context.wf(),
        ensures
            agrees(r, ev_add(self.context.tables(), *x)),
        decreases x, 0int,
    {
        match x {
            AddExp::MulExp(a) => self.eval_mul_exp(a),
            AddExp::AddOp(l, op, r) => {
                let a = self.eval_add_exp(l)?;
                let b = self.eval_mul_exp(r)?;
                Ok(match op {
                    AddOp::Add => a.wrapping_add(b),
                    AddOp::Sub => a.wrapping_sub(b),
                })
            },
        }
    }

    fn eval_mul_exp(&self, x: &MulExp) -> (r: Result<i32, IRBuilderErr>)
        requires
            self.context.wf(),
        ensures
            agrees(r, ev_mul(self.context.tables(), *x)),
        decreases x, 0int,
    {
        match x {
            MulExp::UnaryExp(a) => self.eval_unary_exp(a),
            MulExp::MulOp(l, op, r) => {
                let a = self.eval_mul_exp(l)?;
                let b = self.eval_unary_exp(r)?;
                match op {
                    MulOp::Mul => Ok(a.wrapping_mul(b)),
                    MulOp::Div => match a.checked_div(b) {
                        Some(q) => Ok(q),
                        None => Err(IRBuilderErr::InvalidConstDivision),
                    },
                    MulOp::Mod => match a.checked_rem(b) {
                        Some(q) => Ok(q),
                        None => Err(IRBuilderErr::InvalidConstDivision),
                    },
                }
            },
        }
    }

    fn eval_unary_exp(&self, x: &UnaryExp) -> (r: Result<i32, IRBuilderErr>)
        requires
            self.context.wf(),
        ensures
            agrees(r, ev_unary(self.context.tables(), *x)),
        decreases x, 0int,
    {
        match x {
            UnaryExp::PrimaryExp(p) => self.eval_primary_exp(p),
            UnaryExp::UnaryOp(op, u) => {
                let v = self.eval_unary_exp(u)?;
                Ok(match op {
                    UnaryOp::Plus => v,
                    UnaryOp::Minus => 0i32.wrapping_sub(v),
                    UnaryOp::Not => if v == 0 { 1 } else { 0 },
                })
            },
            UnaryExp::FuncCall(id, _) => Err(IRBuilderErr::NonConstSymbol(at_name_string(&id.id))),
        }
    }

    fn eval_primary_exp(&self, x: &PrimaryExp) -> (r: Result<i32, IRBuilderErr>)
        requires
            self.context.wf(),
        ensures
            agrees(r, ev_primary(self.context.tables(), *x)),
        decreases x, 0int,
    {
        match x {
            PrimaryExp::Exp(e) => self.eval_exp(e),
            PrimaryExp::Number(n) => Ok(n.value),
            PrimaryExp::LVal(l) => self.eval_l_val(l),
        }
    }

    /// Evaluates constant expressions left to right.
    pub fn eval_list(&self, s: &Vec<Exp>) -> (r: Result<Vec<i32>, IRBuilderErr>)
        requires
            self.context.wf(),
        ensures
            match (r, ev_list(self.context.tables(), s@)) {
                (Ok(v), Ok(w)) => v@ == w,
                (Err(a), Err(b)) => a@ == b,
                _ => false,
            },
        decreases s, 0int,
    {
        let mut out: Vec<i32> = Vec::new();
        let mut i: usize = 0;
        assert(s@.subrange(0, 0) =~= Seq::<Exp>::empty());
        while i < s.len()
            invariant
                self.context.wf(),
                i <= s.len(),
                ev_list(self.context.tables(), s@.subrange(0, i as int)) == Ok::<Seq<i32>, ErrView>(out@),
            decreases s.len() - i,
        {
            assert(s@.subrange(0, i + 1).drop_last() =~= s@.subrange(0, i as int));
            assert(s@.subrange(0, i + 1).last() == s@[i as int]);
            assert(decreases_to!(s => s@[i as int]));
            let v = self.eval_exp(&s[i]);
            match v {
                Ok(x) => {
                    out.push(x);
                },
                Err(e) => {
                    proof {
                        lemma_ev_list_error(self.context.tables(), s@, (i + 1) as int);
                    }
                    return Err(e);
                },
            }
            i = i + 1;
        }
        assert(s@.subrange(0, s@.len() as int) =~= s@);
        Ok(out)
    }

    fn eval_l_val(&self, l: &LVal) -> (r: Result<i32, IRBuilderErr>)
        requires
            self.context.wf(),
        ensures
            agrees(r, ev_lval(self.context.tables(), *l)),
        decreases l, 0int,
    {
        match self.context.get_symbol(&l.id.id) {
            Err(e) => Err(e),
            Ok(Symbol::Const(v)) => Ok(v),
            Ok(Symbol::Func(_)) => Err(IRBuilderErr::InvalidLVal(at_name_string(&l.id.id))),
            Ok(Symbol::Object(o)) => match o.const_values {
                None => Err(IRBuilderErr::NonConstSymbol(at_name_string(&l.id.id))),
                Some(vals) => {
                    assert(decreases_to!(l => l.indices));
                    self.eval_element(l, &o.ty, &vals)
                },
            },
        }
    }

    /// The element of the constant array `vals` of type `ty` that the
    /// indices of `l` select.
    fn eval_element(&self, l: &LVal, ty: &Type, vals: &Vec<i32>) -> (r: Result<i32, IRBuilderErr>)
        requires
            self.context.wf(),
            type_ok(*ty),
            vals@.len() == spec_count(*ty),
        ensures
            agrees(r, match ev_list(self.context.tables(), l.indices@) {
                Err(e) => Err(e),
                Ok(ix) => match flat_offset(*ty, ix) {
                    Some(k) => Ok(vals@[k]),
                    None => Err(ErrView::InvalidLVal(at_name(l.id.id@))),
                },
            }),
        decreases l.indices, 1int,
    {
        let ix = self.eval_list(&l.indices)?;
        assert(ix@.subrange(0, ix@.len() as int) =~= ix@);
        match offset_from(ty, &ix, 0) {
            Some(k) => Ok(vals[k]),
            None => Err(IRBuilderErr::InvalidLVal(at_name_string(&l.id.id))),
        }
    }
}

/// Once an element of a list fails to evaluate, so does the list.
proof fn lemma_ev_list_error(c: Tables, s: Seq<Exp>, n: int)
    requires
        0 < n <= s.len(),
        ev_list(c, s.subrange(0, n)) is Err,
    ensures
        ev_list(c, s) == ev_list(c, s.subrange(0, n)),
    decreases s.len() - n,
{
    if n == s.len() {
        assert(s.subrange(0, n) =~= s);
    } else {
        assert(s.subrange(0, n + 1).drop_last() =~= s.subrange(0, n));
        lemma_ev_list_error(c, s, n + 1);
    }
}

} // verus!
