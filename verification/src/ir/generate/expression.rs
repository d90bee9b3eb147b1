//! Lowering of expressions: arithmetic, comparisons, short-circuit logic,
//! names and array elements, and calls.
use vstd::prelude::*;
use crate::ast::{AddExp, EqExp, Exp, Ident, LAndExp, LOrExp, LVal, MulExp, PrimaryExp, RelExp, UnaryExp, UnaryOp, add_op_name, eq_op_name, mul_op_name, rel_op_name};
use crate::text::push_str;
use super::super::IRBuilder;
use super::super::context::{operand_text, IRContext, Label, Operand};
use super::super::emit::{br_text, expr_step, inst_text, label_line, load_text, prefix};
use super::super::error::{at_name_string, ErrView, IRBuilderErr};
use super::super::symbol::Symbol;
use super::super::types::{type_ok, Type};
use super::lower_spec::{call_text, join_operands, lower_add, lower_args, lower_call, lower_chain, lower_eq, lower_exp, lower_i32, lower_land, lower_lor, lower_lval, lower_mul, lower_place, lower_primary, lower_rel, lower_unary, lower_value, merge_text, Gen, lemma_lower_exp};

verus! {

/// An operand together with its Koopa type; a call of a `void` function
/// has type `Void`.
pub struct TypedValue {
    pub value: Operand,
    pub ty: Type,
}

/// The types an expression can have: `i32`, a pointer into an object, or
/// no value at all.
pub open spec fn value_ty_ok(t: Type) -> bool {
    t == Type::I32 || t == Type::Void || (t is Pointer && type_ok(t))
}

/// The operation agrees with the specification `s` of what lowering
/// emits: on success the value, its type, the text appended and the
/// counters afterwards are those that `s` gives; otherwise the error is.
pub open spec fn lowered(old: IRContext, new: IRContext, r: Result<TypedValue, IRBuilderErr>, s: Result<Gen, ErrView>) -> bool {
    match s {
        Ok(g) => r matches Ok(v) && v.value == g.value && v.ty == g.ty && new.output@ == old.output@ + g.text
            && new.temp_id == g.temp && new.label_id == g.label,
        Err(x) => r matches Err(y) && y@ == x,
    }
}

/// The `i32` operand of a typed value.
pub fn expect_i32(tv: TypedValue) -> (r: Result<Operand, IRBuilderErr>)
    ensures
        tv.ty == Type::I32 ==> r == Ok::<Operand, IRBuilderErr>(tv.value),
        tv.ty != Type::I32 ==> r == Err::<Operand, IRBuilderErr>(IRBuilderErr::ExpectedValue),
{
    if tv.ty.is_i32() {
        Ok(tv.value)
    } else {
        Err(IRBuilderErr::ExpectedValue)
    }
}

impl IRBuilder {
    /// Lowers an expression; its value is left in the returned operand.
    pub fn gen_exp(&mut self, e: &Exp) -> (r: Result<TypedValue, IRBuilderErr>)
        requires
            old(self).context.wf(),
        ensures
            expr_step(old(self).context, final(self).context),
            lowered(old(self).context, final(self).context, r,
                lower_exp(old(self).context.tables(), old(self).context.temp_id, old(self).context.label_id, *e)),
            r matches Ok(v) ==> value_ty_ok(v.ty),
        decreases e, 0int, 0int,
    {
        proof {
            lemma_lower_exp(old(self).context.tables(), old(self).context.temp_id, old(self).context.label_id, *e);
        }
        self.gen_l_or_exp(&e.l_or_exp)
    }

    /// Lowers an expression that must produce an `i32`.
    pub fn gen_i32_exp(&mut self, e: &Exp) -> (r: Result<Operand, IRBuilderErr>)
        requires
            old(self).context.wf(),
        ensures
            expr_step(old(self).context, final(self).context),
            match lower_i32(old(self).context.tables(), old(self).context.temp_id, old(self).context.label_id, *e) {
                Ok(g) => r == Ok::<Operand, IRBuilderErr>(g.value) && final(self).context.output@
                    == old(self).context.output@ + g.text && final(self).context.temp_id == g.temp
                    && final(self).context.label_id == g.label,
                Err(x) => r matches Err(y) && y@ == x,
            },
        decreases e, 1int, 0int,
    {
        proof {
            reveal_with_fuel(lower_i32, 1);
        }
        let v = self.gen_exp(e)?;
        expect_i32(v)
    }

    /// Lowers an expression that must produce a value (not a `void` call).
    pub fn gen_value_exp(&mut self, e: &Exp) -> (r: Result<TypedValue, IRBuilderErr>)
        requires
            old(self).context.wf(),
        ensures
            expr_step(old(self).context, final(self).context),
            lowered(old(self).context, final(self).context, r,
                lower_value(old(self).context.tables(), old(self).context.temp_id, old(self).context.label_id, *e)),
            r matches Ok(v) ==> value_ty_ok(v.ty) && v.ty != Type::Void,
        decreases e, 1int, 0int,
    {
        proof {
            reveal_with_fuel(lower_value, 1);
        }
        let v = self.gen_exp(e)?;
        if v.ty.same(&Type::Void) {
            return Err(IRBuilderErr::ExpectedValue);
        }
        Ok(v)
    }

    #[verifier::spinoff_prover]
    #[verifier::rlimit(60)]
    fn gen_l_or_exp(&mut self, x: &LOrExp) -> (r: Result<TypedValue, IRBuilderErr>)
        requires
            old(self).context.wf(),
        ensures
            expr_step(old(self).context, final(self).context),
            lowered(old(self).context, final(self).context, r,
                lower_lor(old(self).context.tables(), old(self).context.temp_id, old(self).context.label_id, *x)),
            r matches Ok(v) ==> value_ty_ok(v.ty),
        decreases x, 0int, 0int,
    {
        proof {
            reveal_with_fuel(lower_lor, 1);
        }
        match x {
            LOrExp::LAndExp(a) => self.gen_l_and_exp(a),
            LOrExp::LOrOp(l, r) => {
                let ghost c0 = self.context;
                let lhs_v = self.gen_l_or_exp(l)?;
                let ghost a = lower_lor(c0.tables(), c0.temp_id, c0.label_id, **l)->Ok_0;
                let lhs = expect_i32(lhs_v)?;
                let rhs_label = self.context.new_label("or_rhs")?;
                let true_label = self.context.new_label("or_true")?;
                let false_label = self.context.new_label("or_false")?;
                let end_label = self.context.new_label("or_end")?;
                self.context.emit_br(&lhs, &true_label, &rhs_label);
                self.context.emit_label(&rhs_label);
                let ghost c2 = self.context;
                let rhs_v = self.gen_l_and_exp(r)?;
                let ghost b = lower_land(c2.tables(), c2.temp_id, c2.label_id, *r)->Ok_0;
                let rhs = expect_i32(rhs_v)?;
                self.context.emit_br(&rhs, &true_label, &false_label);
                let res = self.gen_bool_merge(&true_label, &false_label, &end_label);
                proof {
                    if res is Ok {
                        assert(self.context.output@ =~= c0.output@ + (a.text + br_text(a.value, true_label, rhs_label)
                            + label_line(rhs_label) + b.text + br_text(b.value, true_label, false_label)
                            + merge_text(true_label, false_label, end_label, b.temp)));
                    }
                }
                res
            },
        }
    }

    #[verifier::spinoff_prover]
    #[verifier::rlimit(60)]
    fn gen_l_and_exp(&mut self, x: &LAndExp) -> (r: Result<TypedValue, IRBuilderErr>)
        requires
            old(self).context.wf(),
        ensures
            expr_step(old(self).context, final(self).context),
            lowered(old(self).context, final(self).context, r,
                lower_land(old(self).context.tables(), old(self).context.temp_id, old(self).context.label_id, *x)),
            r matches Ok(v) ==> value_ty_ok(v.ty),
        decreases x, 0int, 0int,
    {
        proof {
            reveal_with_fuel(lower_land, 1);
        }
        match x {
            LAndExp::EqExp(a) => self.gen_eq_exp(a),
            LAndExp::LAndOp(l, r) => {
                let ghost c0 = self.context;
                let lhs_v = self.gen_l_and_exp(l)?;
                let ghost a = lower_land(c0.tables(), c0.temp_id, c0.label_id, **l)->Ok_0;
                let lhs = expect_i32(lhs_v)?;
                let rhs_label = self.context.new_label("and_rhs")?;
                let true_label = self.context.new_label("and_true")?;
                let false_label = self.context.new_label("and_false")?;
                let end_label = self.context.new_label("and_end")?;
                self.context.emit_br(&lhs, &rhs_label, &false_label);
                self.context.emit_label(&rhs_label);
                let ghost c2 = self.context;
                let rhs_v = self.gen_eq_exp(r)?;
                let ghost b = lower_eq(c2.tables(), c2.temp_id, c2.label_id, *r)->Ok_0;
                let rhs = expect_i32(rhs_v)?;
                self.context.emit_br(&rhs, &true_label, &false_label);
                let res = self.gen_bool_merge(&true_label, &false_label, &end_label);
                proof {
                    if res is Ok {
                        assert(self.context.output@ =~= c0.output@ + (a.text + br_text(a.value, rhs_label, false_label)
                            + label_line(rhs_label) + b.text + br_text(b.value, true_label, false_label)
                            + merge_text(true_label, false_label, end_label, b.temp)));
                    }
                }
                res
            },
        }
    }

    /// Joins the two outcomes of a short-circuit operator into a block
    /// parameter holding `1` or `0`.
    fn gen_bool_merge(&mut self, true_label: &Label, false_label: &Label, end_label: &Label)
        -> (r: Result<TypedValue, IRBuilderErr>)
        requires
            old(self).context.wf(),
        ensures
            expr_step(old(self).context, final(self).context),
            old(self).context.temp_id < usize::MAX ==> (r matches Ok(v) && v.value == Operand::Temporary(old(self).context.temp_id)
                && v.ty == Type::I32 && final(self).context.output@ == old(self).context.output@
                + merge_text(*true_label, *false_label, *end_label, old(self).context.temp_id)
                && final(self).context.temp_id == old(self).context.temp_id + 1
                && final(self).context.label_id == old(self).context.label_id),
            old(self).context.temp_id == usize::MAX ==> r == Err::<TypedValue, IRBuilderErr>(IRBuilderErr::TooManyNames),
    {
        self.context.emit_label(true_label);
        self.context.emit_jump_arg(end_label, &Operand::Immediate(1));
        self.context.emit_label(false_label);
        self.context.emit_jump_arg(end_label, &Operand::Immediate(0));
        let t = self.context.new_temp()?;
        self.context.emit_param_label(end_label, t);
        assert(self.context.output@ =~= old(self).context.output@
            + merge_text(*true_label, *false_label, *end_label, old(self).context.temp_id));
        Ok(TypedValue { value: Operand::Temporary(t), ty: Type::I32 })
    }

    /// Emits a binary instruction on two `i32` operands into a fresh
    /// temporary.
    fn gen_binary(&mut self, op: &str, lhs: TypedValue, rhs: TypedValue) -> (r: Result<TypedValue, IRBuilderErr>)
        requires
            old(self).context.wf(),
        ensures
            expr_step(old(self).context, final(self).context),
            lhs.ty != Type::I32 || rhs.ty != Type::I32 ==> r == Err::<TypedValue, IRBuilderErr>(IRBuilderErr::ExpectedValue),
            lhs.ty == Type::I32 && rhs.ty == Type::I32 && old(self).context.temp_id == usize::MAX
                ==> r == Err::<TypedValue, IRBuilderErr>(IRBuilderErr::TooManyNames),
            lhs.ty == Type::I32 && rhs.ty == Type::I32 && old(self).context.temp_id < usize::MAX ==> (r matches Ok(v)
                && v.value == Operand::Temporary(old(self).context.temp_id) && v.ty == Type::I32
                && final(self).context.output@ == old(self).context.output@
                + inst_text(old(self).context.temp_id, op@, lhs.value, rhs.value)
                && final(self).context.temp_id == old(self).context.temp_id + 1
                && final(self).context.label_id == old(self).context.label_id),
    {
        let a = expect_i32(lhs)?;
        let b = expect_i32(rhs)?;
        let v = self.context.emit_pointer_op(op, &a, &b)?;
        Ok(TypedValue { value: v, ty: Type::I32 })
    }

    #[verifier::spinoff_prover]
    fn gen_eq_exp(&mut self, x: &EqExp) -> (r: Result<TypedValue, IRBuilderErr>)
        requires
            old(self).context.wf(),
        ensures
            expr_step(old(self).context, final(self).context),
            lowered(old(self).context, final(self).context, r,
                lower_eq(old(self).context.tables(), old(self).context.temp_id, old(self).context.label_id, *x)),
            r matches Ok(v) ==> value_ty_ok(v.ty),
        decreases x, 0int, 0int,
    {
        proof {
            reveal_with_fuel(lower_eq, 1);
        }
        match x {
            EqExp::RelExp(a) => self.gen_rel_exp(a),
            EqExp::EqOp(l, op, r) => {
                let ghost c0 = self.context;
                let lhs = self.gen_eq_exp(l)?;
                let ghost a = lower_eq(c0.tables(), c0.temp_id, c0.label_id, **l)->Ok_0;
                let ghost c1 = self.context;
                let rhs = self.gen_rel_exp(r)?;
                let ghost b = lower_rel(c1.tables(), c1.temp_id, c1.label_id, *r)->Ok_0;
                let res = self.gen_binary(op.inst_name(), lhs, rhs);
                proof {
                    if res is Ok {
                        assert(self.context.output@ =~= c0.output@ + (a.text + b.text
                            + inst_text(b.temp, eq_op_name(*op), a.value, b.value)));
                    }
                }
                res
            },
        }
    }

    #[verifier::spinoff_prover]
    fn gen_rel_exp(&mut self, x: &RelExp) -> (r: Result<TypedValue, IRBuilderErr>)
        requires
            old(self).context.wf(),
        ensures
            expr_step(old(self).context, final(self).context),
            lowered(old(self).context, final(self).context, r,
                lower_rel(old(self).context.tables(), old(self).context.temp_id, old(self).context.label_id, *x)),
            r matches Ok(v) ==> value_ty_ok(v.ty),
        decreases x, 0int, 0int,
    {
        proof {
            reveal_with_fuel(lower_rel, 1);
        }
        match x {
            RelExp::AddExp(a) => self.gen_add_exp(a),
            RelExp::RelOp(l, op, r) => {
                let ghost c0 = self.context;
                let lhs = self.gen_rel_exp(l)?;
                let ghost a = lower_rel(c0.tables(), c0.temp_id, c0.label_id, **l)->Ok_0;
                let ghost c1 = self.context;
                let rhs = self.gen_add_exp(r)?;
                let ghost b = lower_add(c1.tables(), c1.temp_id, c1.label_id, *r)->Ok_0;
                let res = self.gen_binary(op.inst_name(), lhs, rhs);
                proof {
                    if res is Ok {
                        assert(self.context.output@ =~= c0.output@ + (a.text + b.text
                            + inst_text(b.temp, rel_op_name(*op), a.value, b.value)));
                    }
                }
                res
            },
        }
    }

    #[verifier::spinoff_prover]
    fn gen_add_exp(&mut self, x: &AddExp) -> (r: Result<TypedValue, IRBuilderErr>)
        requires
            old(self).context.wf(),
        ensures
            expr_step(old(self).context, final(self).context),
            lowered(old(self).context, final(self).context, r,
                lower_add(old(self).context.tables(), old(self).context.temp_id, old(self).context.label_id, *x)),
            r matches Ok(v) ==> value_ty_ok(v.ty),
        decreases x, 0int, 0int,
    {
        proof {
            reveal_with_fuel(lower_add, 1);
        }
        match x {
            AddExp::MulExp(a) => self.gen_mul_exp(a),
            AddExp::AddOp(l, op, r) => {
                let ghost c0 = self.context;
                let lhs = self.gen_add_exp(l)?;
                let ghost a = lower_add(c0.tables(), c0.temp_id, c0.label_id, **l)->Ok_0;
                let ghost c1 = self.context;
                let rhs = self.gen_mul_exp(r)?;
                let ghost b = lower_mul(c1.tables(), c1.temp_id, c1.label_id, *r)->Ok_0;
                let res = self.gen_binary(op.inst_name(), lhs, rhs);
                proof {
                    if res is Ok {
                        assert(self.context.output@ =~= c0.output@ + (a.text + b.text
                            + inst_text(b.temp, add_op_name(*op), a.value, b.value)));
                    }
                }
                res
            },
        }
    }

    #[verifier::spinoff_prover]
    fn gen_mul_exp(&mut self, x: &MulExp) -> (r: Result<TypedValue, IRBuilderErr>)
        requires
            old(self).context.wf(),
        ensures
            expr_step(old(self).context, final(self).context),
            lowered(old(self).context, final(self).context, r,
                lower_mul(old(self).context.tables(), old(self).context.temp_id, old(self).context.label_id, *x)),
            r matches Ok(v) ==> value_ty_ok(v.ty),
        decreases x, 0int, 0int,
    {
        proof {
            reveal_with_fuel(lower_mul, 1);
        }
        match x {
            MulExp::UnaryExp(a) => self.gen_unary_exp(a),
            MulExp::MulOp(l, op, r) => {
                let ghost c0 = self.context;
                let lhs = self.gen_mul_exp(l)?;
                let ghost a = lower_mul(c0.tables(), c0.temp_id, c0.label_id, **l)->Ok_0;
                let ghost c1 = self.context;
                let rhs = self.gen_unary_exp(r)?;
                let ghost b = lower_unary(c1.tables(), c1.temp_id, c1.label_id, *r)->Ok_0;
                let res = self.gen_binary(op.inst_name(), lhs, rhs);
                proof {
                    if res is Ok {
                        assert(self.context.output@ =~= c0.output@ + (a.text + b.text
                            + inst_text(b.temp, mul_op_name(*op), a.value, b.value)));
                    }
                }
                res
            },
        }
    }

    #[verifier::spinoff_prover]
    #[verifier::rlimit(40)]
    fn gen_unary_exp(&mut self, x: &UnaryExp) -> (r: Result<TypedValue, IRBuilderErr>)
        requires
            old(self).context.wf(),
        ensures
            expr_step(old(self).context, final(self).context),
            lowered(old(self).context, final(self).context, r,
                lower_unary(old(self).context.tables(), old(self).context.temp_id, old(self).context.label_id, *x)),
            r matches Ok(v) ==> value_ty_ok(v.ty),
        decreases x, 0int, 0int,
    {
        proof {
            reveal_with_fuel(lower_unary, 1);
        }
        match x {
            UnaryExp::PrimaryExp(p) => self.gen_primary_exp(p),
            UnaryExp::UnaryOp(op, u) => {
                let ghost c0 = self.context;
                let inner = self.gen_unary_exp(u)?;
                let ghost a = lower_unary(c0.tables(), c0.temp_id, c0.label_id, **u)->Ok_0;
                let value = expect_i32(inner)?;
                let t = self.context.new_temp()?;
                match op {
                    UnaryOp::Plus => {
                        assert(self.context.output@ == c0.output@ + a.text);
                        return Ok(TypedValue { value, ty: Type::I32 });
                    },
                    UnaryOp::Minus => {
                        self.context.emit_assign(t, "sub", &Operand::Immediate(0), &value);
                        assert(self.context.output@ =~= c0.output@ + (a.text
                            + inst_text(a.temp, "sub"@, Operand::Immediate(0), a.value)));
                    },
                    UnaryOp::Not => {
                        self.context.emit_assign(t, "eq", &Operand::Immediate(0), &value);
                        assert(self.context.output@ =~= c0.output@ + (a.text
                            + inst_text(a.temp, "eq"@, Operand::Immediate(0), a.value)));
                    },
                }
                Ok(TypedValue { value: Operand::Temporary(t), ty: Type::I32 })
            },
            UnaryExp::FuncCall(id, args) => {
                assert(decreases_to!(*x => (*x)->FuncCall_1));
                self.gen_call(id, args)
            },
        }
    }

    #[verifier::spinoff_prover]
    #[verifier::rlimit(40)]
    fn gen_primary_exp(&mut self, x: &PrimaryExp) -> (r: Result<TypedValue, IRBuilderErr>)
        requires
            old(self).context.wf(),
        ensures
            expr_step(old(self).context, final(self).context),
            lowered(old(self).context, final(self).context, r,
                lower_primary(old(self).context.tables(), old(self).context.temp_id, old(self).context.label_id, *x)),
            r matches Ok(v) ==> value_ty_ok(v.ty),
        decreases x, 0int, 0int,
    {
        proof {
            reveal_with_fuel(lower_primary, 1);
        }
        match x {
            PrimaryExp::Exp(e) => self.gen_exp(e),
            PrimaryExp::Number(n) => {
                assert(self.context.output@ =~= old(self).context.output@ + Seq::<char>::empty());
                Ok(TypedValue { value: Operand::Immediate(n.value), ty: Type::I32 })
            },
            PrimaryExp::LVal(l) => self.gen_l_val(l),
        }
    }
}

/// As `lowered`, for a place: its address and type.
pub open spec fn placed(old: IRContext, new: IRContext, r: Result<(Operand, Type), IRBuilderErr>, s: Result<Gen, ErrView>) -> bool {
    match s {
        Ok(g) => r matches Ok(p) && p.0 == g.value && p.1 == g.ty && new.output@ == old.output@ + g.text
            && new.temp_id == g.temp && new.label_id == g.label,
        Err(x) => r matches Err(y) && y@ == x,
    }
}

impl IRBuilder {
    /// The value of a name or array element: a constant's value, an
    /// `i32` loaded from memory, or a pointer to the first element of an
    /// array.
    #[verifier::spinoff_prover]
    #[verifier::rlimit(40)]
    fn gen_l_val(&mut self, l: &LVal) -> (r: Result<TypedValue, IRBuilderErr>)
        requires
            old(self).context.wf(),
        ensures
            expr_step(old(self).context, final(self).context),
            lowered(old(self).context, final(self).context, r,
                lower_lval(old(self).context.tables(), old(self).context.temp_id, old(self).context.label_id, *l)),
            r matches Ok(v) ==> value_ty_ok(v.ty),
        decreases l, 2int, 0int,
    {
        proof {
            reveal_with_fuel(lower_lval, 1);
        }
        let sym = self.context.get_symbol(&l.id.id)?;
        match sym {
            Symbol::Const(v) => {
                if l.indices.len() == 0 {
                    assert(self.context.output@ =~= old(self).context.output@ + Seq::<char>::empty());
                    Ok(TypedValue { value: Operand::Immediate(v), ty: Type::I32 })
                } else {
                    Err(IRBuilderErr::InvalidLVal(at_name_string(&l.id.id)))
                }
            },
            Symbol::Func(_) => Err(IRBuilderErr::InvalidLVal(at_name_string(&l.id.id))),
            Symbol::Object(_) => {
                let ghost c0 = self.context;
                let place = self.gen_place(l)?;
                let ghost p = lower_place(c0.tables(), c0.temp_id, c0.label_id, *l)->Ok_0;
                let (address, ty) = place;
                match ty {
                    Type::Void => Err(IRBuilderErr::ExpectedValue),
                    Type::Array(e, n) => {
                        let v = self.context.emit_pointer_op("getelemptr", &address, &Operand::Immediate(0))?;
                        assert(self.context.output@ =~= c0.output@ + (p.text
                            + inst_text(p.temp, "getelemptr"@, p.value, Operand::Immediate(0))));
                        Ok(TypedValue { value: v, ty: Type::Pointer(e) })
                    },
                    _ => {
                        let v = self.context.emit_load(&address)?;
                        assert(self.context.output@ =~= c0.output@ + (p.text + load_text(p.temp, p.value)));
                        Ok(TypedValue { value: v, ty })
                    },
                }
            },
        }
    }

    /// The address and type of the object or element that `l` names. A
    /// pointer parameter is loaded and offset with `getptr` by its first
    /// index; each further index selects an array element with
    /// `getelemptr`.
    #[verifier::spinoff_prover]
    #[verifier::rlimit(60)]
    pub fn gen_place(&mut self, l: &LVal) -> (r: Result<(Operand, Type), IRBuilderErr>)
        requires
            old(self).context.wf(),
        ensures
            expr_step(old(self).context, final(self).context),
            placed(old(self).context, final(self).context, r,
                lower_place(old(self).context.tables(), old(self).context.temp_id, old(self).context.label_id, *l)),
            r matches Ok(p) ==> type_ok(p.1),
        decreases l, 1int, 0int,
    {
        proof {
            reveal_with_fuel(lower_place, 1);
        }
        let sym = self.context.get_symbol(&l.id.id)?;
        let o = match sym {
            Symbol::Object(o) => o,
            _ => {
                return Err(IRBuilderErr::InvalidLVal(at_name_string(&l.id.id)));
            },
        };
        if l.indices.len() > 0 {
            if let Type::Pointer(e) = &o.ty {
                let ghost c0 = self.context;
                let base = Operand::Variable(o.address.duplicate());
                let p = self.context.emit_load(&base)?;
                let first = &l.indices[0];
                assert(decreases_to!(*l => (*l).indices@[0]));
                let ghost c1 = self.context;
                let index = self.gen_i32_exp(first)?;
                let ghost g = lower_i32(c1.tables(), c1.temp_id, c1.label_id, l.indices@[0])->Ok_0;
                let address = self.context.emit_pointer_op("getptr", &p, &index)?;
                let ghost c3 = self.context;
                let rest = self.gen_chain(l, 1, address, e.duplicate());
                proof {
                    if rest is Ok {
                        let c = lower_chain(c3.tables(), c3.temp_id, c3.label_id, *l, 1, Operand::Temporary(g.temp), **e)->Ok_0;
                        assert(self.context.output@ =~= c0.output@ + (load_text(c0.temp_id, base) + g.text
                            + inst_text(g.temp, "getptr"@, Operand::Temporary(c0.temp_id), g.value) + c.text));
                    }
                }
                return rest;
            }
        }
        self.gen_chain(l, 0, Operand::Variable(o.address), o.ty)
    }

    /// Applies the indices of `l` from position `k` on to the address
    /// `addr` of a value of type `ty`.
    #[verifier::spinoff_prover]
    #[verifier::rlimit(40)]
    fn gen_chain(&mut self, l: &LVal, k: usize, addr: Operand, ty: Type) -> (r: Result<(Operand, Type), IRBuilderErr>)
        requires
            old(self).context.wf(),
            type_ok(ty),
        ensures
            expr_step(old(self).context, final(self).context),
            placed(old(self).context, final(self).context, r,
                lower_chain(old(self).context.tables(), old(self).context.temp_id, old(self).context.label_id, *l,
                k as nat, addr, ty)),
            r matches Ok(p) ==> type_ok(p.1),
        decreases l, 0int, l.indices@.len() - k,
    {
        proof {
            reveal_with_fuel(lower_chain, 1);
        }
        if k >= l.indices.len() {
            assert(self.context.output@ =~= old(self).context.output@ + Seq::<char>::empty());
            return Ok((addr, ty));
        }
        match ty {
            Type::Array(e, _) => {
                let item = &l.indices[k];
                assert(decreases_to!(*l => (*l).indices@[k as int]));
                let ghost c0 = self.context;
                let index = self.gen_i32_exp(item)?;
                let ghost g = lower_i32(c0.tables(), c0.temp_id, c0.label_id, l.indices@[k as int])->Ok_0;
                let next = self.context.emit_pointer_op("getelemptr", &addr, &index)?;
                let ghost c2 = self.context;
                let rest = self.gen_chain(l, k + 1, next, *e);
                proof {
                    if rest is Ok {
                        let c = lower_chain(c2.tables(), c2.temp_id, c2.label_id, *l, (k + 1) as nat,
                            Operand::Temporary(g.temp), *e)->Ok_0;
                        assert(self.context.output@ =~= c0.output@ + (g.text
                            + inst_text(g.temp, "getelemptr"@, addr, g.value) + c.text));
                    }
                }
                rest
            },
            _ => Err(IRBuilderErr::InvalidLVal(at_name_string(&l.id.id))),
        }
    }

    /// Lowers a call: the callee must be a function, and the arguments
    /// must match its parameters in number and type.
    #[verifier::spinoff_prover]
    #[verifier::rlimit(60)]
    fn gen_call(&mut self, id: &Ident, args: &Vec<Exp>) -> (r: Result<TypedValue, IRBuilderErr>)
        requires
            old(self).context.wf(),
        ensures
            expr_step(old(self).context, final(self).context),
            lowered(old(self).context, final(self).context, r,
                lower_call(old(self).context.tables(), old(self).context.temp_id, old(self).context.label_id, *id, *args)),
            r matches Ok(v) ==> value_ty_ok(v.ty),
        decreases args, 1int, 0int,
    {
        proof {
            reveal_with_fuel(lower_call, 1);
        }
        let sym = self.context.get_symbol(&id.id)?;
        let f = match sym {
            Symbol::Func(f) => f,
            _ => {
                return Err(IRBuilderErr::NotAFunction(at_name_string(&id.id)));
            },
        };
        if args.len() != f.params.len() {
            return Err(IRBuilderErr::ArgumentCountMismatch {
                function: at_name_string(&id.id),
                expected: f.params.len(),
                actual: args.len(),
            });
        }
        let ghost c0 = self.context;
        let values = self.gen_args(id, &f.params, args, 0)?;
        let ghost ag = lower_args(c0.tables(), c0.temp_id, c0.label_id, id.id@, f.params@, *args, 0)->Ok_0;
        let ghost c1 = self.context;
        let returns_value = f.ret.is_i32();
        let mut line = String::new();
        let mut t: usize = 0;
        if returns_value {
            t = self.context.new_temp()?;
            Operand::Temporary(t).render_into(&mut line);
            push_str(&mut line, " = ");
        }
        let ghost head = line@;
        push_str(&mut line, "call @");
        push_str(&mut line, f.identifier.as_str());
        push_str(&mut line, "(");
        let ghost open = line@;
        let mut j: usize = 0;
        assert(values@.subrange(0, 0) =~= Seq::<Operand>::empty());
        assert(line@ =~= open + join_operands(values@.subrange(0, 0)));
        while j < values.len()
            invariant
                j <= values@.len(),
                line@ == open + join_operands(values@.subrange(0, j as int)),
            decreases values.len() - j,
        {
            if j > 0 {
                push_str(&mut line, ", ");
            }
            values[j].render_into(&mut line);
            proof {
                let s = values@.subrange(0, j + 1);
                assert(s.drop_last() =~= values@.subrange(0, j as int));
                assert(s.last() == values@[j as int]);
                if j == 0 {
                    assert(line@ =~= open + join_operands(s));
                } else {
                    assert(line@ =~= open + join_operands(s));
                }
            }
            j = j + 1;
        }
        push_str(&mut line, ")");
        assert(values@.subrange(0, values@.len() as int) =~= values@);
        let ghost before = self.context;
        self.context.emit_instruction(line.as_str());
        proof {
            reveal_strlit("call @");
            reveal_strlit(" = ");
            if returns_value {
                assert(line@ =~= operand_text(Operand::Temporary(t)) + " = "@ + call_text(f.identifier@, ag.values));
                assert(self.context.output@ =~= c0.output@ + (ag.text + "\t"@ + operand_text(Operand::Temporary(ag.temp))
                    + " = "@ + call_text(f.identifier@, ag.values) + "\n"@));
            } else {
                assert(line@ =~= call_text(f.identifier@, ag.values));
                assert(self.context.output@ =~= c0.output@ + (ag.text + "\t"@ + call_text(f.identifier@, ag.values) + "\n"@));
            }
            assert(prefix(before.output@, self.context.output@));
        }
        if returns_value {
            Ok(TypedValue { value: Operand::Temporary(t), ty: Type::I32 })
        } else {
            Ok(TypedValue { value: Operand::Immediate(0), ty: Type::Void })
        }
    }

    /// Lowers the arguments of a call from position `k` on, checking each
    /// against its parameter's type.
    #[verifier::spinoff_prover]
    #[verifier::rlimit(40)]
    fn gen_args(&mut self, id: &Ident, params: &Vec<Type>, args: &Vec<Exp>, k: usize)
        -> (r: Result<Vec<Operand>, IRBuilderErr>)
        requires
            old(self).context.wf(),
            params@.len() == args@.len(),
            k <= args@.len(),
        ensures
            expr_step(old(self).context, final(self).context),
            match lower_args(old(self).context.tables(), old(self).context.temp_id, old(self).context.label_id, id.id@,
                params@, *args, k as nat) {
                Ok(g) => r matches Ok(v) && v@ == g.values && final(self).context.output@ == old(self).context.output@
                    + g.text && final(self).context.temp_id == g.temp && final(self).context.label_id == g.label,
                Err(x) => r matches Err(y) && y@ == x,
            },
        decreases args, 0int, args@.len() - k,
    {
        proof {
            reveal_with_fuel(lower_args, 1);
        }
        if k >= args.len() {
            assert(self.context.output@ =~= old(self).context.output@ + Seq::<char>::empty());
            return Ok(Vec::new());
        }
        let arg = &args[k];
        assert(decreases_to!(args => args@[k as int]));
        let ghost c0 = self.context;
        let tv = self.gen_value_exp(arg)?;
        let ghost g = lower_value(c0.tables(), c0.temp_id, c0.label_id, args@[k as int])->Ok_0;
        if !tv.ty.same(&params[k]) {
            return Err(IRBuilderErr::ArgumentTypeMismatch {
                function: at_name_string(&id.id),
                index: k,
                expected: params[k].render(),
                actual: tv.ty.render(),
            });
        }
        let ghost c1 = self.context;
        let mut rest = self.gen_args(id, params, args, k + 1)?;
        let ghost rg = lower_args(c1.tables(), c1.temp_id, c1.label_id, id.id@, params@, *args, (k + 1) as nat)->Ok_0;
        rest.insert(0, tv.value);
        assert(rest@ =~= seq![g.value] + rg.values);
        assert(self.context.output@ =~= c0.output@ + (g.text + rg.text));
        Ok(rest)
    }
}

} // verus!
