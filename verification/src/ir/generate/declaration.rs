//! Lowering of constant and variable declarations, local and global.
use vstd::prelude::*;
use crate::ast::{ConstDecl, ConstDef, ConstInitVal, Decl, Exp, InitVal, VarDecl, VarDef};
use crate::text::{dec_int, push_i64, push_str};
use super::super::IRBuilder;
use super::super::const_eval::{ev_exp, flat_offset};
use super::super::context::{IRContext, Operand};
use super::super::emit::{expr_step, inst_text, prefix, store_text};
use super::super::error::{ErrView, IRBuilderErr};
use super::super::symbol::{address_text, clone_values, symbol_ok, Object, Symbol, Tables, VariableAddress};
use super::super::types::{lemma_count_ok, lemma_elem_count, scalar_count, spec_count, type_ok, type_text, Type};
use super::initializer::{agg_text, const_tree, deref_opts, fill, format_aggregate, init_tree, node_of_const_init, node_of_init, normalize_initializer, Tree};
use super::stmt_step;
use super::stmt_spec::{alloc_text, const_stores, define, elem_address, elem_chain, init_stores, lemma_prepend_assoc, lemma_prepend_empty, lemma_stepped_prepend, lower_const_def, lower_const_defs, lower_decl, lower_var_def, lower_var_defs, new_local, prepend, scalar_indices, state_of, stepped, var_init, St, Step};
use super::unit_spec::{define_global, global_alloc_text, lower_global_const_def, lower_global_const_defs, lower_global_decl, lower_global_var_def, lower_global_var_defs};
use super::lower_spec::{lower_i32, Gen};

verus! {

/// A type built from `i32` by arrays only.
pub open spec fn int_array(t: Type) -> bool
    decreases t,
{
    match t {
        Type::I32 => true,
        Type::Array(e, _) => int_array(*e),
        _ => false,
    }
}

/// The values of normalized initializer entries, left to right: an
/// entry's constant value, or zero for an empty entry.
pub open spec fn ev_entries(c: Tables, s: Seq<Option<Exp>>) -> Result<Seq<i32>, ErrView>
    decreases s.len(),
{
    if s.len() == 0 {
        Ok(Seq::empty())
    } else {
        match ev_entries(c, s.drop_last()) {
            Err(e) => Err(e),
            Ok(p) => match s.last() {
                None => Ok(p.push(0)),
                Some(x) => match ev_exp(c, x) {
                    Err(e) => Err(e),
                    Ok(v) => Ok(p.push(v)),
                },
            },
        }
    }
}

/// The scalars of an object of type `t` with constant initializer `n`.
#[verifier::opaque]
pub open spec fn const_values(c: Tables, t: Type, n: Tree) -> Result<Seq<i32>, ErrView> {
    match fill(t, n) {
        Err(e) => Err(e),
        Ok(s) => ev_entries(c, s),
    }
}

/// The initializer of a global allocation: `zeroinit` when every scalar
/// is zero, the value itself for an `i32`, the aggregate otherwise.
pub open spec fn global_init_text(t: Type, v: Seq<i32>) -> Seq<char> {
    if forall|i: int| 0 <= i < v.len() ==> v[i] == 0 {
        "zeroinit"@
    } else if t == Type::I32 {
        dec_int(v[0] as int)
    } else {
        agg_text(t, v)
    }
}

/// `new` continues `old` while lowering a local declaration: as for a
/// statement, but names may be added to the innermost scope, and the loop
/// stack is untouched.
pub open spec fn decl_step(old: IRContext, new: IRContext) -> bool {
    &&& stmt_step(old, new)
    &&& new.loops@ == old.loops@
    &&& new.locals.tables().len() == old.locals.tables().len()
    &&& new.locals.tables().drop_last() == old.locals.tables().drop_last()
}

/// `new` continues `old` while lowering a global declaration: only the
/// global scope may change.
pub open spec fn global_step(old: IRContext, new: IRContext) -> bool {
    &&& new.wf()
    &&& new.locals.tables() == old.locals.tables()
    &&& new.return_type == old.return_type
    &&& old.counters_le(&new)
    &&& prefix(old.output@, new.output@)
    &&& new.loops@ == old.loops@
}

/// A declaration step followed by an expression step is a declaration
/// step.
pub proof fn lemma_decl_then_expr(a: IRContext, b: IRContext, c: IRContext)
    requires
        decl_step(a, b),
        expr_step(b, c),
    ensures
        decl_step(a, c),
{
    super::super::emit::lemma_prefix_trans(a.output@, b.output@, c.output@);
}

proof fn lemma_ev_entries_len(c: Tables, s: Seq<Option<Exp>>)
    requires
        ev_entries(c, s) is Ok,
    ensures
        ev_entries(c, s)->Ok_0.len() == s.len(),
    decreases s.len(),
{
    if s.len() > 0 {
        lemma_ev_entries_len(c, s.drop_last());
    }
}

proof fn lemma_ev_entries_error(c: Tables, s: Seq<Option<Exp>>, n: int)
    requires
        0 < n <= s.len(),
        ev_entries(c, s.subrange(0, n)) is Err,
    ensures
        ev_entries(c, s) == ev_entries(c, s.subrange(0, n)),
    decreases s.len() - n,
{
    if n == s.len() {
        assert(s.subrange(0, n) =~= s);
    } else {
        assert(s.subrange(0, n + 1).drop_last() =~= s.subrange(0, n));
        lemma_ev_entries_error(c, s, n + 1);
    }
}

/// The indices that select the scalar at row-major position `flat` of a
/// value of type `ty`; they are exactly those that `flat_offset` maps
/// back to `flat`.
pub fn flat_indices(ty: &Type, flat: usize) -> (r: Result<Vec<i32>, IRBuilderErr>)
    requires
        type_ok(*ty),
        int_array(*ty),
        flat < spec_count(*ty),
    ensures
        match scalar_indices(*ty, flat as int) {
            Some(ix) => r matches Ok(v) && v@ == ix,
            None => r == Err::<Vec<i32>, IRBuilderErr>(IRBuilderErr::ArraySizeOverflow),
        },
        r matches Ok(ix) ==> flat_offset(*ty, ix@) == Some(flat as int),
    decreases ty,
{
    match ty {
        Type::Array(e, n) => {
            proof {
                lemma_elem_count(**e, *n);
                lemma_count_ok(**e);
            }
            proof { crate::ir::types::lemma_type_ok_fits(**e); }
            let ec = scalar_count(e);
            let idx = flat / ec;
            let rest = flat % ec;
            if idx > 2147483647 {
                return Err(IRBuilderErr::ArraySizeOverflow);
            }
            proof {
                let nn = *n as int;
                assert(idx < nn) by (nonlinear_arith)
                    requires idx == flat / ec, flat < ec * nn, ec >= 1;
                assert(flat == idx * ec + rest) by (nonlinear_arith)
                    requires idx == flat / ec, rest == flat % ec, ec >= 1;
            }
            let sub = flat_indices(e, rest)?;
            let mut ix: Vec<i32> = Vec::new();
            ix.push(idx as i32);
            let mut k: usize = 0;
            while k < sub.len()
                invariant
                    k <= sub@.len(),
                    ix@ == seq![idx as i32] + sub@.subrange(0, k as int),
                decreases sub.len() - k,
            {
                ix.push(sub[k]);
                assert(ix@ =~= seq![idx as i32] + sub@.subrange(0, k + 1));
                k = k + 1;
            }
            assert(sub@.subrange(0, sub@.len() as int) =~= sub@);
            assert(ix@.drop_first() =~= sub@);
            Ok(ix)
        },
        _ => Ok(Vec::new()),
    }
}

impl IRBuilder {
    /// The constant values of normalized entries.
    pub fn eval_constant_initializer(&self, values: &Vec<Option<&Exp>>) -> (r: Result<Vec<i32>, IRBuilderErr>)
        requires
            self.context.wf(),
        ensures
            match (r, ev_entries(self.context.tables(), deref_opts(values@))) {
                (Ok(v), Ok(w)) => v@ == w,
                (Err(a), Err(b)) => a@ == b,
                _ => false,
            },
    {
        let ghost s = deref_opts(values@);
        let mut out: Vec<i32> = Vec::new();
        let mut i: usize = 0;
        assert(s.subrange(0, 0) =~= Seq::<Option<Exp>>::empty());
        while i < values.len()
            invariant
                self.context.wf(),
                s == deref_opts(values@),
                s.len() == values@.len(),
                i <= values.len(),
                ev_entries(self.context.tables(), s.subrange(0, i as int)) == Ok::<Seq<i32>, ErrView>(out@),
            decreases values.len() - i,
        {
            assert(s.subrange(0, i + 1).drop_last() =~= s.subrange(0, i as int));
            assert(s.subrange(0, i + 1).last() == s[i as int]);
            match values[i] {
                None => {
                    out.push(0);
                },
                Some(e) => {
                    match self.eval_exp(e) {
                        Ok(v) => {
                            out.push(v);
                        },
                        Err(x) => {
                            proof {
                                lemma_ev_entries_error(self.context.tables(), s, (i + 1) as int);
                            }
                            return Err(x);
                        },
                    }
                },
            }
            i = i + 1;
        }
        assert(s.subrange(0, s.len() as int) =~= s);
        Ok(out)
    }

    /// The address of the scalar at row-major position `flat` of the
    /// object of type `ty` at `base`, reached by `getelemptr`.
    pub fn element_address(&mut self, base: &Operand, ty: &Type, flat: usize) -> (r: Result<Operand, IRBuilderErr>)
        requires
            old(self).context.wf(),
            type_ok(*ty),
            int_array(*ty),
            flat < spec_count(*ty),
        ensures
            expr_step(old(self).context, final(self).context),
            final(self).context.label_id == old(self).context.label_id,
            match elem_address(*base, *ty, flat as int, old(self).context.temp_id) {
                Ok((text, a, t)) => r == Ok::<Operand, IRBuilderErr>(a) && final(self).context.output@
                    == old(self).context.output@ + text && final(self).context.temp_id == t,
                Err(e) => r matches Err(y) && y@ == e,
            },
    {
        let ix = flat_indices(ty, flat)?;
        let mut address = base.duplicate();
        let mut k: usize = 0;
        let ghost mut done: Seq<char> = Seq::empty();
        assert(ix@.skip(0) =~= ix@);
        while k < ix.len()
            invariant
                k <= ix@.len(),
                scalar_indices(*ty, flat as int) == Some(ix@),
                self.context.wf(),
                expr_step(old(self).context, self.context),
                self.context.label_id == old(self).context.label_id,
                self.context.output@ == old(self).context.output@ + done,
                elem_chain(*base, ix@, old(self).context.temp_id) == match elem_chain(address, ix@.skip(k as int),
                    self.context.temp_id) {
                    Ok((t, a, t2)) => Ok::<(Seq<char>, Operand, usize), ErrView>((done + t, a, t2)),
                    Err(e) => Err(e),
                },
            decreases ix.len() - k,
        {
            let ghost c0 = self.context;
            let ghost a0 = address;
            let ghost d0 = done;
            assert(ix@.skip(k as int).drop_first() =~= ix@.skip(k + 1));
            assert(ix@.skip(k as int)[0] == ix@[k as int]);
            assert(ix@.skip(k as int).len() > 0);
            assert(c0.temp_id == usize::MAX ==> elem_chain(address, ix@.skip(k as int), c0.temp_id)
                == Err::<(Seq<char>, Operand, usize), ErrView>(ErrView::TooManyNames));
            address = self.context.emit_pointer_op("getelemptr", &address, &Operand::Immediate(ix[k]))?;
            proof {
                let step = inst_text(c0.temp_id, "getelemptr"@, a0, Operand::Immediate(ix@[k as int]));
                done = d0 + step;
                assert(self.context.output@ =~= old(self).context.output@ + done);
                match elem_chain(address, ix@.skip(k + 1), self.context.temp_id) {
                    Ok((t, a, t2)) => {
                        assert(d0 + (step + t) =~= done + t);
                    },
                    Err(e) => {},
                }
            }
            k = k + 1;
        }
        assert(ix@.skip(k as int) =~= Seq::<i32>::empty());
        assert(done + Seq::<char>::empty() =~= done);
        Ok(address)
    }

    /// Stores the normalized initializer `values` into the local object of
    /// type `ty` at `base`, one scalar at a time (zero for empty entries).
    #[verifier::spinoff_prover]
    pub fn emit_local_initializer(&mut self, base: &Operand, ty: &Type, values: &Vec<Option<&Exp>>)
        -> (r: Result<(), IRBuilderErr>)
        requires
            old(self).context.wf(),
            type_ok(*ty),
            int_array(*ty),
            values@.len() == spec_count(*ty),
        ensures
            expr_step(old(self).context, final(self).context),
            stepped(old(self).context, final(self).context, r,
                init_stores(state_of(old(self).context), *base, *ty, deref_opts(values@), 0)),
    {
        let ghost st0 = state_of(self.context);
        let ghost vals = deref_opts(values@);
        let ghost mut done: Seq<char> = Seq::empty();
        proof {
            lemma_prepend_empty(init_stores(st0, *base, *ty, vals, 0));
        }
        let mut i: usize = 0;
        while i < values.len()
            invariant
                i <= values@.len(),
                values@.len() == spec_count(*ty),
                vals == deref_opts(values@),
                type_ok(*ty),
                int_array(*ty),
                self.context.wf(),
                expr_step(old(self).context, self.context),
                st0 == state_of(old(self).context),
                state_of(self.context) == (St { temp: self.context.temp_id, label: self.context.label_id, ..st0 }),
                self.context.output@ == old(self).context.output@ + done,
                init_stores(st0, *base, *ty, vals, 0) == prepend(done, init_stores(state_of(self.context), *base, *ty, vals, i as nat)),
            decreases values.len() - i,
        {
            let ghost c0 = self.context;
            let ghost d0 = done;
            assert(vals[i as int] == match values@[i as int] {
                Some(e) => Some(*e),
                None => None::<Exp>,
            });
            assert(init_stores(state_of(c0), *base, *ty, vals, i as nat) == match (match vals[i as int] {
                Some(e) => lower_i32(c0.tables(), c0.temp_id, c0.label_id, e),
                None => Ok(Gen { text: Seq::empty(), value: Operand::Immediate(0), ty: Type::I32, temp: c0.temp_id, label: c0.label_id }),
            }) {
                Err(e) => Err(e),
                Ok(g) => match elem_address(*base, *ty, i as int, g.temp) {
                    Err(e) => Err(e),
                    Ok((at, a, t2)) => prepend(g.text + at + store_text(g.value, a),
                        init_stores(St { temp: t2, label: g.label, ..state_of(c0) }, *base, *ty, vals, (i + 1) as nat)),
                },
            });
            let value = match values[i] {
                Some(e) => self.gen_i32_exp(e)?,
                None => Operand::Immediate(0),
            };
            let ghost c1 = self.context;
            let address = self.element_address(base, ty, i)?;
            self.context.emit_store(&value, &address);
            proof {
                let g = match vals[i as int] {
                    Some(e) => lower_i32(c0.tables(), c0.temp_id, c0.label_id, e)->Ok_0,
                    None => Gen { text: Seq::empty(), value: Operand::Immediate(0), ty: Type::I32, temp: c0.temp_id, label: c0.label_id },
                };
                let (at, a, t2) = elem_address(*base, *ty, i as int, c1.temp_id)->Ok_0;
                let step = g.text + at + store_text(g.value, a);
                done = d0 + step;
                assert(self.context.output@ =~= old(self).context.output@ + done);
                lemma_prepend_assoc(d0, step, init_stores(state_of(self.context), *base, *ty, vals, (i + 1) as nat));
            }
            i = i + 1;
        }
        assert(done + Seq::<char>::empty() =~= done);
        Ok(())
    }

    /// Stores the constant scalars `values` into the local object of type
    /// `ty` at `base`.
    #[verifier::spinoff_prover]
    pub fn emit_constant_local_initializer(&mut self, base: &Operand, ty: &Type, values: &Vec<i32>)
        -> (r: Result<(), IRBuilderErr>)
        requires
            old(self).context.wf(),
            type_ok(*ty),
            int_array(*ty),
            values@.len() == spec_count(*ty),
        ensures
            expr_step(old(self).context, final(self).context),
            stepped(old(self).context, final(self).context, r,
                const_stores(state_of(old(self).context), *base, *ty, values@, 0)),
    {
        let ghost st0 = state_of(self.context);
        let ghost mut done: Seq<char> = Seq::empty();
        proof {
            lemma_prepend_empty(const_stores(st0, *base, *ty, values@, 0));
        }
        let mut i: usize = 0;
        while i < values.len()
            invariant
                i <= values@.len(),
                values@.len() == spec_count(*ty),
                type_ok(*ty),
                int_array(*ty),
                self.context.wf(),
                expr_step(old(self).context, self.context),
                st0 == state_of(old(self).context),
                state_of(self.context) == (St { temp: self.context.temp_id, ..st0 }),
                self.context.output@ == old(self).context.output@ + done,
                const_stores(st0, *base, *ty, values@, 0) == prepend(done, const_stores(state_of(self.context), *base, *ty, values@, i as nat)),
            decreases values.len() - i,
        {
            let ghost c0 = self.context;
            let ghost d0 = done;
            assert(const_stores(state_of(c0), *base, *ty, values@, i as nat) == match elem_address(*base, *ty, i as int, c0.temp_id) {
                Err(e) => Err(e),
                Ok((at, a, t2)) => prepend(at + store_text(Operand::Immediate(values@[i as int]), a),
                    const_stores(St { temp: t2, ..state_of(c0) }, *base, *ty, values@, (i + 1) as nat)),
            });
            let address = self.element_address(base, ty, i)?;
            self.context.emit_store(&Operand::Immediate(values[i]), &address);
            proof {
                let (at, a, t2) = elem_address(*base, *ty, i as int, c0.temp_id)->Ok_0;
                let step = at + store_text(Operand::Immediate(values@[i as int]), a);
                done = d0 + step;
                assert(self.context.output@ =~= old(self).context.output@ + done);
                lemma_prepend_assoc(d0, step, const_stores(state_of(self.context), *base, *ty, values@, (i + 1) as nat));
            }
            i = i + 1;
        }
        assert(done + Seq::<char>::empty() =~= done);
        Ok(())
    }

    /// Emits `global @x = alloc ty, init`.
    pub fn emit_global_alloc(&mut self, variable: &VariableAddress, ty: &Type, values: &Vec<i32>)
        requires
            old(self).context.wf(),
            type_ok(*ty),
            values@.len() == spec_count(*ty),
        ensures
            final(self).context.output@ == old(self).context.output@ + "global "@ + address_text(*variable)
                + " = alloc "@ + type_text(*ty) + ", "@ + global_init_text(*ty, values@) + "\n"@,
            expr_step(old(self).context, final(self).context),
            final(self).context.temp_id == old(self).context.temp_id,
            final(self).context.label_id == old(self).context.label_id,
    {
        proof {
            lemma_count_ok(*ty);
        }
        let mut all_zero = true;
        let mut i: usize = 0;
        while i < values.len()
            invariant
                i <= values@.len(),
                all_zero == forall|j: int| 0 <= j < i ==> values@[j] == 0,
            decreases values.len() - i,
        {
            if values[i] != 0 {
                all_zero = false;
            }
            i = i + 1;
        }
        let init = if all_zero {
            String::from_str("zeroinit")
        } else if ty.is_i32() {
            let mut s = String::new();
            push_i64(&mut s, values[0] as i64);
            s
        } else {
            format_aggregate(ty, values)
        };
        proof {
            reveal_strlit("zeroinit");
            assert(values@.subrange(0, spec_count(*ty) as int) =~= values@);
        }
        assert(init@ =~= global_init_text(*ty, values@));
        let mut line = String::from_str("global ");
        variable.render_into(&mut line);
        push_str(&mut line, " = alloc ");
        ty.render_into(&mut line);
        push_str(&mut line, ", ");
        push_str(&mut line, init.as_str());
        self.context.emit_line(line.as_str());
        proof {
            reveal_strlit("global ");
        }
        assert(self.context.output@ =~= old(self).context.output@ + "global "@ + address_text(*variable)
            + " = alloc "@ + type_text(*ty) + ", "@ + global_init_text(*ty, values@) + "\n"@);
        assert(prefix(old(self).context.output@, self.context.output@));
    }

    /// Lowers a local declaration.
    pub fn gen_decl(&mut self, d: &Decl) -> (r: Result<(), IRBuilderErr>)
        requires
            old(self).context.wf(),
        ensures
            decl_step(old(self).context, final(self).context),
            stepped(old(self).context, final(self).context, r, lower_decl(state_of(old(self).context), *d)),
    {
        match d {
            Decl::ConstDecl(c) => self.gen_const_decl(c),
            Decl::VarDecl(v) => self.gen_var_decl(v),
        }
    }

    /// Lowers local variables, in order.
    #[verifier::spinoff_prover]
    pub fn gen_var_decl(&mut self, d: &VarDecl) -> (r: Result<(), IRBuilderErr>)
        requires
            old(self).context.wf(),
        ensures
            decl_step(old(self).context, final(self).context),
            stepped(old(self).context, final(self).context, r, lower_var_defs(state_of(old(self).context), d.var_defs@, 0)),
    {
        let ghost st0 = state_of(self.context);
        let ghost mut done: Seq<char> = Seq::empty();
        proof {
            lemma_prepend_empty(lower_var_defs(st0, d.var_defs@, 0));
        }
        let mut i: usize = 0;
        while i < d.var_defs.len()
            invariant
                i <= d.var_defs@.len(),
                self.context.wf(),
                decl_step(old(self).context, self.context),
                st0 == state_of(old(self).context),
                self.context.output@ == old(self).context.output@ + done,
                lower_var_defs(st0, d.var_defs@, 0) == prepend(done, lower_var_defs(state_of(self.context), d.var_defs@, i as nat)),
            decreases d.var_defs.len() - i,
        {
            let ghost c0 = self.context;
            let ghost d0 = done;
            assert(lower_var_defs(state_of(c0), d.var_defs@, i as nat) == match lower_var_def(state_of(c0), d.var_defs@[i as int]) {
                Err(e) => Err(e),
                Ok(a) => prepend(a.text, lower_var_defs(a.st, d.var_defs@, (i + 1) as nat)),
            });
            self.gen_var_def(&d.var_defs[i])?;
            proof {
                let a = lower_var_def(state_of(c0), d.var_defs@[i as int])->Ok_0;
                done = d0 + a.text;
                assert(self.context.output@ =~= old(self).context.output@ + done);
                lemma_prepend_assoc(d0, a.text, lower_var_defs(state_of(self.context), d.var_defs@, (i + 1) as nat));
            }
            i = i + 1;
        }
        assert(done + Seq::<char>::empty() =~= done);
        Ok(())
    }

    /// Allocates a local object of type `ty` named `name` and defines the
    /// name in the innermost scope.
    #[verifier::spinoff_prover]
    pub fn declare_local(&mut self, name: &String, ty: &Type, mutable: bool, const_values: Option<Vec<i32>>)
        -> (r: Result<VariableAddress, IRBuilderErr>)
        requires
            old(self).context.wf(),
            type_ok(*ty),
            const_values matches Some(v) ==> v@.len() == spec_count(*ty),
        ensures
            decl_step(old(self).context, final(self).context),
            match new_local(state_of(old(self).context), *name, *ty, mutable, match const_values {
                Some(v) => Some(v@),
                None => None,
            }) {
                Ok((a, x)) => r == Ok::<VariableAddress, IRBuilderErr>(a) && state_of(final(self).context) == x.st
                    && final(self).context.output@ == old(self).context.output@ + x.text,
                Err(e) => r matches Err(y) && y@ == e,
            },
    {
        let variable = self.context.new_variable(name)?;
        self.context.emit_alloc(&variable, ty);
        let ghost allocated = self.context;
        let object = Object { address: variable.duplicate(), ty: ty.duplicate(), mutable, const_values };
        self.define_local(name, Symbol::Object(object))?;
        proof {
            super::super::emit::lemma_prefix_trans(old(self).context.output@, allocated.output@, self.context.output@);
            assert(self.context.output@ =~= old(self).context.output@ + alloc_text(variable, *ty));
        }
        Ok(variable)
    }

    /// Defines `name` in the innermost scope.
    pub fn define_local(&mut self, name: &String, symbol: Symbol) -> (r: Result<(), IRBuilderErr>)
        requires
            old(self).context.wf(),
            symbol_ok(symbol@),
        ensures
            decl_step(old(self).context, final(self).context),
            r is Ok ==> final(self).context.lookup(name@) == Some(symbol@),
            stepped(old(self).context, final(self).context, r, match define(state_of(old(self).context), name@, symbol@) {
                Ok(x) => Ok(Step { st: x, text: Seq::empty() }),
                Err(e) => Err(e),
            }),
    {
        let ghost sv = symbol@;
        let r = self.context.define_symbol(name, symbol);
        proof {
            let g = old(self).context.globals.tables();
            let t = old(self).context.locals.tables();
            assert(self.context.output@ =~= old(self).context.output@ + Seq::<char>::empty());
            if t.len() > 0 {
                assert((g + t).last() == t.last());
                assert((g + t).len() == g.len() + t.len());
            }
            if r is Ok {
                assert(t.drop_last().push(t.last().insert(name@, sv)).drop_last() =~= t.drop_last());
                assert(g + t.drop_last().push(t.last().insert(name@, sv)) =~= (g + t).drop_last().push(
                    (g + t).last().insert(name@, sv)));
            }
        }
        r
    }

    /// Lowers a local variable: it is allocated, named, and then
    /// initialized; a scalar without initializer is set to zero.
    #[verifier::spinoff_prover]
    pub fn gen_var_def(&mut self, def: &VarDef) -> (r: Result<(), IRBuilderErr>)
        requires
            old(self).context.wf(),
        ensures
            decl_step(old(self).context, final(self).context),
            stepped(old(self).context, final(self).context, r, lower_var_def(state_of(old(self).context), *def)),
    {
        let ty = self.build_decl_type(&def.dimensions)?;
        let variable = self.declare_local(&def.id.id, &ty, true, None)?;
        let ghost named = self.context;
        let base = Operand::Variable(variable);
        let r = self.gen_var_init(&def.init, &base, &ty);
        proof {
            lemma_decl_then_expr(old(self).context, named, self.context);
            let x = new_local(state_of(old(self).context), def.id.id, ty, true, None)->Ok_0.1;
            lemma_stepped_prepend(old(self).context, named, self.context, r, x.text,
                var_init(state_of(named), base, ty, def.init));
        }
        r
    }

    /// Initializes a new local variable.
    #[verifier::spinoff_prover]
    fn gen_var_init(&mut self, init: &Option<InitVal>, base: &Operand, ty: &Type) -> (r: Result<(), IRBuilderErr>)
        requires
            old(self).context.wf(),
            type_ok(*ty),
            int_array(*ty),
        ensures
            expr_step(old(self).context, final(self).context),
            stepped(old(self).context, final(self).context, r, var_init(state_of(old(self).context), *base, *ty, *init)),
    {
        match init {
            Some(init) => {
                let node = node_of_init(init);
                let values = normalize_initializer(ty, &node)?;
                self.emit_local_initializer(base, ty, &values)
            },
            None => {
                if ty.is_i32() {
                    self.context.emit_store(&Operand::Immediate(0), base);
                } else {
                    assert(self.context.output@ =~= old(self).context.output@ + Seq::<char>::empty());
                }
                Ok(())
            },
        }
    }

    /// Lowers local constants, in order.
    #[verifier::spinoff_prover]
    pub fn gen_const_decl(&mut self, d: &ConstDecl) -> (r: Result<(), IRBuilderErr>)
        requires
            old(self).context.wf(),
        ensures
            decl_step(old(self).context, final(self).context),
            stepped(old(self).context, final(self).context, r, lower_const_defs(state_of(old(self).context), d.const_defs@, 0)),
    {
        let ghost st0 = state_of(self.context);
        let ghost mut done: Seq<char> = Seq::empty();
        proof {
            lemma_prepend_empty(lower_const_defs(st0, d.const_defs@, 0));
        }
        let mut i: usize = 0;
        while i < d.const_defs.len()
            invariant
                i <= d.const_defs@.len(),
                self.context.wf(),
                decl_step(old(self).context, self.context),
                st0 == state_of(old(self).context),
                self.context.output@ == old(self).context.output@ + done,
                lower_const_defs(st0, d.const_defs@, 0) == prepend(done, lower_const_defs(state_of(self.context), d.const_defs@, i as nat)),
            decreases d.const_defs.len() - i,
        {
            let ghost c0 = self.context;
            let ghost d0 = done;
            assert(lower_const_defs(state_of(c0), d.const_defs@, i as nat) == match lower_const_def(state_of(c0), d.const_defs@[i as int]) {
                Err(e) => Err(e),
                Ok(a) => prepend(a.text, lower_const_defs(a.st, d.const_defs@, (i + 1) as nat)),
            });
            self.gen_const_def(&d.const_defs[i])?;
            proof {
                let a = lower_const_def(state_of(c0), d.const_defs@[i as int])->Ok_0;
                done = d0 + a.text;
                assert(self.context.output@ =~= old(self).context.output@ + done);
                lemma_prepend_assoc(d0, a.text, lower_const_defs(state_of(self.context), d.const_defs@, (i + 1) as nat));
            }
            i = i + 1;
        }
        assert(done + Seq::<char>::empty() =~= done);
        Ok(())
    }

    /// Lowers a local constant: a scalar becomes a named value; an array is
    /// allocated, filled with its constant scalars, and remembered with its
    /// values so that constant expressions can index it.
    #[verifier::spinoff_prover]
    pub fn gen_const_def(&mut self, def: &ConstDef) -> (r: Result<(), IRBuilderErr>)
        requires
            old(self).context.wf(),
        ensures
            decl_step(old(self).context, final(self).context),
            stepped(old(self).context, final(self).context, r, lower_const_def(state_of(old(self).context), *def)),
    {
        let ty = self.build_decl_type(&def.dimensions)?;
        let values = self.eval_const_init(&def.init, &ty)?;
        if ty.is_i32() {
            self.define_local(&def.id.id, Symbol::Const(values[0]))
        } else {
            let kept = clone_values(&values);
            let variable = self.declare_local(&def.id.id, &ty, false, Some(kept))?;
            let ghost named = self.context;
            let base = Operand::Variable(variable);
            let r = self.emit_constant_local_initializer(&base, &ty, &values);
            proof {
                lemma_decl_then_expr(old(self).context, named, self.context);
                let x = new_local(state_of(old(self).context), def.id.id, ty, false, Some(values@))->Ok_0.1;
                lemma_stepped_prepend(old(self).context, named, self.context, r, x.text,
                    const_stores(state_of(named), base, ty, values@, 0));
            }
            r
        }
    }

    /// The constant scalars of a constant initializer for type `ty`.
    pub fn eval_const_init(&self, init: &ConstInitVal, ty: &Type) -> (r: Result<Vec<i32>, IRBuilderErr>)
        requires
            self.context.wf(),
            type_ok(*ty),
        ensures
            match (r, const_values(self.context.tables(), *ty, const_tree(*init))) {
                (Ok(v), Ok(w)) => v@ == w,
                (Err(a), Err(b)) => a@ == b,
                _ => false,
            },
            r matches Ok(v) ==> v@.len() == spec_count(*ty),
    {
        proof {
            reveal(const_values);
        }
        let node = node_of_const_init(init);
        let normalized = normalize_initializer(ty, &node)?;
        let r = self.eval_constant_initializer(&normalized);
        proof {
            if r is Ok {
                lemma_ev_entries_len(self.context.tables(), deref_opts(normalized@));
            }
        }
        r
    }

    /// The constant scalars of a global variable's initializer.
    pub fn eval_global_init(&self, init: &Option<InitVal>, ty: &Type) -> (r: Result<Vec<i32>, IRBuilderErr>)
        requires
            self.context.wf(),
            type_ok(*ty),
        ensures
            match (r, *init) {
                (Ok(v), None) => v@ == Seq::new(spec_count(*ty), |i: int| 0i32),
                (Ok(v), Some(i)) => const_values(self.context.tables(), *ty, init_tree(i)) == Ok::<Seq<i32>, ErrView>(v@),
                (Err(a), Some(i)) => const_values(self.context.tables(), *ty, init_tree(i)) == Err::<Seq<i32>, ErrView>(a@),
                _ => false,
            },
            r matches Ok(v) ==> v@.len() == spec_count(*ty),
    {
        proof {
            reveal(const_values);
        }
        match init {
            Some(init) => {
                let node = node_of_init(init);
                let normalized = normalize_initializer(ty, &node)?;
                let r = self.eval_constant_initializer(&normalized);
                proof {
                    if r is Ok {
                        lemma_ev_entries_len(self.context.tables(), deref_opts(normalized@));
                    }
                }
                r
            },
            None => {
                proof { crate::ir::types::lemma_type_ok_fits(*ty); }
                Ok(zeros(scalar_count(ty)))
            },
        }
    }

    /// Lowers a global declaration.
    #[verifier::spinoff_prover]
    pub fn gen_global_decl(&mut self, d: &Decl) -> (r: Result<(), IRBuilderErr>)
        requires
            old(self).context.wf(),
        ensures
            global_step(old(self).context, final(self).context),
            stepped(old(self).context, final(self).context, r, lower_global_decl(state_of(old(self).context), *d)),
    {
        let ghost st0 = state_of(self.context);
        let ghost mut done: Seq<char> = Seq::empty();
        match d {
            Decl::ConstDecl(c) => {
                proof {
                    lemma_prepend_empty(lower_global_const_defs(st0, c.const_defs@, 0));
                }
                let mut i: usize = 0;
                while i < c.const_defs.len()
                    invariant
                        i <= c.const_defs@.len(),
                        self.context.wf(),
                        global_step(old(self).context, self.context),
                        st0 == state_of(old(self).context),
                        lower_global_decl(st0, *d) == lower_global_const_defs(st0, c.const_defs@, 0),
                        self.context.output@ == old(self).context.output@ + done,
                        lower_global_const_defs(st0, c.const_defs@, 0)
                            == prepend(done, lower_global_const_defs(state_of(self.context), c.const_defs@, i as nat)),
                    decreases c.const_defs.len() - i,
                {
                    let ghost c0 = self.context;
                    let ghost d0 = done;
                    assert(lower_global_const_defs(state_of(c0), c.const_defs@, i as nat)
                        == match lower_global_const_def(state_of(c0), c.const_defs@[i as int]) {
                        Err(e) => Err(e),
                        Ok(a) => prepend(a.text, lower_global_const_defs(a.st, c.const_defs@, (i + 1) as nat)),
                    });
                    self.gen_global_const_def(&c.const_defs[i])?;
                    proof {
                        let a = lower_global_const_def(state_of(c0), c.const_defs@[i as int])->Ok_0;
                        done = d0 + a.text;
                        assert(self.context.output@ =~= old(self).context.output@ + done);
                        lemma_prepend_assoc(d0, a.text, lower_global_const_defs(state_of(self.context), c.const_defs@, (i + 1) as nat));
                    }
                    i = i + 1;
                }
                assert(done + Seq::<char>::empty() =~= done);
                Ok(())
            },
            Decl::VarDecl(v) => {
                proof {
                    lemma_prepend_empty(lower_global_var_defs(st0, v.var_defs@, 0));
                }
                let mut i: usize = 0;
                while i < v.var_defs.len()
                    invariant
                        i <= v.var_defs@.len(),
                        self.context.wf(),
                        global_step(old(self).context, self.context),
                        st0 == state_of(old(self).context),
                        lower_global_decl(st0, *d) == lower_global_var_defs(st0, v.var_defs@, 0),
                        self.context.output@ == old(self).context.output@ + done,
                        lower_global_var_defs(st0, v.var_defs@, 0)
                            == prepend(done, lower_global_var_defs(state_of(self.context), v.var_defs@, i as nat)),
                    decreases v.var_defs.len() - i,
                {
                    let ghost c0 = self.context;
                    let ghost d0 = done;
                    assert(lower_global_var_defs(state_of(c0), v.var_defs@, i as nat)
                        == match lower_global_var_def(state_of(c0), v.var_defs@[i as int]) {
                        Err(e) => Err(e),
                        Ok(a) => prepend(a.text, lower_global_var_defs(a.st, v.var_defs@, (i + 1) as nat)),
                    });
                    self.gen_global_var_def(&v.var_defs[i])?;
                    proof {
                        let a = lower_global_var_def(state_of(c0), v.var_defs@[i as int])->Ok_0;
                        done = d0 + a.text;
                        assert(self.context.output@ =~= old(self).context.output@ + done);
                        lemma_prepend_assoc(d0, a.text, lower_global_var_defs(state_of(self.context), v.var_defs@, (i + 1) as nat));
                    }
                    i = i + 1;
                }
                assert(done + Seq::<char>::empty() =~= done);
                Ok(())
            },
        }
    }

    /// Defines a global name.
    fn define_global_name(&mut self, name: &String, symbol: Symbol) -> (r: Result<(), IRBuilderErr>)
        requires
            old(self).context.wf(),
            symbol_ok(symbol@),
        ensures
            global_step(old(self).context, final(self).context),
            final(self).context.output == old(self).context.output,
            match define_global(state_of(old(self).context), name@, symbol@) {
                Ok(x) => r is Ok && state_of(final(self).context) == x,
                Err(e) => r matches Err(y) && y@ == e,
            },
    {
        let ghost sv = symbol@;
        let r = self.context.define_global_symbol(name, symbol);
        proof {
            let g = old(self).context.globals.tables();
            let t = old(self).context.locals.tables();
            assert((g + t)[0] == g[0]);
            if r is Ok {
                assert(self.context.globals.tables() + t =~= (g + t).update(0, g[0].insert(name@, sv)));
            }
        }
        r
    }

    /// Lowers a global variable: its initializer must be constant, and a
    /// variable without one is zero.
    #[verifier::spinoff_prover]
    #[verifier::rlimit(80)]
    pub fn gen_global_var_def(&mut self, def: &VarDef) -> (r: Result<(), IRBuilderErr>)
        requires
            old(self).context.wf(),
        ensures
            global_step(old(self).context, final(self).context),
            stepped(old(self).context, final(self).context, r, lower_global_var_def(state_of(old(self).context), *def)),
    {
        proof {
            reveal(lower_global_var_def);
        }
        let ty = self.build_decl_type(&def.dimensions)?;
        let values = self.eval_global_init(&def.init, &ty)?;
        let variable = self.context.new_global_variable(&def.id.id);
        self.emit_global_alloc(&variable, &ty, &values);
        let ghost c1 = self.context;
        let object = Object { address: variable, ty, mutable: true, const_values: None };
        let r = self.define_global_name(&def.id.id, Symbol::Object(object));
        proof {
            lemma_global_then_global(old(self).context, c1, self.context);
            reveal(global_alloc_text);
            assert(self.context.output@ =~= old(self).context.output@ + global_alloc_text(variable, ty, values@));
        }
        r
    }

    /// Lowers a global constant.
    #[verifier::spinoff_prover]
    #[verifier::rlimit(80)]
    pub fn gen_global_const_def(&mut self, def: &ConstDef) -> (r: Result<(), IRBuilderErr>)
        requires
            old(self).context.wf(),
        ensures
            global_step(old(self).context, final(self).context),
            stepped(old(self).context, final(self).context, r, lower_global_const_def(state_of(old(self).context), *def)),
    {
        proof {
            reveal(lower_global_const_def);
        }
        let ty = self.build_decl_type(&def.dimensions)?;
        let values = self.eval_const_init(&def.init, &ty)?;
        if ty.is_i32() {
            let r = self.define_global_name(&def.id.id, Symbol::Const(values[0]));
            assert(self.context.output@ =~= old(self).context.output@ + Seq::<char>::empty());
            r
        } else {
            let variable = self.context.new_global_variable(&def.id.id);
            self.emit_global_alloc(&variable, &ty, &values);
            let ghost c1 = self.context;
            let ghost vals = values@;
            let object = Object { address: variable, ty, mutable: false, const_values: Some(values) };
            let r = self.define_global_name(&def.id.id, Symbol::Object(object));
            proof {
                lemma_global_then_global(old(self).context, c1, self.context);
                reveal(global_alloc_text);
                assert(self.context.output@ =~= old(self).context.output@ + global_alloc_text(variable, ty, vals));
            }
            r
        }
    }
}

/// Two global steps make one.
proof fn lemma_global_then_global(a: IRContext, b: IRContext, c: IRContext)
    requires
        expr_step(a, b),
        global_step(b, c),
    ensures
        global_step(a, c),
{
    super::super::emit::lemma_prefix_trans(a.output@, b.output@, c.output@);
}

/// `n` zeros.
pub fn zeros(n: usize) -> (v: Vec<i32>)
    ensures
        v@ == Seq::new(n as nat, |i: int| 0i32),
{
    let mut v: Vec<i32> = Vec::new();
    while v.len() < n
        invariant
            v@.len() <= n,
            forall|i: int| 0 <= i < v@.len() ==> v@[i] == 0,
        decreases n - v.len(),
    {
        v.push(0);
    }
    assert(v@ =~= Seq::new(n as nat, |i: int| 0i32));
    v
}

} // verus!
