//! Lowering of function signatures and definitions.
use vstd::prelude::*;
use crate::ast::{FuncDecl, FuncDeclParamType, FuncDef, FuncParam, FuncType};
use crate::text::{push_str, push_u64};
use super::super::IRBuilder;
use super::super::context::{register, IRContext};
use super::super::emit::{expr_step, lemma_prefix_trans, prefix};
use super::super::error::{at_name_string, ErrView, IRBuilderErr};
use super::super::symbol::{Func, Object, Symbol, SymbolView, VariableAddress};
use super::super::types::{type_ok, Type};
use super::declaration::decl_step;
use super::stmt_spec::{lower_block, state_of, stepped, St};
use super::unit_spec::{args_text, copies_text, decl_param_types, def_params, func_body, func_decl_text, func_header, lemma_decl_param_types_prefix, lemma_param_types_prefix, lower_func_def, param_object, param_objects, param_types, types_text};
use super::ControlFlow;

verus! {

/// The Koopa return type of a function.
pub open spec fn ret_type(t: FuncType) -> Type {
    match t {
        FuncType::Int => Type::I32,
        FuncType::Void => Type::Void,
    }
}

pub fn lower_ret_type(t: FuncType) -> (r: Type)
    ensures
        r == ret_type(t),
{
    match t {
        FuncType::Int => Type::I32,
        FuncType::Void => Type::Void,
    }
}

/// `new` continues `old` across a function: text is only appended,
/// counters only grow and the globals are untouched.
pub open spec fn func_step(old: IRContext, new: IRContext) -> bool {
    &&& new.wf()
    &&& new.globals.tables() == old.globals.tables()
    &&& old.counters_le(&new)
    &&& prefix(old.output@, new.output@)
}

/// `new` differs from `old` at most in the global scope.
pub open spec fn register_step(old: IRContext, new: IRContext) -> bool {
    &&& new.wf()
    &&& new.locals.tables() == old.locals.tables()
    &&& new.return_type == old.return_type
    &&& new.output == old.output
    &&& old.counters_le(&new) && new.counters_le(&old)
    &&& new.loops@ == old.loops@
}

impl IRBuilder {
    /// The types of a definition's parameters.
    fn lower_params(&self, params: &Vec<FuncParam>) -> (r: Result<Vec<Type>, IRBuilderErr>)
        requires
            self.context.wf(),
        ensures
            r matches Ok(v) ==> v@.len() == params@.len() && forall|i: int| 0 <= i < v@.len() ==> type_ok(#[trigger] v@[i]),
            match param_types(self.context.tables(), params@) {
                Ok(w) => r matches Ok(v) && v@ == w,
                Err(e) => r matches Err(y) && y@ == e,
            },
    {
        let mut types: Vec<Type> = Vec::new();
        let mut i: usize = 0;
        assert(params@.subrange(0, 0) =~= Seq::<FuncParam>::empty());
        while i < params.len()
            invariant
                self.context.wf(),
                i <= params@.len(),
                types@.len() == i,
                forall|j: int| 0 <= j < types@.len() ==> type_ok(#[trigger] types@[j]),
                param_types(self.context.tables(), params@.subrange(0, i as int)) == Ok::<Seq<Type>, ErrView>(types@),
            decreases params.len() - i,
        {
            assert(params@.subrange(0, i + 1).drop_last() =~= params@.subrange(0, i as int));
            assert(params@.subrange(0, i + 1).last() == params@[i as int]);
            let t = match self.lower_func_param_type(&params[i].ty) {
                Ok(t) => t,
                Err(e) => {
                    proof {
                        lemma_param_types_prefix(self.context.tables(), params@, i + 1);
                    }
                    return Err(e);
                },
            };
            types.push(t);
            i = i + 1;
        }
        assert(params@.subrange(0, i as int) =~= params@);
        Ok(types)
    }

    /// The types of a declaration's parameters.
    fn lower_decl_params(&self, d: &FuncDecl) -> (r: Result<Vec<Type>, IRBuilderErr>)
        requires
            self.context.wf(),
        ensures
            r matches Ok(v) ==> v@.len() == d.params@.len() && forall|i: int| 0 <= i < v@.len() ==> type_ok(#[trigger] v@[i]),
            match decl_param_types(self.context.tables(), d.params@) {
                Ok(w) => r matches Ok(v) && v@ == w,
                Err(e) => r matches Err(y) && y@ == e,
            },
    {
        let mut types: Vec<Type> = Vec::new();
        let mut i: usize = 0;
        assert(d.params@.subrange(0, 0) =~= Seq::<FuncDeclParamType>::empty());
        while i < d.params.len()
            invariant
                self.context.wf(),
                i <= d.params@.len(),
                types@.len() == i,
                forall|j: int| 0 <= j < types@.len() ==> type_ok(#[trigger] types@[j]),
                decl_param_types(self.context.tables(), d.params@.subrange(0, i as int)) == Ok::<Seq<Type>, ErrView>(types@),
            decreases d.params.len() - i,
        {
            assert(d.params@.subrange(0, i + 1).drop_last() =~= d.params@.subrange(0, i as int));
            assert(d.params@.subrange(0, i + 1).last() == d.params@[i as int]);
            let t = match self.lower_func_decl_param_type(&d.params[i]) {
                Ok(t) => t,
                Err(e) => {
                    proof {
                        lemma_decl_param_types_prefix(self.context.tables(), d.params@, i + 1);
                    }
                    return Err(e);
                },
            };
            types.push(t);
            i = i + 1;
        }
        assert(d.params@.subrange(0, i as int) =~= d.params@);
        Ok(types)
    }

    /// Registers the signature of a function definition.
    pub fn register_func(&mut self, f: &FuncDef) -> (r: Result<(), IRBuilderErr>)
        requires
            old(self).context.wf(),
        ensures
            register_step(old(self).context, final(self).context),
            r is Ok ==> (final(self).context.global(f.id.id@) matches Some(SymbolView::Func { defined, .. }) && defined),
            match param_types(old(self).context.tables(), def_params(*f)) {
                Err(e) => r matches Err(y) && y@ == e,
                Ok(ps) => match register(old(self).context.globals.tables()[0], f.id.id@, ps, ret_type(f.func_type), true) {
                    Ok(m) => r is Ok && final(self).context.globals.tables() == seq![m],
                    Err(e) => r matches Err(y) && y@ == e,
                },
            },
    {
        let empty: Vec<FuncParam> = Vec::new();
        let params = match &f.params {
            Some(p) => self.lower_params(p)?,
            None => {
                assert(param_types(self.context.tables(), def_params(*f)) == Ok::<Seq<Type>, ErrView>(Seq::empty()));
                Vec::new()
            },
        };
        let func = Func {
            identifier: f.id.id.clone(),
            params,
            ret: lower_ret_type(f.func_type),
            defined: true,
        };
        self.context.register_global_func(&f.id.id, func)
    }

    /// Registers the signature of a function declaration.
    pub fn register_func_decl(&mut self, d: &FuncDecl) -> (r: Result<(), IRBuilderErr>)
        requires
            old(self).context.wf(),
        ensures
            register_step(old(self).context, final(self).context),
            r is Ok ==> final(self).context.global(d.id.id@) matches Some(SymbolView::Func { .. }),
            match decl_param_types(old(self).context.tables(), d.params@) {
                Err(e) => r matches Err(y) && y@ == e,
                Ok(ps) => match register(old(self).context.globals.tables()[0], d.id.id@, ps, ret_type(d.func_type), false) {
                    Ok(m) => r is Ok && final(self).context.globals.tables() == seq![m],
                    Err(e) => r matches Err(y) && y@ == e,
                },
            },
    {
        let params = self.lower_decl_params(d)?;
        let func = Func {
            identifier: d.id.id.clone(),
            params,
            ret: lower_ret_type(d.func_type),
            defined: false,
        };
        self.context.register_global_func(&d.id.id, func)
    }

    /// Emits `decl @f(types): i32` for a function declared but not defined.
    #[verifier::spinoff_prover]
    pub fn gen_func_decl(&mut self, d: &FuncDecl) -> (r: Result<(), IRBuilderErr>)
        requires
            old(self).context.wf(),
        ensures
            expr_step(old(self).context, final(self).context),
            state_of(final(self).context) == state_of(old(self).context),
            match decl_param_types(old(self).context.tables(), d.params@) {
                Ok(ts) => r is Ok && final(self).context.output@ == old(self).context.output@ + func_decl_text(*d, ts),
                Err(e) => r matches Err(y) && y@ == e,
            },
    {
        let params = self.lower_decl_params(d)?;
        let mut line = String::from_str("decl @");
        push_str(&mut line, d.id.id.as_str());
        push_str(&mut line, "(");
        let ghost head = line@;
        let mut i: usize = 0;
        assert(params@.subrange(0, 0) =~= Seq::<Type>::empty());
        assert(line@ =~= head + types_text(params@.subrange(0, 0)));
        while i < params.len()
            invariant
                i <= params@.len(),
                line@ == head + types_text(params@.subrange(0, i as int)),
            decreases params.len() - i,
        {
            if i > 0 {
                push_str(&mut line, ", ");
            }
            params[i].render_into(&mut line);
            proof {
                let sub = params@.subrange(0, i + 1);
                assert(sub.drop_last() =~= params@.subrange(0, i as int));
                assert(sub.last() == params@[i as int]);
                assert(line@ =~= head + types_text(sub));
            }
            i = i + 1;
        }
        assert(params@.subrange(0, i as int) =~= params@);
        push_str(&mut line, ")");
        match d.func_type {
            FuncType::Int => push_str(&mut line, ": i32"),
            FuncType::Void => {},
        }
        self.context.emit_line(line.as_str());
        assert(self.context.output@ =~= old(self).context.output@ + func_decl_text(*d, params@));
        assert(prefix(old(self).context.output@, self.context.output@));
        Ok(())
    }

    /// Lowers a function definition: the parameters are named in a scope of
    /// their own and copied to local objects, then the body is lowered; an
    /// `int` function whose body can fall through its end is an error, a
    /// `void` one returns there.
    #[verifier::spinoff_prover]
    #[verifier::rlimit(40)]
    pub fn gen_func_def(&mut self, f: &FuncDef) -> (r: Result<(), IRBuilderErr>)
        requires
            old(self).context.wf(),
        ensures
            func_step(old(self).context, final(self).context),
            stepped(old(self).context, final(self).context, r, lower_func_def(state_of(old(self).context), *f)),
    {
        let empty: Vec<FuncParam> = Vec::new();
        let params: &Vec<FuncParam> = match &f.params {
            Some(p) => p,
            None => &empty,
        };
        assert(params@ == def_params(*f));
        let return_type = lower_ret_type(f.func_type);
        self.context.enter_scope();
        self.context.set_return_type(Some(return_type));
        let ghost s1 = state_of(self.context);
        assert(s1.scopes =~= state_of(old(self).context).scopes.push(Map::empty()));
        let mut vars: Vec<(VariableAddress, Type)> = Vec::new();
        let mut i: usize = 0;
        assert(vars@ + Seq::<(VariableAddress, Type)>::empty() =~= vars@);
        while i < params.len()
            invariant
                i <= params@.len(),
                self.context.wf(),
                func_step(old(self).context, self.context),
                self.context.output@ == old(self).context.output@,
                params@ == def_params(*f),
                s1 == (St { scopes: state_of(old(self).context).scopes.push(Map::empty()),
                    ret: Some(ret_type(f.func_type)), ..state_of(old(self).context) }),
                vars@.len() == i,
                forall|j: int| 0 <= j < vars@.len() ==> type_ok(#[trigger] vars@[j].1),
                param_objects(s1, params@, 0) == match param_objects(state_of(self.context), params@, i as nat) {
                    Ok((s3, rest)) => Ok::<(St, Seq<(VariableAddress, Type)>), ErrView>((s3, vars@ + rest)),
                    Err(e) => Err(e),
                },
            decreases params.len() - i,
        {
            let ghost c0 = self.context;
            proof {
                reveal_with_fuel(param_objects, 1);
                reveal(lower_func_def);
            }
            let v = self.gen_param(&params[i])?;
            let ghost old_vars = vars@;
            vars.push(v);
            proof {
                match param_objects(state_of(self.context), params@, (i + 1) as nat) {
                    Ok((s3, rest)) => {
                        assert(old_vars + (seq![v] + rest) =~= vars@ + rest);
                    },
                    Err(e) => {},
                }
            }
            i = i + 1;
        }
        assert(vars@ + Seq::<(VariableAddress, Type)>::empty() =~= vars@);
        proof {
            reveal_with_fuel(param_objects, 1);
            reveal(lower_func_def);
        }
        let ghost c2 = self.context;
        let result = self.gen_func_body(f, &vars);
        let ghost c3 = self.context;
        self.context.exit_scope();
        self.context.set_return_type(None);
        proof {
            let g = c3.globals.tables();
            let t = c3.locals.tables();
            if t.len() > 0 {
                assert((g + t).drop_last() =~= g + t.drop_last());
            }
        }
        result
    }

    /// Names a parameter in the innermost scope, with a fresh local object
    /// of its type.
    #[verifier::spinoff_prover]
    #[verifier::rlimit(100)]
    fn gen_param(&mut self, p: &FuncParam) -> (r: Result<(VariableAddress, Type), IRBuilderErr>)
        requires
            old(self).context.wf(),
        ensures
            func_step(old(self).context, final(self).context),
            r is Ok ==> final(self).context.output@ == old(self).context.output@,
            r matches Ok(v) ==> type_ok(v.1),
            match param_object(state_of(old(self).context), *p) {
                Ok((s2, v)) => r == Ok::<(VariableAddress, Type), IRBuilderErr>(v) && state_of(final(self).context) == s2,
                Err(e) => r matches Err(y) && y@ == e,
            },
    {
        proof {
            reveal(param_object);
        }
        let ty = self.lower_func_param_type(&p.ty)?;
        let ghost c0 = self.context;
        let variable = self.context.new_variable(&p.id.id)?;
        let object = Object { address: variable.duplicate(), ty: ty.duplicate(), mutable: true, const_values: None };
        let ghost c1 = self.context;
        let ghost sym = Symbol::Object(object)@;
        assert(state_of(c1) == (St { var: (c0.var_id + 1) as usize, ..state_of(c0) }));
        let d = self.define_local(&p.id.id, Symbol::Object(object));
        proof {
            if d is Ok {
                lemma_decl_after_register(old(self).context, c1, self.context);
            }
        }
        d?;
        Ok((variable, ty))
    }

    /// Emits the header, the parameter copies and the body of a function.
    #[verifier::spinoff_prover]
    #[verifier::rlimit(40)]
    fn gen_func_body(&mut self, f: &FuncDef, vars: &Vec<(VariableAddress, Type)>) -> (r: Result<(), IRBuilderErr>)
        requires
            old(self).context.wf(),
            forall|j: int| 0 <= j < vars@.len() ==> type_ok(#[trigger] vars@[j].1),
        ensures
            func_step(old(self).context, final(self).context),
            stepped(old(self).context, final(self).context, r, func_body(state_of(old(self).context), *f, vars@)),
    {
        proof {
            reveal(func_body);
        }
        let mut line = String::from_str("fun @");
        push_str(&mut line, f.id.id.as_str());
        push_str(&mut line, "(");
        let ghost head = line@;
        let mut i: usize = 0;
        assert(vars@.subrange(0, 0) =~= Seq::<(VariableAddress, Type)>::empty());
        assert(line@ =~= head + args_text(vars@.subrange(0, 0)));
        while i < vars.len()
            invariant
                i <= vars@.len(),
                line@ == head + args_text(vars@.subrange(0, i as int)),
            decreases vars.len() - i,
        {
            if i > 0 {
                push_str(&mut line, ", ");
            }
            push_str(&mut line, "%arg_");
            push_u64(&mut line, i as u64);
            push_str(&mut line, ": ");
            vars[i].1.render_into(&mut line);
            proof {
                let sub = vars@.subrange(0, i + 1);
                assert(sub.drop_last() =~= vars@.subrange(0, i as int));
                assert(sub.last() == vars@[i as int]);
                assert(line@ =~= head + args_text(sub));
            }
            i = i + 1;
        }
        assert(vars@.subrange(0, i as int) =~= vars@);
        push_str(&mut line, ")");
        match f.func_type {
            FuncType::Int => push_str(&mut line, ": i32"),
            FuncType::Void => {},
        }
        push_str(&mut line, " {");
        self.context.emit_line(line.as_str());
        self.context.emit_line("%entry:");
        let ghost s1 = self.context;
        assert(s1.output@ =~= old(self).context.output@ + func_header(*f, vars@));
        assert(prefix(old(self).context.output@, s1.output@));
        let mut k: usize = 0;
        assert(s1.output@ =~= s1.output@ + copies_text(vars@.subrange(0, 0)));
        while k < vars.len()
            invariant
                k <= vars@.len(),
                self.context.wf(),
                expr_step(s1, self.context),
                state_of(self.context) == state_of(s1),
                self.context.output@ == s1.output@ + copies_text(vars@.subrange(0, k as int)),
            decreases vars.len() - k,
        {
            let ghost c0 = self.context;
            self.context.emit_alloc(&vars[k].0, &vars[k].1);
            let mut store = String::from_str("store %arg_");
            push_u64(&mut store, k as u64);
            push_str(&mut store, ", ");
            vars[k].0.render_into(&mut store);
            let ghost s2 = self.context;
            self.context.emit_instruction(store.as_str());
            proof {
                let sub = vars@.subrange(0, k + 1);
                assert(sub.drop_last() =~= vars@.subrange(0, k as int));
                assert(sub.last() == vars@[k as int]);
                assert(self.context.output@ =~= s1.output@ + copies_text(sub));
                lemma_prefix_trans(s1.output@, c0.output@, self.context.output@);
                assert(prefix(c0.output@, self.context.output@));
            }
            k = k + 1;
        }
        assert(vars@.subrange(0, k as int) =~= vars@);
        let ghost s3 = self.context;
        let flow = self.gen_block(&f.block)?;
        let ghost s4 = self.context;
        let ghost b = lower_block(state_of(s3), f.block)->Ok_0;
        if !flow.is_terminated() {
            match f.func_type {
                FuncType::Int => {
                    return Err(IRBuilderErr::MissingFunctionReturn(at_name_string(&f.id.id)));
                },
                FuncType::Void => {
                    self.context.emit_ret(None);
                },
            }
        } else {
            assert(self.context.output@ =~= s4.output@ + Seq::<char>::empty());
        }
        let ghost s5 = self.context;
        self.context.emit_line("}");
        proof {
            lemma_prefix_trans(old(self).context.output@, s1.output@, s3.output@);
            lemma_prefix_trans(old(self).context.output@, s3.output@, s4.output@);
            lemma_prefix_trans(old(self).context.output@, s4.output@, s5.output@);
            assert(prefix(s5.output@, self.context.output@));
            lemma_prefix_trans(old(self).context.output@, s5.output@, self.context.output@);
            assert(self.context.output@ =~= old(self).context.output@ + (func_header(*f, vars@) + copies_text(vars@) + b.text
                + if b.flow == ControlFlow::Continues { "\tret"@ + "\n"@ } else { Seq::empty() } + "}"@ + "\n"@));
        }
        Ok(())
    }
}

/// Naming a parameter after creating its address continues a function.
proof fn lemma_decl_after_register(a: IRContext, b: IRContext, c: IRContext)
    requires
        func_step(a, b),
        decl_step(b, c),
    ensures
        func_step(a, c),
{
    lemma_prefix_trans(a.output@, b.output@, c.output@);
}

} // verus!
