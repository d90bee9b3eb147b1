//! Lowering of SysY syntax trees to Koopa IR text.
pub mod types;
pub mod error;
pub mod symbol;
pub mod context;
pub mod const_eval;
pub mod emit;
pub mod generate;
pub mod lib_func;

use vstd::prelude::*;
use crate::ast::{CompUnit, CompUnitItem};
use crate::text::push_str;
use context::IRContext;
use emit::{expr_step, prefix};
use error::{ErrView, IRBuilderErr};
use generate::function::register_step;
use generate::stmt_spec::{lemma_prepend_assoc, lemma_prepend_empty, prepend, state_of, St, Step};
use generate::unit_spec::{
    function_start, lemma_lib_globals, lower_func_def, lower_funcs,
    lower_global_decl, lower_globals, lower_unit, register_items,
};
use lib_func::LIB_FUNCS;
use symbol::{Symbol, SymbolView};

verus! {

/// Lowers a SysY compilation unit to Koopa IR text.
pub struct IRBuilder {
    pub context: IRContext,
}

impl IRBuilder {
    pub fn new() -> (b: IRBuilder)
        ensures
            b.context.wf(),
            b.context.output@ == Seq::<char>::empty(),
            b.context.tables() == seq![Map::<Seq<char>, SymbolView>::empty()],
            b.context.loops@.len() == 0,
            b.context.locals.tables().len() == 0,
            b.context.return_type is None,
            b.context.temp_id == 0 && b.context.label_id == 0 && b.context.var_id == 0,
    {
        let c = IRContext::new();
        assert(c.tables() =~= seq![Map::<Seq<char>, SymbolView>::empty()]);
        IRBuilder { context: c }
    }

    /// Lowers a compilation unit. Every defined function is registered
    /// first, so a function may call one defined later; function
    /// declarations are not read. The text is the library declarations, a
    /// blank line, the global objects (then a blank line when there are
    /// any), and the functions in order.
    #[verifier::spinoff_prover]
    pub fn gen_comp_unit(&mut self, unit: &CompUnit) -> (r: Result<String, IRBuilderErr>)
        ensures
            match lower_unit(unit.items@) {
                Ok(t) => r matches Ok(s) && s@ == t,
                Err(e) => r matches Err(y) && y@ == e,
            },
            r matches Ok(s) ==> prefix(LIB_FUNCS@, s@),
            final(self).context.wf(),
    {
        self.context.reset_program();
        proof {
            lemma_lib_globals();
            assert(self.context.globals.tables()[0] == Map::<Seq<char>, SymbolView>::empty());
        }
        self.register_lib_funcs()?;
        self.register_unit(unit)?;
        let ghost g = self.context.globals.tables()[0];
        let mut output = String::from_str(LIB_FUNCS);
        push_str(&mut output, "\n");
        let ghost s0 = state_of(self.context);
        assert(self.context.loops@ =~= Seq::<context::LoopFrame>::empty());
        assert(self.context.tables() =~= seq![g]);
        assert(s0 == (St { scopes: seq![g], temp: 0, label: 0, var: 0, loops: Seq::empty(), ret: None }));
        let has_globals = self.gen_globals(unit)?;
        let text = self.context.take_output();
        push_str(&mut output, text.as_str());
        if has_globals {
            push_str(&mut output, "\n");
        }
        let text = self.gen_functions(unit)?;
        push_str(&mut output, text.as_str());
        proof {
            reveal_strlit("decl @getint(): i32\ndecl @getch(): i32\ndecl @getarray(*i32): i32\ndecl @putint(i32)\ndecl @putch(i32)\ndecl @putarray(i32, *i32)\ndecl @starttime()\ndecl @stoptime()\n");
            let (gs, any) = lower_globals(s0, unit.items@, 0)->Ok_0;
            let fs = lower_funcs(gs.st, unit.items@, 0)->Ok_0;
            assert(output@ =~= LIB_FUNCS@ + "\n"@ + gs.text + (if any { "\n"@ } else { Seq::<char>::empty() }) + fs.text);
            assert(prefix(LIB_FUNCS@, output@));
        }
        Ok(output)
    }

    /// Registers the signatures of the unit's functions, in order.
    #[verifier::spinoff_prover]
    fn register_unit(&mut self, unit: &CompUnit) -> (r: Result<(), IRBuilderErr>)
        requires
            old(self).context.wf(),
            old(self).context.locals.tables().len() == 0,
        ensures
            register_step(old(self).context, final(self).context),
            match register_items(old(self).context.globals.tables()[0], unit.items@, 0) {
                Ok(m) => r is Ok && final(self).context.globals.tables() == seq![m],
                Err(e) => r matches Err(y) && y@ == e,
            },
    {
        let mut i: usize = 0;
        while i < unit.items.len()
            invariant
                i <= unit.items@.len(),
                self.context.wf(),
                register_step(old(self).context, self.context),
                self.context.locals.tables().len() == 0,
                register_items(old(self).context.globals.tables()[0], unit.items@, 0)
                    == register_items(self.context.globals.tables()[0], unit.items@, i as nat),
            decreases unit.items.len() - i,
        {
            let ghost g = self.context.globals.tables()[0];
            proof {
                assert(self.context.globals.tables() =~= seq![g]);
                assert(self.context.tables() =~= seq![g]);
            }
            match &unit.items[i] {
                CompUnitItem::FuncDef(f) => self.register_func(f)?,
                _ => {},
            }
            i = i + 1;
        }
        proof {
            assert(self.context.globals.tables() =~= seq![self.context.globals.tables()[0]]);
        }
        Ok(())
    }

    /// Lowers the global declarations, in order; tells whether there is
    /// any.
    #[verifier::spinoff_prover]
    fn gen_globals(&mut self, unit: &CompUnit) -> (r: Result<bool, IRBuilderErr>)
        requires
            old(self).context.wf(),
        ensures
            final(self).context.wf(),
            match lower_globals(state_of(old(self).context), unit.items@, 0) {
                Ok((x, any)) => r == Ok::<bool, IRBuilderErr>(any) && state_of(final(self).context) == x.st
                    && final(self).context.output@ == old(self).context.output@ + x.text,
                Err(e) => r matches Err(y) && y@ == e,
            },
    {
        let ghost st0 = state_of(self.context);
        let ghost mut done: Seq<char> = Seq::empty();
        let mut has_globals = false;
        let mut i: usize = 0;
        while i < unit.items.len()
            invariant
                i <= unit.items@.len(),
                self.context.wf(),
                st0 == state_of(old(self).context),
                self.context.output@ == old(self).context.output@ + done,
                lower_globals(st0, unit.items@, 0) == match lower_globals(state_of(self.context), unit.items@, i as nat) {
                    Ok((x, any)) => Ok::<(Step, bool), ErrView>((Step { st: x.st, text: done + x.text }, has_globals || any)),
                    Err(e) => Err(e),
                },
            decreases unit.items.len() - i,
        {
            let ghost c0 = self.context;
            let ghost d0 = done;
            match &unit.items[i] {
                CompUnitItem::Decl(d) => {
                    self.gen_global_decl(d)?;
                    has_globals = true;
                    proof {
                        let a = lower_global_decl(state_of(c0), *d)->Ok_0;
                        done = d0 + a.text;
                        assert(self.context.output@ =~= old(self).context.output@ + done);
                        match lower_globals(state_of(self.context), unit.items@, (i + 1) as nat) {
                            Ok((x, any)) => {
                                assert(d0 + (a.text + x.text) =~= done + x.text);
                            },
                            Err(e) => {},
                        }
                    }
                },
                _ => {},
            }
            i = i + 1;
        }
        assert(done + Seq::<char>::empty() =~= done);
        Ok(has_globals)
    }

    /// Lowers the function definitions, in order, each from a fresh
    /// function state; returns their text.
    #[verifier::spinoff_prover]
    fn gen_functions(&mut self, unit: &CompUnit) -> (r: Result<String, IRBuilderErr>)
        requires
            old(self).context.wf(),
            old(self).context.output@ == Seq::<char>::empty(),
        ensures
            final(self).context.wf(),
            match lower_funcs(state_of(old(self).context), unit.items@, 0) {
                Ok(x) => r matches Ok(s) && s@ == x.text,
                Err(e) => r matches Err(y) && y@ == e,
            },
    {
        let ghost st0 = state_of(self.context);
        let mut output = String::new();
        proof {
            lemma_prepend_empty(lower_funcs(st0, unit.items@, 0));
        }
        let mut i: usize = 0;
        while i < unit.items.len()
            invariant
                i <= unit.items@.len(),
                self.context.wf(),
                self.context.output@ == Seq::<char>::empty(),
                st0 == state_of(old(self).context),
                lower_funcs(st0, unit.items@, 0) == prepend(output@, lower_funcs(state_of(self.context), unit.items@, i as nat)),
            decreases unit.items.len() - i,
        {
            let ghost c0 = self.context;
            match &unit.items[i] {
                CompUnitItem::FuncDef(f) => {
                    assert(lower_funcs(state_of(c0), unit.items@, i as nat) == match lower_func_def(function_start(state_of(c0)), *f) {
                        Err(e) => Err(e),
                        Ok(a) => prepend(a.text, lower_funcs(a.st, unit.items@, (i + 1) as nat)),
                    });
                    self.context.reset_function();
                    proof {
                        assert(self.context.globals.tables() =~= seq![c0.tables()[0]]);
                        assert(self.context.tables() =~= seq![c0.tables()[0]]);
                        assert(self.context.loops@ =~= Seq::<context::LoopFrame>::empty());
                        assert(state_of(self.context) == function_start(state_of(c0)));
                    }
                    self.gen_func_def(f)?;
                    let text = self.context.take_output();
                    let ghost before = output@;
                    push_str(&mut output, text.as_str());
                    proof {
                        let a = lower_func_def(function_start(state_of(c0)), *f)->Ok_0;
                        lemma_prepend_assoc(before, a.text, lower_funcs(state_of(self.context), unit.items@, (i + 1) as nat));
                    }
                },
                _ => {},
            }
            i = i + 1;
        }
        assert(output@ + Seq::<char>::empty() =~= output@);
        Ok(output)
    }
}

} // verus!
