//! Lowering of blocks and statements.
use vstd::prelude::*;
use crate::ast::{add_op_name, AddOp, Block, BlockItem, Exp, LVal, Stmt};
use super::super::IRBuilder;
use super::super::context::{operand_text, IRContext, Label, LoopFrame, Operand};
use super::super::emit::{br_text, expr_step, inst_text, jump_text, label_line, load_text, store_text};
use super::super::error::{at_name_string, IRBuilderErr};
use super::super::symbol::{Symbol, SymbolView};
use super::super::types::Type;
use super::lower_spec::lower_i32;
use super::stmt_spec::{drop_flow, if_head, lemma_stmt_prepend_assoc, lemma_stmt_prepend_empty, loop_cond, loop_head, loop_labels, lower_arm, lower_assign, lower_block, lower_if, lower_item, lower_items, lower_loop, lower_return, lower_stmt, lower_store_place, lower_update, state_of, stepped, stmt_prepend, stmt_stepped, St, Step, StmtStep};
use super::{lemma_loops_match_trans, lemma_stmt_trans, loops_match, stmt_step, ControlFlow};

verus! {

/// The five blocks of a loop.
pub struct LoopLabels {
    pub init: Label,
    pub cond: Label,
    pub body: Label,
    pub inc: Label,
    pub end: Label,
}

/// A statement that leaves the scopes and loop stack as they were.
pub open spec fn stmt_done(old: IRContext, new: IRContext) -> bool {
    &&& new.locals.tables() == old.locals.tables()
    &&& loops_match(old.loops@, new.loops@)
}

/// The statements whose lowering, when it fails, fails before it emits
/// anything: `break` and `continue`, a `return` whose value is not lowered,
/// and an assignment or increment of a name that is undefined or a scalar
/// constant.
pub open spec fn fails_silently(c: IRContext, s: Stmt) -> bool {
    match s {
        Stmt::Break | Stmt::Continue => true,
        Stmt::Return(ret) => !(c.return_type == Some(Type::I32) && ret is Some),
        Stmt::Assign(l, _) => unwritable(c, l),
        Stmt::Update(l, _) => unwritable(c, l),
        _ => false,
    }
}

/// The name of `l` is undefined or a scalar constant.
pub open spec fn unwritable(c: IRContext, l: LVal) -> bool {
    match c.lookup(l.id.id@) {
        None => true,
        Some(SymbolView::Const(_)) => true,
        _ => false,
    }
}

/// The items after one that does not fall through are not lowered: the
/// items of a block from that one on give exactly what it gives, whatever
/// follows it.
pub proof fn lemma_items_stop(s: St, b: Block, k: nat)
    requires
        k < b.items@.len(),
        lower_item(s, b.items@[k as int]) matches Ok(r) && r.flow == ControlFlow::Terminated,
    ensures
        lower_items(s, b, k) == lower_item(s, b.items@[k as int]),
    decreases b, 0nat,
{
    reveal_with_fuel(lower_items, 2);
    reveal_with_fuel(lower_item, 1);
    assert(decreases_to!(b => b.items@[k as int]));
}

impl IRBuilder {
    /// Lowers a block in a scope of its own; lowering stops after a
    /// statement that does not fall through.
    #[verifier::spinoff_prover]
    #[verifier::rlimit(40)]
    pub fn gen_block(&mut self, b: &Block) -> (r: Result<ControlFlow, IRBuilderErr>)
        requires
            old(self).context.wf(),
        ensures
            stmt_step(old(self).context, final(self).context),
            loops_match(old(self).context.loops@, final(self).context.loops@),
            r is Ok ==> stmt_done(old(self).context, final(self).context),
            stmt_stepped(old(self).context, final(self).context, r, lower_block(state_of(old(self).context), *b)),
        decreases b, 0int,
    {
        proof {
            reveal_with_fuel(lower_block, 1);
            reveal_with_fuel(lower_items, 1);
        }
        self.context.enter_scope();
        let ghost s1 = state_of(self.context);
        assert(s1.scopes =~= state_of(old(self).context).scopes.push(Map::empty()));
        let ghost mut done: Seq<char> = Seq::empty();
        proof {
            lemma_stmt_prepend_empty(lower_items(s1, *b, 0));
        }
        let flow = ControlFlow::Continues;
        let mut i: usize = 0;
        while i < b.items.len()
            invariant
                i <= b.items@.len(),
                self.context.wf(),
                stmt_step(old(self).context, self.context),
                self.context.locals.tables().len() == old(self).context.locals.tables().len() + 1,
                self.context.locals.tables().drop_last() == old(self).context.locals.tables(),
                loops_match(old(self).context.loops@, self.context.loops@),
                s1 == (St { scopes: state_of(old(self).context).scopes.push(Map::empty()), ..state_of(old(self).context) }),
                self.context.output@ == old(self).context.output@ + done,
                flow == ControlFlow::Continues,
                lower_items(s1, *b, 0) == stmt_prepend(done, lower_items(state_of(self.context), *b, i as nat)),
            decreases b.items.len() - i,
        {
            let item = &b.items[i];
            assert(decreases_to!(*b => (*b).items@[i as int]));
            let ghost before = self.context;
            let ghost d0 = done;
            proof {
                reveal_with_fuel(lower_items, 1);
                reveal_with_fuel(lower_block, 1);
            }
            assert(lower_items(state_of(before), *b, i as nat) == match lower_item(state_of(before), b.items@[i as int]) {
                Err(e) => Err(e),
                Ok(r) => if r.flow == ControlFlow::Terminated {
                    Ok(r)
                } else {
                    match lower_items(r.st, *b, (i + 1) as nat) {
                        Err(e) => Err(e),
                        Ok(q) => Ok(StmtStep { st: q.st, text: r.text + q.text, flow: q.flow }),
                    }
                },
            });
            let f = self.gen_block_item(item)?;
            proof {
                lemma_stmt_trans(old(self).context, before, self.context);
                lemma_loops_match_trans(old(self).context.loops@, before.loops@, self.context.loops@);
                let x = lower_item(state_of(before), b.items@[i as int])->Ok_0;
                done = d0 + x.text;
                assert(self.context.output@ =~= old(self).context.output@ + done);
                lemma_stmt_prepend_assoc(d0, x.text, lower_items(state_of(self.context), *b, (i + 1) as nat));
                if f == ControlFlow::Terminated {
                    assert(done + Seq::<char>::empty() =~= done);
                }
            }
            if f.is_terminated() {
                let ghost before_exit = self.context;
                self.context.exit_scope();
                proof {
                    lemma_stmt_trans(old(self).context, before_exit, self.context);
                    let g = before_exit.globals.tables();
                    let t = before_exit.locals.tables();
                    assert((g + t).drop_last() =~= g + t.drop_last());
                    assert(self.context.output@ =~= old(self).context.output@ + done);
                }
                return Ok(f);
            }
            i = i + 1;
        }
        let ghost before_exit = self.context;
        self.context.exit_scope();
        proof {
            lemma_stmt_trans(old(self).context, before_exit, self.context);
            let g = before_exit.globals.tables();
            let t = before_exit.locals.tables();
            assert((g + t).drop_last() =~= g + t.drop_last());
            assert(done + Seq::<char>::empty() =~= done);
        }
        Ok(flow)
    }

    #[verifier::spinoff_prover]
    fn gen_block_item(&mut self, item: &BlockItem) -> (r: Result<ControlFlow, IRBuilderErr>)
        requires
            old(self).context.wf(),
        ensures
            stmt_step(old(self).context, final(self).context),
            loops_match(old(self).context.loops@, final(self).context.loops@),
            r is Ok ==> final(self).context.locals.tables().len() == old(self).context.locals.tables().len()
                && final(self).context.locals.tables().drop_last() == old(self).context.locals.tables().drop_last(),
            stmt_stepped(old(self).context, final(self).context, r, lower_item(state_of(old(self).context), *item)),
        decreases item, 0int,
    {
        proof {
            reveal_with_fuel(lower_item, 1);
        }
        match item {
            BlockItem::Decl(d) => {
                self.gen_decl(d)?;
                assert(loops_match(old(self).context.loops@, self.context.loops@));
                Ok(ControlFlow::Continues)
            },
            BlockItem::Stmt(s) => self.gen_stmt(s),
        }
    }

    /// Lowers a statement and tells whether control falls through it.
    #[verifier::spinoff_prover]
    #[verifier::rlimit(100)]
    pub fn gen_stmt(&mut self, s: &Stmt) -> (r: Result<ControlFlow, IRBuilderErr>)
        requires
            old(self).context.wf(),
        ensures
            stmt_step(old(self).context, final(self).context),
            loops_match(old(self).context.loops@, final(self).context.loops@),
            r is Ok ==> stmt_done(old(self).context, final(self).context),
            stmt_stepped(old(self).context, final(self).context, r, lower_stmt(state_of(old(self).context), *s)),
            r is Err && fails_silently(old(self).context, *s) ==> final(self).context.output@ == old(self).context.output@,
        decreases s, 2int,
    {
        proof {
            reveal_with_fuel(lower_stmt, 1);
        }
        match s {
            Stmt::Return(ret) => {
                self.gen_return(ret)?;
                Ok(ControlFlow::Terminated)
            },
            Stmt::Assign(l, e) => {
                self.gen_assign(l, e)?;
                Ok(ControlFlow::Continues)
            },
            Stmt::Update(l, op) => {
                self.gen_update(l, *op)?;
                Ok(ControlFlow::Continues)
            },
            Stmt::Exp(Some(e)) => {
                self.gen_exp(e)?;
                Ok(ControlFlow::Continues)
            },
            Stmt::Exp(None) => {
                assert(self.context.output@ =~= old(self).context.output@ + Seq::<char>::empty());
                Ok(ControlFlow::Continues)
            },
            Stmt::Block(b) => self.gen_block(b),
            Stmt::If(..) => self.gen_if(s),
            Stmt::Loop { .. } => self.gen_loop(s),
            Stmt::Break => {
                let target = self.context.break_target()?;
                let ghost s1 = self.context;
                self.context.emit_jump(&target);
                proof {
                    lemma_stmt_trans(old(self).context, s1, self.context);
                }
                Ok(ControlFlow::Terminated)
            },
            Stmt::Continue => {
                let target = self.context.continue_target()?;
                self.context.emit_jump(&target);
                Ok(ControlFlow::Terminated)
            },
        }
    }

    /// Lowers an `if`.
    #[verifier::spinoff_prover]
    #[verifier::rlimit(60)]
    fn gen_if(&mut self, s: &Stmt) -> (r: Result<ControlFlow, IRBuilderErr>)
        requires
            old(self).context.wf(),
            s is If,
        ensures
            stmt_step(old(self).context, final(self).context),
            loops_match(old(self).context.loops@, final(self).context.loops@),
            r is Ok ==> stmt_done(old(self).context, final(self).context),
            stmt_stepped(old(self).context, final(self).context, r, lower_if(state_of(old(self).context), *s)),
        decreases s, 1int,
    {
        proof {
            reveal_with_fuel(lower_if, 1);
        }
        match s {
            Stmt::If(cond, then_stmt, else_stmt) => {
                let (true_label, false_label, end_label) = self.gen_if_head(cond, else_stmt.is_some())?;
                let ghost s1 = self.context;
                let ghost h = if_head(state_of(old(self).context), *cond, else_stmt is Some)->Ok_0.3;
                assert(decreases_to!(*s => **then_stmt));
                let then_flow = self.gen_if_arm(&true_label, then_stmt, &end_label)?;
                let ghost s2 = self.context;
                let ghost ra = lower_arm(state_of(s1), true_label, **then_stmt, end_label)->Ok_0;
                proof {
                    lemma_stmt_trans(old(self).context, s1, s2);
                    lemma_loops_match_trans(old(self).context.loops@, s1.loops@, s2.loops@);
                }
                let else_flow = match else_stmt {
                    Some(e) => {
                        assert(decreases_to!(*s => **e));
                        let f = self.gen_if_arm(&false_label, e, &end_label)?;
                        proof {
                            lemma_stmt_trans(old(self).context, s2, self.context);
                            lemma_loops_match_trans(old(self).context.loops@, s2.loops@, self.context.loops@);
                        }
                        f
                    },
                    None => {
                        assert(self.context.output@ =~= s2.output@ + Seq::<char>::empty());
                        ControlFlow::Continues
                    },
                };
                let ghost s3 = self.context;
                let ghost rb = match else_stmt {
                    Some(bx) => lower_arm(state_of(s2), false_label, **bx, end_label)->Ok_0,
                    None => StmtStep { st: state_of(s2), text: Seq::empty(), flow: ControlFlow::Continues },
                };
                let flow = self.gen_if_tail(then_flow, else_flow, &end_label);
                proof {
                    lemma_stmt_trans(old(self).context, s3, self.context);
                    assert(self.context.output@ =~= old(self).context.output@ + (h.text + ra.text + rb.text
                        + if flow == ControlFlow::Terminated { Seq::empty() } else { label_line(end_label) }));
                }
                Ok(flow)
            },
            _ => Err(IRBuilderErr::NoScope),
        }
    }

    /// Lowers a loop.
    #[verifier::spinoff_prover]
    #[verifier::rlimit(100)]
    fn gen_loop(&mut self, s: &Stmt) -> (r: Result<ControlFlow, IRBuilderErr>)
        requires
            old(self).context.wf(),
            s is Loop,
        ensures
            stmt_step(old(self).context, final(self).context),
            loops_match(old(self).context.loops@, final(self).context.loops@),
            r is Ok ==> stmt_done(old(self).context, final(self).context),
            stmt_stepped(old(self).context, final(self).context, r, lower_loop(state_of(old(self).context), *s)),
        decreases s, 1int,
    {
        proof {
            reveal_with_fuel(lower_loop, 1);
        }
        match s {
            Stmt::Loop { init, cond, inc, body } => {
                let ghost id = old(self).context.label_id;
                let labels = self.gen_loop_head()?;
                let ghost s1 = self.context;
                let ghost h = loop_head(state_of(old(self).context))->Ok_0;
                match init {
                    Some(i) => {
                        assert(decreases_to!(*s => **i));
                        self.gen_stmt(i)?;
                        proof {
                            lemma_stmt_trans(old(self).context, s1, self.context);
                            lemma_loops_match_trans(old(self).context.loops@, s1.loops@, self.context.loops@);
                        }
                    },
                    None => {
                        assert(self.context.output@ =~= s1.output@ + Seq::<char>::empty());
                    },
                }
                let ghost s2 = self.context;
                let ghost r2 = match init {
                    Some(i) => drop_flow(lower_stmt(state_of(s1), **i))->Ok_0,
                    None => Step { st: state_of(s1), text: Seq::empty() },
                };
                self.gen_loop_cond(cond, &labels, Ghost(id))?;
                let ghost s3 = self.context;
                let ghost r3 = loop_cond(state_of(s2), *cond, id)->Ok_0;
                proof {
                    lemma_stmt_trans(old(self).context, s2, s3);
                }
                assert(decreases_to!(*s => **body));
                let body_result = self.gen_stmt(body);
                let ghost s4 = self.context;
                proof {
                    lemma_stmt_trans(old(self).context, s3, s4);
                }
                let frame = self.context.pop_loop()?;
                let body_flow = body_result?;
                let ghost r4 = lower_stmt(state_of(s3), **body)->Ok_0;
                proof {
                    lemma_loops_match_trans(s3.loops@, s4.loops@, s4.loops@);
                    assert(loops_match(old(self).context.loops@, self.context.loops@));
                }
                let ghost s5 = self.context;
                self.gen_loop_latch(&body_flow, &labels);
                proof {
                    lemma_stmt_trans(old(self).context, s5, self.context);
                }
                let ghost s6 = self.context;
                match inc {
                    Some(i) => {
                        assert(decreases_to!(*s => **i));
                        self.gen_stmt(i)?;
                        proof {
                            lemma_stmt_trans(old(self).context, s6, self.context);
                            lemma_loops_match_trans(old(self).context.loops@, s6.loops@, self.context.loops@);
                        }
                    },
                    None => {
                        assert(self.context.output@ =~= s6.output@ + Seq::<char>::empty());
                    },
                }
                let ghost s7 = self.context;
                let ghost r6 = match inc {
                    Some(i) => drop_flow(lower_stmt(state_of(s6), **i))->Ok_0,
                    None => Step { st: state_of(s6), text: Seq::empty() },
                };
                let flow = self.gen_loop_tail(cond.is_some() || frame.has_break, &labels);
                proof {
                    lemma_stmt_trans(old(self).context, s7, self.context);
                    let t5 = if r4.flow == ControlFlow::Continues { jump_text(labels.inc) } else { Seq::empty() }
                        + label_line(labels.inc);
                    let t7 = jump_text(labels.cond) + if cond is Some || frame.has_break {
                        label_line(labels.end)
                    } else {
                        Seq::empty()
                    };
                    let a = h.text + r2.text;
                    assert(s2.output@ =~= old(self).context.output@ + a);
                    let a = a + r3.text;
                    assert(s3.output@ =~= old(self).context.output@ + a);
                    let a = a + r4.text;
                    assert(s4.output@ =~= old(self).context.output@ + a);
                    let a = a + t5;
                    assert(s6.output@ =~= old(self).context.output@ + a);
                    let a = a + r6.text;
                    assert(s7.output@ =~= old(self).context.output@ + a);
                    assert(self.context.output@ =~= old(self).context.output@ + (a + t7));
                    assert(self.context.output@ =~= old(self).context.output@ + (h.text + r2.text + r3.text + r4.text + t5
                        + r6.text + jump_text(labels.cond) + if cond is Some || frame.has_break {
                        label_line(labels.end)
                    } else {
                        Seq::empty()
                    }));
                }
                Ok(flow)
            },
            _ => Err(IRBuilderErr::NoScope),
        }
    }

    /// Evaluates the condition of an `if` and branches on it; returns the
    /// labels of the `then` arm, the `else` arm (the end when there is
    /// none) and the end.
    #[verifier::spinoff_prover]
    fn gen_if_head(&mut self, cond: &Exp, has_else: bool) -> (r: Result<(Label, Label, Label), IRBuilderErr>)
        requires
            old(self).context.wf(),
        ensures
            expr_step(old(self).context, final(self).context),
            match if_head(state_of(old(self).context), *cond, has_else) {
                Ok((tl, fl, el, h)) => r == Ok::<(Label, Label, Label), IRBuilderErr>((tl, fl, el))
                    && state_of(final(self).context) == h.st && final(self).context.output@ == old(self).context.output@ + h.text,
                Err(e) => r matches Err(y) && y@ == e,
            },
    {
        let entry = self.context.new_label("if_entry")?;
        self.context.emit_jump(&entry);
        self.context.emit_label(&entry);
        let ghost c1 = self.context;
        let value = self.gen_i32_exp(cond)?;
        let ghost g = lower_i32(c1.tables(), c1.temp_id, c1.label_id, *cond)->Ok_0;
        let true_label = self.context.new_label("then")?;
        let end_label = self.context.new_label("end")?;
        let false_label = if has_else {
            self.context.new_label("else")?
        } else {
            end_label.duplicate()
        };
        self.context.emit_br(&value, &true_label, &false_label);
        assert(self.context.output@ =~= old(self).context.output@ + (jump_text(entry) + label_line(entry) + g.text
            + br_text(g.value, true_label, false_label)));
        Ok((true_label, false_label, end_label))
    }

    /// Lowers one arm of an `if`; an arm that falls through jumps to the
    /// end.
    #[verifier::spinoff_prover]
    fn gen_if_arm(&mut self, label: &Label, s: &Stmt, end: &Label) -> (r: Result<ControlFlow, IRBuilderErr>)
        requires
            old(self).context.wf(),
        ensures
            stmt_step(old(self).context, final(self).context),
            loops_match(old(self).context.loops@, final(self).context.loops@),
            r is Ok ==> stmt_done(old(self).context, final(self).context),
            stmt_stepped(old(self).context, final(self).context, r, lower_arm(state_of(old(self).context), *label, *s, *end)),
        decreases s, 3int,
    {
        proof {
            reveal_with_fuel(lower_arm, 1);
        }
        self.context.emit_label(label);
        let ghost s1 = self.context;
        let flow = self.gen_stmt(s)?;
        let ghost s2 = self.context;
        proof {
            lemma_stmt_trans(old(self).context, s1, self.context);
            lemma_loops_match_trans(old(self).context.loops@, s1.loops@, self.context.loops@);
        }
        if !flow.is_terminated() {
            self.context.emit_jump(end);
            proof {
                lemma_stmt_trans(old(self).context, s2, self.context);
                lemma_loops_match_trans(old(self).context.loops@, s2.loops@, self.context.loops@);
            }
        }
        proof {
            let x = lower_stmt(state_of(s1), *s)->Ok_0;
            assert(self.context.output@ =~= old(self).context.output@ + (label_line(*label) + x.text
                + if x.flow == ControlFlow::Continues { jump_text(*end) } else { Seq::empty() }));
        }
        Ok(flow)
    }

    /// Ends an `if`: control falls through unless both arms end it.
    fn gen_if_tail(&mut self, then_flow: ControlFlow, else_flow: ControlFlow, end: &Label) -> (r: ControlFlow)
        requires
            old(self).context.wf(),
        ensures
            expr_step(old(self).context, final(self).context),
            state_of(final(self).context) == state_of(old(self).context),
            r == (if then_flow == ControlFlow::Terminated && else_flow == ControlFlow::Terminated {
                ControlFlow::Terminated
            } else {
                ControlFlow::Continues
            }),
            final(self).context.output@ == old(self).context.output@ + if r == ControlFlow::Terminated {
                Seq::empty()
            } else {
                label_line(*end)
            },
    {
        if then_flow.is_terminated() && else_flow.is_terminated() {
            assert(self.context.output@ =~= old(self).context.output@ + Seq::<char>::empty());
            ControlFlow::Terminated
        } else {
            self.context.emit_label(end);
            ControlFlow::Continues
        }
    }

    /// Creates the labels of a loop and enters its initialization block.
    fn gen_loop_head(&mut self) -> (r: Result<LoopLabels, IRBuilderErr>)
        requires
            old(self).context.wf(),
        ensures
            expr_step(old(self).context, final(self).context),
            match loop_head(state_of(old(self).context)) {
                Ok(h) => r matches Ok(ls) && state_of(final(self).context) == h.st
                    && final(self).context.output@ == old(self).context.output@ + h.text
                    && (ls.init, ls.cond, ls.body, ls.inc, ls.end) == loop_labels(old(self).context.label_id),
                Err(e) => r matches Err(y) && y@ == e,
            },
    {
        let init = self.context.new_label("loop_init")?;
        let cond = self.context.new_label("loop_cond")?;
        let body = self.context.new_label("loop_body")?;
        let inc = self.context.new_label("loop_inc")?;
        let end = self.context.new_label("loop_end")?;
        self.context.emit_jump(&init);
        self.context.emit_label(&init);
        assert(self.context.output@ =~= old(self).context.output@ + (jump_text(init) + label_line(init)));
        Ok(LoopLabels { init, cond, body, inc, end })
    }

    /// Emits the condition block of a loop, enters its body block, and
    /// pushes the loop so that `continue` goes to the increment block and
    /// `break` to the end.
    #[verifier::spinoff_prover]
    fn gen_loop_cond(&mut self, cond: &Option<Exp>, labels: &LoopLabels, Ghost(id): Ghost<usize>) -> (r: Result<(), IRBuilderErr>)
        requires
            old(self).context.wf(),
            (labels.init, labels.cond, labels.body, labels.inc, labels.end) == loop_labels(id),
        ensures
            stmt_step(old(self).context, final(self).context),
            final(self).context.locals.tables() == old(self).context.locals.tables(),
            r is Ok ==> final(self).context.loops@ == old(self).context.loops@.push(LoopFrame {
                continue_target: labels.inc,
                break_target: labels.end,
                has_break: false,
            }),
            r is Err ==> final(self).context.loops@ == old(self).context.loops@,
            stepped(old(self).context, final(self).context, r, loop_cond(state_of(old(self).context), *cond, id)),
    {
        self.context.emit_jump(&labels.cond);
        self.context.emit_label(&labels.cond);
        let ghost c1 = self.context;
        let ghost mut ct: Seq<char> = Seq::empty();
        match cond {
            Some(c) => {
                let value = self.gen_i32_exp(c)?;
                self.context.emit_br(&value, &labels.body, &labels.end);
                proof {
                    let g = lower_i32(c1.tables(), c1.temp_id, c1.label_id, *c)->Ok_0;
                    ct = g.text + br_text(g.value, labels.body, labels.end);
                    assert(self.context.output@ =~= c1.output@ + ct);
                }
            },
            None => {
                self.context.emit_jump(&labels.body);
                proof {
                    ct = jump_text(labels.body);
                }
            },
        }
        self.context.emit_label(&labels.body);
        self.context.push_loop(labels.inc.duplicate(), labels.end.duplicate());
        assert(self.context.output@ =~= old(self).context.output@ + (jump_text(labels.cond) + label_line(labels.cond)
            + ct + label_line(labels.body)));
        Ok(())
    }

    /// After the body of a loop: falls through to the increment block.
    fn gen_loop_latch(&mut self, body_flow: &ControlFlow, labels: &LoopLabels)
        requires
            old(self).context.wf(),
        ensures
            expr_step(old(self).context, final(self).context),
            state_of(final(self).context) == state_of(old(self).context),
            final(self).context.output@ == old(self).context.output@ + (if *body_flow == ControlFlow::Continues {
                jump_text(labels.inc)
            } else {
                Seq::empty()
            } + label_line(labels.inc)),
    {
        let ghost c0 = self.context;
        if !body_flow.is_terminated() {
            self.context.emit_jump(&labels.inc);
        } else {
            assert(self.context.output@ =~= c0.output@ + Seq::<char>::empty());
        }
        self.context.emit_label(&labels.inc);
        assert(self.context.output@ =~= old(self).context.output@ + (if *body_flow == ControlFlow::Continues {
            jump_text(labels.inc)
        } else {
            Seq::empty()
        } + label_line(labels.inc)));
    }

    /// Closes a loop: jumps back to the condition; the end block exists,
    /// and control falls through, when the loop has a condition or a
    /// `break`.
    fn gen_loop_tail(&mut self, reaches_end: bool, labels: &LoopLabels) -> (r: ControlFlow)
        requires
            old(self).context.wf(),
        ensures
            expr_step(old(self).context, final(self).context),
            state_of(final(self).context) == state_of(old(self).context),
            r == (if reaches_end { ControlFlow::Continues } else { ControlFlow::Terminated }),
            final(self).context.output@ == old(self).context.output@ + (jump_text(labels.cond)
                + if reaches_end { label_line(labels.end) } else { Seq::empty() }),
    {
        self.context.emit_jump(&labels.cond);
        if reaches_end {
            self.context.emit_label(&labels.end);
            assert(self.context.output@ =~= old(self).context.output@ + (jump_text(labels.cond) + label_line(labels.end)));
            ControlFlow::Continues
        } else {
            assert(self.context.output@ =~= old(self).context.output@ + (jump_text(labels.cond) + Seq::<char>::empty()));
            ControlFlow::Terminated
        }
    }

    /// Lowers `return`: a value is required exactly in an `int` function.
    fn gen_return(&mut self, ret: &Option<Exp>) -> (r: Result<(), IRBuilderErr>)
        requires
            old(self).context.wf(),
        ensures
            expr_step(old(self).context, final(self).context),
            match lower_return(state_of(old(self).context), *ret) {
                Ok(x) => r is Ok && state_of(final(self).context) == x.st
                    && final(self).context.output@ == old(self).context.output@ + x.text,
                Err(e) => r matches Err(y) && y@ == e,
            },
            r is Err && !(old(self).context.return_type == Some(Type::I32) && ret is Some)
                ==> final(self).context.output@ == old(self).context.output@,
    {
        let ty = self.context.current_return_type()?;
        match (ty, ret) {
            (Type::I32, Some(e)) => {
                let v = self.gen_i32_exp(e)?;
                let ghost g = lower_i32(old(self).context.tables(), old(self).context.temp_id, old(self).context.label_id, *e)->Ok_0;
                self.context.emit_ret(Some(&v));
                assert(self.context.output@ =~= old(self).context.output@ + (g.text + "\tret "@ + operand_text(g.value) + "\n"@));
                Ok(())
            },
            (Type::I32, None) => Err(IRBuilderErr::MissingReturnValue),
            (_, Some(_)) => Err(IRBuilderErr::UnexpectedReturnValue),
            (_, None) => {
                self.context.emit_ret(None);
                Ok(())
            },
        }
    }

    /// The place that an assignment or increment writes: a mutable `i32`.
    fn gen_store_place(&mut self, l: &LVal) -> (r: Result<Operand, IRBuilderErr>)
        requires
            old(self).context.wf(),
        ensures
            expr_step(old(self).context, final(self).context),
            match lower_store_place(state_of(old(self).context), *l) {
                Ok(p) => r == Ok::<Operand, IRBuilderErr>(p.value) && final(self).context.output@
                    == old(self).context.output@ + p.text && final(self).context.temp_id == p.temp
                    && final(self).context.label_id == p.label,
                Err(e) => r matches Err(y) && y@ == e,
            },
            unwritable(old(self).context, *l) ==> r is Err && final(self).context.output@ == old(self).context.output@,
    {
        let mutable = match self.context.get_symbol(&l.id.id)? {
            Symbol::Const(_) => {
                return Err(IRBuilderErr::AssignToConst(at_name_string(&l.id.id)));
            },
            Symbol::Object(o) => o.mutable,
            Symbol::Func(_) => true,
        };
        let (address, ty) = self.gen_place(l)?;
        if !mutable {
            return Err(IRBuilderErr::AssignToConst(at_name_string(&l.id.id)));
        }
        if !ty.is_i32() {
            return Err(IRBuilderErr::ExpectedScalarLVal(at_name_string(&l.id.id)));
        }
        Ok(address)
    }

    /// Lowers `l = e`.
    fn gen_assign(&mut self, l: &LVal, e: &Exp) -> (r: Result<(), IRBuilderErr>)
        requires
            old(self).context.wf(),
        ensures
            expr_step(old(self).context, final(self).context),
            match lower_assign(state_of(old(self).context), *l, *e) {
                Ok(x) => r is Ok && state_of(final(self).context) == x.st
                    && final(self).context.output@ == old(self).context.output@ + x.text,
                Err(e) => r matches Err(y) && y@ == e,
            },
            unwritable(old(self).context, *l) ==> r is Err && final(self).context.output@ == old(self).context.output@,
    {
        let address = self.gen_store_place(l)?;
        let ghost p = lower_store_place(state_of(old(self).context), *l)->Ok_0;
        let ghost c1 = self.context;
        let value = self.gen_i32_exp(e)?;
        let ghost g = lower_i32(c1.tables(), c1.temp_id, c1.label_id, *e)->Ok_0;
        self.context.emit_store(&value, &address);
        assert(self.context.output@ =~= old(self).context.output@ + (p.text + g.text + store_text(g.value, p.value)));
        Ok(())
    }

    /// Lowers `l++` and `l--`.
    fn gen_update(&mut self, l: &LVal, op: AddOp) -> (r: Result<(), IRBuilderErr>)
        requires
            old(self).context.wf(),
        ensures
            expr_step(old(self).context, final(self).context),
            match lower_update(state_of(old(self).context), *l, op) {
                Ok(x) => r is Ok && state_of(final(self).context) == x.st
                    && final(self).context.output@ == old(self).context.output@ + x.text,
                Err(e) => r matches Err(y) && y@ == e,
            },
            unwritable(old(self).context, *l) ==> r is Err && final(self).context.output@ == old(self).context.output@,
    {
        let address = self.gen_store_place(l)?;
        let ghost p = lower_store_place(state_of(old(self).context), *l)->Ok_0;
        let ghost c1 = self.context;
        let old_value = self.context.emit_load(&address)?;
        let new_value = self.context.emit_binary(op.inst_name(), &old_value, &Operand::Immediate(1))?;
        self.context.emit_store(&new_value, &address);
        proof {
            let t = c1.temp_id;
            assert(self.context.output@ =~= old(self).context.output@ + (p.text + load_text(t, p.value)
                + inst_text((t + 1) as usize, add_op_name(op), Operand::Temporary(t), Operand::Immediate(1))
                + store_text(Operand::Temporary((t + 1) as usize), p.value)));
        }
        Ok(())
    }
}

} // verus!
