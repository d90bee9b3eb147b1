//! What lowering a declaration or a statement emits, and the state it
//! leaves, as a function of the state before and of the syntax tree.
use vstd::prelude::*;
use crate::ast::{add_op_name, Block, BlockItem, ConstDef, Decl, LVal, Stmt, VarDef};
use super::super::context::{operand_text, IRContext, Label, LoopFrame, Operand};
use super::super::emit::{br_text, inst_text, jump_text, label_line, load_text, store_text};
use super::super::error::{at_name, ErrView, IRBuilderErr};
use super::super::symbol::{address_text, lookup_in, SymbolView, Tables, VariableAddress};
use super::super::types::{spec_count, type_text, Type};
use super::declaration::const_values;
use super::initializer::{const_tree, fill, init_tree};
use super::lower_spec::{lower_exp, lower_i32, lower_place, Gen};
use super::{decl_type, ControlFlow};

verus! {

/// Everything but the text that lowering reads and changes: the visible
/// scopes (the globals first), the counters of temporaries, labels and
/// local objects, the enclosing loops, and the return type of the
/// function being lowered.
pub struct St {
    pub scopes: Tables,
    pub temp: usize,
    pub label: usize,
    pub var: usize,
    pub loops: Seq<LoopFrame>,
    pub ret: Option<Type>,
}

/// The state of a lowering context.
pub open spec fn state_of(c: IRContext) -> St {
    St {
        scopes: c.tables(),
        temp: c.temp_id,
        label: c.label_id,
        var: c.var_id,
        loops: c.loops@,
        ret: c.return_type,
    }
}

/// The state after a step, and the text the step appends.
pub struct Step {
    pub st: St,
    pub text: Seq<char>,
}

/// As `Step`, for a statement, with whether control falls through it.
pub struct StmtStep {
    pub st: St,
    pub text: Seq<char>,
    pub flow: ControlFlow,
}

/// `r` with `t` put before its text.
pub open spec fn prepend(t: Seq<char>, r: Result<Step, ErrView>) -> Result<Step, ErrView> {
    match r {
        Ok(x) => Ok(Step { st: x.st, text: t + x.text }),
        Err(e) => Err(e),
    }
}

/// The state with the counters that lowering an expression left.
pub open spec fn with_gen(s: St, g: Gen) -> St {
    St { temp: g.temp, label: g.label, ..s }
}

/// Defines `name` in the innermost local scope.
pub open spec fn define(s: St, name: Seq<char>, sym: SymbolView) -> Result<St, ErrView> {
    if s.scopes.len() <= 1 {
        Err(ErrView::NoScope)
    } else if s.scopes.last().contains_key(name) {
        Err(ErrView::DuplicateSymbol(at_name(name)))
    } else {
        Ok(St { scopes: s.scopes.drop_last().push(s.scopes.last().insert(name, sym)), ..s })
    }
}

/// Closes the innermost local scope, if there is one.
pub open spec fn exit_scopes(t: Tables) -> Tables {
    if t.len() > 1 {
        t.drop_last()
    } else {
        t
    }
}

/// `@x_n = alloc ty`.
pub open spec fn alloc_text(a: VariableAddress, ty: Type) -> Seq<char> {
    "\t"@ + address_text(a) + " = alloc "@ + type_text(ty) + "\n"@
}

/// A local object named `name`: a fresh address, its allocation, and the
/// name bound to it in the innermost scope.
pub open spec fn new_local(s: St, name: String, ty: Type, mutable: bool, values: Option<Seq<i32>>)
    -> Result<(VariableAddress, Step), ErrView>
{
    if s.var == usize::MAX {
        Err(ErrView::TooManyNames)
    } else {
        let a = VariableAddress { identifier: name, id: s.var, global: false };
        let s1 = St { var: (s.var + 1) as usize, ..s };
        match define(s1, name@, SymbolView::Object { address: a, ty, mutable, const_values: values }) {
            Err(e) => Err(e),
            Ok(s2) => Ok((a, Step { st: s2, text: alloc_text(a, ty) })),
        }
    }
}

/// The indices that select the scalar at row-major position `flat` of a
/// value of type `t`.
pub open spec fn scalar_indices(t: Type, flat: int) -> Option<Seq<i32>>
    decreases t,
{
    match t {
        Type::Array(e, _) => {
            let idx = flat / (spec_count(*e) as int);
            if idx > i32::MAX {
                None
            } else {
                match scalar_indices(*e, flat % (spec_count(*e) as int)) {
                    None => None,
                    Some(r) => Some(seq![idx as i32] + r),
                }
            }
        },
        _ => Some(Seq::empty()),
    }
}

/// `getelemptr` by each index in turn from `base`, into fresh temporaries
/// from `t` on: the text, the final address and the next temporary.
pub open spec fn elem_chain(base: Operand, ix: Seq<i32>, t: usize) -> Result<(Seq<char>, Operand, usize), ErrView>
    decreases ix.len(),
{
    if ix.len() == 0 {
        Ok((Seq::empty(), base, t))
    } else if t == usize::MAX {
        Err(ErrView::TooManyNames)
    } else {
        match elem_chain(Operand::Temporary(t), ix.drop_first(), (t + 1) as usize) {
            Err(e) => Err(e),
            Ok((text, a, t2)) => Ok((inst_text(t, "getelemptr"@, base, Operand::Immediate(ix[0])) + text, a, t2)),
        }
    }
}

/// The address of the scalar at position `flat` of the object of type
/// `ty` at `base`.
pub open spec fn elem_address(base: Operand, ty: Type, flat: int, t: usize) -> Result<(Seq<char>, Operand, usize), ErrView> {
    match scalar_indices(ty, flat) {
        None => Err(ErrView::ArraySizeOverflow),
        Some(ix) => elem_chain(base, ix, t),
    }
}

/// Stores the entries of a normalized initializer from position `i` on:
/// each entry's value (zero for an empty entry) at its scalar's address.
pub open spec fn init_stores(s: St, base: Operand, ty: Type, vals: Seq<Option<crate::ast::Exp>>, i: nat)
    -> Result<Step, ErrView>
    decreases vals.len() - i,
{
    if i >= vals.len() {
        Ok(Step { st: s, text: Seq::empty() })
    } else {
        let v = match vals[i as int] {
            Some(e) => lower_i32(s.scopes, s.temp, s.label, e),
            None => Ok(Gen { text: Seq::empty(), value: Operand::Immediate(0), ty: Type::I32, temp: s.temp, label: s.label }),
        };
        match v {
            Err(e) => Err(e),
            Ok(g) => match elem_address(base, ty, i as int, g.temp) {
                Err(e) => Err(e),
                Ok((at, a, t2)) => prepend(g.text + at + store_text(g.value, a),
                    init_stores(St { temp: t2, label: g.label, ..s }, base, ty, vals, i + 1)),
            },
        }
    }
}

/// Stores constant scalars from position `i` on.
pub open spec fn const_stores(s: St, base: Operand, ty: Type, vals: Seq<i32>, i: nat) -> Result<Step, ErrView>
    decreases vals.len() - i,
{
    if i >= vals.len() {
        Ok(Step { st: s, text: Seq::empty() })
    } else {
        match elem_address(base, ty, i as int, s.temp) {
            Err(e) => Err(e),
            Ok((at, a, t2)) => prepend(at + store_text(Operand::Immediate(vals[i as int]), a),
                const_stores(St { temp: t2, ..s }, base, ty, vals, i + 1)),
        }
    }
}

/// The initialization of a new local variable at `base`: its initializer
/// normalized and stored; without one, a scalar is set to zero.
pub open spec fn var_init(s: St, base: Operand, ty: Type, init: Option<crate::ast::InitVal>) -> Result<Step, ErrView> {
    match init {
        Some(init) => match fill(ty, init_tree(init)) {
            Err(e) => Err(e),
            Ok(vals) => init_stores(s, base, ty, vals, 0),
        },
        None => Ok(Step {
            st: s,
            text: if ty == Type::I32 { store_text(Operand::Immediate(0), base) } else { Seq::empty() },
        }),
    }
}

/// A local variable: allocated, named, then initialized; a scalar without
/// initializer is set to zero.
pub open spec fn lower_var_def(s: St, d: VarDef) -> Result<Step, ErrView> {
    match decl_type(s.scopes, d.dimensions@) {
        Err(e) => Err(e),
        Ok(ty) => match new_local(s, d.id.id, ty, true, None) {
            Err(e) => Err(e),
            Ok((a, st1)) => prepend(st1.text, var_init(st1.st, Operand::Variable(a), ty, d.init)),
        },
    }
}

/// A local constant: a scalar is a named value; an array is allocated,
/// named with its values, and filled.
pub open spec fn lower_const_def(s: St, d: ConstDef) -> Result<Step, ErrView> {
    match decl_type(s.scopes, d.dimensions@) {
        Err(e) => Err(e),
        Ok(ty) => match const_values(s.scopes, ty, const_tree(d.init)) {
            Err(e) => Err(e),
            Ok(vals) => if ty == Type::I32 {
                match define(s, d.id.id@, SymbolView::Const(vals[0])) {
                    Err(e) => Err(e),
                    Ok(s1) => Ok(Step { st: s1, text: Seq::empty() }),
                }
            } else {
                match new_local(s, d.id.id, ty, false, Some(vals)) {
                    Err(e) => Err(e),
                    Ok((a, st1)) => prepend(st1.text, const_stores(st1.st, Operand::Variable(a), ty, vals, 0)),
                }
            },
        },
    }
}

/// The variable definitions from position `i` on, in order.
pub open spec fn lower_var_defs(s: St, defs: Seq<VarDef>, i: nat) -> Result<Step, ErrView>
    decreases defs.len() - i,
{
    if i >= defs.len() {
        Ok(Step { st: s, text: Seq::empty() })
    } else {
        match lower_var_def(s, defs[i as int]) {
            Err(e) => Err(e),
            Ok(a) => prepend(a.text, lower_var_defs(a.st, defs, i + 1)),
        }
    }
}

/// The constant definitions from position `i` on, in order.
pub open spec fn lower_const_defs(s: St, defs: Seq<ConstDef>, i: nat) -> Result<Step, ErrView>
    decreases defs.len() - i,
{
    if i >= defs.len() {
        Ok(Step { st: s, text: Seq::empty() })
    } else {
        match lower_const_def(s, defs[i as int]) {
            Err(e) => Err(e),
            Ok(a) => prepend(a.text, lower_const_defs(a.st, defs, i + 1)),
        }
    }
}

/// A local declaration.
pub open spec fn lower_decl(s: St, d: Decl) -> Result<Step, ErrView> {
    match d {
        Decl::ConstDecl(c) => lower_const_defs(s, c.const_defs@, 0),
        Decl::VarDecl(v) => lower_var_defs(s, v.var_defs@, 0),
    }
}

/// The place that an assignment or increment writes: a mutable `i32`.
pub open spec fn lower_store_place(s: St, l: LVal) -> Result<Gen, ErrView> {
    match lookup_in(s.scopes, l.id.id@) {
        None => Err(ErrView::UndefinedSymbol(at_name(l.id.id@))),
        Some(SymbolView::Const(_)) => Err(ErrView::AssignToConst(at_name(l.id.id@))),
        Some(sym) => match lower_place(s.scopes, s.temp, s.label, l) {
            Err(e) => Err(e),
            Ok(p) => if sym matches SymbolView::Object { mutable, .. } && !mutable {
                Err(ErrView::AssignToConst(at_name(l.id.id@)))
            } else if p.ty != Type::I32 {
                Err(ErrView::ExpectedScalarLVal(at_name(l.id.id@)))
            } else {
                Ok(p)
            },
        },
    }
}

/// A fresh label, unless the counter is exhausted.
pub open spec fn fresh_label(s: St, name: &'static str) -> Result<(Label, St), ErrView> {
    if s.label == usize::MAX {
        Err(ErrView::TooManyNames)
    } else {
        Ok((Label { name, id: s.label }, St { label: (s.label + 1) as usize, ..s }))
    }
}

/// `return`: a value is required exactly in an `int` function.
pub open spec fn lower_return(s: St, ret: Option<crate::ast::Exp>) -> Result<StmtStep, ErrView> {
    match s.ret {
        None => Err(ErrView::NoCurrentFunction),
        Some(t) => if t == Type::I32 {
            match ret {
                Some(e) => match lower_i32(s.scopes, s.temp, s.label, e) {
                    Err(x) => Err(x),
                    Ok(g) => Ok(StmtStep {
                        st: with_gen(s, g),
                        text: g.text + "\tret "@ + operand_text(g.value) + "\n"@,
                        flow: ControlFlow::Terminated,
                    }),
                },
                None => Err(ErrView::MissingReturnValue),
            }
        } else {
            match ret {
                Some(_) => Err(ErrView::UnexpectedReturnValue),
                None => Ok(StmtStep { st: s, text: "\tret"@ + "\n"@, flow: ControlFlow::Terminated }),
            }
        },
    }
}

/// `l = e`.
pub open spec fn lower_assign(s: St, l: LVal, e: crate::ast::Exp) -> Result<StmtStep, ErrView> {
    match lower_store_place(s, l) {
        Err(x) => Err(x),
        Ok(p) => match lower_i32(s.scopes, p.temp, p.label, e) {
            Err(x) => Err(x),
            Ok(g) => Ok(StmtStep {
                st: with_gen(s, g),
                text: p.text + g.text + store_text(g.value, p.value),
                flow: ControlFlow::Continues,
            }),
        },
    }
}

/// `l++` and `l--`: load, add or subtract one, store.
pub open spec fn lower_update(s: St, l: LVal, op: crate::ast::AddOp) -> Result<StmtStep, ErrView> {
    match lower_store_place(s, l) {
        Err(x) => Err(x),
        Ok(p) => if p.temp >= usize::MAX - 1 {
            Err(ErrView::TooManyNames)
        } else {
            let t = p.temp;
            Ok(StmtStep {
                st: St { temp: (t + 2) as usize, label: p.label, ..s },
                text: p.text + load_text(t, p.value)
                    + inst_text((t + 1) as usize, add_op_name(op), Operand::Temporary(t), Operand::Immediate(1))
                    + store_text(Operand::Temporary((t + 1) as usize), p.value),
                flow: ControlFlow::Continues,
            })
        },
    }
}

/// One arm of an `if`, entered at `label`; an arm that falls through jumps
/// to `end`.
#[verifier::opaque]
pub open spec fn lower_arm(s: St, label: Label, x: Stmt, end: Label) -> Result<StmtStep, ErrView>
    decreases x, 3nat, 0nat,
{
    match lower_stmt(s, x) {
        Err(e) => Err(e),
        Ok(r) => Ok(StmtStep {
            st: r.st,
            text: label_line(label) + r.text + if r.flow == ControlFlow::Continues {
                jump_text(end)
            } else {
                Seq::empty()
            },
            flow: r.flow,
        }),
    }
}

/// The head of an `if`: the condition is evaluated in a block of its own
/// and branches to the `then` arm or to the `else` arm (the end when there
/// is none). Gives the labels of the `then` arm, the `else` arm and the
/// end.
pub open spec fn if_head(s: St, cond: crate::ast::Exp, has_else: bool) -> Result<(Label, Label, Label, Step), ErrView> {
    match fresh_label(s, "if_entry") {
        Err(e) => Err(e),
        Ok((entry, s1)) => match lower_i32(s1.scopes, s1.temp, s1.label, cond) {
            Err(e) => Err(e),
            Ok(g) => match fresh_label(with_gen(s1, g), "then") {
                Err(e) => Err(e),
                Ok((tl, s3)) => match fresh_label(s3, "end") {
                    Err(e) => Err(e),
                    Ok((el, s4)) => match (if has_else { fresh_label(s4, "else") } else { Ok((el, s4)) }) {
                        Err(e) => Err(e),
                        Ok((fl, s5)) => Ok((tl, fl, el, Step {
                            st: s5,
                            text: jump_text(entry) + label_line(entry) + g.text + br_text(g.value, tl, fl),
                        })),
                    },
                },
            },
        },
    }
}

/// `if (cond) a else b`: after the head, each arm in its block; the end
/// block exists unless both arms end control. (Only an `if` is passed
/// here.)
#[verifier::opaque]
pub open spec fn lower_if(s: St, x: Stmt) -> Result<StmtStep, ErrView>
    decreases x, 2nat, 0nat,
{
    match x {
        Stmt::If(cond, a, b) => match if_head(s, cond, b is Some) {
            Err(e) => Err(e),
            Ok((tl, fl, el, h)) => {
                proof {
                    assert(decreases_to!(x => *a));
                }
                match lower_arm(h.st, tl, *a, el) {
                    Err(e) => Err(e),
                    Ok(ra) => {
                        let rb = match b {
                            Some(bx) => {
                                proof {
                                    assert(decreases_to!(x => *bx));
                                }
                                lower_arm(ra.st, fl, *bx, el)
                            },
                            None => Ok(StmtStep { st: ra.st, text: Seq::empty(), flow: ControlFlow::Continues }),
                        };
                        match rb {
                            Err(e) => Err(e),
                            Ok(rb) => if ra.flow == ControlFlow::Terminated && rb.flow == ControlFlow::Terminated {
                                Ok(StmtStep { st: rb.st, text: h.text + ra.text + rb.text, flow: ControlFlow::Terminated })
                            } else {
                                Ok(StmtStep {
                                    st: rb.st,
                                    text: h.text + ra.text + rb.text + label_line(el),
                                    flow: ControlFlow::Continues,
                                })
                            },
                        }
                    },
                }
            },
        },
        _ => Err(ErrView::NoScope),
    }
}

/// The five blocks of a loop: initialization, condition, body, increment
/// and end, with consecutive label numbers.
pub open spec fn loop_labels(id: usize) -> (Label, Label, Label, Label, Label) {
    (
        Label { name: "loop_init", id },
        Label { name: "loop_cond", id: (id + 1) as usize },
        Label { name: "loop_body", id: (id + 2) as usize },
        Label { name: "loop_inc", id: (id + 3) as usize },
        Label { name: "loop_end", id: (id + 4) as usize },
    )
}

/// The labels of a loop and the jump into its initialization block.
pub open spec fn loop_head(s: St) -> Result<Step, ErrView> {
    if s.label > usize::MAX - 5 {
        Err(ErrView::TooManyNames)
    } else {
        let il = loop_labels(s.label).0;
        Ok(Step { st: St { label: (s.label + 5) as usize, ..s }, text: jump_text(il) + label_line(il) })
    }
}

/// The condition block of a loop whose labels start at `id`: it branches
/// to the body or the end (always to the body without a condition); then
/// the body block is entered, and the loop becomes the innermost one.
pub open spec fn loop_cond(s: St, cond: Option<crate::ast::Exp>, id: usize) -> Result<Step, ErrView> {
    let (il, cl, bl, nl, el) = loop_labels(id);
    let c = match cond {
        Some(e) => match lower_i32(s.scopes, s.temp, s.label, e) {
            Err(er) => Err(er),
            Ok(g) => Ok((with_gen(s, g), g.text + br_text(g.value, bl, el))),
        },
        None => Ok((s, jump_text(bl))),
    };
    match c {
        Err(e) => Err(e),
        Ok((s3, ct)) => Ok(Step {
            st: St { loops: s3.loops.push(LoopFrame { continue_target: nl, break_target: el, has_break: false }), ..s3 },
            text: jump_text(cl) + label_line(cl) + ct + label_line(bl),
        }),
    }
}

/// An arm's text begins with the label of its block.
proof fn lemma_arm_label(s: St, label: Label, x: Stmt, end: Label)
    requires
        lower_arm(s, label, x, end) is Ok,
    ensures
        lower_arm(s, label, x, end)->Ok_0.text.subrange(0, label_line(label).len() as int) == label_line(label),
        lower_arm(s, label, x, end)->Ok_0.text.len() >= label_line(label).len(),
{
    reveal_with_fuel(lower_arm, 1);
    reveal_with_fuel(lower_stmt, 1);
    let r = lower_stmt(s, x)->Ok_0;
    let t = lower_arm(s, label, x, end)->Ok_0.text;
    let j = if r.flow == ControlFlow::Continues { jump_text(end) } else { Seq::<char>::empty() };
    assert(t == label_line(label) + r.text + j);
    assert(t.subrange(0, label_line(label).len() as int) =~= label_line(label));
}

/// An `if` goes to its `then` arm when the condition is nonzero and
/// elsewhere when it is zero: its condition block ends in a `br` whose true
/// target is the block that follows it, where the `then` arm is lowered,
/// and whose false target is a block that comes after that one (the `else`
/// arm, or the end when there is none).
#[verifier::rlimit(50)]
pub proof fn law_if_branch(s: St, cond: crate::ast::Exp, a: Box<Stmt>, b: Option<Box<Stmt>>)
    requires
        lower_if(s, Stmt::If(cond, a, b)) is Ok,
    ensures
        exists|pre: Seq<char>, v: Operand, t: Label, f: Label, m1: Seq<char>, m2: Seq<char>|
            #[trigger] (pre + br_text(v, t, f) + label_line(t) + m1 + label_line(f) + m2)
                == lower_if(s, Stmt::If(cond, a, b))->Ok_0.text,
{
    let x = Stmt::If(cond, a, b);
    reveal_with_fuel(lower_if, 2);
    reveal_with_fuel(lower_arm, 1);
    assert(decreases_to!(x => *a));
    let (tl, fl, el, h) = if_head(s, cond, b is Some)->Ok_0;
    let (entry, s1) = fresh_label(s, "if_entry")->Ok_0;
    let g = lower_i32(s1.scopes, s1.temp, s1.label, cond)->Ok_0;
    let pre = jump_text(entry) + label_line(entry) + g.text;
    assert(h.text == pre + br_text(g.value, tl, fl));
    let ra = lower_arm(h.st, tl, *a, el)->Ok_0;
    lemma_arm_label(h.st, tl, *a, el);
    let la = label_line(tl).len() as int;
    let ma = ra.text.subrange(la, ra.text.len() as int);
    assert(ra.text =~= label_line(tl) + ma);
    let r = lower_if(s, x)->Ok_0;
    match b {
        None => {
            assert(r.text =~= pre + br_text(g.value, tl, fl) + label_line(tl) + ma + label_line(fl)
                + Seq::<char>::empty());
        },
        Some(bx) => {
            let rb = lower_arm(ra.st, fl, *bx, el)->Ok_0;
            lemma_arm_label(ra.st, fl, *bx, el);
            let lb = label_line(fl).len() as int;
            let mb = rb.text.subrange(lb, rb.text.len() as int);
            assert(rb.text =~= label_line(fl) + mb);
            let tail = if ra.flow == ControlFlow::Terminated && rb.flow == ControlFlow::Terminated {
                Seq::<char>::empty()
            } else {
                label_line(el)
            };
            assert(r.text =~= pre + br_text(g.value, tl, fl) + label_line(tl) + ma + label_line(fl) + (mb + tail));
        },
    }
}

/// `break` jumps to the innermost loop's break target and `continue` to
/// its continue target; neither falls through.
pub proof fn law_break_continue(s: St)
    requires
        s.loops.len() > 0,
    ensures
        lower_stmt(s, Stmt::Break) matches Ok(r) && r.text == jump_text(s.loops.last().break_target)
            && r.flow == ControlFlow::Terminated,
        lower_stmt(s, Stmt::Continue) matches Ok(r) && r.text == jump_text(s.loops.last().continue_target)
            && r.flow == ControlFlow::Terminated,
{
    reveal_with_fuel(lower_stmt, 1);
}

/// A `while` condition goes on to the body when it is nonzero and leaves
/// the loop when it is zero: the condition block ends in a `br` whose true
/// target is the block that follows it, where the body is lowered, and
/// whose false target is the loop's break target.
pub proof fn law_loop_branch(s: St, e: crate::ast::Exp, id: usize)
    requires
        loop_cond(s, Some(e), id) is Ok,
    ensures
        exists|pre: Seq<char>, v: Operand, t: Label, f: Label|
            #[trigger] (pre + br_text(v, t, f) + label_line(t)) == loop_cond(s, Some(e), id)->Ok_0.text
            && f == loop_cond(s, Some(e), id)->Ok_0.st.loops.last().break_target,
{
    let (il, cl, bl, nl, el) = loop_labels(id);
    let g = lower_i32(s.scopes, s.temp, s.label, e)->Ok_0;
    let pre = jump_text(cl) + label_line(cl) + g.text;
    let step = loop_cond(s, Some(e), id)->Ok_0;
    assert(pre + br_text(g.value, bl, el) + label_line(bl) =~= step.text);
    assert(step.st.loops.last().break_target == el);
}

/// A statement lowered for its effect; its flow is dropped.
pub open spec fn drop_flow(r: Result<StmtStep, ErrView>) -> Result<Step, ErrView> {
    match r {
        Err(e) => Err(e),
        Ok(x) => Ok(Step { st: x.st, text: x.text }),
    }
}

/// A loop: initialization, then the condition block, which branches to
/// the body or the end; the body falls through to the increment block,
/// which jumps back to the condition. `continue` goes to the increment
/// block and `break` to the end. The end block exists, and control falls
/// through the loop, when there is a condition or a `break`. (Only a loop
/// is passed here.)
#[verifier::opaque]
pub open spec fn lower_loop(s: St, x: Stmt) -> Result<StmtStep, ErrView>
    decreases x, 2nat, 0nat,
{
    match x {
        Stmt::Loop { init, cond, inc, body } => match loop_head(s) {
            Err(e) => Err(e),
            Ok(h) => {
                let (il, cl, bl, nl, el) = loop_labels(s.label);
                let r2 = match init {
                    None => Ok(Step { st: h.st, text: Seq::empty() }),
                    Some(i) => {
                        proof {
                            assert(decreases_to!(x => *i));
                        }
                        drop_flow(lower_stmt(h.st, *i))
                    },
                };
                match r2 {
                    Err(e) => Err(e),
                    Ok(r2) => match loop_cond(r2.st, cond, s.label) {
                        Err(e) => Err(e),
                        Ok(r3) => {
                            proof {
                                assert(decreases_to!(x => *body));
                            }
                            match lower_stmt(r3.st, *body) {
                                Err(e) => Err(e),
                                Ok(r4) => if r4.st.loops.len() == 0 {
                                    Err(ErrView::EmptyLoopStack(Seq::empty()))
                                } else {
                                    let frame = r4.st.loops.last();
                                    let s5 = St { loops: r4.st.loops.drop_last(), ..r4.st };
                                    let t5 = if r4.flow == ControlFlow::Continues { jump_text(nl) } else { Seq::empty() }
                                        + label_line(nl);
                                    let r6 = match inc {
                                        None => Ok(Step { st: s5, text: Seq::empty() }),
                                        Some(i) => {
                                            proof {
                                                assert(decreases_to!(x => *i));
                                            }
                                            drop_flow(lower_stmt(s5, *i))
                                        },
                                    };
                                    match r6 {
                                        Err(e) => Err(e),
                                        Ok(r6) => {
                                            let reaches = cond is Some || frame.has_break;
                                            Ok(StmtStep {
                                                st: r6.st,
                                                text: h.text + r2.text + r3.text + r4.text + t5 + r6.text + jump_text(cl)
                                                    + if reaches { label_line(el) } else { Seq::empty() },
                                                flow: if reaches { ControlFlow::Continues } else { ControlFlow::Terminated },
                                            })
                                        },
                                    }
                                },
                            }
                        },
                    },
                }
            },
        },
        _ => Err(ErrView::NoScope),
    }
}

/// A statement: the text it appends, the state after it, and whether
/// control falls through it.
#[verifier::opaque]
pub open spec fn lower_stmt(s: St, x: Stmt) -> Result<StmtStep, ErrView>
    decreases x, 2nat, 1nat,
{
    match x {
        Stmt::Return(ret) => lower_return(s, ret),
        Stmt::Assign(l, e) => lower_assign(s, l, e),
        Stmt::Update(l, op) => lower_update(s, l, op),
        Stmt::Exp(Some(e)) => match lower_exp(s.scopes, s.temp, s.label, e) {
            Err(er) => Err(er),
            Ok(g) => Ok(StmtStep { st: with_gen(s, g), text: g.text, flow: ControlFlow::Continues }),
        },
        Stmt::Exp(None) => Ok(StmtStep { st: s, text: Seq::empty(), flow: ControlFlow::Continues }),
        Stmt::Block(b) => lower_block(s, b),
        Stmt::If(..) => lower_if(s, x),
        Stmt::Loop { .. } => lower_loop(s, x),
        Stmt::Break => if s.loops.len() == 0 {
            Err(ErrView::EmptyLoopStack("break"@))
        } else {
            let f = s.loops.last();
            Ok(StmtStep {
                st: St { loops: s.loops.drop_last().push(LoopFrame { has_break: true, ..f }), ..s },
                text: jump_text(f.break_target),
                flow: ControlFlow::Terminated,
            })
        },
        Stmt::Continue => if s.loops.len() == 0 {
            Err(ErrView::EmptyLoopStack("continue"@))
        } else {
            Ok(StmtStep { st: s, text: jump_text(s.loops.last().continue_target), flow: ControlFlow::Terminated })
        },
    }
}

/// A block item: a declaration falls through.
#[verifier::opaque]
pub open spec fn lower_item(s: St, item: BlockItem) -> Result<StmtStep, ErrView>
    decreases item, 0nat, 0nat,
{
    match item {
        BlockItem::Decl(d) => match lower_decl(s, d) {
            Err(e) => Err(e),
            Ok(r) => Ok(StmtStep { st: r.st, text: r.text, flow: ControlFlow::Continues }),
        },
        BlockItem::Stmt(x) => lower_stmt(s, x),
    }
}

/// The items of a block from position `k` on; lowering stops after an
/// item that does not fall through.
#[verifier::opaque]
pub open spec fn lower_items(s: St, b: Block, k: nat) -> Result<StmtStep, ErrView>
    decreases b, 1nat, b.items@.len() - k,
{
    if k >= b.items@.len() {
        Ok(StmtStep { st: s, text: Seq::empty(), flow: ControlFlow::Continues })
    } else {
        proof {
            assert(decreases_to!(b => b.items@[k as int]));
        }
        match lower_item(s, b.items@[k as int]) {
            Err(e) => Err(e),
            Ok(r) => if r.flow == ControlFlow::Terminated {
                Ok(r)
            } else {
                match lower_items(r.st, b, k + 1) {
                    Err(e) => Err(e),
                    Ok(q) => Ok(StmtStep { st: q.st, text: r.text + q.text, flow: q.flow }),
                }
            },
        }
    }
}

/// A block, in a scope of its own.
#[verifier::opaque]
pub open spec fn lower_block(s: St, b: Block) -> Result<StmtStep, ErrView>
    decreases b, 2nat, 0nat,
{
    match lower_items(St { scopes: s.scopes.push(Map::empty()), ..s }, b, 0) {
        Err(e) => Err(e),
        Ok(r) => Ok(StmtStep { st: St { scopes: exit_scopes(r.st.scopes), ..r.st }, text: r.text, flow: r.flow }),
    }
}


/// The operation agrees with `s`: on success the state and the text
/// appended are those that `s` gives; otherwise the error is.
pub open spec fn stepped(old: IRContext, new: IRContext, r: Result<(), IRBuilderErr>, s: Result<Step, ErrView>) -> bool {
    match s {
        Ok(x) => r is Ok && state_of(new) == x.st && new.output@ == old.output@ + x.text,
        Err(e) => r matches Err(y) && y@ == e,
    }
}

/// As `stepped`, for a statement and its flow.
pub open spec fn stmt_stepped(old: IRContext, new: IRContext, r: Result<ControlFlow, IRBuilderErr>, s: Result<StmtStep, ErrView>) -> bool {
    match s {
        Ok(x) => r == Ok::<ControlFlow, IRBuilderErr>(x.flow) && state_of(new) == x.st && new.output@ == old.output@ + x.text,
        Err(e) => r matches Err(y) && y@ == e,
    }
}

pub proof fn lemma_prepend_assoc(a: Seq<char>, b: Seq<char>, r: Result<Step, ErrView>)
    ensures
        prepend(a, prepend(b, r)) == prepend(a + b, r),
{
    if r is Ok {
        assert(a + (b + r->Ok_0.text) =~= (a + b) + r->Ok_0.text);
    }
}

pub proof fn lemma_prepend_empty(r: Result<Step, ErrView>)
    ensures
        prepend(Seq::empty(), r) == r,
{
    if r is Ok {
        assert(Seq::<char>::empty() + r->Ok_0.text =~= r->Ok_0.text);
    }
}


/// An operation that appends `t` and then agrees with `s` agrees with `t`
/// put before `s`.
pub proof fn lemma_stepped_prepend(a: IRContext, b: IRContext, c: IRContext, r: Result<(), IRBuilderErr>,
    t: Seq<char>, s: Result<Step, ErrView>)
    requires
        b.output@ == a.output@ + t,
        stepped(b, c, r, s),
    ensures
        stepped(a, c, r, prepend(t, s)),
{
    if s is Ok {
        assert(c.output@ =~= a.output@ + (t + s->Ok_0.text));
    }
}


/// `r` with `t` put before its text.
pub open spec fn stmt_prepend(t: Seq<char>, r: Result<StmtStep, ErrView>) -> Result<StmtStep, ErrView> {
    match r {
        Ok(x) => Ok(StmtStep { st: x.st, text: t + x.text, flow: x.flow }),
        Err(e) => Err(e),
    }
}

pub proof fn lemma_stmt_prepend_assoc(a: Seq<char>, b: Seq<char>, r: Result<StmtStep, ErrView>)
    ensures
        stmt_prepend(a, stmt_prepend(b, r)) == stmt_prepend(a + b, r),
{
    if r is Ok {
        assert(a + (b + r->Ok_0.text) =~= (a + b) + r->Ok_0.text);
    }
}

pub proof fn lemma_stmt_prepend_empty(r: Result<StmtStep, ErrView>)
    ensures
        stmt_prepend(Seq::empty(), r) == r,
{
    if r is Ok {
        assert(Seq::<char>::empty() + r->Ok_0.text =~= r->Ok_0.text);
    }
}

} // verus!
