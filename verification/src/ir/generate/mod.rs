//! Lowering of declarations, statements and expressions.
pub mod initializer;
pub mod lower_spec;
pub mod stmt_spec;
pub mod unit_spec;
pub mod expression;
pub mod statement;
pub mod declaration;
pub mod function;

use vstd::prelude::*;
use crate::ast::{ConstExp, FuncDeclParamType, FuncParamType};
use super::IRBuilder;
use super::const_eval::{agrees, ev_exp};
use super::context::{IRContext, LoopFrame};
use super::emit::prefix;
use super::error::{ErrView, IRBuilderErr};
use super::symbol::Tables;
use super::types::{spec_count, type_ok, Type};
use declaration::int_array;

verus! {

/// Whether control can fall through the end of a statement.
#[derive(PartialEq, Eq, Structural)]
pub enum ControlFlow {
    Continues,
    Terminated,
}

impl ControlFlow {
    pub fn is_terminated(&self) -> (r: bool)
        ensures
            r == (*self == ControlFlow::Terminated),
    {
        match self {
            ControlFlow::Continues => false,
            ControlFlow::Terminated => true,
        }
    }
}

/// Two loop stacks of the same depth with the same jump targets.
pub open spec fn loops_match(a: Seq<LoopFrame>, b: Seq<LoopFrame>) -> bool {
    &&& a.len() == b.len()
    &&& forall|i: int| 0 <= i < a.len() ==> (#[trigger] b[i]).continue_target == a[i].continue_target
        && b[i].break_target == a[i].break_target
}

/// `new` continues `old` while lowering statements: text is only
/// appended, counters only grow, and the globals and the return type are
/// untouched.
pub open spec fn stmt_step(old: IRContext, new: IRContext) -> bool {
    &&& new.wf()
    &&& new.globals.tables() == old.globals.tables()
    &&& new.return_type == old.return_type
    &&& old.counters_le(&new)
    &&& prefix(old.output@, new.output@)
}

pub proof fn lemma_stmt_trans(a: IRContext, b: IRContext, c: IRContext)
    requires
        stmt_step(a, b),
        stmt_step(b, c),
    ensures
        stmt_step(a, c),
{
    super::emit::lemma_prefix_trans(a.output@, b.output@, c.output@);
}

pub proof fn lemma_loops_match_trans(a: Seq<LoopFrame>, b: Seq<LoopFrame>, c: Seq<LoopFrame>)
    requires
        loops_match(a, b),
        loops_match(b, c),
    ensures
        loops_match(a, c),
{
    assert forall|i: int| 0 <= i < a.len() implies (#[trigger] c[i]).continue_target == a[i].continue_target
        && c[i].break_target == a[i].break_target by {
        assert(b[i].continue_target == a[i].continue_target);
    }
}

/// The product of the lengths.
pub open spec fn prod(s: Seq<int>) -> int
    decreases s.len(),
{
    if s.len() == 0 {
        1
    } else {
        s[0] * prod(s.drop_first())
    }
}

/// The array type with the given lengths, outermost first, over `i32`.
pub open spec fn array_type(s: Seq<int>) -> Type
    decreases s.len(),
{
    if s.len() == 0 {
        Type::I32
    } else {
        Type::Array(Box::new(array_type(s.drop_first())), s[0] as usize)
    }
}

/// The array lengths of a declaration, evaluated left to right: each must
/// be positive and their product must fit in `usize`.
pub open spec fn ev_dims(c: Tables, dims: Seq<ConstExp>) -> Result<Seq<int>, ErrView>
    decreases dims.len(),
{
    if dims.len() == 0 {
        Ok(Seq::empty())
    } else {
        match ev_dims(c, dims.drop_last()) {
            Err(e) => Err(e),
            Ok(p) => match ev_exp(c, dims.last().exp) {
                Err(e) => Err(e),
                Ok(v) => if v <= 0 {
                    Err(ErrView::InvalidArrayLength(v))
                } else if prod(p.push(v as int)) > usize::MAX {
                    Err(ErrView::ArraySizeOverflow)
                } else {
                    Ok(p.push(v as int))
                },
            },
        }
    }
}

/// The type of an `int` object declared with the given dimensions: the
/// size in bytes must fit in `usize`.
#[verifier::opaque]
pub open spec fn decl_type(c: Tables, dims: Seq<ConstExp>) -> Result<Type, ErrView> {
    match ev_dims(c, dims) {
        Err(e) => Err(e),
        Ok(p) => if prod(p) * 4 > usize::MAX {
            Err(ErrView::ArraySizeOverflow)
        } else {
            Ok(array_type(p))
        },
    }
}

/// The type of a parameter: `i32`, or a pointer to the array type of its
/// trailing dimensions.
pub open spec fn param_type(c: Tables, p: FuncParamType) -> Result<Type, ErrView> {
    match p {
        FuncParamType::Scalar(_) => Ok(Type::I32),
        FuncParamType::Array { trailing_dimensions, .. } => match decl_type(c, trailing_dimensions@) {
            Err(e) => Err(e),
            Ok(t) => Ok(Type::Pointer(Box::new(t))),
        },
    }
}

pub open spec fn decl_param_type(c: Tables, p: FuncDeclParamType) -> Result<Type, ErrView> {
    match p {
        FuncDeclParamType::Scalar(_) => Ok(Type::I32),
        FuncDeclParamType::Array { trailing_dimensions, .. } => match decl_type(c, trailing_dimensions@) {
            Err(e) => Err(e),
            Ok(t) => Ok(Type::Pointer(Box::new(t))),
        },
    }
}

pub proof fn lemma_prod_push(s: Seq<int>, v: int)
    ensures
        prod(s.push(v)) == prod(s) * v,
    decreases s.len(),
{
    if s.len() > 0 {
        assert(s.push(v).drop_first() =~= s.drop_first().push(v));
        assert(s.push(v)[0] == s[0]);
        lemma_prod_push(s.drop_first(), v);
        let a = s[0];
        let b = prod(s.drop_first());
        assert(a * (b * v) == (a * b) * v) by (nonlinear_arith);
    } else {
        assert(s.push(v).drop_first() =~= Seq::<int>::empty());
        assert(s.push(v)[0] == v);
        assert(prod(s.push(v).drop_first()) == 1);
    }
}

/// An array type of positive lengths whose product fits is well formed,
/// and its scalar count is that product.
pub proof fn lemma_array_type(s: Seq<int>)
    requires
        forall|i: int| 0 <= i < s.len() ==> 1 <= #[trigger] s[i] <= usize::MAX,
        prod(s) * 4 <= usize::MAX,
    ensures
        type_ok(array_type(s)),
        int_array(array_type(s)),
        spec_count(array_type(s)) == prod(s),
        prod(s) >= 1,
    decreases s.len(),
{
    if s.len() > 0 {
        let r = s.drop_first();
        assert forall|i: int| 0 <= i < r.len() implies 1 <= #[trigger] r[i] <= usize::MAX by {
            assert(r[i] == s[i + 1]);
        }
        lemma_prod_ge1(r);
        assert(prod(r) <= prod(s)) by (nonlinear_arith)
            requires prod(s) == s[0] * prod(r), s[0] >= 1, prod(r) >= 1;
        assert(prod(r) * 4 <= prod(s) * 4);
        lemma_array_type(r);
        assert(s[0] * prod(r) >= 1) by (nonlinear_arith)
            requires s[0] >= 1, prod(r) >= 1;
        let n = s[0] as usize;
        assert(n as int == s[0]);
        assert(spec_count(array_type(r)) * (n as nat) == prod(s)) by (nonlinear_arith)
            requires spec_count(array_type(r)) == prod(r), prod(s) == s[0] * prod(r), n as int == s[0];
        assert(array_type(s) == Type::Array(Box::new(array_type(r)), n));
    }
}

pub proof fn lemma_prod_ge1(s: Seq<int>)
    requires
        forall|i: int| 0 <= i < s.len() ==> 1 <= #[trigger] s[i],
    ensures
        prod(s) >= 1,
    decreases s.len(),
{
    if s.len() > 0 {
        let r = s.drop_first();
        assert forall|i: int| 0 <= i < r.len() implies 1 <= #[trigger] r[i] by {
            assert(r[i] == s[i + 1]);
        }
        lemma_prod_ge1(r);
        assert(s[0] * prod(r) >= 1) by (nonlinear_arith)
            requires s[0] >= 1, prod(r) >= 1;
    }
}

proof fn lemma_ev_dims_error(c: Tables, s: Seq<ConstExp>, n: int)
    requires
        0 < n <= s.len(),
        ev_dims(c, s.subrange(0, n)) is Err,
    ensures
        ev_dims(c, s) == ev_dims(c, s.subrange(0, n)),
    decreases s.len() - n,
{
    if n == s.len() {
        assert(s.subrange(0, n) =~= s);
    } else {
        assert(s.subrange(0, n + 1).drop_last() =~= s.subrange(0, n));
        lemma_ev_dims_error(c, s, n + 1);
    }
}

/// The lengths of a declaration are positive and fit in `usize`.
proof fn lemma_ev_dims_ok(c: Tables, s: Seq<ConstExp>)
    requires
        ev_dims(c, s) is Ok,
    ensures
        forall|i: int| 0 <= i < ev_dims(c, s)->Ok_0.len() ==> 1 <= #[trigger] ev_dims(c, s)->Ok_0[i] <= usize::MAX,
        ev_dims(c, s)->Ok_0.len() == s.len(),
        prod(ev_dims(c, s)->Ok_0) <= usize::MAX,
    decreases s.len(),
{
    if s.len() > 0 {
        lemma_ev_dims_ok(c, s.drop_last());
        let p = ev_dims(c, s.drop_last())->Ok_0;
        let v = ev_exp(c, s.last().exp)->Ok_0;
        lemma_prod_push(p, v as int);
        lemma_prod_ge1(p);
        assert(v <= prod(p) * v) by (nonlinear_arith)
            requires prod(p) >= 1, v >= 1;
    }
}

impl IRBuilder {
    /// The type of an `int` object with the given dimensions.
    #[verifier::rlimit(40)]
    pub fn build_decl_type(&self, dims: &Vec<ConstExp>) -> (r: Result<Type, IRBuilderErr>)
        requires
            self.context.wf(),
        ensures
            agrees(r, decl_type(self.context.tables(), dims@)),
            r matches Ok(t) ==> type_ok(t) && int_array(t),
    {
        let mut lens: Vec<usize> = Vec::new();
        let mut total: usize = 1;
        let mut i: usize = 0;
        assert(dims@.subrange(0, 0) =~= Seq::<ConstExp>::empty());
        assert(lens@.map_values(|x: usize| x as int) =~= Seq::<int>::empty());
        while i < dims.len()
            invariant
                self.context.wf(),
                i <= dims.len(),
                ev_dims(self.context.tables(), dims@.subrange(0, i as int)) == Ok::<Seq<int>, ErrView>(lens@.map_values(|x: usize| x as int)),
                total == prod(lens@.map_values(|x: usize| x as int)),
            decreases dims.len() - i,
        {
            let ghost p = lens@.map_values(|x: usize| x as int);
            assert(dims@.subrange(0, i + 1).drop_last() =~= dims@.subrange(0, i as int));
            assert(dims@.subrange(0, i + 1).last() == dims@[i as int]);
            let v = match self.eval_exp(&dims[i].exp) {
                Ok(v) => v,
                Err(e) => {
                    proof {
                        lemma_ev_dims_error(self.context.tables(), dims@, (i + 1) as int);
                        reveal(decl_type);
                    }
                    return Err(e);
                },
            };
            if v <= 0 {
                proof {
                    lemma_ev_dims_error(self.context.tables(), dims@, (i + 1) as int);
                    reveal(decl_type);
                }
                return Err(IRBuilderErr::InvalidArrayLength(v));
            }
            let len = v as usize;
            proof {
                lemma_prod_push(p, v as int);
            }
            match total.checked_mul(len) {
                Some(t) => {
                    total = t;
                },
                None => {
                    proof {
                        lemma_ev_dims_error(self.context.tables(), dims@, (i + 1) as int);
                        reveal(decl_type);
                    }
                    return Err(IRBuilderErr::ArraySizeOverflow);
                },
            }
            lens.push(len);
            assert(lens@.map_values(|x: usize| x as int) =~= p.push(v as int));
            i = i + 1;
        }
        assert(dims@.subrange(0, dims@.len() as int) =~= dims@);
        proof {
            reveal(decl_type);
        }
        let ghost p = lens@.map_values(|x: usize| x as int);
        if total.checked_mul(4).is_none() {
            return Err(IRBuilderErr::ArraySizeOverflow);
        }
        proof {
            lemma_ev_dims_ok(self.context.tables(), dims@);
            lemma_array_type(p);
        }
        let mut ty = Type::I32;
        let mut j: usize = lens.len();
        assert(p.subrange(j as int, p.len() as int) =~= Seq::<int>::empty());
        while j > 0
            invariant
                j <= lens@.len(),
                p == lens@.map_values(|x: usize| x as int),
                ty == array_type(p.subrange(j as int, p.len() as int)),
            decreases j,
        {
            let ghost rest = p.subrange(j - 1, p.len() as int);
            assert(rest.drop_first() =~= p.subrange(j as int, p.len() as int));
            ty = Type::Array(Box::new(ty), lens[j - 1]);
            j = j - 1;
        }
        assert(p.subrange(0, p.len() as int) =~= p);
        Ok(ty)
    }

    /// The type of a named parameter.
    pub fn lower_func_param_type(&self, p: &FuncParamType) -> (r: Result<Type, IRBuilderErr>)
        requires
            self.context.wf(),
        ensures
            agrees(r, param_type(self.context.tables(), *p)),
            r matches Ok(t) ==> type_ok(t),
    {
        match p {
            FuncParamType::Scalar(_) => Ok(Type::I32),
            FuncParamType::Array { trailing_dimensions, .. } => {
                let t = self.build_decl_type(trailing_dimensions)?;
                Ok(Type::Pointer(Box::new(t)))
            },
        }
    }

    /// The type of a parameter of a function declaration.
    pub fn lower_func_decl_param_type(&self, p: &FuncDeclParamType) -> (r: Result<Type, IRBuilderErr>)
        requires
            self.context.wf(),
        ensures
            agrees(r, decl_param_type(self.context.tables(), *p)),
            r matches Ok(t) ==> type_ok(t),
    {
        match p {
            FuncDeclParamType::Scalar(_) => Ok(Type::I32),
            FuncDeclParamType::Array { trailing_dimensions, .. } => {
                let t = self.build_decl_type(trailing_dimensions)?;
                Ok(Type::Pointer(Box::new(t)))
            },
        }
    }
}

} // verus!
