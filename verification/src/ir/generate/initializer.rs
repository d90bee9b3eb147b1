//! Brace-elided initializer lists: normalization to one entry per scalar
//! and the Koopa text of aggregate constants.
use vstd::prelude::*;
use crate::ast::{ConstInitVal, Exp, InitVal};
use crate::text::{dec_int, push_i64, push_str};
use super::super::error::{ErrView, IRBuilderErr};
use super::super::types::{lemma_count_ok, lemma_elem_count, scalar_count, spec_count, type_text, type_ok, Type};

verus! {

/// An initializer tree whose leaves are expressions.
pub enum InitNode<'a> {
    Expr(&'a Exp),
    List(Vec<InitNode<'a>>),
}

/// The shape and leaves of an initializer.
pub enum Tree {
    Leaf(Exp),
    List(Seq<Tree>),
}

pub open spec fn tree_of<'a>(n: InitNode<'a>) -> Tree
    decreases n,
{
    match n {
        InitNode::Expr(e) => Tree::Leaf(*e),
        InitNode::List(v) => Tree::List(trees_of(v@)),
    }
}

pub open spec fn trees_of<'a>(s: Seq<InitNode<'a>>) -> Seq<Tree>
    decreases s,
{
    if s.len() == 0 {
        Seq::empty()
    } else {
        trees_of(s.drop_last()).push(tree_of(s.last()))
    }
}

/// The tree of a variable's initializer.
pub open spec fn init_tree(v: InitVal) -> Tree
    decreases v,
{
    match v {
        InitVal::Exp(e) => Tree::Leaf(e),
        InitVal::List(items) => Tree::List(init_trees(items@)),
    }
}

pub open spec fn init_trees(s: Seq<InitVal>) -> Seq<Tree>
    decreases s,
{
    if s.len() == 0 {
        Seq::empty()
    } else {
        init_trees(s.drop_last()).push(init_tree(s.last()))
    }
}

/// The tree of a constant's initializer.
pub open spec fn const_tree(v: ConstInitVal) -> Tree
    decreases v,
{
    match v {
        ConstInitVal::Exp(e) => Tree::Leaf(e.exp),
        ConstInitVal::List(items) => Tree::List(const_trees(items@)),
    }
}

pub open spec fn const_trees(s: Seq<ConstInitVal>) -> Seq<Tree>
    decreases s,
{
    if s.len() == 0 {
        Seq::empty()
    } else {
        const_trees(s.drop_last()).push(const_tree(s.last()))
    }
}

/// The leaf expressions of an initializer, left to right.
pub open spec fn leaves(n: Tree) -> Seq<Exp>
    decreases n,
{
    match n {
        Tree::Leaf(e) => seq![e],
        Tree::List(v) => leaves_list(v),
    }
}

pub open spec fn leaves_list(s: Seq<Tree>) -> Seq<Exp>
    decreases s,
{
    if s.len() == 0 {
        Seq::empty()
    } else {
        leaves_list(s.drop_last()) + leaves(s.last())
    }
}

/// `k` empty entries.
pub open spec fn nones(k: nat) -> Seq<Option<Exp>> {
    Seq::new(k, |i: int| None)
}

/// The expressions of the filled entries, in order.
pub open spec fn somes(v: Seq<Option<Exp>>) -> Seq<Exp>
    decreases v.len(),
{
    if v.len() == 0 {
        Seq::empty()
    } else {
        somes(v.drop_last()) + match v.last() {
            Some(e) => seq![e],
            None => Seq::empty(),
        }
    }
}

/// The sub-object that a nested list at scalar position `init` of an
/// aggregate starts: the largest of `t` and its element types whose size
/// divides `init` and fits in the `rem` scalars left.
pub open spec fn aligned(t: Type, init: nat, rem: nat) -> Type
    decreases t,
{
    if spec_count(t) > 0 && init % spec_count(t) == 0 && spec_count(t) <= rem {
        t
    } else {
        match t {
            Type::Array(e, _) => aligned(*e, init, rem),
            _ => t,
        }
    }
}

/// One entry per scalar of `t`, in row-major order: an expression where the
/// initializer gives one, `None` where the scalar is zero-filled.
pub open spec fn fill(t: Type, n: Tree) -> Result<Seq<Option<Exp>>, ErrView>
    decreases n, 1nat,
{
    match t {
        Type::Array(e, len) => match n {
            Tree::List(v) => match fill_list(*e, t, v) {
                Err(x) => Err(x),
                Ok(s) => Ok(s + nones((spec_count(t) - s.len()) as nat)),
            },
            Tree::Leaf(_) => Err(ErrView::InvalidInitializer(type_text(t))),
        },
        Type::Void => Err(ErrView::InvalidInitializer(type_text(t))),
        _ => match n {
            Tree::Leaf(x) => Ok(seq![Some(x)]),
            Tree::List(v) => if v.len() == 0 {
                Ok(seq![None])
            } else if v.len() == 1 {
                fill(t, v[0])
            } else {
                Err(ErrView::TooManyInitializers(type_text(t)))
            },
        },
    }
}

/// The entries of the array `arr` (with element type `e`) that the items
/// `s` of its list fill, before zero-filling the rest: a bare expression
/// fills the next scalar, a nested list fills the aligned sub-object.
pub open spec fn fill_list(e: Type, arr: Type, s: Seq<Tree>) -> Result<Seq<Option<Exp>>, ErrView>
    decreases s, 0nat,
{
    if s.len() == 0 {
        Ok(Seq::empty())
    } else {
        match fill_list(e, arr, s.drop_last()) {
            Err(x) => Err(x),
            Ok(p) => if p.len() >= spec_count(arr) {
                Err(ErrView::TooManyInitializers(type_text(arr)))
            } else {
                match s.last() {
                    Tree::Leaf(x) => Ok(p.push(Some(x))),
                    Tree::List(_) => {
                        let tt = aligned(e, p.len(), (spec_count(arr) - p.len()) as nat);
                        match fill(tt, s.last()) {
                            Err(x) => Err(x),
                            Ok(g) => if g.len() > spec_count(tt) {
                                Err(ErrView::TooManyInitializers(type_text(tt)))
                            } else {
                                Ok(p + g + nones((spec_count(tt) - g.len()) as nat))
                            },
                        }
                    },
                }
            },
        }
    }
}

pub proof fn lemma_somes_concat(a: Seq<Option<Exp>>, b: Seq<Option<Exp>>)
    ensures
        somes(a + b) == somes(a) + somes(b),
    decreases b.len(),
{
    if b.len() == 0 {
        assert(a + b =~= a);
        assert(somes(b) =~= Seq::<Exp>::empty());
        assert(somes(a) + somes(b) =~= somes(a));
    } else {
        assert((a + b).drop_last() =~= a + b.drop_last());
        assert((a + b).last() == b.last());
        lemma_somes_concat(a, b.drop_last());
        assert(somes(a + b) =~= somes(a) + somes(b));
    }
}

pub proof fn lemma_somes_one(o: Option<Exp>)
    ensures
        somes(seq![o]) == match o {
            Some(e) => seq![e],
            None => Seq::<Exp>::empty(),
        },
{
    let s = seq![o];
    assert(s.drop_last() =~= Seq::<Option<Exp>>::empty());
    assert(somes(s.drop_last()) == Seq::<Exp>::empty());
    assert(s.last() == o);
    assert(somes(s) == somes(s.drop_last()) + match o {
        Some(e) => seq![e],
        None => Seq::<Exp>::empty(),
    });
    assert(somes(s) =~= match o {
        Some(e) => seq![e],
        None => Seq::<Exp>::empty(),
    });
}

pub proof fn lemma_somes_nones(k: nat)
    ensures
        somes(nones(k)) == Seq::<Exp>::empty(),
    decreases k,
{
    if k > 0 {
        assert(nones(k).drop_last() =~= nones((k - 1) as nat));
        lemma_somes_nones((k - 1) as nat);
    }
}

/// The aligned sub-object is a well-formed type that fits in what is left.
pub proof fn lemma_aligned(t: Type, init: nat, rem: nat)
    requires
        type_ok(t),
        rem >= 1,
    ensures
        type_ok(aligned(t, init, rem)),
        1 <= spec_count(aligned(t, init, rem)) <= rem,
        aligned(t, init, rem) != Type::Void,
    decreases t,
{
    lemma_count_ok(t);
    if !(init % spec_count(t) == 0 && spec_count(t) <= rem) {
        match t {
            Type::Array(e, n) => {
                lemma_elem_count(*e, n);
                lemma_aligned(*e, init, rem);
            },
            _ => {},
        }
    }
}

/// Normalization gives exactly one entry per scalar of the type.
pub proof fn lemma_fill_len(t: Type, n: Tree)
    requires
        type_ok(t),
        fill(t, n) is Ok,
    ensures
        fill(t, n)->Ok_0.len() == spec_count(t),
    decreases n, 1nat,
{
    match t {
        Type::Array(e, len) => {
            if let Tree::List(v) = n {
                lemma_elem_count(*e, len);
                lemma_fill_list_len(*e, t, v);
            }
        },
        _ => {
            if let Tree::List(v) = n {
                if v.len() == 1 {
                    lemma_fill_len(t, v[0]);
                }
            }
        },
    }
}

proof fn lemma_fill_list_len(e: Type, arr: Type, s: Seq<Tree>)
    requires
        type_ok(e),
        type_ok(arr),
        fill_list(e, arr, s) is Ok,
    ensures
        fill_list(e, arr, s)->Ok_0.len() <= spec_count(arr),
    decreases s, 0nat,
{
    if s.len() > 0 {
        lemma_fill_list_len(e, arr, s.drop_last());
        let p = fill_list(e, arr, s.drop_last())->Ok_0;
        if let Tree::List(_) = s.last() {
            let rem = (spec_count(arr) - p.len()) as nat;
            lemma_aligned(e, p.len(), rem);
        }
    }
}

/// Normalization keeps every expression of the initializer, in order, and
/// adds no other: the filled entries are exactly the leaves.
pub proof fn lemma_fill_leaves(t: Type, n: Tree)
    requires
        fill(t, n) is Ok,
    ensures
        somes(fill(t, n)->Ok_0) == leaves(n),
    decreases n, 1nat,
{
    match t {
        Type::Array(e, len) => {
            if let Tree::List(v) = n {
                lemma_fill_list_leaves(*e, t, v);
                let s = fill_list(*e, t, v)->Ok_0;
                let k = (spec_count(t) - s.len()) as nat;
                lemma_somes_concat(s, nones(k));
                lemma_somes_nones(k);
                assert(somes(s) + Seq::<Exp>::empty() =~= somes(s));
            }
        },
        Type::Void => {},
        _ => {
            match n {
                Tree::Leaf(x) => {
                    lemma_somes_one(Some(x));
                },
                Tree::List(v) => {
                    if v.len() == 0 {
                        lemma_somes_one(None);
                        assert(leaves_list(v) =~= Seq::<Exp>::empty());
                    } else if v.len() == 1 {
                        lemma_fill_leaves(t, v[0]);
                        assert(v.drop_last() =~= Seq::<Tree>::empty());
                        assert(leaves_list(v.drop_last()) == Seq::<Exp>::empty());
                        assert(v.last() == v[0]);
                        assert(leaves_list(v) =~= leaves(v[0]));
                    }
                },
            }
        },
    }
}

proof fn lemma_fill_list_leaves(e: Type, arr: Type, s: Seq<Tree>)
    requires
        fill_list(e, arr, s) is Ok,
    ensures
        somes(fill_list(e, arr, s)->Ok_0) == leaves_list(s),
    decreases s, 0nat,
{
    if s.len() > 0 {
        lemma_fill_list_leaves(e, arr, s.drop_last());
        let p = fill_list(e, arr, s.drop_last())->Ok_0;
        match s.last() {
            Tree::Leaf(x) => {
                assert(p.push(Some(x)) =~= p + seq![Some(x)]);
                lemma_somes_concat(p, seq![Some(x)]);
                lemma_somes_one(Some(x));
                assert(leaves(s.last()) == seq![x]);
            },
            Tree::List(_) => {
                let tt = aligned(e, p.len(), (spec_count(arr) - p.len()) as nat);
                let g = fill(tt, s.last())->Ok_0;
                lemma_fill_leaves(tt, s.last());
                let k = (spec_count(tt) - g.len()) as nat;
                lemma_somes_concat(p + g, nones(k));
                lemma_somes_concat(p, g);
                lemma_somes_nones(k);
                assert(somes(p + g) + Seq::<Exp>::empty() =~= somes(p + g));
            },
        }
    }
}

/// Once an item of a list fails to fill, so does the list.
proof fn lemma_fill_list_error(e: Type, arr: Type, s: Seq<Tree>, n: int)
    requires
        0 < n <= s.len(),
        fill_list(e, arr, s.subrange(0, n)) is Err,
    ensures
        fill_list(e, arr, s) == fill_list(e, arr, s.subrange(0, n)),
    decreases s.len() - n,
{
    if n == s.len() {
        assert(s.subrange(0, n) =~= s);
    } else {
        assert(s.subrange(0, n + 1).drop_last() =~= s.subrange(0, n));
        lemma_fill_list_error(e, arr, s, n + 1);
    }
}

proof fn lemma_trees_of_prefix<'a>(v: Seq<InitNode<'a>>, i: int)
    requires
        0 <= i < v.len(),
    ensures
        trees_of(v.subrange(0, i + 1)) == trees_of(v.subrange(0, i)).push(tree_of(v[i])),
{
    assert(v.subrange(0, i + 1).drop_last() =~= v.subrange(0, i));
    assert(v.subrange(0, i + 1).last() == v[i]);
}

proof fn lemma_trees_of_sub<'a>(v: Seq<InitNode<'a>>, n: int)
    requires
        0 <= n <= v.len(),
    ensures
        trees_of(v).len() == v.len(),
        trees_of(v.subrange(0, n)) == trees_of(v).subrange(0, n),
    decreases v.len(),
{
    if v.len() > 0 {
        lemma_trees_of_sub(v.drop_last(), if n == v.len() { n - 1 } else { n });
        if n == v.len() {
            assert(v.subrange(0, n) =~= v);
            assert(trees_of(v).subrange(0, n) =~= trees_of(v));
        } else {
            assert(v.drop_last().subrange(0, n) =~= v.subrange(0, n));
            assert(trees_of(v).subrange(0, n) =~= trees_of(v.drop_last()).subrange(0, n));
        }
    } else {
        assert(v.subrange(0, n) =~= v);
    }
}

/// The expressions behind the entries.
pub open spec fn deref_opts<'a>(s: Seq<Option<&'a Exp>>) -> Seq<Option<Exp>> {
    s.map_values(|o: Option<&'a Exp>| match o {
        Some(e) => Some(*e),
        None => None,
    })
}

/// Appends `None` until `out` has `len` entries.
fn pad_to<'a>(out: &mut Vec<Option<&'a Exp>>, len: usize)
    requires
        old(out)@.len() <= len,
    ensures
        deref_opts(final(out)@) == deref_opts(old(out)@) + nones((len - old(out)@.len()) as nat),
        final(out)@.len() == len,
{
    while out.len() < len
        invariant
            old(out)@.len() <= out@.len() <= len,
            deref_opts(out@) == deref_opts(old(out)@) + nones((out@.len() - old(out)@.len()) as nat),
        decreases len - out.len(),
    {
        let ghost before = out@;
        out.push(None);
        assert(deref_opts(out@) =~= deref_opts(before) + seq![None]);
        assert(nones((out@.len() - old(out)@.len()) as nat) =~= nones((before.len() - old(out)@.len()) as nat) + seq![None]);
        assert(deref_opts(out@) =~= deref_opts(old(out)@) + nones((out@.len() - old(out)@.len()) as nat));
    }
}

/// The sub-object that a nested list at position `init` starts, with its
/// scalar count.
pub fn aligned_subobject<'t>(ty: &'t Type, init: usize, rem: usize) -> (r: (&'t Type, usize))
    requires
        type_ok(*ty),
        rem >= 1,
    ensures
        *r.0 == aligned(*ty, init as nat, rem as nat),
        r.1 == spec_count(*r.0),
    decreases ty,
{
    proof { crate::ir::types::lemma_type_ok_fits(*ty); }
    let count = scalar_count(ty);
    if init % count == 0 && count <= rem {
        return (ty, count);
    }
    match ty {
        Type::Array(e, n) => {
            proof {
                lemma_elem_count(**e, *n);
            }
            aligned_subobject(e, init, rem)
        },
        _ => (ty, count),
    }
}

/// Appends the normalized entries of `init` for an object of type `ty`.
pub fn fill_initializer<'a>(ty: &Type, init: &InitNode<'a>, output: &mut Vec<Option<&'a Exp>>) -> (r: Result<(), IRBuilderErr>)
    requires
        type_ok(*ty) || *ty == Type::Void,
        old(output)@.len() + spec_count(*ty) <= usize::MAX,
    ensures
        match fill(*ty, tree_of(*init)) {
            Ok(seg) => r is Ok && deref_opts(final(output)@) == deref_opts(old(output)@) + seg,
            Err(x) => r matches Err(y) && y@ == x,
        },
        *ty == Type::Void || (*ty is Array && *init is Expr) ==> final(output)@ == old(output)@,
    decreases init,
{
    match ty {
        Type::Array(elem, len) => {
            let values = match init {
                InitNode::List(values) => values,
                InitNode::Expr(_) => {
                    return Err(IRBuilderErr::InvalidInitializer(ty.render()));
                },
            };
            proof {
                lemma_elem_count(**elem, *len);
            }
            let start = output.len();
            proof { crate::ir::types::lemma_type_ok_fits(*ty); }
            let total = scalar_count(ty);
            let mut i: usize = 0;
            assert(values@.subrange(0, 0) =~= Seq::<InitNode<'a>>::empty());
            assert(deref_opts(output@) =~= deref_opts(old(output)@) + Seq::<Option<Exp>>::empty());
            while i < values.len()
                invariant
                    type_ok(*ty),
                    *ty == Type::Array(*elem, *len),
                    type_ok(**elem),
                    total == spec_count(*ty),
                    start == old(output)@.len(),
                    start + total <= usize::MAX,
                    i <= values.len(),
                    *init == InitNode::List(*values),
                    fill_list(**elem, *ty, trees_of(values@.subrange(0, i as int))) matches Ok(p)
                        && deref_opts(output@) == deref_opts(old(output)@) + p
                        && output@.len() == start + p.len()
                        && p.len() <= total,
                decreases values.len() - i,
            {
                let ghost p = fill_list(**elem, *ty, trees_of(values@.subrange(0, i as int)))->Ok_0;
                proof {
                    lemma_trees_of_prefix(values@, i as int);
                }
                let ghost s1 = trees_of(values@.subrange(0, i + 1));
                assert(s1.drop_last() == trees_of(values@.subrange(0, i as int)));
                assert(s1.last() == tree_of(values@[i as int]));
                let used = output.len() - start;
                if used >= total {
                    proof {
                        lemma_trees_of_sub(values@, (i + 1) as int);
                        lemma_fill_list_error(**elem, *ty, trees_of(values@), (i + 1) as int);
                    }
                    assert(values@.subrange(0, values@.len() as int) =~= values@);
                    return Err(IRBuilderErr::TooManyInitializers(ty.render()));
                }
                match &values[i] {
                    InitNode::Expr(exp) => {
                        let ghost before = output@;
                        output.push(Some(*exp));
                        assert(deref_opts(output@) =~= deref_opts(before) + seq![Some(**exp)]);
                        assert(deref_opts(output@) =~= deref_opts(old(output)@) + p.push(Some(**exp)));
                    },
                    InitNode::List(_) => {
                        let (target, target_count) = aligned_subobject(elem, used, total - used);
                        proof {
                            lemma_aligned(**elem, used as nat, (total - used) as nat);
                        }
                        let target_start = output.len();
                        assert(decreases_to!(*init => values@[i as int]));
                        let ghost before = output@;
                        match fill_initializer(target, &values[i], output) {
                            Ok(()) => {},
                            Err(x) => {
                                proof {
                                    lemma_trees_of_sub(values@, (i + 1) as int);
                                    lemma_fill_list_error(**elem, *ty, trees_of(values@), (i + 1) as int);
                                }
                                assert(values@.subrange(0, values@.len() as int) =~= values@);
                                return Err(x);
                            },
                        }
                        proof {
                            lemma_fill_len(*target, tree_of(values@[i as int]));
                        }
                        let ghost g = fill(*target, tree_of(values@[i as int]))->Ok_0;
                        assert(deref_opts(output@).len() == output@.len());
                        assert(deref_opts(before).len() == before.len());
                        let initialized = output.len() - target_start;
                        if initialized > target_count {
                            return Err(IRBuilderErr::TooManyInitializers(target.render()));
                        }
                        pad_to(output, target_start + target_count);
                        assert(deref_opts(output@) =~= deref_opts(old(output)@) + (p + g + nones((spec_count(*target) - g.len()) as nat)));
                    },
                }
                i = i + 1;
            }
            assert(values@.subrange(0, values@.len() as int) =~= values@);
            let ghost p = fill_list(**elem, *ty, trees_of(values@))->Ok_0;
            pad_to(output, start + total);
            assert(deref_opts(output@) =~= deref_opts(old(output)@) + (p + nones((spec_count(*ty) - p.len()) as nat)));
            Ok(())
        },
        Type::Void => Err(IRBuilderErr::InvalidInitializer(ty.render())),
        _ => match init {
            InitNode::Expr(exp) => {
                output.push(Some(*exp));
                assert(deref_opts(output@) =~= deref_opts(old(output)@) + seq![Some(**exp)]);
                Ok(())
            },
            InitNode::List(values) => {
                proof {
                    lemma_trees_of_sub(values@, 0);
                }
                if values.len() == 0 {
                    output.push(None);
                    assert(deref_opts(output@) =~= deref_opts(old(output)@) + seq![None]);
                    Ok(())
                } else if values.len() == 1 {
                    assert(values@.subrange(0, 1) =~= values@);
                    proof {
                        lemma_trees_of_prefix(values@, 0);
                    }
                    assert(values@.subrange(0, 0) =~= Seq::<InitNode<'a>>::empty());
                    assert(trees_of(values@)[0] == tree_of(values@[0]));
                    assert(decreases_to!(*init => values@[0]));
                    fill_initializer(ty, &values[0], output)
                } else {
                    Err(IRBuilderErr::TooManyInitializers(ty.render()))
                }
            },
        },
    }
}

/// One entry per scalar of `ty`: the expression that initializes it, or
/// `None` for a zero.
pub fn normalize_initializer<'a>(ty: &Type, init: &InitNode<'a>) -> (r: Result<Vec<Option<&'a Exp>>, IRBuilderErr>)
    requires
        type_ok(*ty) || *ty == Type::Void,
    ensures
        match fill(*ty, tree_of(*init)) {
            Ok(seg) => r matches Ok(v) && deref_opts(v@) == seg && v@.len() == spec_count(*ty),
            Err(x) => r matches Err(y) && y@ == x,
        },
{
    let mut values: Vec<Option<&'a Exp>> = Vec::new();
    proof {
        if type_ok(*ty) {
            lemma_count_ok(*ty);
        }
    }
    fill_initializer(ty, init, &mut values)?;
    proof {
        lemma_fill_len(*ty, tree_of(*init));
        assert(deref_opts(values@) =~= fill(*ty, tree_of(*init))->Ok_0);
    }
    Ok(values)
}

proof fn lemma_init_trees_prefix(v: Seq<InitVal>, i: int)
    requires
        0 <= i < v.len(),
    ensures
        init_trees(v.subrange(0, i + 1)) == init_trees(v.subrange(0, i)).push(init_tree(v[i])),
{
    assert(v.subrange(0, i + 1).drop_last() =~= v.subrange(0, i));
    assert(v.subrange(0, i + 1).last() == v[i]);
}

proof fn lemma_const_trees_prefix(v: Seq<ConstInitVal>, i: int)
    requires
        0 <= i < v.len(),
    ensures
        const_trees(v.subrange(0, i + 1)) == const_trees(v.subrange(0, i)).push(const_tree(v[i])),
{
    assert(v.subrange(0, i + 1).drop_last() =~= v.subrange(0, i));
    assert(v.subrange(0, i + 1).last() == v[i]);
}

proof fn lemma_trees_of_push<'a>(v: Seq<InitNode<'a>>, n: InitNode<'a>)
    ensures
        trees_of(v.push(n)) == trees_of(v).push(tree_of(n)),
{
    assert(v.push(n).drop_last() =~= v);
}

/// The initializer tree of a variable's initializer.
pub fn node_of_init<'a>(v: &'a InitVal) -> (r: InitNode<'a>)
    ensures
        tree_of(r) == init_tree(*v),
    decreases v,
{
    match v {
        InitVal::Exp(e) => InitNode::Expr(e),
        InitVal::List(items) => {
            let mut out: Vec<InitNode<'a>> = Vec::new();
            let mut i: usize = 0;
            assert(items@.subrange(0, 0) =~= Seq::<InitVal>::empty());
            while i < items.len()
                invariant
                    i <= items.len(),
                    *v == InitVal::List(*items),
                    trees_of(out@) == init_trees(items@.subrange(0, i as int)),
                decreases items.len() - i,
            {
                let item = &items[i];
                assert(decreases_to!(*v => (*v)->List_0@[i as int]));
                let n = node_of_init(item);
                proof {
                    lemma_trees_of_push(out@, n);
                    lemma_init_trees_prefix(items@, i as int);
                }
                out.push(n);
                i = i + 1;
            }
            assert(items@.subrange(0, i as int) =~= items@);
            InitNode::List(out)
        },
    }
}

/// The initializer tree of a constant's initializer.
pub fn node_of_const_init<'a>(v: &'a ConstInitVal) -> (r: InitNode<'a>)
    ensures
        tree_of(r) == const_tree(*v),
    decreases v,
{
    match v {
        ConstInitVal::Exp(e) => InitNode::Expr(&e.exp),
        ConstInitVal::List(items) => {
            let mut out: Vec<InitNode<'a>> = Vec::new();
            let mut i: usize = 0;
            assert(items@.subrange(0, 0) =~= Seq::<ConstInitVal>::empty());
            while i < items.len()
                invariant
                    i <= items.len(),
                    *v == ConstInitVal::List(*items),
                    trees_of(out@) == const_trees(items@.subrange(0, i as int)),
                decreases items.len() - i,
            {
                let item = &items[i];
                assert(decreases_to!(*v => (*v)->List_0@[i as int]));
                let n = node_of_const_init(item);
                proof {
                    lemma_trees_of_push(out@, n);
                    lemma_const_trees_prefix(items@, i as int);
                }
                out.push(n);
                i = i + 1;
            }
            assert(items@.subrange(0, i as int) =~= items@);
            InitNode::List(out)
        },
    }
}

/// The Koopa text of a constant aggregate of type `t` whose scalars, in
/// row-major order, are `vals`: `{1, 2, 0}` for an array, nested for
/// arrays of arrays.
pub open spec fn agg_text(t: Type, vals: Seq<i32>) -> Seq<char>
    decreases t, 0nat, 0nat,
{
    match t {
        Type::Array(e, n) => "{"@ + agg_items(*e, n as nat, vals) + "}"@,
        _ => dec_int(vals[0] as int),
    }
}

/// The first `k` elements of type `e` taken from `vals`, separated by `, `.
pub open spec fn agg_items(e: Type, k: nat, vals: Seq<i32>) -> Seq<char>
    decreases e, 1nat, k,
{
    let c = spec_count(e);
    if k == 0 {
        Seq::empty()
    } else if k == 1 {
        agg_text(e, vals.subrange(0, c as int))
    } else {
        agg_items(e, (k - 1) as nat, vals) + ", "@ + agg_text(e, vals.subrange((k - 1) * c, (k * c) as int))
    }
}

/// Appends the text of the aggregate of type `ty` held in
/// `values[start..start + count]`.
fn format_value(ty: &Type, values: &Vec<i32>, start: usize, out: &mut String)
    requires
        type_ok(*ty),
        start + spec_count(*ty) <= values@.len(),
    ensures
        final(out)@ == old(out)@ + agg_text(*ty, values@.subrange(start as int, start + spec_count(*ty))),
    decreases ty,
{
    match ty {
        Type::Array(e, n) => {
            proof {
                lemma_elem_count(**e, *n);
            }
            proof { crate::ir::types::lemma_type_ok_fits(**e); }
            let ce = scalar_count(e);
            let ghost total = spec_count(*ty);
            let ghost sub = values@.subrange(start as int, start + total);
            push_str(out, "{");
            let mut j: usize = 0;
            while j < *n
                invariant
                    type_ok(*ty),
                    *ty == Type::Array(*e, *n),
                    type_ok(**e),
                    ce == spec_count(**e),
                    ce * *n == total,
                    start + total <= values@.len(),
                    sub == values@.subrange(start as int, start + total),
                    j <= *n,
                    out@ == old(out)@ + "{"@ + agg_items(**e, j as nat, sub),
                decreases *n - j,
            {
                proof {
                    let jj = j as int;
                    let nn = *n as int;
                    let cc = ce as int;
                    assert((jj + 1) * cc <= nn * cc) by (nonlinear_arith)
                        requires jj + 1 <= nn, 0 <= cc;
                    assert(jj * cc + cc == (jj + 1) * cc) by (nonlinear_arith);
                    assert(0 <= jj * cc) by (nonlinear_arith)
                        requires 0 <= jj, 0 <= cc;
                    assert(cc * nn == nn * cc) by (nonlinear_arith);
                    assert(jj * cc + cc <= total);
                    assert(values@.len() == values.len());
                    assert(start + jj * cc <= usize::MAX);
                    if jj == 0 {
                        assert(jj * cc == 0) by (nonlinear_arith) requires jj == 0;
                    }
                }
                if j > 0 {
                    push_str(out, ", ");
                }
                let at = start + j * ce;
                format_value(e, values, at, out);
                proof {
                    let jj = j as int;
                    let cc = ce as int;
                    assert(sub.subrange(jj * cc, (jj + 1) * cc) =~= values@.subrange(at as int, at + cc));
                    if j == 0 {
                        assert(agg_items(**e, 0, sub) == Seq::<char>::empty());
                        assert(sub.subrange(0, cc) =~= values@.subrange(at as int, at + cc));
                    }
                }
                proof {
                    reveal_strlit(", ");
                    reveal_strlit("{");
                }
                assert(out@ =~= old(out)@ + "{"@ + agg_items(**e, (j + 1) as nat, sub));
                j = j + 1;
            }
            push_str(out, "}");
            assert(out@ =~= old(out)@ + agg_text(*ty, sub));
        },
        _ => {
            push_i64(out, values[start] as i64);
            assert(out@ =~= old(out)@ + agg_text(*ty, values@.subrange(start as int, start + spec_count(*ty))));
        },
    }
}

/// The Koopa text of the constant aggregate of type `ty` with scalars
/// `values`.
/// Only the first `scalar_count(ty)` values are read.
pub fn format_aggregate(ty: &Type, values: &Vec<i32>) -> (s: String)
    requires
        type_ok(*ty),
        values@.len() >= spec_count(*ty),
    ensures
        s@ == agg_text(*ty, values@.subrange(0, spec_count(*ty) as int)),
{
    let mut s = String::new();
    format_value(ty, values, 0, &mut s);
    assert(s@ =~= agg_text(*ty, values@.subrange(0, spec_count(*ty) as int)));
    s
}

} // verus!
