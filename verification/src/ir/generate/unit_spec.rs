//! What lowering functions, global declarations and a whole compilation
//! unit emits.
use vstd::prelude::*;
use crate::ast::{CompUnitItem, ConstDef, Decl, FuncDecl, FuncDeclParamType, FuncDef, FuncParam, FuncType, VarDef};
use crate::text::dec_nat;
use super::super::context::register;
use super::super::error::{at_name, ErrView};
use super::super::lib_func::LIB_FUNCS;
use super::super::symbol::{address_text, SymbolView, Tables, VariableAddress};
use super::super::types::{spec_count, type_text, Type};
use super::declaration::{const_values, global_init_text};
use super::function::ret_type;
use super::initializer::{const_tree, init_tree};
use super::stmt_spec::{define, exit_scopes, lower_block, prepend, St, Step};
use super::{decl_param_type, decl_type, param_type, ControlFlow};

verus! {

/// The types of a definition's parameters, in order.
pub open spec fn param_types(t: Tables, ps: Seq<FuncParam>) -> Result<Seq<Type>, ErrView>
    decreases ps.len(),
{
    if ps.len() == 0 {
        Ok(Seq::empty())
    } else {
        match param_types(t, ps.drop_last()) {
            Err(e) => Err(e),
            Ok(p) => match param_type(t, ps.last().ty) {
                Err(e) => Err(e),
                Ok(x) => Ok(p.push(x)),
            },
        }
    }
}

/// The types of a declaration's parameters, in order.
pub open spec fn decl_param_types(t: Tables, ps: Seq<FuncDeclParamType>) -> Result<Seq<Type>, ErrView>
    decreases ps.len(),
{
    if ps.len() == 0 {
        Ok(Seq::empty())
    } else {
        match decl_param_types(t, ps.drop_last()) {
            Err(e) => Err(e),
            Ok(p) => match decl_param_type(t, ps.last()) {
                Err(e) => Err(e),
                Ok(x) => Ok(p.push(x)),
            },
        }
    }
}

/// A function's signature as a symbol.
pub open spec fn func_symbol(name: Seq<char>, params: Seq<Type>, ret: Type) -> SymbolView {
    SymbolView::Func { identifier: name, params, ret, defined: true }
}

/// The signatures of the runtime library, in the order they are
/// registered.
pub open spec fn lib_signatures() -> Seq<(Seq<char>, Seq<Type>, Type)> {
    let p = Type::Pointer(Box::new(Type::I32));
    seq![
        ("getint"@, seq![], Type::I32),
        ("getch"@, seq![], Type::I32),
        ("getarray"@, seq![p], Type::I32),
        ("putint"@, seq![Type::I32], Type::Void),
        ("putch"@, seq![Type::I32], Type::Void),
        ("putarray"@, seq![Type::I32, p], Type::Void),
        ("starttime"@, seq![], Type::Void),
        ("stoptime"@, seq![], Type::Void),
    ]
}

/// Registers the signatures from position `i` on as defined functions.
pub open spec fn register_sigs(g: Map<Seq<char>, SymbolView>, sigs: Seq<(Seq<char>, Seq<Type>, Type)>, i: nat)
    -> Result<Map<Seq<char>, SymbolView>, ErrView>
    decreases sigs.len() - i,
{
    if i >= sigs.len() {
        Ok(g)
    } else {
        match register(g, sigs[i as int].0, sigs[i as int].1, sigs[i as int].2, true) {
            Err(e) => Err(e),
            Ok(g2) => register_sigs(g2, sigs, i + 1),
        }
    }
}

/// The global scope with the runtime library registered in an empty one.
pub open spec fn lib_globals() -> Map<Seq<char>, SymbolView> {
    let p = Type::Pointer(Box::new(Type::I32));
    Map::empty()
        .insert("getint"@, func_symbol("getint"@, seq![], Type::I32))
        .insert("getch"@, func_symbol("getch"@, seq![], Type::I32))
        .insert("getarray"@, func_symbol("getarray"@, seq![p], Type::I32))
        .insert("putint"@, func_symbol("putint"@, seq![Type::I32], Type::Void))
        .insert("putch"@, func_symbol("putch"@, seq![Type::I32], Type::Void))
        .insert("putarray"@, func_symbol("putarray"@, seq![Type::I32, p], Type::Void))
        .insert("starttime"@, func_symbol("starttime"@, seq![], Type::Void))
        .insert("stoptime"@, func_symbol("stoptime"@, seq![], Type::Void))
}

/// Registering the library in an empty scope gives `lib_globals`.
pub proof fn lemma_lib_globals()
    ensures
        register_sigs(Map::empty(), lib_signatures(), 0) == Ok::<Map<Seq<char>, SymbolView>, ErrView>(lib_globals()),
{
    reveal_strlit("getint");
    reveal_strlit("getch");
    reveal_strlit("getarray");
    reveal_strlit("putint");
    reveal_strlit("putch");
    reveal_strlit("putarray");
    reveal_strlit("starttime");
    reveal_strlit("stoptime");
    let s = lib_signatures();
    let p = Type::Pointer(Box::new(Type::I32));
    assert(s[0] == ("getint"@, Seq::<Type>::empty(), Type::I32));
    assert(s[1] == ("getch"@, Seq::<Type>::empty(), Type::I32));
    assert(s[2] == ("getarray"@, seq![p], Type::I32));
    assert(s[3] == ("putint"@, seq![Type::I32], Type::Void));
    assert(s[4] == ("putch"@, seq![Type::I32], Type::Void));
    assert(s[5] == ("putarray"@, seq![Type::I32, p], Type::Void));
    assert(s[6] == ("starttime"@, Seq::<Type>::empty(), Type::Void));
    assert(s[7] == ("stoptime"@, Seq::<Type>::empty(), Type::Void));
    assert(s.len() == 8);
    assert("putint"@[0] != "getint"@[0]);
    assert("putch"@[0] != "getch"@[0]);
    assert("putarray"@[0] != "getarray"@[0]);
    let g0 = Map::<Seq<char>, SymbolView>::empty();
    let g1 = g0.insert(s[0].0, func_symbol(s[0].0, s[0].1, s[0].2));
    assert(!g0.contains_key(s[0].0));
    assert(register_sigs(g0, s, 0) == register_sigs(g1, s, 1));
    let g2 = g1.insert(s[1].0, func_symbol(s[1].0, s[1].1, s[1].2));
    assert(!g1.contains_key(s[1].0));
    assert(register_sigs(g1, s, 1) == register_sigs(g2, s, 2));
    let g3 = g2.insert(s[2].0, func_symbol(s[2].0, s[2].1, s[2].2));
    assert(!g2.contains_key(s[2].0));
    assert(register_sigs(g2, s, 2) == register_sigs(g3, s, 3));
    let g4 = g3.insert(s[3].0, func_symbol(s[3].0, s[3].1, s[3].2));
    assert(!g3.contains_key(s[3].0));
    assert(register_sigs(g3, s, 3) == register_sigs(g4, s, 4));
    let g5 = g4.insert(s[4].0, func_symbol(s[4].0, s[4].1, s[4].2));
    assert(!g4.contains_key(s[4].0));
    assert(register_sigs(g4, s, 4) == register_sigs(g5, s, 5));
    let g6 = g5.insert(s[5].0, func_symbol(s[5].0, s[5].1, s[5].2));
    assert(!g5.contains_key(s[5].0));
    assert(register_sigs(g5, s, 5) == register_sigs(g6, s, 6));
    let g7 = g6.insert(s[6].0, func_symbol(s[6].0, s[6].1, s[6].2));
    assert(!g6.contains_key(s[6].0));
    assert(register_sigs(g6, s, 6) == register_sigs(g7, s, 7));
    let g8 = g7.insert(s[7].0, func_symbol(s[7].0, s[7].1, s[7].2));
    assert(!g7.contains_key(s[7].0));
    assert(register_sigs(g7, s, 7) == register_sigs(g8, s, 8));
    assert(register_sigs(g8, s, 8) == Ok::<Map<Seq<char>, SymbolView>, ErrView>(g8));
    assert(g8 == lib_globals());
}

/// The parameters of a definition, `()` when it has none.
pub open spec fn def_params(f: FuncDef) -> Seq<FuncParam> {
    match f.params {
        Some(p) => p@,
        None => Seq::empty(),
    }
}

/// The global scope after registering the signatures of the functions
/// defined from position `i` on, in order; function declarations are not
/// read.
pub open spec fn register_items(g: Map<Seq<char>, SymbolView>, items: Seq<CompUnitItem>, i: nat)
    -> Result<Map<Seq<char>, SymbolView>, ErrView>
    decreases items.len() - i,
{
    if i >= items.len() {
        Ok(g)
    } else {
        let r = match items[i as int] {
            CompUnitItem::FuncDef(f) => match param_types(seq![g], def_params(f)) {
                Err(e) => Err(e),
                Ok(ps) => register(g, f.id.id@, ps, ret_type(f.func_type), true),
            },
            _ => Ok(g),
        };
        match r {
            Err(e) => Err(e),
            Ok(g2) => register_items(g2, items, i + 1),
        }
    }
}

/// Types separated by `, `.
pub open spec fn types_text(ts: Seq<Type>) -> Seq<char>
    decreases ts.len(),
{
    if ts.len() == 0 {
        Seq::empty()
    } else if ts.len() == 1 {
        type_text(ts[0])
    } else {
        types_text(ts.drop_last()) + ", "@ + type_text(ts.last())
    }
}

/// `: i32` for an `int` function, nothing for a `void` one.
pub open spec fn ret_suffix(t: FuncType) -> Seq<char> {
    match t {
        FuncType::Int => ": i32"@,
        FuncType::Void => Seq::empty(),
    }
}

/// `decl @f(types): i32`.
pub open spec fn func_decl_text(d: FuncDecl, ts: Seq<Type>) -> Seq<char> {
    "decl @"@ + d.id.id@ + "("@ + types_text(ts) + ")"@ + ret_suffix(d.func_type) + "\n"@
}

/// Defines a global name.
pub open spec fn define_global(s: St, name: Seq<char>, sym: SymbolView) -> Result<St, ErrView> {
    if s.scopes[0].contains_key(name) {
        Err(ErrView::DuplicateSymbol(at_name(name)))
    } else {
        Ok(St { scopes: s.scopes.update(0, s.scopes[0].insert(name, sym)), ..s })
    }
}

/// `global @x = alloc ty, init`.
#[verifier::opaque]
pub open spec fn global_alloc_text(a: VariableAddress, ty: Type, vals: Seq<i32>) -> Seq<char> {
    "global "@ + address_text(a) + " = alloc "@ + type_text(ty) + ", "@ + global_init_text(ty, vals) + "\n"@
}

/// The address `@name` of a global object.
pub open spec fn global_address(name: String) -> VariableAddress {
    VariableAddress { identifier: name, id: 0, global: true }
}

/// A global constant: a scalar is a named value; an array is allocated
/// with its values and named with them.
#[verifier::opaque]
pub open spec fn lower_global_const_def(s: St, d: ConstDef) -> Result<Step, ErrView> {
    match decl_type(s.scopes, d.dimensions@) {
        Err(e) => Err(e),
        Ok(ty) => match const_values(s.scopes, ty, const_tree(d.init)) {
            Err(e) => Err(e),
            Ok(vals) => if ty == Type::I32 {
                match define_global(s, d.id.id@, SymbolView::Const(vals[0])) {
                    Err(e) => Err(e),
                    Ok(s1) => Ok(Step { st: s1, text: Seq::empty() }),
                }
            } else {
                let a = global_address(d.id.id);
                match define_global(s, d.id.id@, SymbolView::Object { address: a, ty, mutable: false, const_values: Some(vals) }) {
                    Err(e) => Err(e),
                    Ok(s1) => Ok(Step { st: s1, text: global_alloc_text(a, ty, vals) }),
                }
            },
        },
    }
}

/// A global variable: allocated with its constant initializer (zero
/// without one) and named.
#[verifier::opaque]
pub open spec fn lower_global_var_def(s: St, d: VarDef) -> Result<Step, ErrView> {
    match decl_type(s.scopes, d.dimensions@) {
        Err(e) => Err(e),
        Ok(ty) => {
            let vals = match d.init {
                None => Ok(Seq::new(spec_count(ty), |i: int| 0i32)),
                Some(i) => const_values(s.scopes, ty, init_tree(i)),
            };
            match vals {
                Err(e) => Err(e),
                Ok(vals) => {
                    let a = global_address(d.id.id);
                    match define_global(s, d.id.id@, SymbolView::Object { address: a, ty, mutable: true, const_values: None }) {
                        Err(e) => Err(e),
                        Ok(s1) => Ok(Step { st: s1, text: global_alloc_text(a, ty, vals) }),
                    }
                },
            }
        },
    }
}

/// Global constants from position `i` on.
pub open spec fn lower_global_const_defs(s: St, defs: Seq<ConstDef>, i: nat) -> Result<Step, ErrView>
    decreases defs.len() - i,
{
    if i >= defs.len() {
        Ok(Step { st: s, text: Seq::empty() })
    } else {
        match lower_global_const_def(s, defs[i as int]) {
            Err(e) => Err(e),
            Ok(a) => prepend(a.text, lower_global_const_defs(a.st, defs, i + 1)),
        }
    }
}

/// Global variables from position `i` on.
pub open spec fn lower_global_var_defs(s: St, defs: Seq<VarDef>, i: nat) -> Result<Step, ErrView>
    decreases defs.len() - i,
{
    if i >= defs.len() {
        Ok(Step { st: s, text: Seq::empty() })
    } else {
        match lower_global_var_def(s, defs[i as int]) {
            Err(e) => Err(e),
            Ok(a) => prepend(a.text, lower_global_var_defs(a.st, defs, i + 1)),
        }
    }
}

/// A global declaration.
pub open spec fn lower_global_decl(s: St, d: Decl) -> Result<Step, ErrView> {
    match d {
        Decl::ConstDecl(c) => lower_global_const_defs(s, c.const_defs@, 0),
        Decl::VarDecl(v) => lower_global_var_defs(s, v.var_defs@, 0),
    }
}

/// The global declarations from position `i` on, and whether there is
/// any.
pub open spec fn lower_globals(s: St, items: Seq<CompUnitItem>, i: nat) -> Result<(Step, bool), ErrView>
    decreases items.len() - i,
{
    if i >= items.len() {
        Ok((Step { st: s, text: Seq::empty() }, false))
    } else {
        match items[i as int] {
            CompUnitItem::Decl(d) => match lower_global_decl(s, d) {
                Err(e) => Err(e),
                Ok(a) => match lower_globals(a.st, items, i + 1) {
                    Err(e) => Err(e),
                    Ok((b, _)) => Ok((Step { st: b.st, text: a.text + b.text }, true)),
                },
            },
            _ => lower_globals(s, items, i + 1),
        }
    }
}

/// A parameter named in the function's scope, with a local object of its
/// type: the state after, the object's address and the type.
#[verifier::opaque]
pub open spec fn param_object(s: St, p: FuncParam) -> Result<(St, (VariableAddress, Type)), ErrView> {
    match param_type(s.scopes, p.ty) {
        Err(e) => Err(e),
        Ok(ty) => if s.var == usize::MAX {
            Err(ErrView::TooManyNames)
        } else {
            let a = VariableAddress { identifier: p.id.id, id: s.var, global: false };
            match define(St { var: (s.var + 1) as usize, ..s }, p.id.id@,
                SymbolView::Object { address: a, ty, mutable: true, const_values: None }) {
                Err(e) => Err(e),
                Ok(s2) => Ok((s2, (a, ty))),
            }
        },
    }
}

/// The parameters from position `i` on, in order.
#[verifier::opaque]
pub open spec fn param_objects(s: St, ps: Seq<FuncParam>, i: nat) -> Result<(St, Seq<(VariableAddress, Type)>), ErrView>
    decreases ps.len() - i,
{
    if i >= ps.len() {
        Ok((s, Seq::empty()))
    } else {
        match param_object(s, ps[i as int]) {
            Err(e) => Err(e),
            Ok((s2, v)) => match param_objects(s2, ps, i + 1) {
                Err(e) => Err(e),
                Ok((s3, rest)) => Ok((s3, seq![v] + rest)),
            },
        }
    }
}

/// `%arg_k: ty`.
pub open spec fn arg_text(k: nat, t: Type) -> Seq<char> {
    "%arg_"@ + dec_nat(k) + ": "@ + type_text(t)
}

/// The parameter list of a function's header.
pub open spec fn args_text(v: Seq<(VariableAddress, Type)>) -> Seq<char>
    decreases v.len(),
{
    if v.len() == 0 {
        Seq::empty()
    } else if v.len() == 1 {
        arg_text(0, v[0].1)
    } else {
        args_text(v.drop_last()) + ", "@ + arg_text((v.len() - 1) as nat, v.last().1)
    }
}

/// The copies of the arguments into the parameters' objects.
pub open spec fn copies_text(v: Seq<(VariableAddress, Type)>) -> Seq<char>
    decreases v.len(),
{
    if v.len() == 0 {
        Seq::empty()
    } else {
        let k = (v.len() - 1) as nat;
        copies_text(v.drop_last()) + "\t"@ + address_text(v.last().0) + " = alloc "@ + type_text(v.last().1) + "\n"@
            + "\t"@ + "store %arg_"@ + dec_nat(k) + ", "@ + address_text(v.last().0) + "\n"@
    }
}

/// `fun @f(%arg_0: t0, ...): i32 {` and the entry block's label.
pub open spec fn func_header(f: FuncDef, vars: Seq<(VariableAddress, Type)>) -> Seq<char> {
    "fun @"@ + f.id.id@ + "("@ + args_text(vars) + ")"@ + ret_suffix(f.func_type) + " {"@ + "\n"@ + "%entry:"@ + "\n"@
}

/// The text of a function once its parameters are named: the header, the
/// copies of the arguments, and the body; an `int` function whose body can
/// fall through its end is an error, a `void` one returns there.
#[verifier::opaque]
pub open spec fn func_body(s: St, f: FuncDef, vars: Seq<(VariableAddress, Type)>) -> Result<Step, ErrView> {
    match lower_block(s, f.block) {
        Err(e) => Err(e),
        Ok(b) => if b.flow == ControlFlow::Continues && f.func_type == FuncType::Int {
            Err(ErrView::MissingFunctionReturn(at_name(f.id.id@)))
        } else {
            Ok(Step {
                st: b.st,
                text: func_header(f, vars) + copies_text(vars) + b.text
                    + if b.flow == ControlFlow::Continues { "\tret"@ + "\n"@ } else { Seq::empty() }
                    + "}"@ + "\n"@,
            })
        },
    }
}

/// A function definition: its parameters are named in a scope of their
/// own and copied to local objects, then the body is lowered; afterwards
/// the scope is closed and no function is current.
#[verifier::opaque]
pub open spec fn lower_func_def(s: St, f: FuncDef) -> Result<Step, ErrView> {
    let s1 = St { scopes: s.scopes.push(Map::empty()), ret: Some(ret_type(f.func_type)), ..s };
    match param_objects(s1, def_params(f), 0) {
        Err(e) => Err(e),
        Ok((s2, vars)) => match func_body(s2, f, vars) {
            Err(e) => Err(e),
            Ok(b) => Ok(Step { st: St { scopes: exit_scopes(b.st.scopes), ret: None, ..b.st }, text: b.text }),
        },
    }
}

/// The state in which a function starts: only the globals are visible,
/// temporaries are numbered from 0, and there is no loop or return type;
/// labels and local objects keep their numbering.
pub open spec fn function_start(s: St) -> St {
    St { scopes: seq![s.scopes[0]], temp: 0, loops: Seq::empty(), ret: None, ..s }
}

/// The function definitions from position `i` on, in order.
pub open spec fn lower_funcs(s: St, items: Seq<CompUnitItem>, i: nat) -> Result<Step, ErrView>
    decreases items.len() - i,
{
    if i >= items.len() {
        Ok(Step { st: s, text: Seq::empty() })
    } else {
        match items[i as int] {
            CompUnitItem::FuncDef(f) => match lower_func_def(function_start(s), f) {
                Err(e) => Err(e),
                Ok(a) => prepend(a.text, lower_funcs(a.st, items, i + 1)),
            },
            _ => lower_funcs(s, items, i + 1),
        }
    }
}

/// The Koopa text of a compilation unit: the library declarations, a
/// blank line, the global objects (then a blank line when there are any),
/// and the functions in order. Every defined function's signature is
/// registered first, so a function may call one that comes later; function
/// declarations are not read.
pub open spec fn lower_unit(items: Seq<CompUnitItem>) -> Result<Seq<char>, ErrView> {
    match register_items(lib_globals(), items, 0) {
        Err(e) => Err(e),
        Ok(g) => {
            let s0 = St { scopes: seq![g], temp: 0, label: 0, var: 0, loops: Seq::empty(), ret: None };
            match lower_globals(s0, items, 0) {
                Err(e) => Err(e),
                Ok((gs, any)) => match lower_funcs(gs.st, items, 0) {
                    Err(e) => Err(e),
                    Ok(fs) => Ok(LIB_FUNCS@ + "\n"@ + gs.text + if any { "\n"@ } else { Seq::empty() } + fs.text),
                },
            }
        },
    }
}

/// An error among the first `n` parameters is the error of the whole
/// list.
pub proof fn lemma_param_types_prefix(t: Tables, ps: Seq<FuncParam>, n: int)
    requires
        0 <= n <= ps.len(),
        param_types(t, ps.subrange(0, n)) is Err,
    ensures
        param_types(t, ps) == param_types(t, ps.subrange(0, n)),
    decreases ps.len() - n,
{
    if n < ps.len() {
        assert(ps.subrange(0, n + 1).drop_last() =~= ps.subrange(0, n));
        lemma_param_types_prefix(t, ps, n + 1);
    } else {
        assert(ps.subrange(0, n) =~= ps);
    }
}

pub proof fn lemma_decl_param_types_prefix(t: Tables, ps: Seq<FuncDeclParamType>, n: int)
    requires
        0 <= n <= ps.len(),
        decl_param_types(t, ps.subrange(0, n)) is Err,
    ensures
        decl_param_types(t, ps) == decl_param_types(t, ps.subrange(0, n)),
    decreases ps.len() - n,
{
    if n < ps.len() {
        assert(ps.subrange(0, n + 1).drop_last() =~= ps.subrange(0, n));
        lemma_decl_param_types_prefix(t, ps, n + 1);
    } else {
        assert(ps.subrange(0, n) =~= ps);
    }
}

} // verus!
