//! Symbols and the scoped symbol table.
use vstd::prelude::*;
use vstd::hash_map::StringHashMap;
use crate::text::{dec_nat, push_str, push_u64};
use super::error::{at_name, at_name_string, ErrView, IRBuilderErr};
use super::types::{spec_count, type_ok, Type};

verus! {

/// The memory location of a named object: `@name` for a global,
/// `@name_id` for a local.
pub struct VariableAddress {
    pub identifier: String,
    pub id: usize,
    pub global: bool,
}

pub open spec fn address_text(a: VariableAddress) -> Seq<char> {
    if a.global {
        "@"@ + a.identifier@
    } else {
        "@"@ + a.identifier@ + "_"@ + dec_nat(a.id as nat)
    }
}

impl VariableAddress {
    pub fn duplicate(&self) -> (r: VariableAddress)
        ensures
            r == *self,
    {
        VariableAddress { identifier: self.identifier.clone(), id: self.id, global: self.global }
    }

    /// Appends the Koopa name of this address.
    pub fn render_into(&self, out: &mut String)
        ensures
            final(out)@ == old(out)@ + address_text(*self),
    {
        push_str(out, "@");
        push_str(out, self.identifier.as_str());
        if !self.global {
            push_str(out, "_");
            push_u64(out, self.id as u64);
        }
        assert(final(out)@ =~= old(out)@ + address_text(*self));
    }
}

/// A named object in memory.
pub struct Object {
    pub address: VariableAddress,
    pub ty: Type,
    pub mutable: bool,
    /// The element values of a constant array.
    pub const_values: Option<Vec<i32>>,
}

/// The signature of a function.
pub struct Func {
    pub identifier: String,
    pub params: Vec<Type>,
    pub ret: Type,
    pub defined: bool,
}

pub enum Symbol {
    Const(i32),
    Object(Object),
    Func(Func),
}

/// A symbol with its strings and vectors seen as sequences.
pub enum SymbolView {
    Const(i32),
    Object { address: VariableAddress, ty: Type, mutable: bool, const_values: Option<Seq<i32>> },
    Func { identifier: Seq<char>, params: Seq<Type>, ret: Type, defined: bool },
}

impl View for Symbol {
    type V = SymbolView;

    open spec fn view(&self) -> SymbolView {
        match self {
            Symbol::Const(v) => SymbolView::Const(*v),
            Symbol::Object(o) => SymbolView::Object {
                address: o.address,
                ty: o.ty,
                mutable: o.mutable,
                const_values: match o.const_values {
                    Some(v) => Some(v@),
                    None => None,
                },
            },
            Symbol::Func(f) => SymbolView::Func {
                identifier: f.identifier@,
                params: f.params@,
                ret: f.ret,
                defined: f.defined,
            },
        }
    }
}

/// A symbol whose types are well formed: objects have object types and
/// constant arrays hold one value per slot; functions return `i32` or
/// nothing and take parameters of object types.
pub open spec fn symbol_ok(s: SymbolView) -> bool {
    match s {
        SymbolView::Const(_) => true,
        SymbolView::Object { ty, const_values, .. } => type_ok(ty) && match const_values {
            Some(v) => v.len() == spec_count(ty),
            None => true,
        },
        SymbolView::Func { params, ret, .. } => (ret == Type::I32 || ret == Type::Void)
            && forall|i: int| 0 <= i < params.len() ==> type_ok(#[trigger] params[i]),
    }
}

pub fn clone_values(v: &Vec<i32>) -> (r: Vec<i32>)
    ensures
        r@ == v@,
{
    let mut r: Vec<i32> = Vec::new();
    let mut i: usize = 0;
    while i < v.len()
        invariant
            i <= v.len(),
            r@ == v@.subrange(0, i as int),
        decreases v.len() - i,
    {
        r.push(v[i]);
        assert(r@ =~= v@.subrange(0, i + 1));
        i = i + 1;
    }
    assert(r@ =~= v@);
    r
}

pub fn clone_types(v: &Vec<Type>) -> (r: Vec<Type>)
    ensures
        r@ == v@,
{
    let mut r: Vec<Type> = Vec::new();
    let mut i: usize = 0;
    while i < v.len()
        invariant
            i <= v.len(),
            r@ == v@.subrange(0, i as int),
        decreases v.len() - i,
    {
        r.push(v[i].duplicate());
        assert(r@ =~= v@.subrange(0, i + 1));
        i = i + 1;
    }
    assert(r@ =~= v@);
    r
}

impl Symbol {
    pub fn duplicate(&self) -> (r: Symbol)
        ensures
            r@ == self@,
    {
        match self {
            Symbol::Const(v) => Symbol::Const(*v),
            Symbol::Object(o) => Symbol::Object(Object {
                address: o.address.duplicate(),
                ty: o.ty.duplicate(),
                mutable: o.mutable,
                const_values: match &o.const_values {
                    Some(v) => Some(clone_values(v)),
                    None => None,
                },
            }),
            Symbol::Func(f) => Symbol::Func(Func {
                identifier: f.identifier.clone(),
                params: clone_types(&f.params),
                ret: f.ret.duplicate(),
                defined: f.defined,
            }),
        }
    }
}

/// Scopes of names, outermost first, each mapping a name to what it
/// denotes.
pub type Tables = Seq<Map<Seq<char>, SymbolView>>;

/// One level of nested names.
pub struct Scope {
    pub table: StringHashMap<Symbol>,
}

/// The symbol of `k` in the innermost of `scopes` that defines it.
pub open spec fn lookup_in(scopes: Tables, k: Seq<char>) -> Option<SymbolView>
    decreases scopes.len(),
{
    if scopes.len() == 0 {
        None
    } else if scopes.last().contains_key(k) {
        Some(scopes.last()[k])
    } else {
        lookup_in(scopes.drop_last(), k)
    }
}

/// Every symbol in these tables is well formed.
pub open spec fn tables_ok(scopes: Tables) -> bool {
    forall|i: int, k: Seq<char>| 0 <= i < scopes.len() && #[trigger] scopes[i].contains_key(k)
        ==> symbol_ok(scopes[i][k])
}

proof fn lemma_lookup_ok(scopes: Tables, k: Seq<char>)
    requires
        tables_ok(scopes),
    ensures
        lookup_in(scopes, k) matches Some(s) ==> symbol_ok(s),
    decreases scopes.len(),
{
    if scopes.len() > 0 && !scopes.last().contains_key(k) {
        assert(tables_ok(scopes.drop_last())) by {
            assert forall|i: int, kk: Seq<char>| 0 <= i < scopes.drop_last().len()
                && #[trigger] scopes.drop_last()[i].contains_key(kk) implies symbol_ok(scopes.drop_last()[i][kk]) by {
                assert(scopes.drop_last()[i] == scopes[i]);
            }
        }
        lemma_lookup_ok(scopes.drop_last(), k);
    } else if scopes.len() > 0 {
        assert(scopes[scopes.len() - 1].contains_key(k));
    }
}

/// Binding a name and then viewing the table is viewing it and then
/// binding the name to the view.
proof fn lemma_insert_view(m: Map<Seq<char>, Symbol>, k: Seq<char>, v: Symbol)
    ensures
        m.insert(k, v).map_values(|s: Symbol| s@) == m.map_values(|s: Symbol| s@).insert(k, v@),
{
    assert(m.insert(k, v).map_values(|s: Symbol| s@) =~= m.map_values(|s: Symbol| s@).insert(k, v@));
}

/// Nested scopes of names, innermost last.
pub struct ScopeStack {
    pub scopes: Vec<Scope>,
}

impl ScopeStack {
    /// The tables, outermost first.
    pub open spec fn tables(&self) -> Tables {
        Seq::new(self.scopes@.len(), |i: int| self.scopes@[i].table@.map_values(|s: Symbol| s@))
    }

    pub open spec fn wf(&self) -> bool {
        tables_ok(self.tables())
    }

    pub fn new() -> (r: ScopeStack)
        ensures
            r.tables() == Tables::empty(),
            r.wf(),
    {
        let r = ScopeStack { scopes: Vec::new() };
        assert(r.tables() =~= Tables::empty());
        r
    }

    pub fn clear(&mut self)
        ensures
            final(self).tables() == Tables::empty(),
            final(self).wf(),
    {
        self.scopes = Vec::new();
        assert(self.tables() =~= Tables::empty());
    }

    pub fn depth(&self) -> (n: usize)
        ensures
            n == self.tables().len(),
    {
        self.scopes.len()
    }

    /// Opens a new innermost scope.
    pub fn push(&mut self)
        requires
            old(self).wf(),
        ensures
            final(self).tables() == old(self).tables().push(Map::empty()),
            final(self).wf(),
    {
        let table = StringHashMap::new();
        assert(table@.map_values(|s: Symbol| s@) =~= Map::empty());
        self.scopes.push(Scope { table });
        assert(self.tables() =~= old(self).tables().push(Map::empty()));
    }

    /// Closes the innermost scope, if any.
    pub fn pop(&mut self)
        requires
            old(self).wf(),
        ensures
            final(self).tables() == (if old(self).tables().len() == 0 { old(self).tables() } else {
                old(self).tables().drop_last()
            }),
            final(self).wf(),
    {
        if self.scopes.len() > 0 {
            let _ = self.scopes.pop();
            assert(self.tables() =~= old(self).tables().drop_last());
        }
    }

    /// Defines `id` in the innermost scope.
    pub fn define(&mut self, id: &String, symbol: Symbol) -> (r: Result<(), IRBuilderErr>)
        requires
            old(self).wf(),
            symbol_ok(symbol@),
        ensures
            final(self).wf(),
            old(self).tables().len() == 0 ==> r == Err::<(), IRBuilderErr>(IRBuilderErr::NoScope)
                && final(self).tables() == old(self).tables(),
            old(self).tables().len() > 0 && old(self).tables().last().contains_key(id@) ==> (r matches Err(e)
                && e@ == ErrView::DuplicateSymbol(at_name(id@)))
                && final(self).tables() == old(self).tables(),
            old(self).tables().len() > 0 && !old(self).tables().last().contains_key(id@) ==> r is Ok
                && final(self).tables() == old(self).tables().drop_last().push(
                old(self).tables().last().insert(id@, symbol@)),
    {
        if self.scopes.len() == 0 {
            return Err(IRBuilderErr::NoScope);
        }
        let mut scope = self.scopes.pop().unwrap();
        if scope.table.contains_key(id.as_str()) {
            self.scopes.push(scope);
            assert(self.tables() =~= old(self).tables());
            return Err(IRBuilderErr::DuplicateSymbol(at_name_string(id)));
        }
        let ghost before = scope.table@;
        let ghost sv = symbol;
        scope.table.insert(id.clone(), symbol);
        proof {
            lemma_insert_view(before, id@, sv);
        }
        self.scopes.push(scope);
        assert(self.tables() =~= old(self).tables().drop_last().push(old(self).tables().last().insert(id@, symbol@)));
        assert(tables_ok(self.tables())) by {
            assert forall|i: int, k: Seq<char>| 0 <= i < self.tables().len() && #[trigger] self.tables()[i].contains_key(k)
                implies symbol_ok(self.tables()[i][k]) by {
                if i < self.tables().len() - 1 {
                    assert(self.tables()[i] == old(self).tables()[i]);
                } else if k != id@ {
                    assert(old(self).tables()[i].contains_key(k));
                }
            }
        }
        Ok(())
    }

    /// The symbol of `id` in the innermost scope that defines it.
    pub fn find(&self, id: &String) -> (r: Option<Symbol>)
        requires
            self.wf(),
        ensures
            match (r, lookup_in(self.tables(), id@)) {
                (Some(a), Some(b)) => a@ == b && symbol_ok(b),
                (None, None) => true,
                _ => false,
            },
    {
        let mut i = self.scopes.len();
        assert(self.tables().subrange(0, i as int) =~= self.tables());
        while i > 0
            invariant
                i <= self.scopes.len(),
                self.wf(),
                lookup_in(self.tables(), id@) == lookup_in(self.tables().subrange(0, i as int), id@),
            decreases i,
        {
            let ghost sub = self.tables().subrange(0, i as int);
            assert(sub.last() == self.scopes@[i - 1].table@.map_values(|s: Symbol| s@));
            assert(sub.drop_last() =~= self.tables().subrange(0, i - 1));
            match self.scopes[i - 1].table.get(id.as_str()) {
                Some(s) => {
                    proof {
                        lemma_lookup_ok(self.tables(), id@);
                    }
                    return Some(s.duplicate());
                },
                None => {},
            }
            i = i - 1;
        }
        assert(self.tables().subrange(0, 0).len() == 0);
        None
    }

    /// Binds `id` to `symbol` in the innermost scope, replacing what it
    /// was bound to there.
    pub fn set(&mut self, id: &String, symbol: Symbol)
        requires
            old(self).wf(),
            old(self).tables().len() > 0,
            symbol_ok(symbol@),
        ensures
            final(self).wf(),
            final(self).tables() == old(self).tables().drop_last().push(old(self).tables().last().insert(id@, symbol@)),
    {
        let mut scope = self.scopes.pop().unwrap();
        let ghost before = scope.table@;
        let ghost sv = symbol;
        scope.table.insert(id.clone(), symbol);
        proof {
            lemma_insert_view(before, id@, sv);
        }
        self.scopes.push(scope);
        assert(self.tables() =~= old(self).tables().drop_last().push(old(self).tables().last().insert(id@, symbol@)));
        assert(tables_ok(self.tables())) by {
            assert forall|i: int, k: Seq<char>| 0 <= i < self.tables().len() && #[trigger] self.tables()[i].contains_key(k)
                implies symbol_ok(self.tables()[i][k]) by {
                if i < self.tables().len() - 1 {
                    assert(self.tables()[i] == old(self).tables()[i]);
                } else if k != id@ {
                    assert(old(self).tables()[i].contains_key(k));
                }
            }
        }
    }
}

} // verus!
