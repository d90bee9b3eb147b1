//! The state of IR generation: emitted text, fresh-name counters, the symbol
//! table, the current function's return type and the enclosing loops.
use vstd::prelude::*;
use crate::text::{dec_int, dec_nat, push_i64, push_str, push_u64};
use super::error::{at_name, at_name_string, ErrView, IRBuilderErr};
use super::symbol::{lookup_in, symbol_ok, Func, ScopeStack, Symbol, SymbolView, Tables};
use super::types::Type;

verus! {

/// A Koopa operand: an integer, a temporary (`%n`) or a named object (`@x`).
pub enum Operand {
    Immediate(i32),
    Temporary(usize),
    Variable(super::symbol::VariableAddress),
}

pub open spec fn operand_text(v: Operand) -> Seq<char> {
    match v {
        Operand::Immediate(i) => dec_int(i as int),
        Operand::Temporary(n) => "%"@ + dec_nat(n as nat),
        Operand::Variable(a) => super::symbol::address_text(a),
    }
}

impl Operand {
    pub fn duplicate(&self) -> (r: Operand)
        ensures
            r == *self,
    {
        match self {
            Operand::Immediate(i) => Operand::Immediate(*i),
            Operand::Temporary(n) => Operand::Temporary(*n),
            Operand::Variable(a) => Operand::Variable(a.duplicate()),
        }
    }

    /// Appends the Koopa spelling of this operand.
    pub fn render_into(&self, out: &mut String)
        ensures
            final(out)@ == old(out)@ + operand_text(*self),
    {
        match self {
            Operand::Immediate(i) => push_i64(out, *i as i64),
            Operand::Temporary(n) => {
                push_str(out, "%");
                push_u64(out, *n as u64);
            },
            Operand::Variable(a) => a.render_into(out),
        }
        assert(final(out)@ =~= old(out)@ + operand_text(*self));
    }
}

/// A basic block label `%L_name_id`.
pub struct Label {
    pub name: &'static str,
    pub id: usize,
}

pub open spec fn label_text(l: Label) -> Seq<char> {
    "%L_"@ + l.name@ + "_"@ + dec_nat(l.id as nat)
}

impl Label {
    pub fn duplicate(&self) -> (r: Label)
        ensures
            r == *self,
    {
        Label { name: self.name, id: self.id }
    }

    pub fn render_into(&self, out: &mut String)
        ensures
            final(out)@ == old(out)@ + label_text(*self),
    {
        push_str(out, "%L_");
        push_str(out, self.name);
        push_str(out, "_");
        push_u64(out, self.id as u64);
        assert(final(out)@ =~= old(out)@ + label_text(*self));
    }
}

/// The jump targets of an enclosing loop.
pub struct LoopFrame {
    pub continue_target: Label,
    pub break_target: Label,
    pub has_break: bool,
}

pub struct IRContext {
    pub output: String,
    pub temp_id: usize,
    pub label_id: usize,
    pub var_id: usize,
    pub globals: ScopeStack,
    pub locals: ScopeStack,
    pub return_type: Option<Type>,
    pub loops: Vec<LoopFrame>,
}

/// Looking a name up in `a + b` finds it in `b` first.
pub proof fn lemma_lookup_concat(a: Tables, b: Tables, k: Seq<char>)
    ensures
        lookup_in(a + b, k) == match lookup_in(b, k) {
            Some(s) => Some(s),
            None => lookup_in(a, k),
        },
    decreases b.len(),
{
    if b.len() == 0 {
        assert(a + b =~= a);
    } else {
        assert((a + b).last() == b.last());
        assert((a + b).drop_last() =~= a + b.drop_last());
        lemma_lookup_concat(a, b.drop_last(), k);
    }
}

impl IRContext {
    /// All visible scopes, outermost (the globals) first.
    pub open spec fn tables(&self) -> Tables {
        self.globals.tables() + self.locals.tables()
    }

    /// The symbol that `k` names here.
    pub open spec fn lookup(&self, k: Seq<char>) -> Option<SymbolView> {
        lookup_in(self.tables(), k)
    }

    pub open spec fn wf(&self) -> bool {
        &&& self.globals.wf()
        &&& self.locals.wf()
        &&& self.globals.tables().len() == 1
        &&& match self.return_type {
            Some(t) => t == Type::I32 || t == Type::Void,
            None => true,
        }
    }

    /// `self` and `other` agree on everything but the text, counters and
    /// loop frames.
    pub open spec fn same_names(&self, other: &IRContext) -> bool {
        &&& self.globals.tables() == other.globals.tables()
        &&& self.locals.tables() == other.locals.tables()
        &&& self.return_type == other.return_type
    }

    /// Counters never go back.
    pub open spec fn counters_le(&self, other: &IRContext) -> bool {
        &&& self.temp_id <= other.temp_id
        &&& self.label_id <= other.label_id
        &&& self.var_id <= other.var_id
    }

    pub fn new() -> (r: IRContext)
        ensures
            r.wf(),
            r.output@ == Seq::<char>::empty(),
            r.tables().len() == 1,
            r.tables()[0] == Map::<Seq<char>, SymbolView>::empty(),
            r.loops@.len() == 0,
            r.locals.tables().len() == 0,
            r.return_type is None,
            r.temp_id == 0 && r.label_id == 0 && r.var_id == 0,
    {
        let mut globals = ScopeStack::new();
        globals.push();
        let r = IRContext {
            output: String::new(),
            temp_id: 0,
            label_id: 0,
            var_id: 0,
            globals,
            locals: ScopeStack::new(),
            return_type: None,
            loops: Vec::new(),
        };
        assert(r.tables() =~= seq![Map::<Seq<char>, SymbolView>::empty()]);
        r
    }

    /// Forgets everything of a previous program.
    pub fn reset_program(&mut self)
        ensures
            final(self).wf(),
            final(self).output@ == Seq::<char>::empty(),
            final(self).tables().len() == 1,
            final(self).tables()[0] == Map::<Seq<char>, SymbolView>::empty(),
            final(self).loops@.len() == 0,
            final(self).locals.tables().len() == 0,
            final(self).return_type is None,
            final(self).temp_id == 0 && final(self).label_id == 0 && final(self).var_id == 0,
    {
        *self = IRContext::new();
    }

    /// Forgets the local names, loops and return type of a previous
    /// function; temporaries are numbered from 0 again.
    pub fn reset_function(&mut self)
        requires
            old(self).wf(),
        ensures
            final(self).wf(),
            final(self).output == old(self).output,
            final(self).globals.tables() == old(self).globals.tables(),
            final(self).locals.tables().len() == 0,
            final(self).temp_id == 0,
            final(self).label_id == old(self).label_id,
            final(self).var_id == old(self).var_id,
            final(self).return_type is None,
            final(self).loops@.len() == 0,
    {
        self.temp_id = 0;
        self.locals.clear();
        self.return_type = None;
        self.loops = Vec::new();
    }

    /// Hands out the text emitted so far and starts afresh.
    pub fn take_output(&mut self) -> (s: String)
        ensures
            s@ == old(self).output@,
            final(self).output@ == Seq::<char>::empty(),
            final(self).same_names(old(self)),
            final(self).counters_le(old(self)) && old(self).counters_le(final(self)),
            final(self).loops@ == old(self).loops@,
    {
        let mut s = String::new();
        std::mem::swap(&mut s, &mut self.output);
        s
    }

    /// A fresh temporary `%n`: numbers are handed out in increasing order.
    pub fn new_temp(&mut self) -> (r: Result<usize, IRBuilderErr>)
        ensures
            match r {
                Ok(t) => t == old(self).temp_id && final(self).temp_id == t + 1,
                Err(e) => e == IRBuilderErr::TooManyNames && final(self).temp_id == old(self).temp_id,
            },
            r is Err <==> old(self).temp_id == usize::MAX,
            final(self).output == old(self).output,
            final(self).label_id == old(self).label_id,
            final(self).var_id == old(self).var_id,
            final(self).same_names(old(self)),
            final(self).loops@ == old(self).loops@,
    {
        if self.temp_id == usize::MAX {
            return Err(IRBuilderErr::TooManyNames);
        }
        let t = self.temp_id;
        self.temp_id = t + 1;
        Ok(t)
    }

    /// A fresh label named after `name`.
    pub fn new_label(&mut self, name: &'static str) -> (r: Result<Label, IRBuilderErr>)
        ensures
            match r {
                Ok(l) => l.name == name && l.id == old(self).label_id && final(self).label_id == l.id + 1,
                Err(e) => e == IRBuilderErr::TooManyNames && final(self).label_id == old(self).label_id,
            },
            r is Err <==> old(self).label_id == usize::MAX,
            final(self).output == old(self).output,
            final(self).temp_id == old(self).temp_id,
            final(self).var_id == old(self).var_id,
            final(self).same_names(old(self)),
            final(self).loops@ == old(self).loops@,
    {
        if self.label_id == usize::MAX {
            return Err(IRBuilderErr::TooManyNames);
        }
        let id = self.label_id;
        self.label_id = id + 1;
        Ok(Label { name, id })
    }

    /// A fresh local address `@name_n` for the identifier `name`.
    pub fn new_variable(&mut self, name: &String) -> (r: Result<super::symbol::VariableAddress, IRBuilderErr>)
        ensures
            match r {
                Ok(a) => a.identifier == *name && !a.global && a.id == old(self).var_id
                    && final(self).var_id == a.id + 1,
                Err(e) => e == IRBuilderErr::TooManyNames && final(self).var_id == old(self).var_id,
            },
            r is Err <==> old(self).var_id == usize::MAX,
            final(self).output == old(self).output,
            final(self).temp_id == old(self).temp_id,
            final(self).label_id == old(self).label_id,
            final(self).same_names(old(self)),
            final(self).loops@ == old(self).loops@,
    {
        if self.var_id == usize::MAX {
            return Err(IRBuilderErr::TooManyNames);
        }
        let id = self.var_id;
        self.var_id = id + 1;
        Ok(super::symbol::VariableAddress { identifier: name.clone(), id, global: false })
    }

    /// The address `@name` of a global object.
    pub fn new_global_variable(&self, name: &String) -> (a: super::symbol::VariableAddress)
        ensures
            a.identifier == *name && a.global && a.id == 0,
    {
        super::symbol::VariableAddress { identifier: name.clone(), id: 0, global: true }
    }

    /// Appends a tab-indented instruction line.
    pub fn emit_instruction(&mut self, line: &str)
        ensures
            final(self).output@ == old(self).output@ + "\t"@ + line@ + "\n"@,
            final(self).temp_id == old(self).temp_id,
            final(self).label_id == old(self).label_id,
            final(self).var_id == old(self).var_id,
            final(self).same_names(old(self)),
            final(self).loops@ == old(self).loops@,
    {
        push_str(&mut self.output, "\t");
        push_str(&mut self.output, line);
        push_str(&mut self.output, "\n");
    }

    /// Appends an unindented line (a label or a declaration).
    pub fn emit_line(&mut self, line: &str)
        ensures
            final(self).output@ == old(self).output@ + line@ + "\n"@,
            final(self).temp_id == old(self).temp_id,
            final(self).label_id == old(self).label_id,
            final(self).var_id == old(self).var_id,
            final(self).same_names(old(self)),
            final(self).loops@ == old(self).loops@,
    {
        push_str(&mut self.output, line);
        push_str(&mut self.output, "\n");
    }

    /// Emits `%t = op lhs, rhs` for a fresh temporary `%t` and returns it.
    pub fn emit_binary(&mut self, op: &str, lhs: &Operand, rhs: &Operand) -> (r: Result<Operand, IRBuilderErr>)
        ensures
            match r {
                Ok(v) => v == Operand::Temporary(old(self).temp_id) && final(self).temp_id == old(self).temp_id + 1
                    && final(self).output@ == old(self).output@ + "\t"@ + operand_text(v) + " = "@ + op@ + " "@
                    + operand_text(*lhs) + ", "@ + operand_text(*rhs) + "\n"@,
                Err(e) => e == IRBuilderErr::TooManyNames && final(self).output == old(self).output
                    && final(self).temp_id == old(self).temp_id,
            },
            r is Err <==> old(self).temp_id == usize::MAX,
            final(self).label_id == old(self).label_id,
            final(self).var_id == old(self).var_id,
            final(self).same_names(old(self)),
            final(self).loops@ == old(self).loops@,
    {
        let t = self.new_temp()?;
        let v = Operand::Temporary(t);
        let mut line = String::new();
        v.render_into(&mut line);
        push_str(&mut line, " = ");
        push_str(&mut line, op);
        push_str(&mut line, " ");
        lhs.render_into(&mut line);
        push_str(&mut line, ", ");
        rhs.render_into(&mut line);
        self.emit_instruction(line.as_str());
        assert(self.output@ =~= old(self).output@ + "\t"@ + operand_text(v) + " = "@ + op@ + " "@
            + operand_text(*lhs) + ", "@ + operand_text(*rhs) + "\n"@);
        Ok(v)
    }

    pub fn enter_scope(&mut self)
        requires
            old(self).wf(),
        ensures
            final(self).wf(),
            final(self).locals.tables() == old(self).locals.tables().push(Map::empty()),
            final(self).globals.tables() == old(self).globals.tables(),
            final(self).return_type == old(self).return_type,
            final(self).output == old(self).output,
            final(self).counters_le(old(self)) && old(self).counters_le(final(self)),
            final(self).loops@ == old(self).loops@,
    {
        self.locals.push();
    }

    pub fn exit_scope(&mut self)
        requires
            old(self).wf(),
        ensures
            final(self).wf(),
            final(self).locals.tables() == (if old(self).locals.tables().len() == 0 {
                old(self).locals.tables()
            } else {
                old(self).locals.tables().drop_last()
            }),
            final(self).globals.tables() == old(self).globals.tables(),
            final(self).return_type == old(self).return_type,
            final(self).output == old(self).output,
            final(self).counters_le(old(self)) && old(self).counters_le(final(self)),
            final(self).loops@ == old(self).loops@,
    {
        self.locals.pop();
    }

    /// Defines a local name in the innermost scope.
    pub fn define_symbol(&mut self, id: &String, symbol: Symbol) -> (r: Result<(), IRBuilderErr>)
        requires
            old(self).wf(),
            symbol_ok(symbol@),
        ensures
            final(self).wf(),
            final(self).globals.tables() == old(self).globals.tables(),
            final(self).return_type == old(self).return_type,
            final(self).output == old(self).output,
            final(self).counters_le(old(self)) && old(self).counters_le(final(self)),
            final(self).loops@ == old(self).loops@,
            final(self).locals.tables().len() == old(self).locals.tables().len(),
            r is Ok ==> final(self).lookup(id@) == Some(symbol@),
            r is Ok ==> old(self).locals.tables().len() > 0 && final(self).locals.tables()
                == old(self).locals.tables().drop_last().push(old(self).locals.tables().last().insert(id@, symbol@)),
            r is Err ==> final(self).locals.tables() == old(self).locals.tables(),
            old(self).locals.tables().len() == 0 ==> r == Err::<(), IRBuilderErr>(IRBuilderErr::NoScope),
            old(self).locals.tables().len() > 0 ==> (r is Err <==> old(self).locals.tables().last().contains_key(id@)),
            old(self).locals.tables().len() > 0 ==> (r matches Err(e) ==> e@ == ErrView::DuplicateSymbol(at_name(id@))),
    {
        let r = self.locals.define(id, symbol);
        proof {
            if r is Ok {
                let ts = self.locals.tables();
                assert(ts.last().contains_key(id@));
                lemma_lookup_concat(self.globals.tables(), ts, id@);
            }
        }
        r
    }

    /// Defines a global name.
    pub fn define_global_symbol(&mut self, id: &String, symbol: Symbol) -> (r: Result<(), IRBuilderErr>)
        requires
            old(self).wf(),
            symbol_ok(symbol@),
        ensures
            final(self).wf(),
            final(self).locals.tables() == old(self).locals.tables(),
            final(self).return_type == old(self).return_type,
            final(self).output == old(self).output,
            final(self).counters_le(old(self)) && old(self).counters_le(final(self)),
            final(self).loops@ == old(self).loops@,
            r is Ok <==> !old(self).globals.tables()[0].contains_key(id@),
            r is Ok ==> final(self).globals.tables()[0] == old(self).globals.tables()[0].insert(id@, symbol@),
            r is Err ==> (r matches Err(e) && e@ == ErrView::DuplicateSymbol(at_name(id@)))
                && final(self).globals.tables() == old(self).globals.tables(),
    {
        self.globals.define(id, symbol)
    }

    /// The symbol that `id` names in the innermost scope defining it.
    pub fn get_symbol(&self, id: &String) -> (r: Result<Symbol, IRBuilderErr>)
        requires
            self.wf(),
        ensures
            match r {
                Ok(s) => self.lookup(id@) == Some(s@) && symbol_ok(s@),
                Err(e) => self.lookup(id@) is None && e@ == ErrView::UndefinedSymbol(at_name(id@)),
            },
    {
        proof {
            lemma_lookup_concat(self.globals.tables(), self.locals.tables(), id@);
        }
        match self.locals.find(id) {
            Some(s) => Ok(s),
            None => match self.globals.find(id) {
                Some(s) => Ok(s),
                None => Err(IRBuilderErr::UndefinedSymbol(at_name_string(id))),
            },
        }
    }

    pub fn set_return_type(&mut self, t: Option<Type>)
        requires
            old(self).wf(),
            match t {
                Some(t) => t == Type::I32 || t == Type::Void,
                None => true,
            },
        ensures
            final(self).wf(),
            final(self).return_type == t,
            final(self).globals.tables() == old(self).globals.tables(),
            final(self).locals.tables() == old(self).locals.tables(),
            final(self).output == old(self).output,
            final(self).counters_le(old(self)) && old(self).counters_le(final(self)),
            final(self).loops@ == old(self).loops@,
    {
        self.return_type = t;
    }

    /// The return type of the function being lowered.
    pub fn current_return_type(&self) -> (r: Result<Type, IRBuilderErr>)
        ensures
            match r {
                Ok(t) => self.return_type == Some(t),
                Err(e) => self.return_type is None && e == IRBuilderErr::NoCurrentFunction,
            },
    {
        match &self.return_type {
            Some(t) => Ok(t.duplicate()),
            None => Err(IRBuilderErr::NoCurrentFunction),
        }
    }

    /// Enters a loop whose `continue` goes to `cont` and `break` to `brk`.
    pub fn push_loop(&mut self, cont: Label, brk: Label)
        ensures
            final(self).loops@ == old(self).loops@.push(LoopFrame { continue_target: cont, break_target: brk, has_break: false }),
            final(self).output == old(self).output,
            final(self).counters_le(old(self)) && old(self).counters_le(final(self)),
            final(self).same_names(old(self)),
    {
        self.loops.push(LoopFrame { continue_target: cont, break_target: brk, has_break: false });
    }

    /// Leaves the innermost loop and returns its frame.
    pub fn pop_loop(&mut self) -> (r: Result<LoopFrame, IRBuilderErr>)
        ensures
            old(self).loops@.len() > 0 ==> r == Ok::<LoopFrame, IRBuilderErr>(old(self).loops@.last())
                && final(self).loops@ == old(self).loops@.drop_last(),
            old(self).loops@.len() == 0 ==> (r matches Err(e) && e@ == ErrView::EmptyLoopStack(Seq::empty()))
                && final(self).loops@ == old(self).loops@,
            final(self).output == old(self).output,
            final(self).counters_le(old(self)) && old(self).counters_le(final(self)),
            final(self).same_names(old(self)),
    {
        match self.loops.pop() {
            Some(f) => Ok(f),
            None => Err(IRBuilderErr::EmptyLoopStack(String::new())),
        }
    }

    /// Where `break` jumps in the innermost loop; records that the loop has
    /// a `break`.
    pub fn break_target(&mut self) -> (r: Result<Label, IRBuilderErr>)
        ensures
            old(self).loops@.len() > 0 ==> r == Ok::<Label, IRBuilderErr>(old(self).loops@.last().break_target)
                && final(self).loops@ == old(self).loops@.drop_last().push(LoopFrame {
                    has_break: true, ..old(self).loops@.last() }),
            old(self).loops@.len() == 0 ==> (r matches Err(e) && e@ == ErrView::EmptyLoopStack("break"@))
                && final(self).loops@ == old(self).loops@,
            final(self).output == old(self).output,
            final(self).counters_le(old(self)) && old(self).counters_le(final(self)),
            final(self).same_names(old(self)),
    {
        match self.loops.pop() {
            Some(f) => {
                let target = f.break_target.duplicate();
                self.loops.push(LoopFrame { continue_target: f.continue_target, break_target: f.break_target, has_break: true });
                Ok(target)
            },
            None => Err(IRBuilderErr::EmptyLoopStack(String::from_str("break"))),
        }
    }

    /// Where `continue` jumps in the innermost loop.
    pub fn continue_target(&self) -> (r: Result<Label, IRBuilderErr>)
        ensures
            self.loops@.len() > 0 ==> r == Ok::<Label, IRBuilderErr>(self.loops@.last().continue_target),
            self.loops@.len() == 0 ==> (r matches Err(e) && e@ == ErrView::EmptyLoopStack("continue"@)),
    {
        let n = self.loops.len();
        if n == 0 {
            return Err(IRBuilderErr::EmptyLoopStack(String::from_str("continue")));
        }
        Ok(self.loops[n - 1].continue_target.duplicate())
    }

    /// The global symbol named `name`.
    pub open spec fn global(&self, name: Seq<char>) -> Option<SymbolView> {
        if self.globals.tables()[0].contains_key(name) {
            Some(self.globals.tables()[0][name])
        } else {
            None
        }
    }

    /// Looks up a global name.
    pub fn get_global(&self, name: &String) -> (r: Option<Symbol>)
        requires
            self.wf(),
        ensures
            match r {
                Some(s) => self.global(name@) == Some(s@) && symbol_ok(s@),
                None => self.global(name@) is None,
            },
    {
        proof {
            let ts = self.globals.tables();
            assert(ts.drop_last().len() == 0);
            assert(lookup_in(ts.drop_last(), name@) is None);
        }
        self.globals.find(name)
    }

    /// Registers a function signature under a global name. A name may be
    /// declared several times with one signature and defined at most once;
    /// a different signature, a second definition, or a name already used
    /// by something else is an error.
    pub fn register_global_func(&mut self, name: &String, func: Func) -> (r: Result<(), IRBuilderErr>)
        requires
            old(self).wf(),
            symbol_ok(Symbol::Func(func)@),
            func.identifier@ == name@,
        ensures
            final(self).wf(),
            final(self).locals.tables() == old(self).locals.tables(),
            final(self).return_type == old(self).return_type,
            final(self).output == old(self).output,
            final(self).counters_le(old(self)) && old(self).counters_le(final(self)),
            final(self).loops@ == old(self).loops@,
            match old(self).global(name@) {
                None => r is Ok && final(self).global(name@) == Some(Symbol::Func(func)@),
                Some(SymbolView::Func { identifier, params, ret, defined }) => if params == func.params@ && ret == func.ret {
                    if defined && func.defined {
                        r matches Err(e) && e@ == ErrView::DuplicateSymbol(at_name(name@))
                    } else {
                        r is Ok && final(self).global(name@) == Some(SymbolView::Func {
                            identifier, params, ret, defined: defined || func.defined })
                    }
                } else {
                    r matches Err(e) && e@ == ErrView::ConflictingFunctionDeclaration(at_name(name@))
                },
                Some(_) => r matches Err(e) && e@ == ErrView::DuplicateSymbol(at_name(name@)),
            },
            r is Ok ==> forall|k: Seq<char>| k != name@ ==> #[trigger] final(self).global(k) == old(self).global(k),
            r is Err ==> final(self).globals.tables() == old(self).globals.tables(),
            match register(old(self).globals.tables()[0], name@, func.params@, func.ret, func.defined) {
                Ok(m) => r is Ok && final(self).globals.tables() == seq![m],
                Err(e) => r matches Err(y) && y@ == e,
            },
    {
        match self.get_global(name) {
            None => {
                let ghost fv = Symbol::Func(func)@;
                self.globals.set(name, Symbol::Func(func));
                assert(self.globals.tables() =~= seq![old(self).globals.tables()[0].insert(name@, fv)]);
                Ok(())
            },
            Some(Symbol::Func(existing)) => {
                if !same_types(&existing.params, &func.params) || !existing.ret.same(&func.ret) {
                    return Err(IRBuilderErr::ConflictingFunctionDeclaration(at_name_string(name)));
                }
                if existing.defined && func.defined {
                    return Err(IRBuilderErr::DuplicateSymbol(at_name_string(name)));
                }
                let merged = Func {
                    identifier: existing.identifier,
                    params: existing.params,
                    ret: existing.ret,
                    defined: existing.defined || func.defined,
                };
                let ghost fv = Symbol::Func(merged)@;
                self.globals.set(name, Symbol::Func(merged));
                assert(self.globals.tables() =~= seq![old(self).globals.tables()[0].insert(name@, fv)]);
                Ok(())
            },
            Some(_) => Err(IRBuilderErr::DuplicateSymbol(at_name_string(name))),
        }
    }
}

/// The global scope `g` after registering a function signature under
/// `name`: a new name is bound to it; a name already bound to a function
/// with the same parameters and return type is kept, and marked defined
/// if either is; another signature, a second definition, or a name bound
/// to something else is an error.
pub open spec fn register(g: Map<Seq<char>, SymbolView>, name: Seq<char>, params: Seq<Type>, ret: Type, defined: bool)
    -> Result<Map<Seq<char>, SymbolView>, ErrView>
{
    if !g.contains_key(name) {
        Ok(g.insert(name, SymbolView::Func { identifier: name, params, ret, defined }))
    } else {
        match g[name] {
            SymbolView::Func { identifier, params: p0, ret: r0, defined: d0 } => if p0 == params && r0 == ret {
                if d0 && defined {
                    Err(ErrView::DuplicateSymbol(at_name(name)))
                } else {
                    Ok(g.insert(name, SymbolView::Func { identifier, params: p0, ret: r0, defined: d0 || defined }))
                }
            } else {
                Err(ErrView::ConflictingFunctionDeclaration(at_name(name)))
            },
            _ => Err(ErrView::DuplicateSymbol(at_name(name))),
        }
    }
}

/// Element-wise equality of two lists of types.
pub fn same_types(a: &Vec<Type>, b: &Vec<Type>) -> (r: bool)
    ensures
        r == (a@ == b@),
{
    if a.len() != b.len() {
        return false;
    }
    let mut i: usize = 0;
    while i < a.len()
        invariant
            i <= a.len(),
            a.len() == b.len(),
            forall|j: int| 0 <= j < i ==> a@[j] == b@[j],
        decreases a.len() - i,
    {
        if !a[i].same(&b[i]) {
            return false;
        }
        i = i + 1;
    }
    assert(a@ =~= b@);
    true
}

} // verus!
