//! The runtime library that every SysY program may call.
use vstd::prelude::*;
use super::IRBuilder;
use super::error::IRBuilderErr;
use super::generate::function::register_step;
use super::context::register;
use super::generate::unit_spec::{lib_signatures, register_sigs};
use super::symbol::Func;
use super::types::Type;

verus! {

/// The Koopa declarations of the runtime library.
pub const LIB_FUNCS: &'static str = "decl @getint(): i32\ndecl @getch(): i32\ndecl @getarray(*i32): i32\ndecl @putint(i32)\ndecl @putch(i32)\ndecl @putarray(i32, *i32)\ndecl @starttime()\ndecl @stoptime()\n";

/// The signature of a library function, defined by the runtime.
fn lib_func(name: &str, params: Vec<Type>, ret: Type) -> (f: Func)
    ensures
        f.identifier@ == name@,
        f.params@ == params@,
        f.ret == ret,
        f.defined,
{
    Func { identifier: String::from_str(name), params, ret, defined: true }
}

fn int_pointer() -> (t: Type)
    ensures
        t == Type::Pointer(Box::new(Type::I32)),
        super::types::type_ok(t),
{
    proof {
        reveal_with_fuel(super::types::type_ok, 2);
    }
    Type::Pointer(Box::new(Type::I32))
}

impl IRBuilder {
    /// Registers one library function as defined.
    fn register_lib(&mut self, name: &str, params: Vec<Type>, ret: Type) -> (r: Result<(), IRBuilderErr>)
        requires
            old(self).context.wf(),
            ret == Type::I32 || ret == Type::Void,
            forall|i: int| 0 <= i < params@.len() ==> super::types::type_ok(#[trigger] params@[i]),
        ensures
            register_step(old(self).context, final(self).context),
            match register(old(self).context.globals.tables()[0], name@, params@, ret, true) {
                Ok(m) => r is Ok && final(self).context.globals.tables() == seq![m],
                Err(e) => r matches Err(y) && y@ == e,
            },
    {
        let f = lib_func(name, params, ret);
        self.context.register_global_func(&f.identifier.clone(), f)
    }

    /// Registers the library functions as defined functions, with the
    /// signatures that `LIB_FUNCS` declares.
    pub fn register_lib_funcs(&mut self) -> (r: Result<(), IRBuilderErr>)
        requires
            old(self).context.wf(),
        ensures
            register_step(old(self).context, final(self).context),
            match register_sigs(old(self).context.globals.tables()[0], lib_signatures(), 0) {
                Ok(m) => r is Ok && final(self).context.globals.tables() == seq![m],
                Err(e) => r matches Err(y) && y@ == e,
            },
    {
        let ghost s = lib_signatures();
        let ghost g0 = self.context.globals.tables()[0];
        let ghost p = Type::Pointer(Box::new(Type::I32));
        assert(s.len() == 8);
        self.register_lib("getint", Vec::new(), Type::I32)?;
        assert(register_sigs(g0, s, 0) == register_sigs(self.context.globals.tables()[0], s, 1));
        let ghost g1 = self.context.globals.tables()[0];
        self.register_lib("getch", Vec::new(), Type::I32)?;
        assert(register_sigs(g1, s, 1) == register_sigs(self.context.globals.tables()[0], s, 2));
        let ghost g2 = self.context.globals.tables()[0];
        let mut params = Vec::new();
        params.push(int_pointer());
        assert(params@ =~= seq![p]);
        self.register_lib("getarray", params, Type::I32)?;
        assert(register_sigs(g2, s, 2) == register_sigs(self.context.globals.tables()[0], s, 3));
        let ghost g3 = self.context.globals.tables()[0];
        let mut params = Vec::new();
        params.push(Type::I32);
        assert(params@ =~= seq![Type::I32]);
        self.register_lib("putint", params, Type::Void)?;
        assert(register_sigs(g3, s, 3) == register_sigs(self.context.globals.tables()[0], s, 4));
        let ghost g4 = self.context.globals.tables()[0];
        let mut params = Vec::new();
        params.push(Type::I32);
        assert(params@ =~= seq![Type::I32]);
        self.register_lib("putch", params, Type::Void)?;
        assert(register_sigs(g4, s, 4) == register_sigs(self.context.globals.tables()[0], s, 5));
        let ghost g5 = self.context.globals.tables()[0];
        let mut params = Vec::new();
        params.push(Type::I32);
        params.push(int_pointer());
        assert(params@ =~= seq![Type::I32, p]);
        assert(super::types::type_ok(params@[0]));
        self.register_lib("putarray", params, Type::Void)?;
        assert(register_sigs(g5, s, 5) == register_sigs(self.context.globals.tables()[0], s, 6));
        let ghost g6 = self.context.globals.tables()[0];
        self.register_lib("starttime", Vec::new(), Type::Void)?;
        assert(register_sigs(g6, s, 6) == register_sigs(self.context.globals.tables()[0], s, 7));
        let ghost g7 = self.context.globals.tables()[0];
        self.register_lib("stoptime", Vec::new(), Type::Void)?;
        assert(register_sigs(g7, s, 7) == register_sigs(self.context.globals.tables()[0], s, 8));
        Ok(())
    }
}

} // verus!
