//! Koopa value types used while lowering SysY.
use vstd::prelude::*;
use crate::text::{dec_nat, push_str, push_u64};

verus! {

/// A Koopa type.
#[derive(Debug)]
pub enum Type {
    I32,
    Void,
    Array(Box<Type>, usize),
    Pointer(Box<Type>),
}

/// The Koopa spelling of a type, such as `[[i32, 3], 2]` or `*i32`.
pub open spec fn type_text(t: Type) -> Seq<char>
    decreases t,
{
    match t {
        Type::I32 => "i32"@,
        Type::Void => "void"@,
        Type::Array(e, n) => "["@ + type_text(*e) + ", "@ + dec_nat(n as nat) + "]"@,
        Type::Pointer(e) => "*"@ + type_text(*e),
    }
}

/// Number of `i32` slots in a value of this type (pointers count as one).
pub open spec fn spec_count(t: Type) -> nat
    decreases t,
{
    match t {
        Type::I32 => 1,
        Type::Pointer(_) => 1,
        Type::Void => 0,
        Type::Array(e, n) => spec_count(*e) * (n as nat),
    }
}

/// A type that an object can have: built from `i32`, pointers and arrays of
/// positive length, small enough that its size in bytes fits in `usize`.
pub open spec fn type_ok(t: Type) -> bool
    decreases t,
{
    match t {
        Type::I32 => true,
        Type::Void => false,
        Type::Pointer(e) => type_ok(*e),
        Type::Array(e, n) => n >= 1 && type_ok(*e) && spec_count(t) * 4 <= usize::MAX,
    }
}

pub proof fn lemma_count_ok(t: Type)
    requires
        type_ok(t),
    ensures
        1 <= spec_count(t),
        spec_count(t) * 4 <= usize::MAX,
    decreases t,
{
    match t {
        Type::Array(e, n) => {
            lemma_count_ok(*e);
            assert(spec_count(*e) * n >= 1) by (nonlinear_arith)
                requires spec_count(*e) >= 1, n >= 1;
        },
        _ => {},
    }
}

/// The element count of an array never exceeds the count of the array.
pub proof fn lemma_elem_count(e: Type, n: usize)
    requires
        type_ok(Type::Array(Box::new(e), n)),
    ensures
        type_ok(e),
        spec_count(e) <= spec_count(Type::Array(Box::new(e), n)),
        spec_count(e) * 4 <= usize::MAX,
{
    lemma_count_ok(e);
    assert(spec_count(e) <= spec_count(e) * n) by (nonlinear_arith)
        requires n >= 1, spec_count(e) >= 0;
}

/// The scalar count of the type, and of every array inside it that the
/// count is computed from, fits in `usize`.
pub open spec fn count_fits(t: Type) -> bool
    decreases t,
{
    match t {
        Type::Array(e, n) => count_fits(*e) && spec_count(t) <= usize::MAX,
        _ => true,
    }
}

/// A well-formed type has a count that fits.
pub proof fn lemma_type_ok_fits(t: Type)
    requires
        type_ok(t),
    ensures
        count_fits(t),
    decreases t,
{
    if let Type::Array(e, n) = t {
        lemma_type_ok_fits(*e);
    }
}

/// Number of `i32` slots of a type: one for a scalar or pointer, none for
/// `void`, and the element count times the length for an array.
pub fn scalar_count(ty: &Type) -> (c: usize)
    requires
        count_fits(*ty),
    ensures
        c == spec_count(*ty),
        type_ok(*ty) ==> c >= 1,
    decreases ty,
{
    proof {
        if type_ok(*ty) {
            lemma_count_ok(*ty);
        }
    }
    match ty {
        Type::I32 => 1,
        Type::Pointer(_) => 1,
        Type::Void => 0,
        Type::Array(e, n) => {
            let inner = scalar_count(e);
            inner * *n
        },
    }
}

impl Type {
    /// A copy of this type.
    pub fn duplicate(&self) -> (r: Type)
        ensures
            r == *self,
        decreases self,
    {
        match self {
            Type::I32 => Type::I32,
            Type::Void => Type::Void,
            Type::Array(e, n) => Type::Array(Box::new(e.duplicate()), *n),
            Type::Pointer(e) => Type::Pointer(Box::new(e.duplicate())),
        }
    }

    /// Structural equality of types.
    pub fn same(&self, other: &Type) -> (r: bool)
        ensures
            r == (*self == *other),
        decreases self,
    {
        match (self, other) {
            (Type::I32, Type::I32) => true,
            (Type::Void, Type::Void) => true,
            (Type::Array(a, n), Type::Array(b, m)) => *n == *m && a.same(b),
            (Type::Pointer(a), Type::Pointer(b)) => a.same(b),
            _ => false,
        }
    }

    pub fn is_i32(&self) -> (r: bool)
        ensures
            r == (*self == Type::I32),
    {
        match self {
            Type::I32 => true,
            _ => false,
        }
    }

    /// Appends the Koopa spelling of this type.
    pub fn render_into(&self, out: &mut String)
        ensures
            final(out)@ == old(out)@ + type_text(*self),
        decreases self,
    {
        match self {
            Type::I32 => push_str(out, "i32"),
            Type::Void => push_str(out, "void"),
            Type::Array(e, n) => {
                push_str(out, "[");
                e.render_into(out);
                push_str(out, ", ");
                push_u64(out, *n as u64);
                push_str(out, "]");
            },
            Type::Pointer(e) => {
                push_str(out, "*");
                e.render_into(out);
            },
        }
        assert(final(out)@ =~= old(out)@ + type_text(*self));
    }

    /// The Koopa spelling of this type.
    pub fn render(&self) -> (s: String)
        ensures
            s@ == type_text(*self),
    {
        let mut s = String::new();
        self.render_into(&mut s);
        assert(s@ =~= type_text(*self));
        s
    }
}

} // verus!
