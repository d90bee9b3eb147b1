//! Emission of single Koopa instructions and labels.
use vstd::prelude::*;
use crate::text::push_str;
use super::context::{label_text, operand_text, IRContext, Label, Operand};
use super::symbol::{address_text, VariableAddress};
use super::types::{type_text, Type};
use super::error::IRBuilderErr;

verus! {

/// `a` is a prefix of `b`.
pub open spec fn prefix(a: Seq<char>, b: Seq<char>) -> bool {
    a.len() <= b.len() && forall|i: int| 0 <= i < a.len() ==> #[trigger] b[i] == a[i]
}

/// `L:` on a line of its own.
pub open spec fn label_line(l: Label) -> Seq<char> {
    label_text(l) + ":\n"@
}

/// `jump L`.
pub open spec fn jump_text(l: Label) -> Seq<char> {
    "\tjump "@ + label_text(l) + "\n"@
}

/// `jump L(v)`.
pub open spec fn jump_arg_text(l: Label, v: Operand) -> Seq<char> {
    "\tjump "@ + label_text(l) + "("@ + operand_text(v) + ")\n"@
}

/// `br v, T, F`.
pub open spec fn br_text(v: Operand, t: Label, f: Label) -> Seq<char> {
    "\tbr "@ + operand_text(v) + ", "@ + label_text(t) + ", "@ + label_text(f) + "\n"@
}

/// `store v, addr`.
pub open spec fn store_text(v: Operand, addr: Operand) -> Seq<char> {
    "\tstore "@ + operand_text(v) + ", "@ + operand_text(addr) + "\n"@
}

/// `%t = op a, b`.
pub open spec fn inst_text(t: usize, op: Seq<char>, a: Operand, b: Operand) -> Seq<char> {
    "\t"@ + operand_text(Operand::Temporary(t)) + " = "@ + op + " "@ + operand_text(a) + ", "@ + operand_text(b) + "\n"@
}

/// `%t = load addr`.
pub open spec fn load_text(t: usize, addr: Operand) -> Seq<char> {
    "\t"@ + operand_text(Operand::Temporary(t)) + " = load "@ + operand_text(addr) + "\n"@
}

/// `L(%t: i32):`, the label of a block with one parameter.
pub open spec fn param_label_text(l: Label, t: usize) -> Seq<char> {
    label_text(l) + "("@ + operand_text(Operand::Temporary(t)) + ": i32):"@ + "\n"@
}

/// `new` continues `old` while lowering an expression: text is only
/// appended, counters only grow, and names, scopes, the return type and
/// the loop stack are untouched.
pub open spec fn expr_step(old: IRContext, new: IRContext) -> bool {
    &&& new.wf()
    &&& new.same_names(&old)
    &&& old.counters_le(&new)
    &&& new.var_id == old.var_id
    &&& prefix(old.output@, new.output@)
    &&& new.loops@ == old.loops@
}

pub proof fn lemma_prefix_trans(a: Seq<char>, b: Seq<char>, c: Seq<char>)
    requires
        prefix(a, b),
        prefix(b, c),
    ensures
        prefix(a, c),
{
    assert forall|i: int| 0 <= i < a.len() implies #[trigger] c[i] == a[i] by {
        assert(c[i] == b[i]);
    }
}

pub proof fn lemma_prefix_refl(a: Seq<char>)
    ensures
        prefix(a, a),
{
}

impl IRContext {
    /// Emits the label line `%L_x_n:`.
    pub fn emit_label(&mut self, l: &Label)
        requires
            old(self).wf(),
        ensures
            final(self).output@ == old(self).output@ + label_line(*l),
            expr_step(*old(self), *final(self)),
            final(self).temp_id == old(self).temp_id,
            final(self).label_id == old(self).label_id,
    {
        proof {
            reveal_strlit(":");
            reveal_strlit(":\n");
            reveal_strlit("\n");
            reveal_strlit("\t");
            reveal_strlit("jump ");
            reveal_strlit("\tjump ");
            reveal_strlit("(");
            reveal_strlit(")");
            reveal_strlit(")\n");
            reveal_strlit("br ");
            reveal_strlit("\tbr ");
            reveal_strlit(", ");
            reveal_strlit("store ");
            reveal_strlit("\tstore ");
            reveal_strlit(" = load ");
            reveal_strlit(" = ");
            reveal_strlit(" ");
        }
        let mut line = String::new();
        l.render_into(&mut line);
        push_str(&mut line, ":");
        self.emit_line(line.as_str());
        assert(self.output@ =~= old(self).output@ + label_text(*l) + ":\n"@);
        assert(prefix(old(self).output@, self.output@));
    }

    /// Emits `jump L`.
    pub fn emit_jump(&mut self, l: &Label)
        requires
            old(self).wf(),
        ensures
            final(self).output@ == old(self).output@ + jump_text(*l),
            expr_step(*old(self), *final(self)),
            final(self).temp_id == old(self).temp_id,
            final(self).label_id == old(self).label_id,
    {
        proof {
            reveal_strlit(":");
            reveal_strlit(":\n");
            reveal_strlit("\n");
            reveal_strlit("\t");
            reveal_strlit("jump ");
            reveal_strlit("\tjump ");
            reveal_strlit("(");
            reveal_strlit(")");
            reveal_strlit(")\n");
            reveal_strlit("br ");
            reveal_strlit("\tbr ");
            reveal_strlit(", ");
            reveal_strlit("store ");
            reveal_strlit("\tstore ");
            reveal_strlit(" = load ");
            reveal_strlit(" = ");
            reveal_strlit(" ");
        }
        let mut line = String::from_str("jump ");
        l.render_into(&mut line);
        self.emit_instruction(line.as_str());
        assert(self.output@ =~= old(self).output@ + "\tjump "@ + label_text(*l) + "\n"@);
        assert(prefix(old(self).output@, self.output@));
    }

    /// Emits `jump L(v)`, passing `v` to the block parameter of `L`.
    pub fn emit_jump_arg(&mut self, l: &Label, v: &Operand)
        requires
            old(self).wf(),
        ensures
            final(self).output@ == old(self).output@ + jump_arg_text(*l, *v),
            expr_step(*old(self), *final(self)),
            final(self).temp_id == old(self).temp_id,
            final(self).label_id == old(self).label_id,
    {
        proof {
            reveal_strlit(":");
            reveal_strlit(":\n");
            reveal_strlit("\n");
            reveal_strlit("\t");
            reveal_strlit("jump ");
            reveal_strlit("\tjump ");
            reveal_strlit("(");
            reveal_strlit(")");
            reveal_strlit(")\n");
            reveal_strlit("br ");
            reveal_strlit("\tbr ");
            reveal_strlit(", ");
            reveal_strlit("store ");
            reveal_strlit("\tstore ");
            reveal_strlit(" = load ");
            reveal_strlit(" = ");
            reveal_strlit(" ");
        }
        let mut line = String::from_str("jump ");
        l.render_into(&mut line);
        push_str(&mut line, "(");
        v.render_into(&mut line);
        push_str(&mut line, ")");
        self.emit_instruction(line.as_str());
        assert(self.output@ =~= old(self).output@ + "\tjump "@ + label_text(*l) + "("@ + operand_text(*v) + ")\n"@);
        assert(prefix(old(self).output@, self.output@));
    }

    /// Emits `br v, T, F`.
    pub fn emit_br(&mut self, v: &Operand, t: &Label, f: &Label)
        requires
            old(self).wf(),
        ensures
            final(self).output@ == old(self).output@ + br_text(*v, *t, *f),
            expr_step(*old(self), *final(self)),
            final(self).temp_id == old(self).temp_id,
            final(self).label_id == old(self).label_id,
    {
        proof {
            reveal_strlit(":");
            reveal_strlit(":\n");
            reveal_strlit("\n");
            reveal_strlit("\t");
            reveal_strlit("jump ");
            reveal_strlit("\tjump ");
            reveal_strlit("(");
            reveal_strlit(")");
            reveal_strlit(")\n");
            reveal_strlit("br ");
            reveal_strlit("\tbr ");
            reveal_strlit(", ");
            reveal_strlit("store ");
            reveal_strlit("\tstore ");
            reveal_strlit(" = load ");
            reveal_strlit(" = ");
            reveal_strlit(" ");
        }
        let mut line = String::from_str("br ");
        v.render_into(&mut line);
        push_str(&mut line, ", ");
        t.render_into(&mut line);
        push_str(&mut line, ", ");
        f.render_into(&mut line);
        self.emit_instruction(line.as_str());
        assert(self.output@ =~= old(self).output@ + "\tbr "@ + operand_text(*v) + ", "@ + label_text(*t) + ", "@
            + label_text(*f) + "\n"@);
        assert(prefix(old(self).output@, self.output@));
    }

    /// Emits `store v, addr`.
    pub fn emit_store(&mut self, v: &Operand, addr: &Operand)
        requires
            old(self).wf(),
        ensures
            final(self).output@ == old(self).output@ + store_text(*v, *addr),
            expr_step(*old(self), *final(self)),
            final(self).temp_id == old(self).temp_id,
            final(self).label_id == old(self).label_id,
    {
        proof {
            reveal_strlit(":");
            reveal_strlit(":\n");
            reveal_strlit("\n");
            reveal_strlit("\t");
            reveal_strlit("jump ");
            reveal_strlit("\tjump ");
            reveal_strlit("(");
            reveal_strlit(")");
            reveal_strlit(")\n");
            reveal_strlit("br ");
            reveal_strlit("\tbr ");
            reveal_strlit(", ");
            reveal_strlit("store ");
            reveal_strlit("\tstore ");
            reveal_strlit(" = load ");
            reveal_strlit(" = ");
            reveal_strlit(" ");
        }
        let mut line = String::from_str("store ");
        v.render_into(&mut line);
        push_str(&mut line, ", ");
        addr.render_into(&mut line);
        self.emit_instruction(line.as_str());
        assert(self.output@ =~= old(self).output@ + "\tstore "@ + operand_text(*v) + ", "@ + operand_text(*addr) + "\n"@);
        assert(prefix(old(self).output@, self.output@));
    }

    /// Emits `%t = load addr` for a fresh `%t`.
    pub fn emit_load(&mut self, addr: &Operand) -> (r: Result<Operand, IRBuilderErr>)
        requires
            old(self).wf(),
        ensures
            expr_step(*old(self), *final(self)),
            old(self).temp_id < usize::MAX ==> r == Ok::<Operand, IRBuilderErr>(Operand::Temporary(old(self).temp_id))
                && final(self).output@ == old(self).output@ + load_text(old(self).temp_id, *addr)
                && final(self).temp_id == old(self).temp_id + 1,
            old(self).temp_id == usize::MAX ==> r == Err::<Operand, IRBuilderErr>(IRBuilderErr::TooManyNames)
                && final(self).output == old(self).output && final(self).temp_id == old(self).temp_id,
            final(self).label_id == old(self).label_id,
    {
        proof {
            reveal_strlit(":");
            reveal_strlit(":\n");
            reveal_strlit("\n");
            reveal_strlit("\t");
            reveal_strlit("jump ");
            reveal_strlit("\tjump ");
            reveal_strlit("(");
            reveal_strlit(")");
            reveal_strlit(")\n");
            reveal_strlit("br ");
            reveal_strlit("\tbr ");
            reveal_strlit(", ");
            reveal_strlit("store ");
            reveal_strlit("\tstore ");
            reveal_strlit(" = load ");
            reveal_strlit(" = ");
            reveal_strlit(" ");
        }
        let t = match self.new_temp() {
            Ok(t) => t,
            Err(e) => {
                proof {
                    lemma_prefix_refl(self.output@);
                }
                return Err(e);
            },
        };
        let v = Operand::Temporary(t);
        let mut line = String::new();
        v.render_into(&mut line);
        push_str(&mut line, " = load ");
        addr.render_into(&mut line);
        let ghost mid = self.output@;
        self.emit_instruction(line.as_str());
        assert(self.output@ =~= old(self).output@ + "\t"@ + operand_text(v) + " = load "@ + operand_text(*addr) + "\n"@);
        assert(prefix(old(self).output@, self.output@));
        Ok(v)
    }

    /// Emits `%t = op base, index` for a fresh `%t`, where `op` is
    /// `getptr` or `getelemptr`.
    pub fn emit_pointer_op(&mut self, op: &str, base: &Operand, index: &Operand) -> (r: Result<Operand, IRBuilderErr>)
        requires
            old(self).wf(),
        ensures
            expr_step(*old(self), *final(self)),
            old(self).temp_id < usize::MAX ==> r == Ok::<Operand, IRBuilderErr>(Operand::Temporary(old(self).temp_id))
                && final(self).output@ == old(self).output@ + inst_text(old(self).temp_id, op@, *base, *index)
                && final(self).temp_id == old(self).temp_id + 1,
            old(self).temp_id == usize::MAX ==> r == Err::<Operand, IRBuilderErr>(IRBuilderErr::TooManyNames)
                && final(self).output == old(self).output && final(self).temp_id == old(self).temp_id,
            final(self).label_id == old(self).label_id,
    {
        proof {
            reveal_strlit(":");
            reveal_strlit(":\n");
            reveal_strlit("\n");
            reveal_strlit("\t");
            reveal_strlit("jump ");
            reveal_strlit("\tjump ");
            reveal_strlit("(");
            reveal_strlit(")");
            reveal_strlit(")\n");
            reveal_strlit("br ");
            reveal_strlit("\tbr ");
            reveal_strlit(", ");
            reveal_strlit("store ");
            reveal_strlit("\tstore ");
            reveal_strlit(" = load ");
            reveal_strlit(" = ");
            reveal_strlit(" ");
        }
        let r = self.emit_binary(op, base, index);
        proof {
            lemma_prefix_refl(self.output@);
            if r is Ok {
                let v = r->Ok_0;
                assert(prefix(old(self).output@, self.output@));
                    assert(self.output@ =~= old(self).output@ + ("\t"@ + operand_text(v) + " = "@ + op@ + " "@
                    + operand_text(*base) + ", "@ + operand_text(*index) + "\n"@));
            }
        }
        r
    }

    /// Emits `%t = op lhs, rhs` for the temporary `%t` given.
    pub fn emit_assign(&mut self, t: usize, op: &str, lhs: &Operand, rhs: &Operand)
        requires
            old(self).wf(),
        ensures
            final(self).output@ == old(self).output@ + inst_text(t, op@, *lhs, *rhs),
            expr_step(*old(self), *final(self)),
            final(self).temp_id == old(self).temp_id,
            final(self).label_id == old(self).label_id,
    {
        let v = Operand::Temporary(t);
        let mut line = String::new();
        v.render_into(&mut line);
        push_str(&mut line, " = ");
        push_str(&mut line, op);
        push_str(&mut line, " ");
        lhs.render_into(&mut line);
        push_str(&mut line, ", ");
        rhs.render_into(&mut line);
        self.emit_instruction(line.as_str());
        assert(self.output@ =~= old(self).output@ + "\t"@ + operand_text(v) + " = "@ + op@ + " "@
            + operand_text(*lhs) + ", "@ + operand_text(*rhs) + "\n"@);
        assert(prefix(old(self).output@, self.output@));
    }

    /// Emits the label line `%L_x_n(%t: i32):` of a block with one
    /// parameter.
    pub fn emit_param_label(&mut self, l: &Label, t: usize)
        requires
            old(self).wf(),
        ensures
            final(self).output@ == old(self).output@ + param_label_text(*l, t),
            expr_step(*old(self), *final(self)),
            final(self).temp_id == old(self).temp_id,
            final(self).label_id == old(self).label_id,
    {
        let mut line = String::new();
        l.render_into(&mut line);
        push_str(&mut line, "(");
        Operand::Temporary(t).render_into(&mut line);
        push_str(&mut line, ": i32):");
        self.emit_line(line.as_str());
        assert(self.output@ =~= old(self).output@ + label_text(*l) + "("@ + operand_text(Operand::Temporary(t))
            + ": i32):"@ + "\n"@);
        assert(prefix(old(self).output@, self.output@));
    }

    /// Emits `ret v`, or `ret` when there is no value.
    pub fn emit_ret(&mut self, v: Option<&Operand>)
        requires
            old(self).wf(),
        ensures
            final(self).output@ == old(self).output@ + match v {
                Some(v) => "\tret "@ + operand_text(*v) + "\n"@,
                None => "\tret"@ + "\n"@,
            },
            expr_step(*old(self), *final(self)),
            final(self).temp_id == old(self).temp_id,
            final(self).label_id == old(self).label_id,
    {
        proof {
            reveal_strlit("ret");
            reveal_strlit("ret ");
            reveal_strlit("\t");
            reveal_strlit("\n");
            reveal_strlit("\tret ");
            reveal_strlit("\tret");
            reveal_strlit(" ");
        }
        let mut line = String::from_str("ret");
        match v {
            Some(v) => {
                push_str(&mut line, " ");
                v.render_into(&mut line);
                assert(line@ =~= "ret "@ + operand_text(*v));
            },
            None => {},
        }
        self.emit_instruction(line.as_str());
        assert(self.output@ =~= old(self).output@ + match v {
            Some(v) => "\tret "@ + operand_text(*v) + "\n"@,
            None => "\tret"@ + "\n"@,
        });
        assert(prefix(old(self).output@, self.output@));
    }

    /// Emits `@x_n = alloc ty` for a local object.
    pub fn emit_alloc(&mut self, a: &VariableAddress, ty: &Type)
        requires
            old(self).wf(),
        ensures
            final(self).output@ == old(self).output@ + "\t"@ + address_text(*a) + " = alloc "@ + type_text(*ty) + "\n"@,
            expr_step(*old(self), *final(self)),
            final(self).temp_id == old(self).temp_id,
            final(self).label_id == old(self).label_id,
    {
        let mut line = String::new();
        a.render_into(&mut line);
        push_str(&mut line, " = alloc ");
        ty.render_into(&mut line);
        self.emit_instruction(line.as_str());
        assert(self.output@ =~= old(self).output@ + "\t"@ + address_text(*a) + " = alloc "@ + type_text(*ty) + "\n"@);
        assert(prefix(old(self).output@, self.output@));
    }
}

} // verus!
