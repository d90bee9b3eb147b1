//! Assembly text being emitted, with the helpers that keep immediates
//! within the range RISC-V instructions accept.
use vstd::prelude::*;
use crate::lexer::chars_of;
use crate::text::{dec_int, dec_nat, push_char, push_i64, push_str, push_u64};
use super::error::GenerateAsmError;

verus! {

/// A signed 12-bit immediate.
pub open spec fn imm12(v: int) -> bool {
    -2048 <= v <= 2047
}

/// `a` is a prefix of `b`.
pub open spec fn extends(a: Seq<char>, b: Seq<char>) -> bool {
    a.len() <= b.len() && forall|i: int| 0 <= i < a.len() ==> #[trigger] b[i] == a[i]
}

/// The assembly emitted so far and the counter of edge labels.
pub struct AsmContext {
    pub output: String,
    pub edge_label_id: usize,
}

/// `new` continues `old`: text is only appended and the label counter
/// only grows.
pub open spec fn asm_step(old: AsmContext, new: AsmContext) -> bool {
    extends(old.output@, new.output@) && old.edge_label_id <= new.edge_label_id
}

/// The text that sets `sp` to `sp + delta`: one `addi` when `delta` fits in
/// its immediate, else `li t0` then `add`.
pub open spec fn sp_adjust_text(delta: int) -> Seq<char> {
    if imm12(delta) {
        "\taddi sp, sp, "@ + dec_int(delta) + "\n"@
    } else {
        "\tli t0, "@ + dec_int(delta) + "\n"@ + "\tadd sp, sp, t0\n"@
    }
}

/// The text of `op reg, offset(sp)`; an offset beyond the immediate range
/// is added to `sp` in `t3` first.
pub open spec fn stack_access_text(op: Seq<char>, reg: Seq<char>, offset: nat) -> Seq<char> {
    if offset <= 2047 {
        "\t"@ + op + " "@ + reg + ", "@ + dec_nat(offset) + "(sp)\n"@
    } else {
        "\tli t3, "@ + dec_nat(offset) + "\n"@ + "\tadd t3, sp, t3\n"@ + "\t"@ + op + " "@ + reg + ", 0(t3)\n"@
    }
}

/// The text that puts `sp + offset` in `reg`.
pub open spec fn stack_address_text(reg: Seq<char>, offset: nat) -> Seq<char> {
    if offset <= 2047 {
        "\taddi "@ + reg + ", sp, "@ + dec_nat(offset) + "\n"@
    } else {
        "\tli "@ + reg + ", "@ + dec_nat(offset) + "\n"@ + "\tadd "@ + reg + ", sp, "@ + reg + "\n"@
    }
}

/// A Koopa name without its `@` or `%`.
pub open spec fn stripped(s: Seq<char>) -> Result<Seq<char>, ()> {
    if s.len() > 0 && (s[0] == '@' || s[0] == '%') {
        Ok(s.drop_first())
    } else {
        Err(())
    }
}

/// Drops the leading `@` or `%` of a Koopa name.
pub fn strip_prefix(name: &String) -> (r: Result<String, GenerateAsmError>)
    ensures
        match stripped(name@) {
            Ok(s) => r matches Ok(t) && t@ == s,
            Err(_) => r matches Err(GenerateAsmError::Parse),
        },
{
    let chars = chars_of(name.as_str());
    if chars.len() == 0 || (chars[0] != '@' && chars[0] != '%') {
        return Err(GenerateAsmError::Parse);
    }
    let mut out = String::new();
    let mut i: usize = 1;
    while i < chars.len()
        invariant
            1 <= i <= chars@.len(),
            out@ == chars@.subrange(1, i as int),
        decreases chars.len() - i,
    {
        push_char(&mut out, chars[i]);
        assert(out@ =~= chars@.subrange(1, i + 1));
        i = i + 1;
    }
    assert(out@ =~= name@.drop_first());
    Ok(out)
}

impl AsmContext {
    pub fn new() -> (c: AsmContext)
        ensures
            c.output@ == Seq::<char>::empty(),
            c.edge_label_id == 0,
    {
        AsmContext { output: String::new(), edge_label_id: 0 }
    }

    /// Hands out the text emitted so far and starts afresh.
    pub fn take_output(&mut self) -> (s: String)
        ensures
            s@ == old(self).output@,
            final(self).output@ == Seq::<char>::empty(),
            final(self).edge_label_id == old(self).edge_label_id,
    {
        let mut s = String::new();
        std::mem::swap(&mut s, &mut self.output);
        s
    }

    /// Appends a tab-indented instruction line.
    pub fn emit_instruction(&mut self, line: &str)
        ensures
            final(self).output@ == old(self).output@ + "\t"@ + line@ + "\n"@,
            final(self).edge_label_id == old(self).edge_label_id,
            asm_step(*old(self), *final(self)),
    {
        push_str(&mut self.output, "\t");
        push_str(&mut self.output, line);
        push_str(&mut self.output, "\n");
        assert(extends(old(self).output@, self.output@));
    }

    /// Appends an unindented line (a label or a symbol).
    pub fn emit_line(&mut self, line: &str)
        ensures
            final(self).output@ == old(self).output@ + line@ + "\n"@,
            final(self).edge_label_id == old(self).edge_label_id,
            asm_step(*old(self), *final(self)),
    {
        push_str(&mut self.output, line);
        push_str(&mut self.output, "\n");
        assert(extends(old(self).output@, self.output@));
    }

    /// A fresh edge label number.
    pub fn new_edge_label(&mut self) -> (r: Result<usize, GenerateAsmError>)
        ensures
            r matches Ok(n) ==> n == old(self).edge_label_id && final(self).edge_label_id == n + 1,
            r is Err <==> old(self).edge_label_id == usize::MAX,
            r matches Err(e) ==> e matches GenerateAsmError::Unknown,
            final(self).output == old(self).output,
            asm_step(*old(self), *final(self)),
    {
        if self.edge_label_id == usize::MAX {
            return Err(GenerateAsmError::Unknown);
        }
        let n = self.edge_label_id;
        self.edge_label_id = n + 1;
        Ok(n)
    }

    /// Adds `delta` to `sp`. Every `addi` it emits has an immediate in
    /// `[-2048, 2047]`.
    pub fn emit_sp_adjust(&mut self, delta: i64)
        ensures
            final(self).output@ == old(self).output@ + sp_adjust_text(delta as int),
            final(self).edge_label_id == old(self).edge_label_id,
            asm_step(*old(self), *final(self)),
    {
        let mut line = String::new();
        if -2048 <= delta && delta <= 2047 {
            push_str(&mut line, "addi sp, sp, ");
            push_i64(&mut line, delta);
            self.emit_instruction(line.as_str());
        } else {
            push_str(&mut line, "li t0, ");
            push_i64(&mut line, delta);
            self.emit_instruction(line.as_str());
            self.emit_instruction("add sp, sp, t0");
        }
        proof {
            reveal_strlit("addi sp, sp, ");
            reveal_strlit("\taddi sp, sp, ");
            reveal_strlit("li t0, ");
            reveal_strlit("\tli t0, ");
            reveal_strlit("add sp, sp, t0");
            reveal_strlit("\tadd sp, sp, t0\n");
            reveal_strlit("\t");
            reveal_strlit("\n");
        }
        assert(self.output@ =~= old(self).output@ + sp_adjust_text(delta as int));
        assert(extends(old(self).output@, self.output@));
    }

    /// Emits `op reg, offset(sp)` (a load or a store of a word).
    pub fn emit_stack_access(&mut self, op: &str, reg: &str, offset: u64)
        ensures
            final(self).output@ == old(self).output@ + stack_access_text(op@, reg@, offset as nat),
            final(self).edge_label_id == old(self).edge_label_id,
            asm_step(*old(self), *final(self)),
    {
        proof {
            reveal_strlit("\t");
            reveal_strlit("\n");
            reveal_strlit(" ");
            reveal_strlit(", ");
            reveal_strlit("(sp)");
            reveal_strlit("(sp)\n");
            reveal_strlit("li t3, ");
            reveal_strlit("\tli t3, ");
            reveal_strlit("add t3, sp, t3");
            reveal_strlit("\tadd t3, sp, t3\n");
            reveal_strlit(", 0(t3)");
            reveal_strlit(", 0(t3)\n");
        }
        let mut line = String::new();
        if offset <= 2047 {
            push_str(&mut line, op);
            push_str(&mut line, " ");
            push_str(&mut line, reg);
            push_str(&mut line, ", ");
            push_u64(&mut line, offset);
            push_str(&mut line, "(sp)");
            self.emit_instruction(line.as_str());
        } else {
            push_str(&mut line, "li t3, ");
            push_u64(&mut line, offset);
            self.emit_instruction(line.as_str());
            self.emit_instruction("add t3, sp, t3");
            let mut access = String::new();
            push_str(&mut access, op);
            push_str(&mut access, " ");
            push_str(&mut access, reg);
            push_str(&mut access, ", 0(t3)");
            self.emit_instruction(access.as_str());
        }
        assert(self.output@ =~= old(self).output@ + stack_access_text(op@, reg@, offset as nat));
        assert(extends(old(self).output@, self.output@));
    }

    /// Puts the address `sp + offset` in `reg`.
    pub fn emit_stack_address(&mut self, reg: &str, offset: u64)
        ensures
            final(self).output@ == old(self).output@ + stack_address_text(reg@, offset as nat),
            final(self).edge_label_id == old(self).edge_label_id,
            asm_step(*old(self), *final(self)),
    {
        proof {
            reveal_strlit("\t");
            reveal_strlit("\n");
            reveal_strlit("addi ");
            reveal_strlit("\taddi ");
            reveal_strlit(", sp, ");
            reveal_strlit("li ");
            reveal_strlit("\tli ");
            reveal_strlit(", ");
            reveal_strlit("add ");
            reveal_strlit("\tadd ");
        }
        let mut line = String::new();
        if offset <= 2047 {
            push_str(&mut line, "addi ");
            push_str(&mut line, reg);
            push_str(&mut line, ", sp, ");
            push_u64(&mut line, offset);
            self.emit_instruction(line.as_str());
        } else {
            push_str(&mut line, "li ");
            push_str(&mut line, reg);
            push_str(&mut line, ", ");
            push_u64(&mut line, offset);
            self.emit_instruction(line.as_str());
            let mut add = String::new();
            push_str(&mut add, "add ");
            push_str(&mut add, reg);
            push_str(&mut add, ", sp, ");
            push_str(&mut add, reg);
            self.emit_instruction(add.as_str());
        }
        assert(self.output@ =~= old(self).output@ + stack_address_text(reg@, offset as nat));
        assert(extends(old(self).output@, self.output@));
    }
}

} // verus!
