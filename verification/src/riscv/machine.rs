//! What the RISC-V instructions that the generator emits for Koopa
//! operations do to the registers, read from their text.
use vstd::prelude::*;
use crate::ast::{koopa_arith, koopa_compare};
use super::asm_spec::{asm_block_label, asm_branch, asm_load, binary_text, inst};
use super::frame::FrameView;
use super::program::{FunctionModel, ValueRef};

verus! {

/// An instruction with a destination and one or two source registers.
pub enum RvInst {
    /// `m d, a, b`
    Reg3(Seq<char>, Seq<char>, Seq<char>, Seq<char>),
    /// `m d, a`
    Reg2(Seq<char>, Seq<char>, Seq<char>),
}

/// The line of assembly text of an instruction.
pub open spec fn rv_text(i: RvInst) -> Seq<char> {
    match i {
        RvInst::Reg3(m, d, a, b) => inst(m + " "@ + d + ", "@ + a + ", "@ + b),
        RvInst::Reg2(m, d, a) => inst(m + " "@ + d + ", "@ + a),
    }
}

/// The text of a sequence of instructions.
pub open spec fn rv_texts(p: Seq<RvInst>) -> Seq<char>
    decreases p.len(),
{
    if p.len() == 0 {
        Seq::empty()
    } else {
        rv_texts(p.drop_last()) + rv_text(p.last())
    }
}

/// One instruction on 32-bit registers, as the RISC-V manual defines it
/// (`slt` compares as signed integers, `seqz` and `snez` test for zero,
/// `add`, `sub` and `mul` wrap, `div` and `rem` round toward zero and give
/// -1 and the dividend for a zero divisor);
/// `None` for a register that holds nothing or an instruction not listed.
pub open spec fn rv_step(regs: Map<Seq<char>, i32>, i: RvInst) -> Option<Map<Seq<char>, i32>> {
    match i {
        RvInst::Reg3(m, d, a, b) => if regs.contains_key(a) && regs.contains_key(b) {
            let x = regs[a];
            let y = regs[b];
            if m == "slt"@ {
                Some(regs.insert(d, if x < y { 1i32 } else { 0i32 }))
            } else if m == "xor"@ {
                Some(regs.insert(d, x ^ y))
            } else if m == "add"@ {
                Some(regs.insert(d, x.wrapping_add(y)))
            } else if m == "sub"@ {
                Some(regs.insert(d, x.wrapping_sub(y)))
            } else if m == "mul"@ {
                Some(regs.insert(d, x.wrapping_mul(y)))
            } else if m == "div"@ {
                Some(regs.insert(d, match x.checked_div(y) {
                    Some(q) => q,
                    None => if y == 0 { -1i32 } else { i32::MIN },
                }))
            } else if m == "rem"@ {
                Some(regs.insert(d, match x.checked_rem(y) {
                    Some(q) => q,
                    None => if y == 0 { x } else { 0i32 },
                }))
            } else if m == "and"@ {
                Some(regs.insert(d, x & y))
            } else if m == "or"@ {
                Some(regs.insert(d, x | y))
            } else {
                None
            }
        } else {
            None
        },
        RvInst::Reg2(m, d, a) => if regs.contains_key(a) {
            if m == "seqz"@ {
                Some(regs.insert(d, if regs[a] == 0 { 1i32 } else { 0i32 }))
            } else if m == "snez"@ {
                Some(regs.insert(d, if regs[a] != 0 { 1i32 } else { 0i32 }))
            } else {
                None
            }
        } else {
            None
        },
    }
}

/// A sequence of instructions, run in order.
pub open spec fn rv_run(regs: Map<Seq<char>, i32>, p: Seq<RvInst>) -> Option<Map<Seq<char>, i32>>
    decreases p.len(),
{
    if p.len() == 0 {
        Some(regs)
    } else {
        match rv_run(regs, p.drop_last()) {
            None => None,
            Some(r) => rv_step(r, p.last()),
        }
    }
}

/// The registers holding the operands `a` in `t0` and `b` in `t1`.
pub open spec fn operands(a: i32, b: i32) -> Map<Seq<char>, i32> {
    map!["t0"@ => a, "t1"@ => b]
}

/// Running `p` from `regs` succeeds and leaves `v` in `t2`.
pub open spec fn leaves_in_t2(regs: Map<Seq<char>, i32>, p: Seq<RvInst>, v: i32) -> bool {
    match rv_run(regs, p) {
        Some(out) => out.contains_key("t2"@) && out["t2"@] == v,
        None => false,
    }
}

/// For each Koopa comparison, the emitted instructions are ones that, run
/// on `a` in `t0` and `b` in `t1`, leave in `t2` the value 1 exactly when
/// the comparison holds between `a` and `b`, and 0 otherwise.
pub proof fn law_compare_code(op: Seq<char>, a: i32, b: i32)
    requires
        koopa_compare(op, a as int, b as int) is Some,
    ensures
        binary_text(op) is Some,
        exists|p: Seq<RvInst>| #[trigger] rv_texts(p) == binary_text(op)->Some_0
            && leaves_in_t2(operands(a, b), p, if koopa_compare(op, a as int, b as int)->Some_0 { 1i32 } else { 0i32 }),
{
    lemma_names();
    lemma_text_names();
    let r = operands(a, b);
    assert(r.contains_key("t0"@) && r.contains_key("t1"@) && r["t0"@] == a && r["t1"@] == b);
    let slt01 = RvInst::Reg3("slt"@, "t2"@, "t0"@, "t1"@);
    let slt10 = RvInst::Reg3("slt"@, "t2"@, "t1"@, "t0"@);
    let xor01 = RvInst::Reg3("xor"@, "t2"@, "t0"@, "t1"@);
    let seqz = RvInst::Reg2("seqz"@, "t2"@, "t2"@);
    let snez = RvInst::Reg2("snez"@, "t2"@, "t2"@);
    assert((a ^ b) == 0i32 <==> a == b) by (bit_vector);
    if op == "lt"@ {
        lemma_one(r, slt01);
        assert(leaves_in_t2(r, seq![slt01], if a < b { 1i32 } else { 0i32 }));
    } else if op == "gt"@ {
        lemma_one(r, slt10);
        assert(leaves_in_t2(r, seq![slt10], if a > b { 1i32 } else { 0i32 }));
    } else if op == "le"@ {
        lemma_two(r, slt10, seqz);
        assert(leaves_in_t2(r, seq![slt10, seqz], if a <= b { 1i32 } else { 0i32 }));
    } else if op == "ge"@ {
        lemma_two(r, slt01, seqz);
        assert(leaves_in_t2(r, seq![slt01, seqz], if a >= b { 1i32 } else { 0i32 }));
    } else if op == "eq"@ {
        lemma_two(r, xor01, seqz);
        assert(leaves_in_t2(r, seq![xor01, seqz], if a == b { 1i32 } else { 0i32 }));
    } else {
        assert(op == "ne"@);
        lemma_two(r, xor01, snez);
        assert(leaves_in_t2(r, seq![xor01, snez], if a != b { 1i32 } else { 0i32 }));
    }
}

/// The RISC-V instruction that computes a Koopa arithmetic operation.
spec fn arith_mnemonic(op: Seq<char>) -> Seq<char> {
    if op == "mod"@ { "rem"@ } else { op }
}

/// For each Koopa arithmetic or bitwise operation, the emitted instructions
/// are ones that, run on `a` in `t0` and `b` in `t1`, leave in `t2` the
/// value that the operation gives on `a` and `b`, wherever it is defined.
pub proof fn law_arith_code(op: Seq<char>, a: i32, b: i32)
    requires
        koopa_arith(op, a, b) is Some,
    ensures
        binary_text(op) is Some,
        exists|p: Seq<RvInst>| #[trigger] rv_texts(p) == binary_text(op)->Some_0
            && leaves_in_t2(operands(a, b), p, koopa_arith(op, a, b)->Some_0),
{
    lemma_names();
    lemma_arith_texts();
    let r = operands(a, b);
    assert(r.contains_key("t0"@) && r.contains_key("t1"@) && r["t0"@] == a && r["t1"@] == b);
    let i = RvInst::Reg3(arith_mnemonic(op), "t2"@, "t0"@, "t1"@);
    lemma_one(r, i);
    assert(rv_texts(seq![i]) == binary_text(op)->Some_0);
    assert(leaves_in_t2(r, seq![i], koopa_arith(op, a, b)->Some_0));
}

/// The texts and meanings of the arithmetic instructions.
proof fn lemma_arith_texts()
    ensures
        binary_text("add"@) == Some(rv_text(RvInst::Reg3("add"@, "t2"@, "t0"@, "t1"@))),
        binary_text("sub"@) == Some(rv_text(RvInst::Reg3("sub"@, "t2"@, "t0"@, "t1"@))),
        binary_text("mul"@) == Some(rv_text(RvInst::Reg3("mul"@, "t2"@, "t0"@, "t1"@))),
        binary_text("div"@) == Some(rv_text(RvInst::Reg3("div"@, "t2"@, "t0"@, "t1"@))),
        binary_text("mod"@) == Some(rv_text(RvInst::Reg3("rem"@, "t2"@, "t0"@, "t1"@))),
        binary_text("and"@) == Some(rv_text(RvInst::Reg3("and"@, "t2"@, "t0"@, "t1"@))),
        binary_text("or"@) == Some(rv_text(RvInst::Reg3("or"@, "t2"@, "t0"@, "t1"@))),
        binary_text("xor"@) == Some(rv_text(RvInst::Reg3("xor"@, "t2"@, "t0"@, "t1"@))),
        "mod"@ != "add"@ && "mod"@ != "sub"@ && "mod"@ != "mul"@ && "mod"@ != "div"@ && "mod"@ != "and"@
            && "mod"@ != "or"@ && "mod"@ != "xor"@,
        "rem"@ != "slt"@ && "rem"@ != "xor"@ && "rem"@ != "add"@ && "rem"@ != "sub"@ && "rem"@ != "mul"@
            && "rem"@ != "div"@,
        "add"@ != "slt"@ && "add"@ != "xor"@,
        "sub"@ != "slt"@ && "sub"@ != "xor"@ && "sub"@ != "add"@,
        "mul"@ != "slt"@ && "mul"@ != "xor"@ && "mul"@ != "add"@ && "mul"@ != "sub"@,
        "div"@ != "slt"@ && "div"@ != "xor"@ && "div"@ != "add"@ && "div"@ != "sub"@ && "div"@ != "mul"@,
        "and"@ != "slt"@ && "and"@ != "xor"@ && "and"@ != "add"@ && "and"@ != "sub"@ && "and"@ != "mul"@
            && "and"@ != "div"@ && "and"@ != "rem"@,
        "or"@ != "slt"@ && "or"@ != "xor"@ && "or"@ != "add"@ && "or"@ != "sub"@ && "or"@ != "mul"@
            && "or"@ != "div"@ && "or"@ != "rem"@ && "or"@ != "and"@,
        "and"@ != "or"@ && "and"@ != "xor"@ && "or"@ != "xor"@ && "add"@ != "and"@ && "sub"@ != "and"@,
{
    reveal_strlit("eq");
    reveal_strlit("ne");
    reveal_strlit("add");
    reveal_strlit("sub");
    reveal_strlit("mul");
    reveal_strlit("div");
    reveal_strlit("mod");
    reveal_strlit("rem");
    reveal_strlit("lt");
    reveal_strlit("gt");
    reveal_strlit("le");
    reveal_strlit("ge");
    reveal_strlit("and");
    reveal_strlit("or");
    reveal_strlit("xor");
    reveal_strlit("slt");
    reveal_strlit("t0");
    reveal_strlit("t1");
    reveal_strlit("t2");
    reveal_strlit(" ");
    reveal_strlit(", ");
    reveal_strlit("add t2, t0, t1");
    reveal_strlit("sub t2, t0, t1");
    reveal_strlit("mul t2, t0, t1");
    reveal_strlit("div t2, t0, t1");
    reveal_strlit("rem t2, t0, t1");
    reveal_strlit("and t2, t0, t1");
    reveal_strlit("or t2, t0, t1");
    reveal_strlit("xor t2, t0, t1");
    let ws = seq!["eq"@, "ne"@, "add"@, "sub"@, "mul"@, "div"@, "mod"@, "lt"@, "gt"@, "le"@, "ge"@, "and"@, "or"@, "xor"@,
        "rem"@, "slt"@];
    assert forall|i: int, j: int| 0 <= i < ws.len() && 0 <= j < ws.len() && i != j implies ws[i] != ws[j] by {
        assert(ws[i].len() != ws[j].len() || ws[i][0] != ws[j][0] || ws[i][1] != ws[j][1] || ws[i][2] != ws[j][2]);
    }
    let tail = " "@ + "t2"@ + ", "@ + "t0"@ + ", "@ + "t1"@;
    assert("add"@ + tail =~= "add t2, t0, t1"@);
    assert("sub"@ + tail =~= "sub t2, t0, t1"@);
    assert("mul"@ + tail =~= "mul t2, t0, t1"@);
    assert("div"@ + tail =~= "div t2, t0, t1"@);
    assert("rem"@ + tail =~= "rem t2, t0, t1"@);
    assert("and"@ + tail =~= "and t2, t0, t1"@);
    assert("or"@ + tail =~= "or t2, t0, t1"@);
    assert("xor"@ + tail =~= "xor t2, t0, t1"@);
    assert(ws[0] != ws[2] && ws[1] != ws[2]);
}

proof fn lemma_one(r: Map<Seq<char>, i32>, i: RvInst)
    ensures
        rv_texts(seq![i]) == rv_text(i),
        rv_run(r, seq![i]) == rv_step(r, i),
{
    reveal_with_fuel(rv_texts, 2);
    reveal_with_fuel(rv_run, 2);
    assert(seq![i].drop_last() =~= Seq::<RvInst>::empty());
    assert(Seq::<char>::empty() + rv_text(i) =~= rv_text(i));
}

proof fn lemma_two(r: Map<Seq<char>, i32>, i: RvInst, j: RvInst)
    ensures
        rv_texts(seq![i, j]) == rv_text(i) + rv_text(j),
        rv_run(r, seq![i, j]) == match rv_step(r, i) {
            None => None,
            Some(r2) => rv_step(r2, j),
        },
{
    lemma_one(r, i);
    assert(seq![i, j].drop_last() =~= seq![i]);
}

/// The words that name instructions, operations and registers differ.
proof fn lemma_names()
    ensures
        "slt"@ != "xor"@, "seqz"@ != "snez"@,
        "t0"@ != "t1"@, "t0"@ != "t2"@, "t1"@ != "t2"@,
        binary_text("lt"@) == Some(inst("slt t2, t0, t1"@)),
        binary_text("gt"@) == Some(inst("slt t2, t1, t0"@)),
        binary_text("le"@) == Some(inst("slt t2, t1, t0"@) + inst("seqz t2, t2"@)),
        binary_text("ge"@) == Some(inst("slt t2, t0, t1"@) + inst("seqz t2, t2"@)),
        binary_text("eq"@) == Some(inst("xor t2, t0, t1"@) + inst("seqz t2, t2"@)),
        binary_text("ne"@) == Some(inst("xor t2, t0, t1"@) + inst("snez t2, t2"@)),
{
    reveal_strlit("slt");
    reveal_strlit("xor");
    reveal_strlit("seqz");
    reveal_strlit("snez");
    reveal_strlit("t0");
    reveal_strlit("t1");
    reveal_strlit("t2");
    reveal_strlit("eq");
    reveal_strlit("ne");
    reveal_strlit("add");
    reveal_strlit("sub");
    reveal_strlit("mul");
    reveal_strlit("div");
    reveal_strlit("mod");
    reveal_strlit("lt");
    reveal_strlit("gt");
    reveal_strlit("le");
    reveal_strlit("ge");
    assert("slt"@[0] != "xor"@[0]);
    assert("seqz"@[1] != "snez"@[1]);
    assert("t0"@[1] != "t1"@[1] && "t0"@[1] != "t2"@[1] && "t1"@[1] != "t2"@[1]);
    let ws = seq!["eq"@, "ne"@, "add"@, "sub"@, "mul"@, "div"@, "mod"@, "lt"@, "gt"@, "le"@, "ge"@];
    assert forall|i: int, j: int| 0 <= i < j < ws.len() implies ws[i] != ws[j] by {
        assert(ws[i][0] != ws[j][0] || ws[i].len() != ws[j].len() || ws[i][1] != ws[j][1]);
    }
    assert(ws[7] != ws[0] && ws[7] != ws[1] && ws[7] != ws[2] && ws[7] != ws[3] && ws[7] != ws[4] && ws[7] != ws[5] && ws[7] != ws[6]);
    assert(ws[8] != ws[0] && ws[8] != ws[1] && ws[8] != ws[2] && ws[8] != ws[3] && ws[8] != ws[4] && ws[8] != ws[5] && ws[8] != ws[6] && ws[8] != ws[7]);
    assert(ws[9] != ws[0] && ws[9] != ws[1] && ws[9] != ws[2] && ws[9] != ws[3] && ws[9] != ws[4] && ws[9] != ws[5] && ws[9] != ws[6] && ws[9] != ws[7] && ws[9] != ws[8]);
    assert(ws[10] != ws[0] && ws[10] != ws[1] && ws[10] != ws[2] && ws[10] != ws[3] && ws[10] != ws[4] && ws[10] != ws[5] && ws[10] != ws[6] && ws[10] != ws[7] && ws[10] != ws[8] && ws[10] != ws[9]);
    assert(ws[1] != ws[0]);
}

/// The texts of the instructions the comparisons use.
proof fn lemma_text_names()
    ensures
        rv_text(RvInst::Reg3("slt"@, "t2"@, "t0"@, "t1"@)) == inst("slt t2, t0, t1"@),
        rv_text(RvInst::Reg3("slt"@, "t2"@, "t1"@, "t0"@)) == inst("slt t2, t1, t0"@),
        rv_text(RvInst::Reg3("xor"@, "t2"@, "t0"@, "t1"@)) == inst("xor t2, t0, t1"@),
        rv_text(RvInst::Reg2("seqz"@, "t2"@, "t2"@)) == inst("seqz t2, t2"@),
        rv_text(RvInst::Reg2("snez"@, "t2"@, "t2"@)) == inst("snez t2, t2"@),
{
    reveal_strlit("slt");
    reveal_strlit("xor");
    reveal_strlit("seqz");
    reveal_strlit("snez");
    reveal_strlit("t0");
    reveal_strlit("t1");
    reveal_strlit("t2");
    reveal_strlit(" ");
    reveal_strlit(", ");
    reveal_strlit("slt t2, t0, t1");
    reveal_strlit("slt t2, t1, t0");
    reveal_strlit("xor t2, t0, t1");
    reveal_strlit("seqz t2, t2");
    reveal_strlit("snez t2, t2");
    assert("slt"@ + " "@ + "t2"@ + ", "@ + "t0"@ + ", "@ + "t1"@ =~= "slt t2, t0, t1"@);
    assert("slt"@ + " "@ + "t2"@ + ", "@ + "t1"@ + ", "@ + "t0"@ =~= "slt t2, t1, t0"@);
    assert("xor"@ + " "@ + "t2"@ + ", "@ + "t0"@ + ", "@ + "t1"@ =~= "xor t2, t0, t1"@);
    assert("seqz"@ + " "@ + "t2"@ + ", "@ + "t2"@ =~= "seqz t2, t2"@);
    assert("snez"@ + " "@ + "t2"@ + ", "@ + "t2"@ =~= "snez t2, t2"@);
}

/// A branch or jump of the generated code.
pub enum RvJump {
    /// `bnez r, l`
    Bnez(Seq<char>, Seq<char>),
    /// `beqz r, l`
    Beqz(Seq<char>, Seq<char>),
    /// `j l`
    J(Seq<char>),
}

/// The line of assembly text of a branch or jump.
pub open spec fn rv_jump_text(i: RvJump) -> Seq<char> {
    match i {
        RvJump::Bnez(r, l) => inst("bnez"@ + " "@ + r + ", "@ + l),
        RvJump::Beqz(r, l) => inst("beqz"@ + " "@ + r + ", "@ + l),
        RvJump::J(l) => inst("j"@ + " "@ + l),
    }
}

/// The text of a sequence of branches and jumps.
pub open spec fn rv_jump_texts(p: Seq<RvJump>) -> Seq<char>
    decreases p.len(),
{
    if p.len() == 0 {
        Seq::empty()
    } else {
        rv_jump_texts(p.drop_last()) + rv_jump_text(p.last())
    }
}

/// Where control goes from a sequence of branches and jumps, run in order:
/// the label of the first one taken (`bnez` is taken when its register is
/// nonzero, `beqz` when it is zero, `j` always).
pub open spec fn jump_dest(p: Seq<RvJump>, regs: Map<Seq<char>, i32>) -> Option<Seq<char>>
    decreases p.len(),
{
    if p.len() == 0 {
        None
    } else {
        match p[0] {
            RvJump::Bnez(r, l) => if regs.contains_key(r) && regs[r] != 0 { Some(l) } else { jump_dest(p.drop_first(), regs) },
            RvJump::Beqz(r, l) => if regs.contains_key(r) && regs[r] == 0 { Some(l) } else { jump_dest(p.drop_first(), regs) },
            RvJump::J(l) => Some(l),
        }
    }
}

/// A conditional branch whose targets take no arguments loads the
/// condition into `t0` and then continues at the block of the true target
/// when the condition is nonzero and at that of the false target when it
/// is zero.
pub proof fn law_branch_code(f: FunctionModel, frame: FrameView, cond: ValueRef, t: int, e: int, edge: usize, v: i32)
    requires
        asm_branch(f, frame, cond, t, Seq::empty(), e, Seq::empty(), edge) is Ok,
    ensures
        exists|p: Seq<RvJump>| #[trigger] rv_jump_texts(p) == rv_jump_texts(p)
            && asm_branch(f, frame, cond, t, Seq::empty(), e, Seq::empty(), edge)->Ok_0.0
                == asm_load(f, frame, cond, "t0"@)->Ok_0 + rv_jump_texts(p)
            && jump_dest(p, map!["t0"@ => v]) == Some(if v != 0 { asm_block_label(f, t)->Ok_0 } else {
                asm_block_label(f, e)->Ok_0 }),
{
    reveal(asm_branch);
    reveal_strlit("bnez");
    reveal_strlit("j");
    reveal_strlit(" ");
    reveal_strlit(", ");
    reveal_strlit("t0");
    reveal_strlit("bnez t0, ");
    reveal_strlit("j ");
    let tb = asm_block_label(f, t)->Ok_0;
    let fb = asm_block_label(f, e)->Ok_0;
    let p = seq![RvJump::Bnez("t0"@, tb), RvJump::J(fb)];
    assert("bnez"@ + " "@ + "t0"@ + ", "@ + tb =~= "bnez t0, "@ + tb);
    assert("j"@ + " "@ + fb =~= "j "@ + fb);
    reveal_with_fuel(rv_jump_texts, 3);
    reveal_with_fuel(jump_dest, 3);
    assert(p.drop_last() =~= seq![RvJump::Bnez("t0"@, tb)]);
    assert(seq![RvJump::Bnez("t0"@, tb)].drop_last() =~= Seq::<RvJump>::empty());
    assert(p.drop_first() =~= seq![RvJump::J(fb)]);
    assert(rv_jump_texts(p) =~= inst("bnez t0, "@ + tb) + inst("j "@ + fb));
    let regs = map!["t0"@ => v];
    assert(regs.contains_key("t0"@) && regs["t0"@] == v);
    assert(rv_jump_texts(p) == rv_jump_texts(p));
}

} // verus!
