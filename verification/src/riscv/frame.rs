//! Stack frames: a slot for every value that needs one, the outgoing
//! arguments beyond the eighth, scratch words for block arguments, and the
//! return address.
use vstd::prelude::*;
use super::error::GenerateAsmError;
use super::asm_spec::AsmErr;
use super::program::{function_ok, indices_ok, FunctionModel, Inst};

verus! {

/// No frame may grow beyond this many bytes. The target is 32-bit RISC-V:
/// the stack pointer is moved by the frame's size through `li`, whose
/// immediate is a signed 32-bit value, so a frame must stay below
/// `i32::MAX` bytes; the limit leaves room for the rounding to 16 bytes and
/// the words that follow the slots.
pub const FRAME_LIMIT: usize = 0x7fff_0000;

/// The layout of a function's stack frame; offsets are from `sp` after
/// the prologue.
pub struct StackFrame {
    pub size: usize,
    /// The slot of each value of the function, if it has one.
    pub slots: Vec<Option<usize>>,
    /// The size of each value's slot.
    pub lens: Vec<usize>,
    pub ra_slot: Option<usize>,
    pub outgoing: Vec<usize>,
    pub scratch: Vec<usize>,
}

/// A stack frame as plain values.
pub struct FrameView {
    pub size: usize,
    pub slots: Seq<Option<usize>>,
    pub lens: Seq<usize>,
    pub ra_slot: Option<usize>,
    pub outgoing: Seq<usize>,
    pub scratch: Seq<usize>,
}

impl View for StackFrame {
    type V = FrameView;

    open spec fn view(&self) -> FrameView {
        FrameView {
            size: self.size,
            slots: self.slots@,
            lens: self.lens@,
            ra_slot: self.ra_slot,
            outgoing: self.outgoing@,
            scratch: self.scratch@,
        }
    }
}

/// Two byte ranges that do not overlap.
pub open spec fn apart(o1: int, l1: int, o2: int, l2: int) -> bool {
    o1 + l1 <= o2 || o2 + l2 <= o1
}

/// The byte range `[o, o + l)` is word-aligned and lies within `[0, top)`.
pub open spec fn inside(o: int, l: int, top: int) -> bool {
    0 <= o && o % 4 == 0 && o + l <= top
}

impl StackFrame {
    /// Every slot ends at or below `top`, and they are word-aligned and
    /// pairwise apart.
    pub open spec fn slots_below(&self, top: int) -> bool {
        let n = self.slots@.len();
        &&& self.lens@.len() == n
        &&& forall|i: int| 0 <= i < n && (#[trigger] self.slots@[i]) is Some ==> inside(self.slots@[i]->Some_0 as int,
            self.lens@[i] as int, top)
        &&& forall|i: int, j: int| 0 <= i < n && 0 <= j < n && i != j && (#[trigger] self.slots@[i]) is Some
            && (#[trigger] self.slots@[j]) is Some ==> apart(self.slots@[i]->Some_0 as int, self.lens@[i] as int,
            self.slots@[j]->Some_0 as int, self.lens@[j] as int)
        &&& forall|k: int| 0 <= k < self.outgoing@.len() ==> inside(#[trigger] self.outgoing@[k] as int, 4, top)
        &&& forall|k: int| 0 <= k < self.scratch@.len() ==> inside(#[trigger] self.scratch@[k] as int, 4, top)
        &&& forall|k: int, l: int| 0 <= k < l < self.outgoing@.len() ==> apart(#[trigger] self.outgoing@[k] as int, 4,
            #[trigger] self.outgoing@[l] as int, 4)
        &&& forall|k: int, l: int| 0 <= k < l < self.scratch@.len() ==> apart(#[trigger] self.scratch@[k] as int, 4,
            #[trigger] self.scratch@[l] as int, 4)
        &&& forall|i: int, k: int| 0 <= i < n && (#[trigger] self.slots@[i]) is Some && 0 <= k < self.outgoing@.len()
            ==> apart(self.slots@[i]->Some_0 as int, self.lens@[i] as int, #[trigger] self.outgoing@[k] as int, 4)
        &&& forall|i: int, k: int| 0 <= i < n && (#[trigger] self.slots@[i]) is Some && 0 <= k < self.scratch@.len()
            ==> apart(self.slots@[i]->Some_0 as int, self.lens@[i] as int, #[trigger] self.scratch@[k] as int, 4)
        &&& forall|k: int, l: int| 0 <= k < self.outgoing@.len() && 0 <= l < self.scratch@.len()
            ==> apart(#[trigger] self.outgoing@[k] as int, 4, #[trigger] self.scratch@[l] as int, 4)
    }

    /// The frame's laws: its size is a multiple of 16 within the limit;
    /// all slots lie in the frame, are word-aligned and do not overlap;
    /// the return address, when saved, occupies the top word and overlaps
    /// no slot.
    pub open spec fn frame_ok(&self) -> bool {
        &&& self.size % 16 == 0
        &&& self.size <= FRAME_LIMIT
        &&& match self.ra_slot {
            Some(r) => r + 4 == self.size && self.slots_below(r as int),
            None => self.slots_below(self.size as int),
        }
    }
}

/// `c` rounded up to a multiple of `m`.
pub open spec fn rounded(c: int, m: int) -> int {
    if c % m == 0 { c } else { (c / m + 1) * m }
}

/// A request for a slot, in the order in which the frame gives them: the
/// value and the bytes it needs, or an allocation whose pointee size is
/// unknown.
pub enum SlotReq {
    Slot(usize, usize),
    NoPointee,
}

/// The request of a parameter or block parameter.
pub open spec fn value_req(f: FunctionModel, v: usize) -> SlotReq {
    SlotReq::Slot(v, f.values@[v as int].size)
}

/// The requests of a list of parameters.
pub open spec fn param_reqs(f: FunctionModel, ps: Seq<usize>) -> Seq<SlotReq> {
    ps.map_values(|v: usize| value_req(f, v))
}

/// The request of an instruction, if it needs a slot.
pub open spec fn inst_req(f: FunctionModel, v: usize) -> Seq<SlotReq> {
    let info = f.values@[v as int];
    match info.inst {
        Inst::Alloc => match info.pointee_size {
            Some(n) => seq![SlotReq::Slot(v, n)],
            None => seq![SlotReq::NoPointee],
        },
        Inst::Binary(..) | Inst::Load(_) | Inst::GetPtr(..) | Inst::GetElemPtr(..) => seq![SlotReq::Slot(v, info.size)],
        Inst::Call(..) => if info.is_unit { Seq::empty() } else { seq![SlotReq::Slot(v, info.size)] },
        _ => Seq::empty(),
    }
}

/// The requests of the first `j` instructions of a block.
pub open spec fn inst_reqs(f: FunctionModel, insts: Seq<usize>, j: nat) -> Seq<SlotReq>
    decreases j,
{
    if j == 0 || j > insts.len() { Seq::empty() } else { inst_reqs(f, insts, (j - 1) as nat) + inst_req(f, insts[j - 1]) }
}

/// The requests of block `b`: its parameters, then its instructions.
pub open spec fn block_reqs(f: FunctionModel, b: int) -> Seq<SlotReq> {
    param_reqs(f, f.blocks@[b].params@) + inst_reqs(f, f.blocks@[b].insts@, f.blocks@[b].insts@.len())
}

/// The requests of the first `n` blocks.
pub open spec fn blocks_reqs(f: FunctionModel, n: nat) -> Seq<SlotReq>
    decreases n,
{
    if n == 0 { Seq::empty() } else { blocks_reqs(f, (n - 1) as nat) + block_reqs(f, n - 1) }
}

/// All requests of a function: its parameters, then each block in order.
pub open spec fn slot_reqs(f: FunctionModel) -> Seq<SlotReq> {
    param_reqs(f, f.params@) + blocks_reqs(f, f.blocks@.len())
}

/// Serves one request: a value that has no slot gets one of the requested
/// size at the top of the frame, rounded up to a word.
pub open spec fn req_step(st: FrameView, q: SlotReq) -> Result<FrameView, AsmErr> {
    match q {
        SlotReq::NoPointee => Err(AsmErr::ExpectedPointer),
        SlotReq::Slot(v, len) => if st.slots[v as int] is Some {
            Ok(st)
        } else {
            let start = rounded(st.size as int, 4);
            if len > FRAME_LIMIT - start {
                Err(AsmErr::FrameTooLarge)
            } else {
                Ok(FrameView {
                    size: (start + len) as usize,
                    slots: st.slots.update(v as int, Some(start as usize)),
                    lens: st.lens.update(v as int, len),
                    ..st
                })
            }
        },
    }
}

/// Serves the requests in order, stopping at the first that fails.
pub open spec fn apply_reqs(st: Result<FrameView, AsmErr>, qs: Seq<SlotReq>) -> Result<FrameView, AsmErr>
    decreases qs.len(),
{
    if qs.len() == 0 {
        st
    } else {
        match apply_reqs(st, qs.drop_last()) {
            Err(x) => Err(x),
            Ok(s) => req_step(s, qs.last()),
        }
    }
}

/// `n` is the most arguments that a call of the function passes (zero
/// when no call passes any).
pub open spec fn is_max_args(f: FunctionModel, n: nat) -> bool {
    &&& forall|b: int, j: int| inst_at(f, b, j) && #[trigger] call_args_at(f, b, j) is Some ==> call_args_at(f, b, j)->Some_0 <= n
    &&& n > 0 ==> exists|b: int, j: int| inst_at(f, b, j) && #[trigger] call_args_at(f, b, j) == Some(n)
}

/// `n` is the most parameters that a block of the function takes.
pub open spec fn is_max_params(f: FunctionModel, n: nat) -> bool {
    &&& forall|b: int| 0 <= b < f.blocks@.len() ==> (#[trigger] f.blocks@[b]).params@.len() <= n
    &&& n > 0 ==> exists|b: int| 0 <= b < f.blocks@.len() && (#[trigger] f.blocks@[b]).params@.len() == n
}

pub open spec fn max_args(f: FunctionModel) -> nat {
    choose|n: nat| is_max_args(f, n)
}

pub open spec fn max_params(f: FunctionModel) -> nat {
    choose|n: nat| is_max_params(f, n)
}

/// Whether the function calls.
pub open spec fn calls(f: FunctionModel) -> bool {
    exists|b: int, j: int| inst_at(f, b, j) && #[trigger] call_args_at(f, b, j) is Some
}

/// The frame before any slot: one word for each argument beyond the eighth
/// of the widest call, from the bottom up.
pub open spec fn outgoing_frame(f: FunctionModel) -> Result<FrameView, AsmErr> {
    let n = if max_args(f) > 8 { max_args(f) - 8 } else { 0 };
    if 4 * n > FRAME_LIMIT {
        Err(AsmErr::FrameTooLarge)
    } else {
        Ok(FrameView {
            size: (4 * n) as usize,
            slots: Seq::new(f.values@.len(), |i: int| None),
            lens: Seq::new(f.values@.len(), |i: int| 0usize),
            ra_slot: None,
            outgoing: Seq::new(n as nat, |k: int| (4 * k) as usize),
            scratch: Seq::empty(),
        })
    }
}

/// The frame after its slots: scratch words for the widest block, then the
/// return address of a function that calls, the size rounded up to 16.
pub open spec fn finish_frame(f: FunctionModel, st: FrameView) -> Result<FrameView, AsmErr> {
    let s0 = rounded(st.size as int, 4);
    let n = max_params(f);
    let below = s0 + 4 * n;
    if below > FRAME_LIMIT {
        Err(AsmErr::FrameTooLarge)
    } else if calls(f) && below > FRAME_LIMIT - 32 {
        Err(AsmErr::FrameTooLarge)
    } else {
        let top = if calls(f) { below + 4 } else { below };
        if top > FRAME_LIMIT - 16 {
            Err(AsmErr::FrameTooLarge)
        } else {
            let size = rounded(top, 16);
            Ok(FrameView {
                size: size as usize,
                ra_slot: if calls(f) { Some((size - 4) as usize) } else { None },
                scratch: Seq::new(n, |k: int| (s0 + 4 * k) as usize),
                ..st
            })
        }
    }
}

/// The frame of a function.
pub open spec fn layout(f: FunctionModel) -> Result<FrameView, AsmErr> {
    match apply_reqs(outgoing_frame(f), slot_reqs(f)) {
        Err(x) => Err(x),
        Ok(st) => finish_frame(f, st),
    }
}

proof fn lemma_prefix_extend(a: Seq<SlotReq>, b: Seq<SlotReq>, c: Seq<SlotReq>)
    requires
        a.is_prefix_of(b),
    ensures
        a.is_prefix_of(b + c),
        (c + a).is_prefix_of(c + b),
{
    assert(a =~= (b + c).subrange(0, a.len() as int));
    assert(c + a =~= (c + b).subrange(0, (c + a).len() as int));
}

proof fn lemma_prefix_trans(a: Seq<SlotReq>, b: Seq<SlotReq>, c: Seq<SlotReq>)
    requires
        a.is_prefix_of(b),
        b.is_prefix_of(c),
    ensures
        a.is_prefix_of(c),
{
    assert(a =~= c.subrange(0, a.len() as int));
}

/// Serving slot requests leaves the argument words as they were.
proof fn lemma_apply_keeps_words(st: FrameView, qs: Seq<SlotReq>)
    ensures
        apply_reqs(Ok(st), qs) matches Ok(st2) ==> st2.outgoing == st.outgoing && st2.scratch == st.scratch,
    decreases qs.len(),
{
    if qs.len() > 0 {
        lemma_apply_keeps_words(st, qs.drop_last());
    }
}

/// Every request of `qs` for a slot names one of the first `n` values.
pub open spec fn reqs_in(qs: Seq<SlotReq>, n: nat) -> bool {
    forall|j: int| 0 <= j < qs.len() ==> (#[trigger] qs[j] matches SlotReq::Slot(w, _) ==> w < n)
}

proof fn lemma_reqs_in_concat(a: Seq<SlotReq>, b: Seq<SlotReq>, n: nat)
    requires
        reqs_in(a, n),
        reqs_in(b, n),
    ensures
        reqs_in(a + b, n),
{
    assert forall|j: int| 0 <= j < (a + b).len() implies (#[trigger] (a + b)[j] matches SlotReq::Slot(w, _) ==> w < n) by {
        if j < a.len() {
            assert((a + b)[j] == a[j]);
        } else {
            assert((a + b)[j] == b[j - a.len()]);
        }
    }
}

proof fn lemma_inst_reqs_in(f: FunctionModel, insts: Seq<usize>, j: nat)
    requires
        indices_ok(insts, f.values@.len()),
    ensures
        reqs_in(inst_reqs(f, insts, j), f.values@.len()),
    decreases j,
{
    if j > 0 && j <= insts.len() {
        lemma_inst_reqs_in(f, insts, (j - 1) as nat);
        let v = insts[j - 1];
        assert(reqs_in(inst_req(f, v), f.values@.len()));
        lemma_reqs_in_concat(inst_reqs(f, insts, (j - 1) as nat), inst_req(f, v), f.values@.len());
    }
}

proof fn lemma_blocks_reqs_in(f: FunctionModel, ng: nat, n: nat)
    requires
        function_ok(f, ng),
        n <= f.blocks@.len(),
    ensures
        reqs_in(blocks_reqs(f, n), f.values@.len()),
    decreases n,
{
    if n > 0 {
        lemma_blocks_reqs_in(f, ng, (n - 1) as nat);
        let b = f.blocks@[n - 1];
        assert(indices_ok(b.params@, f.values@.len()) && indices_ok(b.insts@, f.values@.len()));
        lemma_inst_reqs_in(f, b.insts@, b.insts@.len());
        lemma_reqs_in_concat(param_reqs(f, b.params@), inst_reqs(f, b.insts@, b.insts@.len()), f.values@.len());
        lemma_reqs_in_concat(blocks_reqs(f, (n - 1) as nat), block_reqs(f, n - 1), f.values@.len());
    }
}

/// Every slot given while serving `qs` from a frame without slots has the
/// length that some request for its value asked.
proof fn lemma_apply_lens(st: FrameView, qs: Seq<SlotReq>)
    requires
        forall|v: int| 0 <= v < st.slots.len() ==> (#[trigger] st.slots[v]) is None,
        st.lens.len() == st.slots.len(),
        st.slots.len() <= usize::MAX,
        reqs_in(qs, st.slots.len()),
    ensures
        apply_reqs(Ok(st), qs) matches Ok(st2) ==> st2.slots.len() == st.slots.len() && st2.lens.len() == st.slots.len()
            && forall|v: int| 0 <= v < st2.slots.len()
            && (#[trigger] st2.slots[v]) is Some ==> exists|j: int| 0 <= j < qs.len()
                && qs[j] == SlotReq::Slot(v as usize, st2.lens[v]),
    decreases qs.len(),
{
    if qs.len() > 0 {
        let p = qs.drop_last();
        assert(reqs_in(p, st.slots.len())) by {
            assert forall|j: int| 0 <= j < p.len() implies (#[trigger] p[j] matches SlotReq::Slot(w, _) ==> w < st.slots.len()) by {
                assert(p[j] == qs[j]);
            }
        }
        lemma_apply_lens(st, p);
        if let Ok(st1) = apply_reqs(Ok(st), p) {
            if let Ok(st2) = apply_reqs(Ok(st), qs) {
                assert(st2 == req_step(st1, qs.last())->Ok_0);
                match qs.last() {
                    SlotReq::Slot(w, len) => {
                        if st1.slots[w as int] is None {
                            let start = rounded(st1.size as int, 4);
                            assert(st2.slots == st1.slots.update(w as int, Some(start as usize)));
                            assert(st2.lens == st1.lens.update(w as int, len));
                        } else {
                            assert(st2 == st1);
                        }
                        assert forall|v: int| 0 <= v < st2.slots.len() && (#[trigger] st2.slots[v]) is Some implies
                            exists|j: int| 0 <= j < qs.len() && qs[j] == SlotReq::Slot(v as usize, st2.lens[v]) by {
                            if st1.slots[w as int] is None && v == w as int {
                                assert(qs[qs.len() - 1] == SlotReq::Slot(v as usize, st2.lens[v]));
                            } else {
                                assert(st2.slots[v] == st1.slots[v] && st2.lens[v] == st1.lens[v]);
                                let j = choose|j: int| 0 <= j < p.len() && p[j] == SlotReq::Slot(v as usize, st1.lens[v]);
                                assert(qs[j] == p[j]);
                            }
                        }
                    },
                    SlotReq::NoPointee => {},
                }
            }
        }
    }
}

/// A failed start stays failed.
proof fn lemma_apply_err(x: AsmErr, qs: Seq<SlotReq>)
    ensures
        apply_reqs(Err(x), qs) == Err::<FrameView, AsmErr>(x),
    decreases qs.len(),
{
    if qs.len() > 0 {
        lemma_apply_err(x, qs.drop_last());
    }
}

/// Once a request fails, the requests after it change nothing.
proof fn lemma_apply_prefix_err(st: Result<FrameView, AsmErr>, p: Seq<SlotReq>, q: Seq<SlotReq>)
    requires
        p.is_prefix_of(q),
        apply_reqs(st, p) is Err,
    ensures
        apply_reqs(st, q) == apply_reqs(st, p),
    decreases q.len(),
{
    if q.len() == p.len() {
        assert(q =~= p);
    } else {
        assert(p =~= q.drop_last().subrange(0, p.len() as int));
        lemma_apply_prefix_err(st, p, q.drop_last());
    }
}

proof fn lemma_inst_reqs_prefix(f: FunctionModel, insts: Seq<usize>, j: nat, n: nat)
    requires
        j <= n <= insts.len(),
    ensures
        inst_reqs(f, insts, j).is_prefix_of(inst_reqs(f, insts, n)),
    decreases n,
{
    if j == n {
        assert(inst_reqs(f, insts, j) =~= inst_reqs(f, insts, n).subrange(0, inst_reqs(f, insts, j).len() as int));
    } else {
        lemma_inst_reqs_prefix(f, insts, j, (n - 1) as nat);
        lemma_prefix_extend(inst_reqs(f, insts, j), inst_reqs(f, insts, (n - 1) as nat), inst_req(f, insts[n - 1]));
    }
}

proof fn lemma_blocks_reqs_prefix(f: FunctionModel, b: nat, n: nat)
    requires
        b <= n,
    ensures
        blocks_reqs(f, b).is_prefix_of(blocks_reqs(f, n)),
    decreases n,
{
    if b == n {
        assert(blocks_reqs(f, b) =~= blocks_reqs(f, n).subrange(0, blocks_reqs(f, b).len() as int));
    } else {
        lemma_blocks_reqs_prefix(f, b, (n - 1) as nat);
        lemma_prefix_extend(blocks_reqs(f, b), blocks_reqs(f, (n - 1) as nat), block_reqs(f, n - 1));
    }
}

/// A request of block `b`, with what came before it, is a prefix of all
/// the requests of the function.
proof fn lemma_block_part_prefix(f: FunctionModel, b: int, part: Seq<SlotReq>)
    requires
        0 <= b < f.blocks@.len(),
        part.is_prefix_of(block_reqs(f, b)),
    ensures
        (param_reqs(f, f.params@) + (blocks_reqs(f, b as nat) + part)).is_prefix_of(slot_reqs(f)),
{
    let pre = param_reqs(f, f.params@);
    lemma_prefix_extend(part, block_reqs(f, b), blocks_reqs(f, b as nat));
    assert(blocks_reqs(f, (b + 1) as nat) == blocks_reqs(f, b as nat) + block_reqs(f, b));
    lemma_blocks_reqs_prefix(f, (b + 1) as nat, f.blocks@.len());
    lemma_prefix_trans(blocks_reqs(f, b as nat) + part, blocks_reqs(f, (b + 1) as nat), blocks_reqs(f, f.blocks@.len()));
    lemma_prefix_extend(blocks_reqs(f, b as nat) + part, blocks_reqs(f, f.blocks@.len()), pre);
}

/// There is exactly one widest call and one widest block.
proof fn lemma_max_unique(f: FunctionModel, a: nat, p: nat)
    requires
        is_max_args(f, a),
        is_max_params(f, p),
    ensures
        max_args(f) == a,
        max_params(f) == p,
{
    let x = max_args(f);
    assert(is_max_args(f, x));
    if x > 0 {
        let (b, j) = choose|b: int, j: int| inst_at(f, b, j) && #[trigger] call_args_at(f, b, j) == Some(x);
        assert(call_args_at(f, b, j) is Some);
    }
    if a > 0 {
        let (b, j) = choose|b: int, j: int| inst_at(f, b, j) && #[trigger] call_args_at(f, b, j) == Some(a);
        assert(call_args_at(f, b, j) is Some);
    }
    let y = max_params(f);
    assert(is_max_params(f, y));
    if y > 0 {
        let b = choose|b: int| 0 <= b < f.blocks@.len() && (#[trigger] f.blocks@[b]).params@.len() == y;
    }
    if p > 0 {
        let b = choose|b: int| 0 <= b < f.blocks@.len() && (#[trigger] f.blocks@[b]).params@.len() == p;
    }
}

/// `c` rounded up to a multiple of `m`.
fn round_up(c: usize, m: usize) -> (r: usize)
    requires
        m == 4 || m == 16,
        c <= FRAME_LIMIT,
    ensures
        r % m == 0,
        c <= r < c + m,
        r == rounded(c as int, m as int),
{
    let q = c / m;
    let r = if c % m == 0 { c } else { (q + 1) * m };
    assert(r % m == 0 && c <= r < c + m) by (nonlinear_arith)
        requires
            q == c / m,
            r == (if c % m == 0 { c as int } else { (q + 1) * m }),
            m == 4 || m == 16,
    {
        assert(c == q * m + c % m);
    }
    r
}

impl StackFrame {
    /// A frame with no slots for the given number of values.
    fn empty(n: usize) -> (f: StackFrame)
        ensures
            f.size == 0,
            f.slots@.len() == n,
            f.slots_below(0),
            f.ra_slot is None,
            f.outgoing@.len() == 0,
            f.scratch@.len() == 0,
            f.slots@ == Seq::new(n as nat, |i: int| None::<usize>),
            f.lens@ == Seq::new(n as nat, |i: int| 0usize),
    {
        let mut slots: Vec<Option<usize>> = Vec::new();
        let mut lens: Vec<usize> = Vec::new();
        let mut i: usize = 0;
        while i < n
            invariant
                i <= n,
                slots@.len() == i,
                lens@.len() == i,
                forall|k: int| 0 <= k < i ==> (#[trigger] slots@[k]) is None,
                forall|k: int| 0 <= k < i ==> (#[trigger] lens@[k]) == 0,
            decreases n - i,
        {
            slots.push(None);
            lens.push(0);
            i = i + 1;
        }
        assert(slots@ =~= Seq::new(n as nat, |i: int| None::<usize>));
        assert(lens@ =~= Seq::new(n as nat, |i: int| 0usize));
        StackFrame { size: 0, slots, lens, ra_slot: None, outgoing: Vec::new(), scratch: Vec::new() }
    }

    /// Gives value `v` a word-aligned slot of `len` bytes at the top of the
    /// frame, unless it has one.
    fn alloc_slot(&mut self, v: usize, len: usize) -> (r: Result<(), GenerateAsmError>)
        requires
            old(self).slots_below(old(self).size as int),
            old(self).size <= FRAME_LIMIT,
            v < old(self).slots@.len(),
        ensures
            final(self).slots_below(final(self).size as int),
            final(self).size <= FRAME_LIMIT,
            final(self).slots@.len() == old(self).slots@.len(),
            final(self).slots@[v as int] is Some || r is Err,
            forall|i: int| 0 <= i < old(self).slots@.len() && (#[trigger] old(self).slots@[i]) is Some
                ==> final(self).slots@[i] == old(self).slots@[i],
            forall|i: int| 0 <= i < old(self).slots@.len() && old(self).slots@[i] is Some
                ==> (#[trigger] final(self).slots@[i]) is Some,
            final(self).ra_slot == old(self).ra_slot,
            final(self).outgoing@ == old(self).outgoing@,
            final(self).scratch@ == old(self).scratch@,
            match req_step(old(self)@, SlotReq::Slot(v, len)) {
                Ok(st) => r is Ok && final(self)@ == st,
                Err(x) => r matches Err(y) && y@ == x,
            },
    {
        if self.slots[v].is_some() {
            return Ok(());
        }
        let start = round_up(self.size, 4);
        if len > FRAME_LIMIT - start {
            return Err(GenerateAsmError::FrameTooLarge);
        }
        let ghost before = *self;
        self.slots.set(v, Some(start));
        self.lens.set(v, len);
        self.size = start + len;
        assert(self.slots_below(self.size as int)) by {
            assert forall|i: int| 0 <= i < self.slots@.len() && (#[trigger] self.slots@[i]) is Some
                implies inside(self.slots@[i]->Some_0 as int, self.lens@[i] as int, self.size as int) by {
                if i != v {
                    assert(before.slots@[i] is Some);
                }
            }
            assert forall|i: int, j: int| 0 <= i < self.slots@.len() && 0 <= j < self.slots@.len() && i != j
                && (#[trigger] self.slots@[i]) is Some && (#[trigger] self.slots@[j]) is Some
                implies apart(self.slots@[i]->Some_0 as int, self.lens@[i] as int, self.slots@[j]->Some_0 as int,
                self.lens@[j] as int) by {
                if i != v && j != v {
                    assert(before.slots@[i] is Some && before.slots@[j] is Some);
                } else if i == v {
                    assert(before.slots@[j] is Some);
                } else {
                    assert(before.slots@[i] is Some);
                }
            }
            assert forall|i: int, k: int| 0 <= i < self.slots@.len() && (#[trigger] self.slots@[i]) is Some
                && 0 <= k < self.outgoing@.len() implies apart(self.slots@[i]->Some_0 as int, self.lens@[i] as int,
                #[trigger] self.outgoing@[k] as int, 4) by {
                if i != v {
                    assert(before.slots@[i] is Some);
                }
            }
            assert forall|i: int, k: int| 0 <= i < self.slots@.len() && (#[trigger] self.slots@[i]) is Some
                && 0 <= k < self.scratch@.len() implies apart(self.slots@[i]->Some_0 as int, self.lens@[i] as int,
                #[trigger] self.scratch@[k] as int, 4) by {
                if i != v {
                    assert(before.slots@[i] is Some);
                }
            }
        }
        Ok(())
    }

    /// Adds a word at the top of the frame to `outgoing` or `scratch`.
    fn alloc_word(&mut self, outgoing: bool) -> (r: Result<(), GenerateAsmError>)
        requires
            old(self).slots_below(old(self).size as int),
            old(self).size <= FRAME_LIMIT,
            old(self).size % 4 == 0,
        ensures
            final(self).slots_below(final(self).size as int),
            final(self).size <= FRAME_LIMIT,
            final(self).size % 4 == 0,
            final(self).slots@ == old(self).slots@,
            final(self).ra_slot == old(self).ra_slot,
            r is Ok ==> if outgoing {
                final(self).outgoing@.len() == old(self).outgoing@.len() + 1 && final(self).scratch@ == old(self).scratch@
            } else {
                final(self).scratch@.len() == old(self).scratch@.len() + 1 && final(self).outgoing@ == old(self).outgoing@
            },
            r is Err <==> old(self).size > FRAME_LIMIT - 4,
            r matches Err(y) ==> y@ == AsmErr::FrameTooLarge,
            r is Ok ==> final(self).size == old(self).size + 4 && final(self).lens@ == old(self).lens@,
            r is Ok ==> if outgoing {
                final(self).outgoing@ == old(self).outgoing@.push(old(self).size)
            } else {
                final(self).scratch@ == old(self).scratch@.push(old(self).size)
            },
    {
        if self.size > FRAME_LIMIT - 4 {
            return Err(GenerateAsmError::FrameTooLarge);
        }
        let at = self.size;
        if outgoing {
            self.outgoing.push(at);
        } else {
            self.scratch.push(at);
        }
        self.size = at + 4;
        Ok(())
    }

    /// Lays out the frame of a function: outgoing argument words first,
    /// then slots for parameters, block parameters and every instruction
    /// with a result, then scratch words for block arguments; a function
    /// that calls saves its return address in the top word.
    #[verifier::rlimit(60)]
    #[verifier::spinoff_prover]
    pub fn build(f: &FunctionModel, ng: Ghost<nat>) -> (r: Result<StackFrame, GenerateAsmError>)
        requires
            function_ok(*f, ng@),
        ensures
            match layout(*f) {
                Ok(fv) => r matches Ok(fr) && fr@ == fv,
                Err(x) => r matches Err(y) && y@ == x,
            },
            r matches Ok(fr) ==> fr.frame_ok() && fr.slots@.len() == f.values@.len(),
            r matches Ok(fr) ==> frame_covers(*f, fr),
            r matches Ok(fr) ==> forall|k: int| 0 <= k < fr.outgoing@.len() ==> #[trigger] fr.outgoing@[k] == 4 * k,
            r matches Ok(fr) ==> forall|v: int| 0 <= v < fr.slots@.len() && (#[trigger] fr.slots@[v]) is Some
                ==> exists|j: int| 0 <= j < slot_reqs(*f).len() && slot_reqs(*f)[j] == SlotReq::Slot(v as usize, fr.lens@[v]),
            r matches Ok(fr) ==> forall|k: int| 0 <= k < fr.scratch@.len() ==> #[trigger] fr.scratch@[k] == fr.scratch@[0] + 4 * k,
            r matches Ok(fr) ==> (fr.ra_slot is Some <==> exists|b: int, j: int| inst_at(*f, b, j)
                && #[trigger] call_args_at(*f, b, j) is Some),
            r matches Ok(fr) ==> forall|b: int, j: int| inst_at(*f, b, j) && #[trigger] call_args_at(*f, b, j) is Some
                ==> call_args_at(*f, b, j)->Some_0 <= fr.outgoing@.len() + 8,
            r matches Ok(fr) ==> (fr.outgoing@.len() > 0 ==> exists|b: int, j: int| inst_at(*f, b, j)
                && #[trigger] call_args_at(*f, b, j) == Some((fr.outgoing@.len() + 8) as nat)),
            r matches Ok(fr) ==> forall|b: int| 0 <= b < f.blocks@.len() ==> (#[trigger] f.blocks@[b]).params@.len()
                <= fr.scratch@.len(),
            r matches Ok(fr) ==> (fr.scratch@.len() > 0 ==> exists|b: int| 0 <= b < f.blocks@.len()
                && (#[trigger] f.blocks@[b]).params@.len() == fr.scratch@.len()),
    {
        let (has_call, widest_call) = call_info(f, ng);
        let widest_block = max_bb_params(f);
        proof {
            lemma_max_unique(*f, widest_call as nat, widest_block as nat);
        }
        let ghost nv = f.values@.len();
        let mut frame = StackFrame::empty(f.values.len());
        let mut k: usize = 8;
        while k < widest_call
            invariant
                frame.slots_below(frame.size as int),
                frame.size <= FRAME_LIMIT,
                frame.size % 4 == 0,
                frame.slots@.len() == f.values@.len(),
                frame.ra_slot is None,
                8 <= k,
                k <= widest_call || k == 8,
                frame.outgoing@.len() == k - 8,
                frame.scratch@.len() == 0,
                frame.size == 4 * (k - 8),
                frame.slots@ == Seq::new(nv, |i: int| None::<usize>),
                frame.lens@ == Seq::new(nv, |i: int| 0usize),
                frame.outgoing@ =~= Seq::new((k - 8) as nat, |i: int| (4 * i) as usize),
                widest_call == max_args(*f),
            decreases widest_call - k,
        {
            match frame.alloc_word(true) {
                Ok(()) => {},
                Err(y) => {
                    proof {
                        assert(outgoing_frame(*f) == Err::<FrameView, AsmErr>(AsmErr::FrameTooLarge));
                        lemma_apply_err(AsmErr::FrameTooLarge, slot_reqs(*f));
                    }
                    return Err(y);
                },
            }
            assert(frame.outgoing@ =~= Seq::new((k + 1 - 8) as nat, |i: int| (4 * i) as usize));
            k = k + 1;
        }
        let ghost outs = frame.outgoing@.len();
        assert(outs + 8 >= widest_call && (outs > 0 ==> outs + 8 == widest_call));
        let ghost init = outgoing_frame(*f);
        proof {
            let n = if max_args(*f) > 8 { max_args(*f) - 8 } else { 0 };
            assert(n == outs);
            assert(4 * n <= FRAME_LIMIT);
            let fv = init->Ok_0;
            assert(fv.slots =~= frame@.slots);
            assert(fv.lens =~= frame@.lens);
            assert(fv.outgoing =~= frame@.outgoing);
            assert(fv.scratch =~= frame@.scratch);
            assert(fv == frame@);
        }
        let ghost pre = param_reqs(*f, f.params@);
        let ghost all = slot_reqs(*f);
        assert(f.params@.take(0) =~= Seq::<usize>::empty());
        assert(param_reqs(*f, f.params@.take(0)) =~= Seq::<SlotReq>::empty());
        let mut i: usize = 0;
        while i < f.params.len()
            invariant
                function_ok(*f, ng@),
                frame.slots_below(frame.size as int),
                frame.size <= FRAME_LIMIT,
                frame.slots@.len() == f.values@.len(),
                frame.ra_slot is None,
                frame.outgoing@.len() == outs,
                frame.scratch@.len() == 0,
                i <= f.params@.len(),
                forall|ii: int| 0 <= ii < i ==> (#[trigger] frame.slots@[f.params@[ii] as int]) is Some,
                init == outgoing_frame(*f),
                pre == param_reqs(*f, f.params@),
                all == slot_reqs(*f),
                apply_reqs(init, param_reqs(*f, f.params@.take(i as int))) == Ok::<FrameView, AsmErr>(frame@),
            decreases f.params.len() - i,
        {
            let v = f.params[i];
            let ghost before = frame@;
            let ghost p1 = param_reqs(*f, f.params@.take(i + 1));
            assert(p1 =~= param_reqs(*f, f.params@.take(i as int)).push(value_req(*f, v)));
            assert(p1.drop_last() =~= param_reqs(*f, f.params@.take(i as int)));
            match frame.alloc_slot(v, f.values[v].size) {
                Ok(()) => {},
                Err(y) => {
                    proof {
                        assert(p1 =~= pre.subrange(0, p1.len() as int));
                        lemma_prefix_extend(p1, pre, blocks_reqs(*f, f.blocks@.len()));
                        lemma_apply_prefix_err(init, p1, all);
                    }
                    return Err(y);
                },
            }
            i = i + 1;
        }
        assert(f.params@.take(f.params@.len() as int) =~= f.params@);
        assert(pre + blocks_reqs(*f, 0) =~= pre);
        let mut b: usize = 0;
        while b < f.blocks.len()
            invariant
                function_ok(*f, ng@),
                frame.slots_below(frame.size as int),
                frame.size <= FRAME_LIMIT,
                frame.slots@.len() == f.values@.len(),
                frame.ra_slot is None,
                frame.outgoing@.len() == outs,
                frame.scratch@.len() == 0,
                b <= f.blocks@.len(),
                forall|ii: int| 0 <= ii < f.params@.len() ==> (#[trigger] frame.slots@[f.params@[ii] as int]) is Some,
                forall|bb: int, jj: int| 0 <= bb < b && 0 <= jj < f.blocks@[bb].params@.len()
                    ==> (#[trigger] frame.slots@[f.blocks@[bb].params@[jj] as int]) is Some,
                forall|bb: int, jj: int| 0 <= bb < b && inst_at(*f, bb, jj) && #[trigger] needs_slot(*f, bb, jj)
                    ==> frame.slots@[f.blocks@[bb].insts@[jj] as int] is Some,
                init == outgoing_frame(*f),
                pre == param_reqs(*f, f.params@),
                all == slot_reqs(*f),
                apply_reqs(init, pre + blocks_reqs(*f, b as nat)) == Ok::<FrameView, AsmErr>(frame@),
            decreases f.blocks.len() - b,
        {
            let block = &f.blocks[b];
            assert(indices_ok(block.params@, f.values@.len()) && indices_ok(block.insts@, f.values@.len()));
            let ghost bq = blocks_reqs(*f, b as nat);
            assert(pre + (bq + param_reqs(*f, block.params@.take(0))) =~= pre + bq);
            let mut j: usize = 0;
            while j < block.params.len()
                invariant
                    function_ok(*f, ng@),
                    b < f.blocks@.len(),
                    block == f.blocks@[b as int],
                    indices_ok(block.params@, f.values@.len()),
                    frame.slots_below(frame.size as int),
                    frame.size <= FRAME_LIMIT,
                    frame.slots@.len() == f.values@.len(),
                    frame.ra_slot is None,
                    frame.outgoing@.len() == outs,
                    frame.scratch@.len() == 0,
                    j <= block.params@.len(),
                    forall|ii: int| 0 <= ii < f.params@.len() ==> (#[trigger] frame.slots@[f.params@[ii] as int]) is Some,
                    forall|bb: int, jj: int| 0 <= bb < b && 0 <= jj < f.blocks@[bb].params@.len()
                        ==> (#[trigger] frame.slots@[f.blocks@[bb].params@[jj] as int]) is Some,
                    forall|jj: int| 0 <= jj < j ==> (#[trigger] frame.slots@[block.params@[jj] as int]) is Some,
                    forall|bb: int, jj: int| 0 <= bb < b && inst_at(*f, bb, jj) && #[trigger] needs_slot(*f, bb, jj)
                        ==> frame.slots@[f.blocks@[bb].insts@[jj] as int] is Some,
                    init == outgoing_frame(*f),
                    pre == param_reqs(*f, f.params@),
                    all == slot_reqs(*f),
                    bq == blocks_reqs(*f, b as nat),
                    apply_reqs(init, pre + (bq + param_reqs(*f, block.params@.take(j as int))))
                        == Ok::<FrameView, AsmErr>(frame@),
                decreases block.params.len() - j,
            {
                let v = block.params[j];
                let ghost part = param_reqs(*f, block.params@.take(j + 1));
                let ghost q1 = pre + (bq + part);
                assert(part =~= param_reqs(*f, block.params@.take(j as int)).push(value_req(*f, v)));
                assert(q1.drop_last() =~= pre + (bq + param_reqs(*f, block.params@.take(j as int))));
                assert(q1.last() == value_req(*f, v));
                match frame.alloc_slot(v, f.values[v].size) {
                    Ok(()) => {},
                    Err(y) => {
                        proof {
                            let bp = param_reqs(*f, block.params@);
                            assert(part =~= bp.subrange(0, part.len() as int));
                            lemma_prefix_extend(part, bp, inst_reqs(*f, block.insts@, block.insts@.len()));
                            lemma_block_part_prefix(*f, b as int, part);
                            lemma_apply_prefix_err(init, q1, all);
                        }
                        return Err(y);
                    },
                }
                j = j + 1;
            }
            let ghost bp = param_reqs(*f, block.params@);
            assert(block.params@.take(block.params@.len() as int) =~= block.params@);
            assert(bp + inst_reqs(*f, block.insts@, 0) =~= bp);
            let mut j: usize = 0;
            while j < block.insts.len()
                invariant
                    function_ok(*f, ng@),
                    b < f.blocks@.len(),
                    block == f.blocks@[b as int],
                    indices_ok(block.insts@, f.values@.len()),
                    frame.slots_below(frame.size as int),
                    frame.size <= FRAME_LIMIT,
                    frame.slots@.len() == f.values@.len(),
                    frame.ra_slot is None,
                    frame.outgoing@.len() == outs,
                    frame.scratch@.len() == 0,
                    j <= block.insts@.len(),
                    forall|ii: int| 0 <= ii < f.params@.len() ==> (#[trigger] frame.slots@[f.params@[ii] as int]) is Some,
                    forall|bb: int, jj: int| 0 <= bb <= b && 0 <= jj < f.blocks@[bb].params@.len()
                        ==> (#[trigger] frame.slots@[f.blocks@[bb].params@[jj] as int]) is Some,
                    forall|bb: int, jj: int| inst_at(*f, bb, jj) && (bb < b || (bb == b && jj < j)) && #[trigger] needs_slot(*f, bb, jj)
                        ==> frame.slots@[f.blocks@[bb].insts@[jj] as int] is Some,
                    init == outgoing_frame(*f),
                    pre == param_reqs(*f, f.params@),
                    all == slot_reqs(*f),
                    bq == blocks_reqs(*f, b as nat),
                    bp == param_reqs(*f, block.params@),
                    apply_reqs(init, pre + (bq + (bp + inst_reqs(*f, block.insts@, j as nat))))
                        == Ok::<FrameView, AsmErr>(frame@),
                decreases block.insts.len() - j,
            {
                let v = block.insts[j];
                let info = &f.values[v];
                let ghost ir = inst_req(*f, v);
                let ghost old_q = pre + (bq + (bp + inst_reqs(*f, block.insts@, j as nat)));
                let ghost q1 = pre + (bq + (bp + inst_reqs(*f, block.insts@, (j + 1) as nat)));
                assert(inst_reqs(*f, block.insts@, (j + 1) as nat) == inst_reqs(*f, block.insts@, j as nat) + ir);
                assert(ir.len() == 0 ==> q1 =~= old_q);
                assert(ir.len() == 1 ==> q1.drop_last() =~= old_q && q1.last() == ir[0]);
                proof {
                    if ir.len() == 1 {
                        assert(q1 =~= old_q.push(ir[0]));
                    }
                }
                let ghost before = frame@;
                let res: Result<(), GenerateAsmError> = match &info.inst {
                    Inst::Alloc => match info.pointee_size {
                        Some(n) => frame.alloc_slot(v, n),
                        None => Err(GenerateAsmError::ExpectedPointer),
                    },
                    Inst::Binary(_, _, _) | Inst::Load(_) | Inst::GetPtr(_, _) | Inst::GetElemPtr(_, _) => {
                        frame.alloc_slot(v, info.size)
                    },
                    Inst::Call(_, _) => {
                        if !info.is_unit {
                            frame.alloc_slot(v, info.size)
                        } else {
                            Ok(())
                        }
                    },
                    _ => Ok(()),
                };
                match res {
                    Ok(()) => {},
                    Err(y) => {
                        proof {
                            assert(ir.len() == 1);
                            assert(apply_reqs(init, q1) == Err::<FrameView, AsmErr>(y@));
                            let ij = inst_reqs(*f, block.insts@, (j + 1) as nat);
                            let il = inst_reqs(*f, block.insts@, block.insts@.len());
                            lemma_inst_reqs_prefix(*f, block.insts@, (j + 1) as nat, block.insts@.len());
                            lemma_prefix_extend(ij, il, bp);
                            lemma_block_part_prefix(*f, b as int, bp + ij);
                            lemma_apply_prefix_err(init, q1, all);
                        }
                        return Err(y);
                    },
                }
                assert(apply_reqs(init, q1) == Ok::<FrameView, AsmErr>(frame@));
                j = j + 1;
            }
            assert(pre + (bq + (bp + inst_reqs(*f, block.insts@, block.insts@.len())))
                == pre + blocks_reqs(*f, (b + 1) as nat));
            b = b + 1;
        }
        let ghost st = frame@;
        assert(apply_reqs(init, all) == Ok::<FrameView, AsmErr>(st));
        let ghost unrounded = frame.size;
        frame.size = round_up(frame.size, 4);
        proof {
            lemma_slots_below_mono(frame, unrounded as int, frame.size as int);
        }
        let ghost s0 = frame.size;
        let ghost slots = frame.slots@;
        let mut k: usize = 0;
        while k < widest_block
            invariant
                frame.slots_below(frame.size as int),
                frame.size <= FRAME_LIMIT,
                frame.size % 4 == 0,
                frame.slots@ == slots,
                frame.ra_slot is None,
                frame.outgoing@.len() == outs,
                frame.scratch@.len() == k,
                k <= widest_block,
                slots == st.slots,
                frame.lens@ == st.lens,
                frame.outgoing@ == st.outgoing,
                frame.size == s0 + 4 * k,
                frame.scratch@ =~= Seq::new(k as nat, |i: int| (s0 + 4 * i) as usize),
                s0 == rounded(st.size as int, 4),
                widest_block == max_params(*f),
                apply_reqs(init, all) == Ok::<FrameView, AsmErr>(st),
                init == outgoing_frame(*f),
                all == slot_reqs(*f),
            decreases widest_block - k,
        {
            match frame.alloc_word(false) {
                Ok(()) => {},
                Err(y) => {
                    proof {
                        assert(s0 + 4 * max_params(*f) > FRAME_LIMIT);
                        assert(finish_frame(*f, st) == Err::<FrameView, AsmErr>(AsmErr::FrameTooLarge));
                    }
                    return Err(y);
                },
            }
            assert(frame.scratch@ =~= Seq::new((k + 1) as nat, |i: int| (s0 + 4 * i) as usize));
            k = k + 1;
        }
        let below = frame.size;
        if has_call {
            if frame.size > FRAME_LIMIT - 32 {
                return Err(GenerateAsmError::FrameTooLarge);
            }
            frame.size = frame.size + 4;
        }
        if frame.size > FRAME_LIMIT - 16 {
            return Err(GenerateAsmError::FrameTooLarge);
        }
        frame.size = round_up(frame.size, 16);
        if has_call {
            let top = frame.size - 4;
            frame.ra_slot = Some(top);
            proof {
                lemma_slots_below_mono(frame, below as int, top as int);
            }
        } else {
            proof {
                lemma_slots_below_mono(frame, below as int, frame.size as int);
            }
        }
        assert(frame.size % 16 == 0);
        assert(frame.size <= FRAME_LIMIT);
        assert(frame.slots@.len() == f.values@.len());
        assert(frame@ == finish_frame(*f, st)->Ok_0);
        proof {
            lemma_apply_keeps_words(init->Ok_0, all);
            lemma_blocks_reqs_in(*f, ng@, f.blocks@.len());
            lemma_reqs_in_concat(pre, blocks_reqs(*f, f.blocks@.len()), f.values@.len());
            lemma_apply_lens(init->Ok_0, all);
        }
        Ok(frame)
    }
}

/// Whether instruction `j` of block `b` gets a slot: an allocation, an
/// operation with a result, or a call that returns a value.
pub open spec fn needs_slot(f: FunctionModel, b: int, j: int) -> bool {
    let info = f.values@[f.blocks@[b].insts@[j] as int];
    match info.inst {
        Inst::Alloc | Inst::Binary(..) | Inst::Load(_) | Inst::GetPtr(..) | Inst::GetElemPtr(..) => true,
        Inst::Call(..) => !info.is_unit,
        _ => false,
    }
}

/// The frame has a slot for every parameter, every block parameter and
/// every instruction that needs one.
pub open spec fn frame_covers(f: FunctionModel, fr: StackFrame) -> bool {
    &&& forall|i: int| 0 <= i < f.params@.len() ==> (#[trigger] fr.slots@[f.params@[i] as int]) is Some
    &&& forall|b: int, j: int| 0 <= b < f.blocks@.len() && 0 <= j < f.blocks@[b].params@.len()
        ==> (#[trigger] fr.slots@[f.blocks@[b].params@[j] as int]) is Some
    &&& forall|b: int, j: int| inst_at(f, b, j) && #[trigger] needs_slot(f, b, j)
        ==> fr.slots@[f.blocks@[b].insts@[j] as int] is Some
}

proof fn lemma_slots_below_mono(f: StackFrame, a: int, b: int)
    requires
        f.slots_below(a),
        a <= b,
    ensures
        f.slots_below(b),
{
}

/// The number of arguments that instruction `j` of block `b` passes, if it
/// is a call.
pub open spec fn call_args_at(f: FunctionModel, b: int, j: int) -> Option<nat> {
    match f.values@[f.blocks@[b].insts@[j] as int].inst {
        Inst::Call(_, args) => Some(args@.len()),
        _ => None,
    }
}

/// Instruction `j` of block `b` exists.
pub open spec fn inst_at(f: FunctionModel, b: int, j: int) -> bool {
    0 <= b < f.blocks@.len() && 0 <= j < f.blocks@[b].insts@.len()
}

/// Whether the function calls, and the most arguments a call passes
/// (zero when none passes any).
fn call_info(f: &FunctionModel, ng: Ghost<nat>) -> (r: (bool, usize))
    requires
        function_ok(*f, ng@),
    ensures
        r.0 == exists|b: int, j: int| inst_at(*f, b, j) && #[trigger] call_args_at(*f, b, j) is Some,
        forall|b: int, j: int| inst_at(*f, b, j) && #[trigger] call_args_at(*f, b, j) is Some
            ==> call_args_at(*f, b, j)->Some_0 <= r.1,
        r.1 > 0 ==> exists|b: int, j: int| inst_at(*f, b, j) && #[trigger] call_args_at(*f, b, j) == Some(r.1 as nat),
{
    let mut has_call = false;
    let mut max_args: usize = 0;
    let mut b: usize = 0;
    while b < f.blocks.len()
        invariant
            function_ok(*f, ng@),
            b <= f.blocks@.len(),
            has_call == exists|bb: int, j: int| inst_at(*f, bb, j) && bb < b && #[trigger] call_args_at(*f, bb, j) is Some,
            forall|bb: int, j: int| inst_at(*f, bb, j) && bb < b && #[trigger] call_args_at(*f, bb, j) is Some
                ==> call_args_at(*f, bb, j)->Some_0 <= max_args,
            max_args > 0 ==> exists|bb: int, j: int| inst_at(*f, bb, j) && #[trigger] call_args_at(*f, bb, j) == Some(max_args as nat),
        decreases f.blocks.len() - b,
    {
        let block = &f.blocks[b];
        assert(indices_ok(block.insts@, f.values@.len()));
        let ghost had = has_call;
        let mut j: usize = 0;
        while j < block.insts.len()
            invariant
                function_ok(*f, ng@),
                b < f.blocks@.len(),
                block == f.blocks@[b as int],
                indices_ok(block.insts@, f.values@.len()),
                j <= block.insts@.len(),
                has_call == (had || exists|jj: int| 0 <= jj < j && #[trigger] call_args_at(*f, b as int, jj) is Some),
                had == exists|bb: int, jj: int| inst_at(*f, bb, jj) && bb < b && #[trigger] call_args_at(*f, bb, jj) is Some,
                forall|bb: int, jj: int| inst_at(*f, bb, jj) && (bb < b || (bb == b && jj < j))
                    && #[trigger] call_args_at(*f, bb, jj) is Some ==> call_args_at(*f, bb, jj)->Some_0 <= max_args,
                max_args > 0 ==> exists|bb: int, jj: int| inst_at(*f, bb, jj) && #[trigger] call_args_at(*f, bb, jj) == Some(max_args as nat),
            decreases block.insts.len() - j,
        {
            match &f.values[block.insts[j]].inst {
                Inst::Call(_, args) => {
                    assert(call_args_at(*f, b as int, j as int) == Some(args@.len()));
                    has_call = true;
                    if args.len() > max_args {
                        max_args = args.len();
                    }
                },
                _ => {
                    assert(call_args_at(*f, b as int, j as int) is None);
                },
            }
            j = j + 1;
        }
        proof {
            assert(has_call == exists|bb: int, jj: int| inst_at(*f, bb, jj) && bb < b + 1 && #[trigger] call_args_at(*f, bb, jj) is Some) by {
                if has_call && !had {
                    let jj = choose|jj: int| 0 <= jj < j && #[trigger] call_args_at(*f, b as int, jj) is Some;
                    assert(inst_at(*f, b as int, jj));
                }
            }
        }
        b = b + 1;
    }
    (has_call, max_args)
}

/// The most parameters that a block of the function takes.
fn max_bb_params(f: &FunctionModel) -> (r: usize)
    ensures
        forall|b: int| 0 <= b < f.blocks@.len() ==> (#[trigger] f.blocks@[b]).params@.len() <= r,
        r > 0 ==> exists|b: int| 0 <= b < f.blocks@.len() && (#[trigger] f.blocks@[b]).params@.len() == r,
{
    let mut max: usize = 0;
    let mut b: usize = 0;
    while b < f.blocks.len()
        invariant
            b <= f.blocks@.len(),
            forall|bb: int| 0 <= bb < b ==> (#[trigger] f.blocks@[bb]).params@.len() <= max,
            max > 0 ==> exists|bb: int| 0 <= bb < f.blocks@.len() && (#[trigger] f.blocks@[bb]).params@.len() == max,
        decreases f.blocks.len() - b,
    {
        if f.blocks[b].params.len() > max {
            max = f.blocks[b].params.len();
        }
        b = b + 1;
    }
    max
}

} // verus!
